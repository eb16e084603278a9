use crate::pixel::Pixel;
use crate::raster::{
    blank, copy_from, dimensions, image_height, image_is_rgb8, image_pixels, image_width,
    in_bounds, new_rgb8, pasted, put_pixel, rgb8_fits_memory,
};
use crate::viewport::{stripe, stripe_end, stripe_start, stripes_fit, Viewport};
use image::DynamicImage;
use vstd::prelude::*;

verus! {

/// The pixels of an image of `columns` by `height` whose colours are read
/// from `colors` column by column, each column from the top down, starting
/// at index `first`.
pub open spec fn column_major(colors: Seq<Pixel>, first: int, columns: int, height: int) -> Map<
    (int, int),
    Pixel,
> {
    Map::new(
        |at: (int, int)| in_bounds(columns, height, at),
        |at: (int, int)| colors[first + at.0 * height + at.1].opaque(),
    )
}

/// The image while it is being filled: the pixels before column `x`, and
/// those of column `x` above row `y`, hold their colours; the rest is blank.
spec fn partly_filled(
    colors: Seq<Pixel>,
    first: int,
    columns: int,
    height: int,
    x: int,
    y: int,
) -> Map<(int, int), Pixel> {
    Map::new(
        |at: (int, int)| in_bounds(columns, height, at),
        |at: (int, int)|
            if at.0 < x || (at.0 == x && at.1 < y) {
                colors[first + at.0 * height + at.1].opaque()
            } else {
                Pixel { red: 0, green: 0, blue: 0, alpha: 255 }
            },
    )
}

proof fn lemma_cell_index(columns: int, height: int, x: int, y: int)
    requires
        0 <= x < columns,
        0 <= y < height,
    ensures
        0 <= x * height + y < columns * height,
        (x + 1) * height == x * height + height,
{
    assert(0 <= x * height) by (nonlinear_arith)
        requires
            0 <= x,
            0 <= height,
    ;
    assert((x + 1) * height == x * height + height) by (nonlinear_arith);
    assert((x + 1) * height <= columns * height) by (nonlinear_arith)
        requires
            x + 1 <= columns,
            0 <= height,
    ;
}

/// Builds an image of `columns` by `height` from the colours that start at
/// index `first` of `colors`.
fn fill(colors: &Vec<Pixel>, first: usize, columns: u32, height: u32) -> (image: DynamicImage)
    requires
        first + columns * height <= colors.len(),
        rgb8_fits_memory(columns as int, height as int),
    ensures
        image_is_rgb8(image),
        image_width(image) == columns,
        image_height(image) == height,
        image_pixels(image) == column_major(colors@, first as int, columns as int, height as int),
{
    let mut image = new_rgb8(columns, height);
    let mut next: usize = first;
    let mut x: u32 = 0;
    assert(image_pixels(image) == partly_filled(
        colors@,
        first as int,
        columns as int,
        height as int,
        0,
        0,
    ));
    while x < columns
        invariant
            x <= columns,
            first + columns * height <= colors.len(),
            next == first + x * height,
            image_is_rgb8(image),
            image_width(image) == columns,
            image_height(image) == height,
            image_pixels(image) == partly_filled(
                colors@,
                first as int,
                columns as int,
                height as int,
                x as int,
                0,
            ),
        decreases columns - x,
    {
        let mut y: u32 = 0;
        while y < height
            invariant
                x < columns,
                y <= height,
                first + columns * height <= colors.len(),
                next == first + x * height + y,
                image_is_rgb8(image),
                image_width(image) == columns,
                image_height(image) == height,
                image_pixels(image) == partly_filled(
                    colors@,
                    first as int,
                    columns as int,
                    height as int,
                    x as int,
                    y as int,
                ),
            decreases height - y,
        {
            proof {
                lemma_cell_index(columns as int, height as int, x as int, y as int);
            }
            put_pixel(&mut image, x, y, colors[next]);
            assert(image_pixels(image) == partly_filled(
                colors@,
                first as int,
                columns as int,
                height as int,
                x as int,
                y + 1,
            ));
            next = next + 1;
            y = y + 1;
        }
        proof {
            if height > 0 {
                lemma_cell_index(columns as int, height as int, x as int, 0);
            } else {
                assert((x + 1) * height == x * height + height) by (nonlinear_arith);
            }
            assert(partly_filled(
                colors@,
                first as int,
                columns as int,
                height as int,
                x as int,
                height as int,
            ) == partly_filled(colors@, first as int, columns as int, height as int, x + 1, 0));
        }
        x = x + 1;
    }
    assert(image_pixels(image) == column_major(
        colors@,
        first as int,
        columns as int,
        height as int,
    ));
    image
}

/// Renders the stripe of columns from `start_width` up to `end_width` into
/// an image of its own. `colors` holds the stripe's display pixels column by
/// column, each column from the top row down; the pixel of column `x` and
/// row `y` of the viewport is stored at column `x - start_width`, row `y`.
pub fn render(viewport: &Viewport, start_width: u32, end_width: u32, colors: &Vec<Pixel>) -> (image:
    DynamicImage)
    requires
        start_width <= end_width,
        colors.len() == (end_width - start_width) * viewport.rows(),
        rgb8_fits_memory(end_width - start_width, viewport.rows() as int),
    ensures
        image_is_rgb8(image),
        image_width(image) == end_width - start_width,
        image_height(image) == viewport.rows(),
        image_pixels(image) == column_major(
            colors@,
            0,
            end_width - start_width,
            viewport.rows() as int,
        ),
{
    fill(colors, 0, end_width - start_width, viewport.height())
}

/// The image of one stripe and the column of the whole image at which its
/// first column belongs.
pub struct RenderedStripe {
    pub image: DynamicImage,
    pub offset: u32,
}

/// Why no image could be assembled.
#[derive(Clone, Copy, Debug, PartialEq, Eq, Structural)]
pub enum RenderError {
    /// The stripe with this index does not lie inside the image.
    StripeNotCopied(usize),
}

/// Whether a stripe, placed at its offset in the top row, lies inside an
/// image of the given size.
pub open spec fn stripe_fits(width: int, height: int, stripe: RenderedStripe) -> bool {
    image_width(stripe.image) + stripe.offset <= width && image_height(stripe.image) <= height
}

/// What the assembled image holds: a blank image over which the stripes are
/// laid one after another, each at its offset in the top row.
pub open spec fn assembled(width: int, height: int, stripes: Seq<RenderedStripe>) -> Map<
    (int, int),
    Pixel,
>
    decreases stripes.len(),
{
    if stripes.len() == 0 {
        blank(width, height)
    } else {
        let last = stripes.last();
        pasted(
            assembled(width, height, stripes.drop_last()),
            image_pixels(last.image),
            image_width(last.image) as int,
            image_height(last.image) as int,
            last.offset as int,
            0,
        )
    }
}

/// Copies every stripe into a new image of the viewport's size, in the order
/// given. Fails at the first stripe that does not lie inside the image, and
/// names it.
pub fn assemble(viewport: &Viewport, stripes: &Vec<RenderedStripe>) -> (result: Result<
    DynamicImage,
    RenderError,
>)
    requires
        rgb8_fits_memory(viewport.columns() as int, viewport.rows() as int),
    ensures
        match result {
            Ok(image) => {
                &&& image_is_rgb8(image)
                &&& image_width(image) == viewport.columns()
                &&& image_height(image) == viewport.rows()
                &&& forall|i: int|
                    0 <= i < stripes.len() ==> stripe_fits(
                        viewport.columns() as int,
                        viewport.rows() as int,
                        #[trigger] stripes[i],
                    )
                &&& image_pixels(image) == assembled(
                    viewport.columns() as int,
                    viewport.rows() as int,
                    stripes@,
                )
            },
            Err(RenderError::StripeNotCopied(index)) => {
                &&& index < stripes.len()
                &&& !stripe_fits(
                    viewport.columns() as int,
                    viewport.rows() as int,
                    stripes[index as int],
                )
                &&& forall|i: int|
                    0 <= i < index ==> stripe_fits(
                        viewport.columns() as int,
                        viewport.rows() as int,
                        #[trigger] stripes[i],
                    )
            },
        },
{
    let width = viewport.width();
    let height = viewport.height();
    let mut image = new_rgb8(width, height);
    let mut index: usize = 0;
    assert(stripes@.take(0) =~= Seq::<RenderedStripe>::empty());
    while index < stripes.len()
        invariant
            index <= stripes.len(),
            width == viewport.columns(),
            height == viewport.rows(),
            image_is_rgb8(image),
            image_width(image) == width,
            image_height(image) == height,
            forall|i: int|
                0 <= i < index ==> stripe_fits(width as int, height as int, #[trigger] stripes[i]),
            image_pixels(image) == assembled(
                width as int,
                height as int,
                stripes@.take(index as int),
            ),
        decreases stripes.len() - index,
    {
        let stripe = &stripes[index];
        let size = dimensions(&stripe.image);
        if size.0 as u64 + stripe.offset as u64 > u32::MAX as u64 {
            return Err(RenderError::StripeNotCopied(index));
        }
        let copied = copy_from(&mut image, &stripe.image, stripe.offset, 0);
        if !copied {
            return Err(RenderError::StripeNotCopied(index));
        }
        proof {
            let done = stripes@.take(index + 1);
            assert(done.drop_last() =~= stripes@.take(index as int));
            assert(done.last() == stripes[index as int]);
        }
        index = index + 1;
    }
    assert(stripes@.take(index as int) =~= stripes@);
    Ok(image)
}

/// Whether `part` is the image of stripe `index` of a frame: it sits at the
/// stripe's first column, has the stripe's width and the frame's height, and
/// holds the frame's colours for the stripe's columns.
pub open spec fn renders_stripe(
    part: RenderedStripe,
    frame: Seq<Pixel>,
    width: int,
    height: int,
    workers: int,
    index: int,
) -> bool {
    let start = stripe_start(width, workers, index);
    let end = stripe_end(width, workers, index);
    &&& part.offset == start
    &&& image_width(part.image) == end - start
    &&& image_height(part.image) == height
    &&& image_pixels(part.image) == column_major(frame, start * height, end - start, height)
}

/// Whether image `k` of `parts` is the image of the stripe that `order`
/// names for it.
pub open spec fn renders_stripe_of(
    parts: Seq<RenderedStripe>,
    order: Seq<int>,
    frame: Seq<Pixel>,
    width: int,
    height: int,
    workers: int,
    k: int,
) -> bool {
    0 <= order[k] < workers && renders_stripe(parts[k], frame, width, height, workers, order[k])
}

/// Whether `parts` are the stripes of a frame, in the order that `order`
/// gives: each image is of the stripe named for it, and every stripe of the
/// plan is named.
pub open spec fn renders_frame(
    parts: Seq<RenderedStripe>,
    order: Seq<int>,
    frame: Seq<Pixel>,
    width: int,
    height: int,
    workers: int,
) -> bool {
    &&& order.len() == parts.len()
    &&& forall|k: int|
        0 <= k < parts.len() ==> #[trigger] renders_stripe_of(
            parts,
            order,
            frame,
            width,
            height,
            workers,
            k,
        )
    &&& forall|i: int| 0 <= i < workers ==> order.contains(i)
}

/// Whether a stripe image, placed at its offset, holds the given column.
pub open spec fn covers(part: RenderedStripe, column: int) -> bool {
    part.offset <= column < part.offset + image_width(part.image)
}

/// Whether one of the first `count` stripe images holds the given column.
spec fn covered(parts: Seq<RenderedStripe>, count: int, column: int) -> bool {
    exists|k: int| 0 <= k < count && #[trigger] covers(parts[k], column)
}

/// The frame's colours in the columns that the first `count` stripe images
/// hold, blank elsewhere.
spec fn covered_frame(
    frame: Seq<Pixel>,
    width: int,
    height: int,
    parts: Seq<RenderedStripe>,
    count: int,
) -> Map<(int, int), Pixel> {
    Map::new(
        |at: (int, int)| in_bounds(width, height, at),
        |at: (int, int)|
            if covered(parts, count, at.0) {
                frame[at.0 * height + at.1].opaque()
            } else {
                Pixel { red: 0, green: 0, blue: 0, alpha: 255 }
            },
    )
}

proof fn lemma_shifted_index(start: int, height: int, x: int, y: int)
    ensures
        start * height + (x - start) * height + y == x * height + y,
{
    assert(start * height + (x - start) * height == x * height) by (nonlinear_arith);
}

/// After the first `count` stripe images are laid down, the image holds the
/// frame in the columns of those stripes.
proof fn lemma_prefix_assembled(
    frame: Seq<Pixel>,
    width: int,
    height: int,
    workers: int,
    parts: Seq<RenderedStripe>,
    order: Seq<int>,
    count: int,
)
    requires
        0 <= width,
        0 <= height,
        stripes_fit(width, workers),
        order.len() == parts.len(),
        forall|k: int|
            0 <= k < parts.len() ==> #[trigger] renders_stripe_of(
                parts,
                order,
                frame,
                width,
                height,
                workers,
                k,
            ),
        0 <= count <= parts.len(),
    ensures
        assembled(width, height, parts.take(count)) == covered_frame(
            frame,
            width,
            height,
            parts,
            count,
        ),
    decreases count,
{
    if count == 0 {
        assert(parts.take(0) =~= Seq::<RenderedStripe>::empty());
        assert(blank(width, height) =~= covered_frame(frame, width, height, parts, 0));
    } else {
        let last = count - 1;
        lemma_prefix_assembled(frame, width, height, workers, parts, order, last);
        let done = parts.take(count);
        assert(done.drop_last() =~= parts.take(last));
        assert(done.last() == parts[last]);
        assert(renders_stripe_of(parts, order, frame, width, height, workers, last));
        crate::viewport::lemma_stripes_partition(width, workers, order[last]);
        let start = stripe_start(width, workers, order[last]);
        let end = stripe_end(width, workers, order[last]);
        let base = covered_frame(frame, width, height, parts, last);
        let part = column_major(frame, start * height, end - start, height);
        let laid = pasted(base, part, end - start, height, start, 0);
        assert(assembled(width, height, done) == laid);
        assert forall|at: (int, int)| in_bounds(width, height, at) implies #[trigger] laid[at]
            == covered_frame(frame, width, height, parts, count)[at] by {
            if in_bounds(end - start, height, (at.0 - start, at.1 - 0)) {
                lemma_shifted_index(start, height, at.0, at.1);
                assert(covers(parts[last], at.0));
            } else {
                assert(!covers(parts[last], at.0));
                if covered(parts, count, at.0) {
                    let k = choose|k: int| 0 <= k < count && #[trigger] covers(parts[k], at.0);
                    assert(k < last);
                }
                if covered(parts, last, at.0) {
                    let k = choose|k: int| 0 <= k < last && #[trigger] covers(parts[k], at.0);
                    assert(0 <= k < count && covers(parts[k], at.0));
                }
            }
        }
        assert(laid =~= covered_frame(frame, width, height, parts, count));
    }
}

/// Cutting a frame into the stripes of a fitting plan and laying the
/// stripes' images down again gives the frame back, in whatever order the
/// images are laid down. `order` names the stripe that each image is of;
/// every stripe of the plan must be among them. Every image lies inside the
/// result, and each pixel of the result is the frame's.
pub proof fn lemma_stripes_reassemble_in_any_order(
    frame: Seq<Pixel>,
    width: int,
    height: int,
    workers: int,
    parts: Seq<RenderedStripe>,
    order: Seq<int>,
)
    requires
        0 <= width,
        0 <= height,
        stripes_fit(width, workers),
        renders_frame(parts, order, frame, width, height, workers),
    ensures
        forall|k: int| 0 <= k < parts.len() ==> stripe_fits(width, height, #[trigger] parts[k]),
        assembled(width, height, parts) == column_major(frame, 0, width, height),
{
    let count = parts.len() as int;
    lemma_prefix_assembled(frame, width, height, workers, parts, order, count);
    assert(parts.take(count) =~= parts);
    assert forall|at: (int, int)| in_bounds(width, height, at) implies covered(
        parts,
        count,
        at.0,
    ) by {
        let index = crate::viewport::lemma_column_in_one_stripe(width, workers, at.0);
        assert(order.contains(index));
        let k = choose|k: int| 0 <= k < order.len() && order[k] == index;
        assert(renders_stripe_of(parts, order, frame, width, height, workers, k));
        assert(covers(parts[k], at.0));
    }
    assert(covered_frame(frame, width, height, parts, count) =~= column_major(
        frame,
        0,
        width,
        height,
    ));
    assert forall|k: int| 0 <= k < parts.len() implies stripe_fits(
        width,
        height,
        #[trigger] parts[k],
    ) by {
        assert(renders_stripe_of(parts, order, frame, width, height, workers, k));
        crate::viewport::lemma_stripes_partition(width, workers, order[k]);
    }
}

/// Laying the stripes' images down in stripe order gives the frame back.
pub proof fn lemma_stripes_reassemble(
    frame: Seq<Pixel>,
    width: int,
    height: int,
    workers: int,
    parts: Seq<RenderedStripe>,
)
    requires
        0 <= width,
        0 <= height,
        stripes_fit(width, workers),
        parts.len() == workers,
        forall|i: int|
            0 <= i < workers ==> renders_stripe(#[trigger] parts[i], frame, width, height, workers, i),
    ensures
        forall|i: int| 0 <= i < workers ==> stripe_fits(width, height, #[trigger] parts[i]),
        assembled(width, height, parts) == column_major(frame, 0, width, height),
{
    let order = Seq::new(workers as nat, |i: int| i);
    assert forall|i: int| 0 <= i < workers implies order.contains(i) by {
        assert(order[i] == i);
    }
    assert forall|k: int| 0 <= k < parts.len() implies #[trigger] renders_stripe_of(
        parts,
        order,
        frame,
        width,
        height,
        workers,
        k,
    ) by {
        assert(renders_stripe(parts[k], frame, width, height, workers, k));
    }
    lemma_stripes_reassemble_in_any_order(frame, width, height, workers, parts, order);
}

/// The assembled image does not depend on the number of workers: two plans
/// for the same frame, whatever their worker counts and whatever the order in
/// which the stripes are laid down, give the same pixels.
pub proof fn lemma_worker_count_is_immaterial(
    frame: Seq<Pixel>,
    width: int,
    height: int,
    workers: int,
    parts: Seq<RenderedStripe>,
    order: Seq<int>,
    other_workers: int,
    other_parts: Seq<RenderedStripe>,
    other_order: Seq<int>,
)
    requires
        0 <= width,
        0 <= height,
        stripes_fit(width, workers),
        renders_frame(parts, order, frame, width, height, workers),
        stripes_fit(width, other_workers),
        renders_frame(other_parts, other_order, frame, width, height, other_workers),
    ensures
        assembled(width, height, parts) == assembled(width, height, other_parts),
{
    lemma_stripes_reassemble_in_any_order(frame, width, height, workers, parts, order);
    lemma_stripes_reassemble_in_any_order(
        frame,
        width,
        height,
        other_workers,
        other_parts,
        other_order,
    );
}

/// A frame of one colour renders to an image of that colour.
pub proof fn lemma_uniform_frame(frame: Seq<Pixel>, width: int, height: int, color: Pixel)
    requires
        0 <= width,
        0 <= height,
        frame.len() == width * height,
        forall|i: int| 0 <= i < frame.len() ==> frame[i] == color,
    ensures
        forall|at: (int, int)|
            in_bounds(width, height, at) ==> #[trigger] column_major(frame, 0, width, height)[at]
                == color.opaque(),
{
    assert forall|at: (int, int)| in_bounds(width, height, at) implies #[trigger] column_major(
        frame,
        0,
        width,
        height,
    )[at] == color.opaque() by {
        lemma_cell_index(width, height, at.0, at.1);
    }
}

/// Renders a frame as `threads_num` workers do: the viewport is cut into one
/// stripe per worker, each stripe is rendered into an image of its own, and
/// the stripes are copied into the final image in stripe order. `frame`
/// holds the display pixel of every viewport pixel, column by column, each
/// column from the top row down. The result holds the frame, whatever the
/// number of workers.
pub fn render_in_threads(viewport: &Viewport, threads_num: u32, frame: &Vec<Pixel>) -> (image:
    DynamicImage)
    requires
        stripes_fit(viewport.columns() as int, threads_num as int),
        frame.len() == viewport.columns() * viewport.rows(),
        rgb8_fits_memory(viewport.columns() as int, viewport.rows() as int),
    ensures
        image_is_rgb8(image),
        image_width(image) == viewport.columns(),
        image_height(image) == viewport.rows(),
        image_pixels(image) == column_major(
            frame@,
            0,
            viewport.columns() as int,
            viewport.rows() as int,
        ),
{
    let width = viewport.width();
    let height = viewport.height();
    let mut parts: Vec<RenderedStripe> = Vec::new();
    let mut index: u32 = 0;
    while index < threads_num
        invariant
            index <= threads_num,
            width == viewport.columns(),
            height == viewport.rows(),
            stripes_fit(width as int, threads_num as int),
            frame.len() == width * height,
            rgb8_fits_memory(width as int, height as int),
            parts.len() == index,
            forall|i: int|
                0 <= i < index ==> renders_stripe(
                    #[trigger] parts[i],
                    frame@,
                    width as int,
                    height as int,
                    threads_num as int,
                    i,
                ),
        decreases threads_num - index,
    {
        let columns = stripe(width, threads_num, index);
        proof {
            let start = columns.start as int;
            let end = columns.end as int;
            let rows = height as int;
            assert(start * rows + (end - start) * rows == end * rows) by (nonlinear_arith);
            assert(0 <= start * rows) by (nonlinear_arith)
                requires
                    0 <= start,
                    0 <= rows,
            ;
            assert(end * rows <= width * rows) by (nonlinear_arith)
                requires
                    end <= width,
                    0 <= rows,
            ;
            assert(3 * (end - start) * rows <= 3 * width * rows) by (nonlinear_arith)
                requires
                    0 <= end - start <= width,
                    0 <= rows,
            ;
        }
        let first: usize = columns.start as usize * height as usize;
        let image = fill(frame, first, columns.end - columns.start, height);
        parts.push(RenderedStripe { image, offset: columns.start });
        index = index + 1;
    }
    proof {
        lemma_stripes_reassemble(
            frame@,
            width as int,
            height as int,
            threads_num as int,
            parts@,
        );
    }
    match assemble(viewport, &parts) {
        Ok(image) => image,
        Err(_) => vstd::pervasive::unreached(),
    }
}

} // verus!
