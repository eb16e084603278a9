use vstd::prelude::*;

verus! {

/// The pixel grid that a camera looks through. The camera model assumes a
/// landscape sensor, so a viewport is always wider than it is high.
#[derive(Clone, Copy, Debug)]
pub struct Viewport {
    width: u32,
    height: u32,
}

impl Viewport {
    #[verifier::type_invariant]
    spec fn landscape(self) -> bool {
        self.width > self.height
    }

    /// The number of pixel columns.
    pub closed spec fn columns(self) -> u32 {
        self.width
    }

    /// The number of pixel rows.
    pub closed spec fn rows(self) -> u32 {
        self.height
    }

    /// A viewport of the given size, or nothing when the size is not
    /// landscape.
    pub fn new(width: u32, height: u32) -> (viewport: Option<Viewport>)
        ensures
            viewport is Some <==> width > height,
            viewport matches Some(v) ==> v.columns() == width && v.rows() == height,
    {
        if width > height {
            Some(Viewport { width, height })
        } else {
            None
        }
    }

    /// The number of pixel columns, which exceeds the number of rows.
    pub fn width(&self) -> (width: u32)
        ensures
            width == self.columns(),
            width > self.rows(),
    {
        proof {
            use_type_invariant(self);
        }
        self.width
    }

    /// The number of pixel rows, which is below the number of columns.
    pub fn height(&self) -> (height: u32)
        ensures
            height == self.rows(),
            height < self.columns(),
    {
        proof {
            use_type_invariant(self);
        }
        self.height
    }
}

/// A contiguous range of pixel columns, from `start` up to but not
/// including `end`, that one worker renders.
#[derive(Clone, Copy, Debug, PartialEq, Eq, Structural)]
pub struct Stripe {
    pub start: u32,
    pub end: u32,
}

/// The width of a full stripe: the image width divided by the number of
/// workers, rounded up.
pub open spec fn stripe_size(width: int, workers: int) -> int
    recommends
        workers > 0,
{
    if width % workers == 0 {
        width / workers
    } else {
        width / workers + 1
    }
}

/// The first column of stripe `index`.
pub open spec fn stripe_start(width: int, workers: int, index: int) -> int {
    index * stripe_size(width, workers)
}

/// The column after the last one of stripe `index`: a full stripe further
/// than its start, clipped to the image width.
pub open spec fn stripe_end(width: int, workers: int, index: int) -> int {
    let end = (index + 1) * stripe_size(width, workers);
    if end > width {
        width
    } else {
        end
    }
}

/// Whether stripe `index` holds the given column.
pub open spec fn stripe_holds(width: int, workers: int, index: int, column: int) -> bool {
    stripe_start(width, workers, index) <= column < stripe_end(width, workers, index)
}

/// Whether the image can be cut into one stripe per worker: there is a
/// worker, and the last stripe starts inside the image or at its edge.
pub open spec fn stripes_fit(width: int, workers: int) -> bool {
    workers > 0 && (workers - 1) * stripe_size(width, workers) <= width
}

/// A full stripe is never negative, never wider than the image, and the
/// workers' full stripes together cover the width; it is the least width
/// that does.
pub proof fn lemma_stripe_size_is_least_cover(width: int, workers: int)
    requires
        0 <= width,
        0 < workers,
    ensures
        0 <= stripe_size(width, workers) <= width,
        workers * stripe_size(width, workers) >= width,
        workers * (stripe_size(width, workers) - 1) < width,
{
    let q = width / workers;
    let r = width % workers;
    vstd::arithmetic::div_mod::lemma_fundamental_div_mod(width, workers);
    vstd::arithmetic::div_mod::lemma_mod_bound(width, workers);
    vstd::arithmetic::div_mod::lemma_div_pos_is_pos(width, workers);
    assert(workers * (q + 1) == workers * q + workers) by (nonlinear_arith);
    assert(workers * (q - 1) == workers * q - workers) by (nonlinear_arith);
    if r != 0 {
        assert(q + 1 <= width) by (nonlinear_arith)
            requires
                width == workers * q + r,
                0 < r,
                0 <= q,
                0 < workers,
        ;
    } else {
        assert(q <= width) by (nonlinear_arith)
            requires
                width == workers * q,
                0 <= q,
                0 < workers,
        ;
    }
}

/// The stripes of a fitting plan lie in the image, one after another without
/// gap or overlap: the first starts at column zero, each ends where the next
/// starts, and the last ends at the image's edge.
pub proof fn lemma_stripes_partition(width: int, workers: int, index: int)
    requires
        0 <= width,
        stripes_fit(width, workers),
        0 <= index < workers,
    ensures
        stripe_start(width, workers, 0) == 0,
        0 <= stripe_start(width, workers, index) <= stripe_end(width, workers, index) <= width,
        index + 1 < workers ==> stripe_end(width, workers, index) == stripe_start(
            width,
            workers,
            index + 1,
        ),
        index + 1 == workers ==> stripe_end(width, workers, index) == width,
        stripe_end(width, workers, index) - stripe_start(width, workers, index) <= stripe_size(
            width,
            workers,
        ),
{
    let size = stripe_size(width, workers);
    lemma_stripe_size_is_least_cover(width, workers);
    assert(index * size <= (workers - 1) * size) by (nonlinear_arith)
        requires
            0 <= index <= workers - 1,
            0 <= size,
    ;
    assert(0 <= index * size) by (nonlinear_arith)
        requires
            0 <= index,
            0 <= size,
    ;
    assert((index + 1) * size == index * size + size) by (nonlinear_arith);
    if index + 1 < workers {
        assert((index + 1) * size <= (workers - 1) * size) by (nonlinear_arith)
            requires
                0 <= index + 1 <= workers - 1,
                0 <= size,
        ;
    } else {
        assert((index + 1) * size == workers * size);
    }
}

/// Every column of the image lies in exactly one stripe of a fitting plan.
pub proof fn lemma_column_in_one_stripe(width: int, workers: int, column: int) -> (index: int)
    requires
        stripes_fit(width, workers),
        0 <= column < width,
    ensures
        0 <= index < workers,
        stripe_holds(width, workers, index, column),
        forall|other: int|
            0 <= other < workers && #[trigger] stripe_holds(width, workers, other, column)
                ==> other == index,
{
    let size = stripe_size(width, workers);
    lemma_stripe_size_is_least_cover(width, workers);
    assert(size > 0) by (nonlinear_arith)
        requires
            workers * size >= width,
            width > 0,
            workers > 0,
    ;
    let index = column / size;
    vstd::arithmetic::div_mod::lemma_fundamental_div_mod(column, size);
    vstd::arithmetic::div_mod::lemma_mod_bound(column, size);
    vstd::arithmetic::div_mod::lemma_div_pos_is_pos(column, size);
    assert(index * size == size * index) by (nonlinear_arith);
    assert((index + 1) * size == index * size + size) by (nonlinear_arith);
    assert(index < workers) by (nonlinear_arith)
        requires
            index * size <= column,
            column < width,
            (workers - 1) * size <= width,
            workers * size >= width,
            size > 0,
            0 <= index,
            index * size + size > column,
    {
        if index >= workers {
            assert(index * size >= workers * size);
        }
    }
    assert forall|other: int|
        0 <= other < workers && #[trigger] stripe_holds(
            width,
            workers,
            other,
            column,
        ) implies other == index by {
        assert((other + 1) * size == other * size + size) by (nonlinear_arith);
        assert(other * size <= column < other * size + size);
        vstd::arithmetic::div_mod::lemma_fundamental_div_mod_converse(
            column,
            size,
            other,
            column - other * size,
        );
    }
    index
}

/// The width of a full stripe for `threads_num` workers.
pub fn full_stripe(width: u32, threads_num: u32) -> (size: u32)
    requires
        threads_num > 0,
    ensures
        size == stripe_size(width as int, threads_num as int),
{
    if width % threads_num == 0 {
        width / threads_num
    } else {
        proof {
            lemma_stripe_size_is_least_cover(width as int, threads_num as int);
        }
        width / threads_num + 1
    }
}

/// Tests whether the image can be cut into one stripe per worker.
pub fn can_split(width: u32, threads_num: u32) -> (fit: bool)
    ensures
        fit == stripes_fit(width as int, threads_num as int),
{
    if threads_num == 0 {
        return false;
    }
    let size: u64 = full_stripe(width, threads_num) as u64;
    let before_last: u64 = (threads_num - 1) as u64;
    assert(before_last * size <= 0xffff_ffff * 0xffff_ffff) by (nonlinear_arith)
        requires
            before_last <= 0xffff_ffff,
            size <= 0xffff_ffff,
    ;
    before_last * size <= width as u64
}

/// The stripe of worker `index` among `threads_num`.
pub fn stripe(width: u32, threads_num: u32, index: u32) -> (stripe: Stripe)
    requires
        stripes_fit(width as int, threads_num as int),
        index < threads_num,
    ensures
        stripe.start == stripe_start(width as int, threads_num as int, index as int),
        stripe.end == stripe_end(width as int, threads_num as int, index as int),
        stripe.start <= stripe.end <= width,
{
    let size: u64 = full_stripe(width, threads_num) as u64;
    proof {
        lemma_stripes_partition(width as int, threads_num as int, index as int);
        assert((index + 1) * size == index * size + size) by (nonlinear_arith);
    }
    let start: u64 = index as u64 * size;
    let next: u64 = start + size;
    let end: u64 = if next > width as u64 {
        width as u64
    } else {
        next
    };
    Stripe { start: start as u32, end: end as u32 }
}

/// Cuts the image into one stripe per worker, in column order.
pub fn plan_stripes(width: u32, threads_num: u32) -> (stripes: Vec<Stripe>)
    requires
        stripes_fit(width as int, threads_num as int),
    ensures
        stripes.len() == threads_num,
        forall|i: int|
            0 <= i < threads_num ==> (#[trigger] stripes[i]).start == stripe_start(
                width as int,
                threads_num as int,
                i,
            ) && stripes[i].end == stripe_end(width as int, threads_num as int, i),
{
    let mut stripes: Vec<Stripe> = Vec::new();
    let mut index: u32 = 0;
    while index < threads_num
        invariant
            stripes_fit(width as int, threads_num as int),
            index <= threads_num,
            stripes.len() == index,
            forall|i: int|
                0 <= i < index ==> (#[trigger] stripes[i]).start == stripe_start(
                    width as int,
                    threads_num as int,
                    i,
                ) && stripes[i].end == stripe_end(width as int, threads_num as int, i),
        decreases threads_num - index,
    {
        stripes.push(stripe(width, threads_num, index));
        index = index + 1;
    }
    stripes
}

} // verus!
