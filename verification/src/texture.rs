use crate::pixel::Pixel;
use crate::raster::{dimensions, get_pixel, image_height, image_pixels, image_width};
use image::DynamicImage;
use vstd::prelude::*;

verus! {

/// The texel index of a scaled texture coordinate: its remainder by the
/// bound, which is never negative, so that the texture repeats in both
/// directions.
pub open spec fn wrapped(scaled: int, bound: int) -> int
    recommends
        bound > 0,
{
    scaled % bound
}

/// The remainder that keeps the sign of the dividend.
pub open spec fn signed_remainder(scaled: int, bound: int) -> int
    recommends
        bound > 0,
{
    if scaled >= 0 {
        scaled % bound
    } else {
        -((-scaled) % bound)
    }
}

/// A wrapped index lies in the texture.
pub proof fn lemma_wrapped_in_range(scaled: int, bound: int)
    requires
        bound > 0,
    ensures
        0 <= wrapped(scaled, bound) < bound,
{
    vstd::arithmetic::div_mod::lemma_mod_bound(scaled, bound);
}

/// Wrapping is the signed remainder, raised by the bound and reduced again.
pub proof fn lemma_wrapped_from_signed_remainder(scaled: int, bound: int)
    requires
        bound > 0,
    ensures
        wrapped(scaled, bound) == (signed_remainder(scaled, bound) + bound) % bound,
{
    vstd::arithmetic::div_mod::lemma_mod_bound(scaled, bound);
    vstd::arithmetic::div_mod::lemma_mod_bound(-scaled, bound);
    vstd::arithmetic::div_mod::lemma_fundamental_div_mod(scaled, bound);
    vstd::arithmetic::div_mod::lemma_fundamental_div_mod(-scaled, bound);
    let r = signed_remainder(scaled, bound);
    if scaled >= 0 {
        vstd::arithmetic::div_mod::lemma_mod_add_multiples_vanish(r, bound);
        vstd::arithmetic::div_mod::lemma_small_mod(r as nat, bound as nat);
    } else {
        let q = (-scaled) / bound;
        let m = (-scaled) % bound;
        assert(scaled == bound * (-q) - m) by (nonlinear_arith)
            requires
                -scaled == bound * q + m,
        ;
        if m == 0 {
            vstd::arithmetic::div_mod::lemma_fundamental_div_mod_converse(scaled, bound, -q, 0);
            vstd::arithmetic::div_mod::lemma_mod_add_multiples_vanish(0, bound);
            vstd::arithmetic::div_mod::lemma_small_mod(0, bound as nat);
        } else {
            assert(scaled == (-q - 1) * bound + (bound - m)) by (nonlinear_arith)
                requires
                    scaled == bound * (-q) - m,
            ;
            vstd::arithmetic::div_mod::lemma_fundamental_div_mod_converse(
                scaled,
                bound,
                -q - 1,
                bound - m,
            );
            vstd::arithmetic::div_mod::lemma_small_mod((bound - m) as nat, bound as nat);
        }
    }
}

/// Whole turns round the texture do not change the texel: a coordinate and
/// the same coordinate moved by any number of texture widths wrap to the same
/// index.
pub proof fn lemma_wrap_periodic(scaled: int, turns: int, bound: int)
    requires
        bound > 0,
    ensures
        wrapped(scaled + turns * bound, bound) == wrapped(scaled, bound),
{
    vstd::arithmetic::div_mod::lemma_mod_multiples_vanish(turns, scaled, bound);
    assert(bound * turns + scaled == scaled + turns * bound) by (nonlinear_arith);
}

/// An index that lies in the texture wraps to itself.
pub proof fn lemma_wrap_fixes_indices(scaled: int, bound: int)
    requires
        0 <= scaled < bound,
    ensures
        wrapped(scaled, bound) == scaled,
{
    vstd::arithmetic::div_mod::lemma_small_mod(scaled as nat, bound as nat);
}

/// Wraps a scaled texture coordinate into a texel index below `bound`.
pub fn wrap(scaled: i64, bound: u32) -> (index: u32)
    requires
        bound > 0,
    ensures
        index == wrapped(scaled as int, bound as int),
        index < bound,
{
    let signed_bound: i64 = bound as i64;
    let remainder: i64 = scaled % signed_bound;
    proof {
        assert(remainder == signed_remainder(scaled as int, bound as int));
        lemma_wrapped_from_signed_remainder(scaled as int, bound as int);
        lemma_wrapped_in_range(scaled as int, bound as int);
        vstd::arithmetic::div_mod::lemma_mod_bound(scaled as int, bound as int);
        vstd::arithmetic::div_mod::lemma_mod_bound(-scaled, bound as int);
        if remainder < 0 {
            vstd::arithmetic::div_mod::lemma_small_mod((remainder + bound) as nat, bound as nat);
        } else {
            vstd::arithmetic::div_mod::lemma_mod_add_multiples_vanish(
                remainder as int,
                bound as int,
            );
            vstd::arithmetic::div_mod::lemma_small_mod(remainder as nat, bound as nat);
        }
    }
    if remainder < 0 {
        (remainder + signed_bound) as u32
    } else {
        remainder as u32
    }
}

/// An image to take surface colours from. A texture has at least one texel,
/// so every coordinate wraps to a texel of it.
pub struct Texture {
    image: DynamicImage,
}

impl Texture {
    #[verifier::type_invariant]
    spec fn has_texels(self) -> bool {
        image_width(self.image) > 0 && image_height(self.image) > 0
    }

    /// The image that the texture reads.
    pub closed spec fn image(self) -> DynamicImage {
        self.image
    }

    /// A texture over the given image, or nothing when the image has no
    /// pixels.
    pub fn new(image: DynamicImage) -> (texture: Option<Texture>)
        ensures
            texture is Some <==> image_width(image) > 0 && image_height(image) > 0,
            texture matches Some(t) ==> t.image() == image,
    {
        let size = dimensions(&image);
        if size.0 > 0 && size.1 > 0 {
            Some(Texture { image })
        } else {
            None
        }
    }

    /// The number of texel columns, which is not zero.
    pub fn width(&self) -> (width: u32)
        ensures
            width == image_width(self.image()),
            width > 0,
    {
        proof {
            use_type_invariant(self);
        }
        dimensions(&self.image).0
    }

    /// The number of texel rows, which is not zero.
    pub fn height(&self) -> (height: u32)
        ensures
            height == image_height(self.image()),
            height > 0,
    {
        proof {
            use_type_invariant(self);
        }
        dimensions(&self.image).1
    }

    /// The texel for a pair of scaled texture coordinates: each coordinate,
    /// already multiplied by the texture's size in its direction and rounded
    /// down, is wrapped into the texture.
    pub fn texel(&self, scaled_x: i64, scaled_y: i64) -> (pixel: Pixel)
        ensures
            pixel == image_pixels(self.image())[(
                wrapped(scaled_x as int, image_width(self.image()) as int),
                wrapped(scaled_y as int, image_height(self.image()) as int),
            )],
    {
        proof {
            use_type_invariant(self);
        }
        let size = dimensions(&self.image);
        let x = wrap(scaled_x, size.0);
        let y = wrap(scaled_y, size.1);
        get_pixel(&self.image, x, y)
    }
}

} // verus!
