use crate::intersection::{is_nearest, Intersection};
use vstd::prelude::*;

verus! {

/// The deepest level of secondary rays that is still shaded. A ray deeper
/// than this takes the background colour.
pub const MAX_DEPTH: u32 = 5;

/// Which responses to light a surface has: a diffuse weight above zero, a
/// reflective weight above zero, a refractive index above zero.
#[derive(Clone, Copy, Debug, PartialEq, Eq, Structural)]
pub struct Surface {
    pub diffuse: bool,
    pub reflective: bool,
    pub refractive: bool,
}

/// The secondary rays that are cast from a hit point.
#[derive(Clone, Copy, Debug, PartialEq, Eq, Structural)]
pub enum Secondary {
    /// None: the surface neither reflects nor refracts.
    Matte,
    /// A reflected ray, weighted by the surface's reflective weight.
    Mirror,
    /// A reflected ray and, unless all light is reflected, a refracted ray,
    /// blended by the Fresnel coefficient.
    Dielectric,
}

/// What the colour of a ray is made of.
#[derive(Clone, Copy, Debug, PartialEq, Eq, Structural)]
pub enum Shading {
    /// The background colour, and nothing else.
    Background,
    /// The terms of a hit point: the direct light of every light source when
    /// `direct` is set, and the secondary rays, which are shaded at
    /// `next_depth`.
    Surface { direct: bool, secondary: Secondary, next_depth: u32 },
}

/// The shading policy. A ray deeper than `MAX_DEPTH`, or one that hits
/// nothing, takes the background colour. At a hit point direct light counts
/// only on a diffuse surface; a refractive surface is shaded as a dielectric
/// whatever its reflective weight, and a surface that is only reflective as a
/// mirror.
pub open spec fn shading(depth: u32, hit: Option<Surface>) -> Shading {
    match hit {
        Some(surface) if depth <= MAX_DEPTH => Shading::Surface {
            direct: surface.diffuse,
            secondary: if surface.refractive {
                Secondary::Dielectric
            } else if surface.reflective {
                Secondary::Mirror
            } else {
                Secondary::Matte
            },
            next_depth: (depth + 1) as u32,
        },
        _ => Shading::Background,
    }
}

/// The number of levels, from `depth` on, at which a ray can still be shaded
/// by a surface.
pub open spec fn levels_left(depth: int) -> nat {
    if depth > MAX_DEPTH {
        0
    } else {
        (MAX_DEPTH + 1 - depth) as nat
    }
}

/// Decides what the colour of a ray at `depth` is made of, given the surface
/// that the ray hits first, if any.
pub fn plan_shading(depth: u32, hit: Option<Surface>) -> (plan: Shading)
    ensures
        plan == shading(depth, hit),
{
    match hit {
        Some(surface) => {
            if depth > MAX_DEPTH {
                Shading::Background
            } else {
                let secondary = if surface.refractive {
                    Secondary::Dielectric
                } else if surface.reflective {
                    Secondary::Mirror
                } else {
                    Secondary::Matte
                };
                Shading::Surface { direct: surface.diffuse, secondary, next_depth: depth + 1 }
            }
        },
        None => Shading::Background,
    }
}

/// Shading ends: secondary rays are shaded one level deeper than the ray
/// that casts them, each level leaves fewer levels, and with none left a ray
/// takes the background colour and casts no further ray. A primary ray has
/// `MAX_DEPTH + 1` levels.
pub proof fn lemma_shading_ends(depth: u32, hit: Option<Surface>)
    ensures
        levels_left(0) == MAX_DEPTH + 1,
        levels_left(depth as int) == 0 ==> shading(depth, hit) is Background,
        shading(depth, hit) matches Shading::Surface { next_depth, .. } ==> next_depth == depth + 1
            && levels_left(next_depth as int) < levels_left(depth as int),
{
}

/// Where there is nothing to hit there is only background: when a ray meets
/// no object, as every ray does in a scene without objects, no hit is its
/// nearest, and at every depth the ray takes the background colour.
pub proof fn lemma_nothing_to_hit_is_background(hits: Seq<Option<i64>>, depth: u32)
    requires
        forall|i: int| 0 <= i < hits.len() ==> (#[trigger] hits[i]) is None,
    ensures
        forall|hit: Intersection| !is_nearest(hits, hit),
        shading(depth, None) == Shading::Background,
{
    assert forall|hit: Intersection| !is_nearest(hits, hit) by {
        if is_nearest(hits, hit) {
            assert(hits[hit.object as int] is None);
        }
    }
}

/// Whether a light is hidden from a hit point: the shadow ray towards the
/// light hits something that is strictly nearer than the light.
pub open spec fn occluded(shadow: Option<Intersection>, light_distance: i64) -> bool {
    shadow matches Some(hit) && hit.distance < light_distance
}

/// Tests whether a light reaches a hit point, given the nearest hit of the
/// shadow ray and the key of the light's distance. A directional light is
/// infinitely far, so anything that the shadow ray hits at a finite distance
/// hides it.
pub fn light_reaches(shadow: Option<Intersection>, light_distance: i64) -> (lit: bool)
    ensures
        lit == !occluded(shadow, light_distance),
{
    match shadow {
        Some(hit) => hit.distance >= light_distance,
        None => true,
    }
}

} // verus!
