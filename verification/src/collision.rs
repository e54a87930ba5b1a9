//! Overlap of axis-aligned rectangles.

use crate::components::SpriteSize;
use crate::geometry::{Transform, Vector2};
use vstd::prelude::*;

verus! {

/// Two rectangles, each given by its centre and its size, overlap: on both
/// axes the low edge of each lies below the high edge of the other. An edge
/// is the centre plus or minus half the size; the comparison is made on the
/// doubled values, so that halves stay whole numbers. Rectangles that only
/// touch do not overlap.
pub open spec fn spec_collide(a_pos: Vector2, a_size: Vector2, b_pos: Vector2, b_size: Vector2) -> bool {
    &&& 2 * a_pos.x - a_size.x < 2 * b_pos.x + b_size.x
    &&& 2 * a_pos.x + a_size.x > 2 * b_pos.x - b_size.x
    &&& 2 * a_pos.y - a_size.y < 2 * b_pos.y + b_size.y
    &&& 2 * a_pos.y + a_size.y > 2 * b_pos.y - b_size.y
}

/// Tells whether two rectangles overlap.
#[verifier::when_used_as_spec(spec_collide)]
pub fn collide(a_pos: Vector2, a_size: Vector2, b_pos: Vector2, b_size: Vector2) -> (hit: bool)
    ensures
        hit == spec_collide(a_pos, a_size, b_pos, b_size),
{
    let ax: i64 = 2 * (a_pos.x as i64);
    let ay: i64 = 2 * (a_pos.y as i64);
    let bx: i64 = 2 * (b_pos.x as i64);
    let by: i64 = 2 * (b_pos.y as i64);
    let aw: i64 = a_size.x as i64;
    let ah: i64 = a_size.y as i64;
    let bw: i64 = b_size.x as i64;
    let bh: i64 = b_size.y as i64;
    ax - aw < bx + bw && ax + aw > bx - bw && ay - ah < by + bh && ay + ah > by - bh
}

/// Two sprites overlap as drawn: each covers its footprint, scaled, about its
/// centre.
pub open spec fn spec_overlaps(a: Transform, a_size: SpriteSize, b: Transform, b_size: SpriteSize) -> bool {
    spec_collide(a.translation, a_size.scaled(a.scale), b.translation, b_size.scaled(b.scale))
}

/// Tells whether two sprites overlap as drawn.
#[verifier::when_used_as_spec(spec_overlaps)]
pub fn overlaps(a: Transform, a_size: SpriteSize, b: Transform, b_size: SpriteSize) -> (hit: bool)
    ensures
        hit == spec_overlaps(a, a_size, b, b_size),
{
    collide(a.translation, a_size.scaled(a.scale), b.translation, b_size.scaled(b.scale))
}

/// Rectangles overlap exactly when on both axes their centres are nearer
/// than half the sum of their sizes.
pub proof fn lemma_collide_is_nearness(a_pos: Vector2, a_size: Vector2, b_pos: Vector2, b_size: Vector2)
    ensures
        spec_collide(a_pos, a_size, b_pos, b_size) <==> {
            &&& -(a_size.x + b_size.x) < 2 * (a_pos.x - b_pos.x) < a_size.x + b_size.x
            &&& -(a_size.y + b_size.y) < 2 * (a_pos.y - b_pos.y) < a_size.y + b_size.y
        },
{
}

/// Overlap does not depend on which rectangle is named first.
pub proof fn lemma_collide_symmetric(a_pos: Vector2, a_size: Vector2, b_pos: Vector2, b_size: Vector2)
    ensures
        spec_collide(a_pos, a_size, b_pos, b_size) == spec_collide(b_pos, b_size, a_pos, a_size),
{
}

/// Overlap of sprites does not depend on which sprite is named first.
pub proof fn lemma_overlaps_symmetric(a: Transform, a_size: SpriteSize, b: Transform, b_size: SpriteSize)
    ensures
        spec_overlaps(a, a_size, b, b_size) == spec_overlaps(b, b_size, a, a_size),
{
}

} // verus!
