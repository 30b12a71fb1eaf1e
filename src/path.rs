//! When the recursive path-color estimator stops.
//!
//! A path starts at depth 0. Each trace asks the scene for the nearest hit: an
//! escaped ray takes the sky color, a hit at `MAX_DEPTH` bounces or more is
//! black, and otherwise the hit material either absorbs the ray (black) or
//! scatters it, and the scattered ray is traced at the next depth.
use vstd::prelude::*;

verus! {

/// The number of bounces after which a path is cut off and counted as black.
pub const MAX_DEPTH: u32 = 50;

/// What the path estimator does after asking the scene for the nearest hit.
#[derive(Debug, Clone, Copy, PartialEq, Eq, Structural)]
pub enum PathAction {
    /// The ray escaped: its color is the sky gradient.
    Background,
    /// The ray hit a surface too deep in the path: its color is black.
    Black,
    /// The ray hit a surface: ask the surface's material to scatter it.
    Scatter,
}

/// Decides what to do with a ray traced at `depth` bounces, given whether the
/// scene reported a hit for it.
pub fn on_scene_query(depth: u32, hit: bool) -> (a: PathAction)
    ensures
        a == PathAction::Background <==> !hit,
        a == PathAction::Scatter <==> hit && depth < MAX_DEPTH,
        a == PathAction::Black <==> hit && depth >= MAX_DEPTH,
{
    if !hit {
        PathAction::Background
    } else if depth < MAX_DEPTH {
        PathAction::Scatter
    } else {
        PathAction::Black
    }
}

/// Decides how a path goes on once the material at depth `depth` has answered:
/// the depth at which the scattered ray is traced, or `None` when the ray was
/// absorbed and the path is black.
pub fn on_response(depth: u32, scattered: bool) -> (r: Option<u32>)
    requires
        depth < MAX_DEPTH,
    ensures
        r == (if scattered { Some((depth + 1) as u32) } else { None::<u32> }),
{
    if scattered {
        Some(depth + 1)
    } else {
        None
    }
}

/// What the scene and the materials answer at one depth of a path: whether the
/// ray hit a surface, and whether that surface's material would scatter it.
#[derive(Debug, Clone, Copy, PartialEq, Eq, Structural)]
pub struct Bounce {
    pub hit: bool,
    pub scattered: bool,
}

/// Whether a path at `depth` goes on to `depth + 1`: `on_scene_query` answers
/// `Scatter` and `on_response` answers `Some`.
pub open spec fn continues(depth: nat, b: Bounce) -> bool {
    b.hit && depth < MAX_DEPTH && b.scattered
}

/// The depth at which a path that starts at `depth` stops, when the world
/// answers as `bounces` lists, one entry per depth (a path that runs out of
/// entries stops there).
pub open spec fn final_depth(depth: nat, bounces: Seq<Bounce>) -> nat
    decreases bounces.len(),
{
    if bounces.len() == 0 || !continues(depth, bounces[0]) {
        depth
    } else {
        final_depth(depth + 1, bounces.drop_first())
    }
}

/// Whatever the scene and its materials answer, even in a scene of nested
/// mirrors that scatter every ray, a path never goes deeper than `MAX_DEPTH`
/// bounces.
pub proof fn lemma_path_depth_bounded(bounces: Seq<Bounce>)
    ensures
        final_depth(0, bounces) <= MAX_DEPTH,
{
    lemma_final_depth_from(0, bounces);
}

proof fn lemma_final_depth_from(depth: nat, bounces: Seq<Bounce>)
    requires
        depth <= MAX_DEPTH,
    ensures
        depth <= final_depth(depth, bounces) <= MAX_DEPTH,
    decreases bounces.len(),
{
    if bounces.len() > 0 && continues(depth, bounces[0]) {
        lemma_final_depth_from(depth + 1, bounces.drop_first());
    }
}

/// A path through surfaces that always scatter stops exactly at `MAX_DEPTH`
/// once the world has answered that many times.
pub proof fn lemma_mirror_path_depth(bounces: Seq<Bounce>)
    requires
        bounces.len() >= MAX_DEPTH,
        forall|i: int| 0 <= i < bounces.len() ==> #[trigger] bounces[i].hit && bounces[i].scattered,
    ensures
        final_depth(0, bounces) == MAX_DEPTH,
{
    lemma_mirror_from(0, bounces);
}

proof fn lemma_mirror_from(depth: nat, bounces: Seq<Bounce>)
    requires
        depth <= MAX_DEPTH,
        depth + bounces.len() >= MAX_DEPTH,
        forall|i: int| 0 <= i < bounces.len() ==> #[trigger] bounces[i].hit && bounces[i].scattered,
    ensures
        final_depth(depth, bounces) == MAX_DEPTH,
    decreases bounces.len(),
{
    if depth < MAX_DEPTH {
        let rest = bounces.drop_first();
        assert forall|i: int| 0 <= i < rest.len() implies #[trigger] rest[i].hit && rest[i].scattered by {
            assert(rest[i] == bounces[i + 1]);
            assert(bounces[i + 1].hit && bounces[i + 1].scattered);
        }
        lemma_mirror_from(depth + 1, rest);
    }
}

} // verus!
