use vstd::prelude::*;

verus! {

/// What came of tracing one segment of a light path.
#[derive(Debug, Clone, Copy, PartialEq, Eq, Structural)]
pub enum PathEvent {
    /// The segment left the scene: the sky colours it.
    Miss,
    /// The segment hit a surface whose material absorbed it.
    Absorbed,
    /// The segment hit a surface whose material scattered it on.
    Scattered,
}

/// How a light path ended.
#[derive(Debug, Clone, Copy, PartialEq, Eq, Structural)]
pub enum PathEnd {
    /// Its last segment escaped to the sky.
    Sky,
    /// A material absorbed it: it carries no light.
    Absorbed,
    /// It ran out of bounces before it escaped or was absorbed.
    Truncated,
}

/// Where a light path stands.
#[derive(Debug, Clone, Copy, PartialEq, Eq, Structural)]
pub enum PathState {
    /// One more segment is to be traced, with this many bounces left
    /// (always at least 1).
    Trace(u32),
    /// The path has ended.
    Done(PathEnd),
}

/// The state of a path that may bounce `max_depth` times: nothing is traced
/// when no bounce is allowed.
pub fn start_path(max_depth: i32) -> (r: PathState)
    ensures
        max_depth <= 0 ==> r == PathState::Done(PathEnd::Truncated),
        max_depth > 0 ==> r == PathState::Trace(max_depth as u32),
{
    if max_depth <= 0 {
        PathState::Done(PathEnd::Truncated)
    } else {
        PathState::Trace(max_depth as u32)
    }
}

/// The state after a segment traced with `depth` bounces left: a miss ends in
/// the sky, an absorption ends the path, and a scattered ray goes on with one
/// bounce less, unless that was the last one.
pub fn advance(depth: u32, event: PathEvent) -> (r: PathState)
    requires
        depth >= 1,
    ensures
        event == PathEvent::Miss ==> r == PathState::Done(PathEnd::Sky),
        event == PathEvent::Absorbed ==> r == PathState::Done(PathEnd::Absorbed),
        event == PathEvent::Scattered && depth == 1 ==> r == PathState::Done(PathEnd::Truncated),
        event == PathEvent::Scattered && depth > 1 ==> r == PathState::Trace((depth - 1) as u32),
{
    match event {
        PathEvent::Miss => PathState::Done(PathEnd::Sky),
        PathEvent::Absorbed => PathState::Done(PathEnd::Absorbed),
        PathEvent::Scattered => {
            if depth == 1 {
                PathState::Done(PathEnd::Truncated)
            } else {
                PathState::Trace(depth - 1)
            }
        },
    }
}

} // verus!
