use raytracer::integrator::{advance, start_path, PathEnd, PathEvent, PathState};

#[test]
fn no_bounce_allowed_truncates_at_once() {
    assert_eq!(start_path(0), PathState::Done(PathEnd::Truncated));
    assert_eq!(start_path(-3), PathState::Done(PathEnd::Truncated));
}

#[test]
fn positive_depth_starts_tracing() {
    assert_eq!(start_path(50), PathState::Trace(50));
    assert_eq!(start_path(i32::MAX), PathState::Trace(i32::MAX as u32));
}

#[test]
fn miss_ends_in_the_sky() {
    assert_eq!(advance(5, PathEvent::Miss), PathState::Done(PathEnd::Sky));
    assert_eq!(advance(1, PathEvent::Miss), PathState::Done(PathEnd::Sky));
}

#[test]
fn absorption_ends_the_path() {
    assert_eq!(advance(5, PathEvent::Absorbed), PathState::Done(PathEnd::Absorbed));
}

#[test]
fn scatter_spends_one_bounce() {
    assert_eq!(advance(5, PathEvent::Scattered), PathState::Trace(4));
    assert_eq!(advance(2, PathEvent::Scattered), PathState::Trace(1));
}

#[test]
fn depth_one_hit_is_truncated_after_its_bounce() {
    // A camera with depth 1 whose ray hits a diffuse sphere: the scattered
    // ray is never traced.
    let s = start_path(1);
    assert_eq!(s, PathState::Trace(1));
    assert_eq!(advance(1, PathEvent::Scattered), PathState::Done(PathEnd::Truncated));
}

#[test]
fn a_path_bounces_at_most_max_depth_times() {
    let mut state = start_path(7);
    let mut traced = 0;
    while let PathState::Trace(d) = state {
        traced += 1;
        state = advance(d, PathEvent::Scattered);
    }
    assert_eq!(traced, 7);
    assert_eq!(state, PathState::Done(PathEnd::Truncated));
}
