use cubevis::interact::{Effect, Mode, PointerEvent, ViewState, Viewport, POLAR_LIMIT, UNIT};

fn vp(w: u32, h: u32) -> Viewport {
    Viewport { width: w, height: h }
}

#[test]
fn left_drag_produces_azimuth_delta_and_commits_theta() {
    // drag from (100,100) to (150,100) on a 400 x 400 viewport:
    // azimuth delta = 2 * (50 / 200) = 0.5 rad = 500_000 millionths
    let mut s = ViewState::new();
    let v = vp(400, 400);
    assert_eq!(s.handle(PointerEvent::Moved { x: 100, y: 100 }, false, v), Effect::NoWrite);
    assert_eq!(s.handle(PointerEvent::LeftDown, false, v), Effect::NoWrite);
    let eff = s.handle(PointerEvent::Moved { x: 150, y: 100 }, false, v);
    assert_eq!(eff, Effect::Camera { azimuth: 500_000, polar: 0 });
    assert_eq!(s.dtheta, 500_000);
    assert_eq!(s.handle(PointerEvent::LeftUp, false, v), Effect::NoWrite);
    assert_eq!(s.theta, 500_000);
    assert_eq!(s.mode, Mode::Idle);
}

#[test]
fn right_drag_previews_and_commits_scale() {
    // dy = 40 on a 400-high viewport: scale delta = 40 / 200 = 0.2;
    // against baseline scale 1.0 the live cuts show 1.2, and release
    // persists 1.2 as the new baseline
    let mut s = ViewState::new();
    let v = vp(400, 400);
    s.handle(PointerEvent::Moved { x: 100, y: 100 }, false, v);
    s.handle(PointerEvent::RightDown, false, v);
    let eff = s.handle(PointerEvent::Moved { x: 100, y: 140 }, false, v);
    assert_eq!(eff, Effect::Cuts { scale: 1_200_000, offset: 0 });
    assert_eq!(s.scale, UNIT);
    s.handle(PointerEvent::RightUp, false, v);
    assert_eq!(s.scale, 1_200_000);
    assert_eq!(s.mode, Mode::Idle);
}

#[test]
fn polar_commit_clamped_on_huge_drag() {
    let mut s = ViewState::new();
    let v = vp(400, 400);
    s.handle(PointerEvent::LeftDown, false, v);
    // an enormous downward drag: raw polar delta far beyond the clamp
    let eff = s.handle(PointerEvent::Moved { x: 0, y: 900_000 }, false, v);
    match eff {
        Effect::Camera { azimuth: _, polar } => assert_eq!(polar, POLAR_LIMIT),
        other => panic!("expected a camera write, got {:?}", other),
    }
    s.handle(PointerEvent::LeftUp, false, v);
    assert_eq!(s.delta, POLAR_LIMIT);
    // and symmetrically for an upward drag
    s.handle(PointerEvent::LeftDown, false, v);
    s.handle(PointerEvent::Moved { x: 0, y: -900_000 }, false, v);
    s.handle(PointerEvent::LeftUp, false, v);
    assert_eq!(s.delta, -POLAR_LIMIT);
}

#[test]
fn consumed_event_changes_nothing() {
    let mut s = ViewState::new();
    let v = vp(400, 400);
    let before = s;
    assert_eq!(s.handle(PointerEvent::LeftDown, true, v), Effect::NoWrite);
    assert_eq!(s, before);
}

#[test]
fn left_down_anchors_at_current_cursor() {
    let mut s = ViewState::new();
    let v = vp(200, 100);
    s.handle(PointerEvent::Moved { x: 30, y: 40 }, false, v);
    s.handle(PointerEvent::LeftDown, false, v);
    assert_eq!((s.anchor_x, s.anchor_y), (30, 40));
    assert_eq!(s.mode, Mode::Rotating);
}

#[test]
fn windowing_offset_follows_horizontal_drag() {
    // dx = 25 on a 100-wide viewport: offset delta = 25 / 50 = 0.5;
    // baseline offset 0.0 stays 0.0 under 0.0 * (1 + 0.5)
    let mut s = ViewState::new();
    let v = vp(100, 100);
    s.handle(PointerEvent::Moved { x: 10, y: 10 }, false, v);
    s.handle(PointerEvent::RightDown, false, v);
    let eff = s.handle(PointerEvent::Moved { x: 35, y: 10 }, false, v);
    assert_eq!(s.doffset, 500_000);
    assert_eq!(eff, Effect::Cuts { scale: 1_000_000, offset: 0 });
}

#[test]
fn right_button_ignored_while_rotating() {
    let mut s = ViewState::new();
    let v = vp(400, 400);
    s.handle(PointerEvent::LeftDown, false, v);
    s.handle(PointerEvent::RightDown, false, v);
    assert_eq!(s.mode, Mode::Rotating);
}

#[test]
fn move_while_idle_only_tracks_cursor() {
    let mut s = ViewState::new();
    let v = vp(400, 400);
    let eff = s.handle(PointerEvent::Moved { x: 7, y: -3 }, false, v);
    assert_eq!(eff, Effect::NoWrite);
    assert_eq!((s.cursor_x, s.cursor_y), (7, -3));
    assert_eq!(s.theta, 0);
    assert_eq!(s.delta, 0);
}

#[test]
fn leftward_drag_produces_negative_azimuth() {
    let mut s = ViewState::new();
    let v = vp(400, 400);
    s.handle(PointerEvent::Moved { x: 200, y: 200 }, false, v);
    s.handle(PointerEvent::LeftDown, false, v);
    let eff = s.handle(PointerEvent::Moved { x: 150, y: 200 }, false, v);
    assert_eq!(eff, Effect::Camera { azimuth: -500_000, polar: 0 });
    s.handle(PointerEvent::LeftUp, false, v);
    assert_eq!(s.theta, -500_000);
}

#[test]
fn successive_drags_accumulate_theta() {
    let mut s = ViewState::new();
    let v = vp(400, 400);
    for _ in 0..2 {
        s.handle(PointerEvent::Moved { x: 100, y: 100 }, false, v);
        s.handle(PointerEvent::LeftDown, false, v);
        s.handle(PointerEvent::Moved { x: 150, y: 100 }, false, v);
        s.handle(PointerEvent::LeftUp, false, v);
    }
    assert_eq!(s.theta, 1_000_000);
}

#[test]
fn windowing_commit_composes_multiplicatively() {
    // two right-drags of dy = 40 each on a 400-high viewport:
    // scale goes 1.0 -> 1.2 -> 1.44
    let mut s = ViewState::new();
    let v = vp(400, 400);
    for _ in 0..2 {
        s.handle(PointerEvent::Moved { x: 100, y: 100 }, false, v);
        s.handle(PointerEvent::RightDown, false, v);
        s.handle(PointerEvent::Moved { x: 100, y: 140 }, false, v);
        s.handle(PointerEvent::RightUp, false, v);
    }
    assert_eq!(s.scale, 1_440_000);
}
