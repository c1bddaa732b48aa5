use rend3::output::OutputFrame;
use std::rc::Rc;
use std::sync::Arc;

type Frame = OutputFrame<&'static str, u32, &'static str>;

fn unacquired() -> Frame {
    OutputFrame::Surface { surface: Arc::new("window") }
}

fn acquired() -> Frame {
    OutputFrame::SurfaceAcquired { view: "frame view", surface_tex: 7 }
}

fn external() -> Frame {
    OutputFrame::View(Arc::new("offscreen"))
}

#[test]
fn an_unacquired_surface_has_no_view() {
    assert_eq!(unacquired().as_view(), None);
}

#[test]
fn an_unacquired_surface_is_pending() {
    let frame = unacquired();
    assert_eq!(frame.surface().map(|surface| **surface), Some("window"));
    assert!(acquired().surface().is_none());
    assert!(external().surface().is_none());
}

#[test]
fn acquiring_moves_an_unacquired_surface_to_acquired() {
    let mut frame = unacquired();
    let report = frame.acquire::<&str>(Ok((7, "frame view")));
    assert_eq!(report, Ok(()));
    assert_eq!(frame, acquired());
    assert_eq!(frame.as_view(), Some(&"frame view"));
    assert!(frame.surface().is_none());
}

#[test]
fn a_failed_acquisition_is_reported_and_leaves_the_surface_unacquired() {
    let mut frame = unacquired();
    let report = frame.acquire(Err("lost"));
    assert_eq!(report, Err("lost"));
    assert_eq!(frame, unacquired());
    assert_eq!(frame.as_view(), None);
}

#[test]
fn an_unacquired_surface_can_be_acquired_after_a_failure() {
    let mut frame = unacquired();
    assert_eq!(frame.acquire(Err("timeout")), Err("timeout"));
    assert_eq!(frame.acquire::<&str>(Ok((9, "second try"))), Ok(()));
    assert_eq!(frame.as_view(), Some(&"second try"));
}

#[test]
fn acquiring_twice_on_an_acquired_target_returns_the_same_view() {
    let mut frame = acquired();
    assert_eq!(frame.acquire::<&str>(Ok((8, "another view"))), Ok(()));
    assert_eq!(frame.as_view(), Some(&"frame view"));
    assert_eq!(frame.acquire(Err("lost")), Ok(()));
    assert_eq!(frame.as_view(), Some(&"frame view"));
    assert_eq!(frame, acquired());
}

#[test]
fn acquiring_twice_on_an_external_view_returns_the_same_view() {
    let mut frame = external();
    assert_eq!(frame.acquire::<&str>(Ok((8, "another view"))), Ok(()));
    assert_eq!(frame.as_view(), Some(&"offscreen"));
    assert_eq!(frame.acquire(Err("lost")), Ok(()));
    assert_eq!(frame.as_view(), Some(&"offscreen"));
    assert_eq!(frame, external());
}

#[test]
fn acquiring_twice_in_a_row_keeps_the_first_image() {
    let mut frame = unacquired();
    assert_eq!(frame.acquire::<&str>(Ok((1, "first"))), Ok(()));
    assert_eq!(frame.acquire::<&str>(Ok((2, "second"))), Ok(()));
    assert_eq!(frame.as_view(), Some(&"first"));
    assert_eq!(frame.present(), Some(1));
}

#[test]
fn presenting_hands_out_the_image_of_an_acquired_target() {
    assert_eq!(acquired().present(), Some(7));
}

#[test]
fn presenting_an_unacquired_surface_or_a_view_presents_nothing() {
    assert_eq!(unacquired().present(), None);
    assert_eq!(external().present(), None);
}

#[test]
fn dropping_an_acquired_target_does_not_present_it() {
    let image = Rc::new(());
    let frame: OutputFrame<&str, Rc<()>, &str> =
        OutputFrame::SurfaceAcquired { view: "frame view", surface_tex: Rc::clone(&image) };
    assert_eq!(Rc::strong_count(&image), 2);
    drop(frame);
    // The image was released with the target and handed to nobody.
    assert_eq!(Rc::strong_count(&image), 1);
}

#[test]
fn an_external_view_is_shared_not_copied() {
    let view = Arc::new("offscreen");
    let frame: Frame = OutputFrame::View(Arc::clone(&view));
    assert_eq!(frame.as_view(), Some(&"offscreen"));
    assert_eq!(Arc::strong_count(&view), 2);
    assert_eq!(frame.present(), None);
    assert_eq!(Arc::strong_count(&view), 1);
}
