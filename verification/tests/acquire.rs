use rend3::acquire::{acquire_with, judge, AcquireError, Attempt, Verdict, MAX_ATTEMPTS};
use std::cell::Cell;

/// A source that times out `timeouts` times and then answers with `then`,
/// counting its polls in `polls`.
fn source<'a>(
    polls: &'a Cell<u32>,
    timeouts: u32,
    then: fn() -> Attempt<u32, &'static str>,
) -> impl Fn() -> Attempt<u32, &'static str> + 'a {
    move || {
        polls.set(polls.get() + 1);
        if polls.get() <= timeouts {
            Attempt::TimedOut
        } else {
            then()
        }
    }
}

#[test]
fn a_request_makes_at_most_ten_polls() {
    assert_eq!(MAX_ATTEMPTS, 10);
}

#[test]
fn nine_timeouts_then_an_image_is_success() {
    let polls = Cell::new(0);
    let result = acquire_with(source(&polls, 9, || Attempt::Ready(77)));
    assert_eq!(result, Ok(77));
    assert_eq!(polls.get(), 10);
}

#[test]
fn ten_timeouts_are_a_timeout_and_there_is_no_eleventh_poll() {
    let polls = Cell::new(0);
    let result = acquire_with(source(&polls, 10, || Attempt::Ready(77)));
    assert_eq!(result, Err(AcquireError::Timeout));
    assert_eq!(polls.get(), 10);
}

#[test]
fn a_source_that_always_times_out_is_polled_ten_times() {
    let polls = Cell::new(0);
    let result = acquire_with(source(&polls, u32::MAX, || Attempt::Ready(1)));
    assert_eq!(result, Err(AcquireError::Timeout));
    assert_eq!(polls.get(), 10);
}

#[test]
fn an_image_on_the_first_poll_ends_the_request() {
    let polls = Cell::new(0);
    let result = acquire_with(source(&polls, 0, || Attempt::Ready(5)));
    assert_eq!(result, Ok(5));
    assert_eq!(polls.get(), 1);
}

#[test]
fn a_surface_error_is_passed_on_and_not_retried() {
    let polls = Cell::new(0);
    let result = acquire_with(source(&polls, 0, || Attempt::Failed("lost")));
    assert_eq!(result, Err(AcquireError::Surface("lost")));
    assert_eq!(polls.get(), 1);
}

#[test]
fn a_surface_error_after_timeouts_ends_the_request() {
    let polls = Cell::new(0);
    let result = acquire_with(source(&polls, 4, || Attempt::Failed("out of memory")));
    assert_eq!(result, Err(AcquireError::Surface("out of memory")));
    assert_eq!(polls.get(), 5);
}

#[test]
fn a_surface_error_on_the_tenth_poll_is_not_turned_into_a_timeout() {
    let polls = Cell::new(0);
    let result = acquire_with(source(&polls, 9, || Attempt::Failed("outdated")));
    assert_eq!(result, Err(AcquireError::Surface("outdated")));
    assert_eq!(polls.get(), 10);
}

#[test]
fn judge_lets_a_timeout_retry_until_the_last_poll() {
    for made in 0..9u8 {
        assert_eq!(judge::<u32, &str>(made, Attempt::TimedOut), Verdict::Again);
    }
    assert_eq!(
        judge::<u32, &str>(9, Attempt::TimedOut),
        Verdict::Done(Err(AcquireError::Timeout))
    );
}

#[test]
fn judge_never_retries_past_the_last_poll() {
    for made in [10u8, 11, 100, 254, 255] {
        assert_eq!(
            judge::<u32, &str>(made, Attempt::TimedOut),
            Verdict::Done(Err(AcquireError::Timeout))
        );
    }
}

#[test]
fn judge_ends_the_request_on_an_image() {
    assert_eq!(judge::<u32, &str>(0, Attempt::Ready(3)), Verdict::Done(Ok(3)));
    assert_eq!(judge::<u32, &str>(9, Attempt::Ready(4)), Verdict::Done(Ok(4)));
}

#[test]
fn judge_ends_the_request_on_a_surface_error() {
    assert_eq!(
        judge::<u32, &str>(0, Attempt::Failed("lost")),
        Verdict::Done(Err(AcquireError::Surface("lost")))
    );
    assert_eq!(
        judge::<u32, &str>(9, Attempt::Failed("lost")),
        Verdict::Done(Err(AcquireError::Surface("lost")))
    );
}
