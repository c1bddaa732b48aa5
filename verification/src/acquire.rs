//! Bounded retry for acquiring a surface image.
//!
//! A request polls the surface until a poll comes back with anything but a
//! timeout, and gives up with a timeout of its own after the tenth poll.

use vstd::prelude::*;

verus! {

/// How many polls a single request makes at most.
pub const MAX_ATTEMPTS: u8 = 10;

/// What one poll of a surface came back with.
#[derive(Debug, PartialEq, Eq)]
pub enum Attempt<I, E> {
    /// The surface handed out an image.
    Ready(I),
    /// The surface had no image in time. The condition is transient.
    TimedOut,
    /// The surface failed with an error of its own.
    Failed(E),
}

/// Why a request ended without an image.
#[derive(Debug, PartialEq, Eq)]
pub enum AcquireError<E> {
    /// Every one of the request's polls timed out.
    Timeout,
    /// The surface reported an error, which is passed on as it came.
    Surface(E),
}

/// What the retry logic makes of one poll.
#[derive(Debug, PartialEq, Eq)]
pub enum Verdict<I, E> {
    /// The poll timed out and the request may poll again.
    Again,
    /// The request is over, with this result.
    Done(Result<I, AcquireError<E>>),
}

/// The polls of one request, in the order they were made: at least one and at most
/// [`MAX_ATTEMPTS`], every poll before the last one timed out, and the last one
/// timed out only if it was the final poll the request is entitled to.
pub open spec fn is_request<I, E>(polls: Seq<Attempt<I, E>>) -> bool {
    &&& 1 <= polls.len() <= MAX_ATTEMPTS
    &&& forall|k: int| 0 <= k < polls.len() - 1 ==> #[trigger] polls[k] is TimedOut
    &&& polls.last() is TimedOut ==> polls.len() == MAX_ATTEMPTS
}

/// The result of a request that made `polls`: whatever its last poll came back with.
pub open spec fn answer<I, E>(polls: Seq<Attempt<I, E>>) -> Result<I, AcquireError<E>> {
    match polls.last() {
        Attempt::Ready(image) => Ok(image),
        Attempt::TimedOut => Err(AcquireError::Timeout),
        Attempt::Failed(error) => Err(AcquireError::Surface(error)),
    }
}

/// What [`judge`] returns for a poll that came back with `attempt` after `made`
/// earlier polls of the same request.
pub open spec fn verdict<I, E>(made: u8, attempt: Attempt<I, E>) -> Verdict<I, E> {
    match attempt {
        Attempt::Ready(image) => Verdict::Done(Ok(image)),
        Attempt::Failed(error) => Verdict::Done(Err(AcquireError::Surface(error))),
        Attempt::TimedOut => if made + 1 < MAX_ATTEMPTS {
            Verdict::Again
        } else {
            Verdict::Done(Err(AcquireError::Timeout))
        },
    }
}

/// `polls` is a request all of whose polls are possible results of `poll`.
pub open spec fn is_request_of<I, E, F: Fn() -> Attempt<I, E>>(
    polls: Seq<Attempt<I, E>>,
    poll: F,
) -> bool {
    &&& is_request(polls)
    &&& forall|k: int| 0 <= k < polls.len() ==> call_ensures(poll, (), #[trigger] polls[k])
}

/// Decides what follows a poll that came back with `attempt`, when the request
/// had already made `made` polls before it.
///
/// An image or a surface error ends the request at once. A timeout lets it poll
/// again unless this was its last poll.
pub fn judge<I, E>(made: u8, attempt: Attempt<I, E>) -> (v: Verdict<I, E>)
    ensures
        v == verdict(made, attempt),
{
    match attempt {
        Attempt::Ready(image) => Verdict::Done(Ok(image)),
        Attempt::Failed(error) => Verdict::Done(Err(AcquireError::Surface(error))),
        Attempt::TimedOut => {
            if made < MAX_ATTEMPTS - 1 {
                Verdict::Again
            } else {
                Verdict::Done(Err(AcquireError::Timeout))
            }
        },
    }
}

/// Runs one request against `poll`, which is called once per attempt.
///
/// Whatever `poll` does, the calls made form a request in the sense of
/// [`is_request`], and the result is that request's [`answer`]. In particular
/// `poll` is never called an eleventh time.
pub fn acquire_with<I, E, F: Fn() -> Attempt<I, E>>(poll: F) -> (r: Result<I, AcquireError<E>>)
    requires
        call_requires(poll, ()),
    ensures
        exists|polls: Seq<Attempt<I, E>>| #[trigger] is_request_of(polls, poll) && r == answer(polls),
{
    let ghost mut polls: Seq<Attempt<I, E>> = Seq::empty();
    let mut made: u8 = 0;
    loop
        invariant
            call_requires(poll, ()),
            made < MAX_ATTEMPTS,
            polls.len() == made,
            forall|k: int| 0 <= k < polls.len() ==> #[trigger] polls[k] is TimedOut,
            forall|k: int| 0 <= k < polls.len() ==> call_ensures(poll, (), #[trigger] polls[k]),
        decreases MAX_ATTEMPTS - made,
    {
        let attempt = poll();
        proof {
            polls = polls.push(attempt);
        }
        match judge(made, attempt) {
            Verdict::Done(result) => {
                assert(is_request_of(polls, poll));
                return result;
            },
            Verdict::Again => {
                made = made + 1;
            },
        }
    }
}

/// A source that times out nine times and then hands out an image is answered
/// with that image, on the tenth poll.
pub proof fn lemma_ninth_timeout_is_not_final<I, E>(polls: Seq<Attempt<I, E>>, image: I)
    requires
        polls.len() == 10,
        forall|k: int| 0 <= k < 9 ==> #[trigger] polls[k] is TimedOut,
        polls[9] == Attempt::<I, E>::Ready(image),
    ensures
        is_request(polls),
        answer(polls) == Ok::<I, AcquireError<E>>(image),
{
}

/// A source that times out ten times is answered with a timeout, and the request
/// does not go on to an eleventh poll, whatever that poll would have come back with.
pub proof fn lemma_tenth_timeout_is_final<I, E>(polls: Seq<Attempt<I, E>>, next: Attempt<I, E>)
    requires
        polls.len() == 10,
        forall|k: int| 0 <= k < 10 ==> #[trigger] polls[k] is TimedOut,
    ensures
        is_request(polls),
        answer(polls) == Err::<I, AcquireError<E>>(AcquireError::Timeout),
        !is_request(polls.push(next)),
{
}

/// A request ends with its first poll that is not a timeout: no request goes on
/// after an image or a surface error.
pub proof fn lemma_request_ends_when_settled<I, E>(polls: Seq<Attempt<I, E>>, k: int)
    requires
        is_request(polls),
        0 <= k < polls.len(),
        !(polls[k] is TimedOut),
    ensures
        k == polls.len() - 1,
{
}

/// A request reports a timeout only after it has made all of its polls and every
/// one of them timed out.
pub proof fn lemma_timeout_takes_every_poll<I, E>(polls: Seq<Attempt<I, E>>)
    requires
        is_request(polls),
        answer(polls) == Err::<I, AcquireError<E>>(AcquireError::Timeout),
    ensures
        polls.len() == MAX_ATTEMPTS,
        forall|k: int| 0 <= k < polls.len() ==> #[trigger] polls[k] is TimedOut,
{
}

/// Polls that are judged one by one make up a request: if every poll but the
/// last was judged to be tried again and the last was judged to end the
/// request, then the polls are a request, and the result that the last poll
/// was judged to end it with is the request's answer.
pub proof fn lemma_judged_polls_are_a_request<I, E>(polls: Seq<Attempt<I, E>>)
    requires
        1 <= polls.len() <= u8::MAX,
        forall|k: int| 0 <= k < polls.len() - 1 ==> verdict(k as u8, #[trigger] polls[k]) is Again,
        verdict((polls.len() - 1) as u8, polls.last()) is Done,
    ensures
        is_request(polls),
        verdict((polls.len() - 1) as u8, polls.last()) == Verdict::Done(answer(polls)),
{
    if polls.len() >= 2 {
        let before = polls.len() - 2;
        assert(verdict(before as u8, polls[before]) is Again);
    }
}

} // verus!
