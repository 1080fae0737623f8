use crate::sim::GameState;
use tokio::sync::broadcast::error::TryRecvError;
use tokio::sync::broadcast::Receiver;
use vstd::prelude::*;

verus! {

/// How many snapshots the broadcast channel holds for a subscriber before the
/// oldest are dropped for it.
pub const CHANNEL_CAPACITY: usize = 20;

/// tokio's `broadcast::Receiver`: a subscription to the published snapshots,
/// carried through without looking inside.
#[verifier::external_type_specification]
#[verifier::external_body]
#[verifier::reject_recursive_types(T)]
pub struct ExReceiver<T>(Receiver<T>);

/// What one poll of a snapshot subscription gave.
#[derive(Clone, Debug)]
pub enum Polled {
    /// The next snapshot it held.
    Ready(GameState),
    /// Nothing is waiting now.
    Empty,
    /// Snapshots were dropped for it; it now stands at the oldest one kept.
    Lagged,
    /// No snapshot will ever come.
    Closed,
}

/// Relies on tokio's `broadcast::Receiver::try_recv`: takes the next snapshot the
/// subscription holds without waiting, or says why there is none. What comes back
/// depends on the other tasks, so nothing is stated of it.
#[verifier::external_body]
fn poll_subscription(rx: &mut Receiver<GameState>) -> (r: Polled) {
    match rx.try_recv() {
        Ok(s) => Polled::Ready(s),
        Err(TryRecvError::Empty) => Polled::Empty,
        Err(TryRecvError::Lagged(_)) => Polled::Lagged,
        Err(TryRecvError::Closed) => Polled::Closed,
    }
}

/// Folds one poll into the newest snapshot seen so far, and says whether to poll
/// again: a snapshot replaces the one kept, a lag keeps it and polls on, and an
/// empty or closed subscription ends the catch-up.
pub fn keep_newest(newest: Option<GameState>, polled: Polled) -> (r: (Option<GameState>, bool))
    ensures
        polled matches Polled::Ready(s) ==> r == (Some(s), true),
        polled is Lagged ==> r == (newest, true),
        (polled is Empty || polled is Closed) ==> r == (newest, false),
{
    match polled {
        Polled::Ready(s) => (Some(s), true),
        Polled::Lagged => (newest, true),
        Polled::Empty => (newest, false),
        Polled::Closed => (newest, false),
    }
}

/// Most polls one catch-up makes. The channel rounds its capacity up to a power
/// of two, so it never holds as many as twice `CHANNEL_CAPACITY` snapshots.
pub const CATCH_UP_POLLS: usize = 2 * CHANNEL_CAPACITY;

/// The newest snapshot among `polls`: the last one that came ready, or `newest`
/// when none did.
pub open spec fn kept_after(newest: Option<GameState>, polls: Seq<Polled>) -> Option<GameState>
    decreases polls.len(),
{
    if polls.len() == 0 {
        newest
    } else {
        match polls.last() {
            Polled::Ready(s) => Some(s),
            _ => kept_after(newest, polls.drop_last()),
        }
    }
}

/// Skips a lagging subscription to the newest snapshot it holds, making at most
/// `CATCH_UP_POLLS` polls. It returns that snapshot (`None` when none came ready)
/// with the record of the polls: it polls until the subscription is empty or
/// closed, or the limit is reached, and keeps the last snapshot that came.
pub fn newest_snapshot(rx: &mut Receiver<GameState>) -> (r: (Option<GameState>, Ghost<Seq<Polled>>))
    ensures
        0 < r.1@.len() <= CATCH_UP_POLLS,
        r.0 == kept_after(None, r.1@),
        forall|i: int| 0 <= i < r.1@.len() - 1 ==> (#[trigger] r.1@[i] is Ready || r.1@[i] is Lagged),
        r.1@.len() < CATCH_UP_POLLS ==> (r.1@.last() is Empty || r.1@.last() is Closed),
{
    let mut newest: Option<GameState> = None;
    let ghost mut polls: Seq<Polled> = Seq::empty();
    let mut count: usize = 0;
    loop
        invariant_except_break
            count < CATCH_UP_POLLS,
            forall|i: int| 0 <= i < polls.len() ==> (#[trigger] polls[i] is Ready || polls[i] is Lagged),
        invariant
            count == polls.len(),
            newest == kept_after(None, polls),
        ensures
            0 < polls.len() <= CATCH_UP_POLLS,
            newest == kept_after(None, polls),
            forall|i: int| 0 <= i < polls.len() - 1 ==> (#[trigger] polls[i] is Ready || polls[i] is Lagged),
            polls.len() < CATCH_UP_POLLS ==> (polls.last() is Empty || polls.last() is Closed),
        decreases CATCH_UP_POLLS - count,
    {
        let polled = poll_subscription(rx);
        let ghost p = polled;
        let ghost before = polls;
        let (kept, again) = keep_newest(newest, polled);
        proof {
            polls = polls.push(p);
            assert(polls.drop_last() =~= before);
            assert(polls.last() == p);
            assert(forall|i: int| 0 <= i < before.len() ==> polls[i] == before[i]);
        }
        newest = kept;
        count = count + 1;
        if !again || count == CATCH_UP_POLLS {
            break;
        }
    }
    (newest, Ghost(polls))
}

} // verus!
