//! Waiting for acknowledgements: the waiters registered by packet number,
//! and the steps of a send that is retried once when no acknowledgement
//! comes.
use std::collections::HashMap;
use vstd::prelude::*;

verus! {

broadcast use vstd::std_specs::hash::group_hash_axioms;

/// The waiters for acknowledgements, one per packet number. The waiter
/// type is whatever the caller completes when the acknowledgement comes.
pub struct AckTracker<T> {
    pending_acks: HashMap<u32, T>,
}

impl<T> AckTracker<T> {
    /// The waiter registered for each packet number that is waited for.
    pub closed spec fn waiters(&self) -> Map<u32, T> {
        self.pending_acks@
    }

    /// The packet numbers that are waited for.
    pub open spec fn waiting(&self) -> Set<u32> {
        self.waiters().dom()
    }

    /// A tracker with no waiter.
    pub fn new() -> (res: AckTracker<T>)
        ensures
            res.waiters() == Map::<u32, T>::empty(),
    {
        AckTracker { pending_acks: HashMap::new() }
    }

    /// Registers `waiter` for `packet_no`, replacing one already there.
    pub fn track(&mut self, packet_no: u32, waiter: T)
        ensures
            final(self).waiters() == old(self).waiters().insert(packet_no, waiter),
    {
        self.pending_acks.insert(packet_no, waiter);
    }

    /// The acknowledgement of `packet_no` came: hands out the waiter
    /// registered for it, if any, and forgets it; the other waiters stay.
    pub fn ack(&mut self, packet_no: u32) -> (res: Option<T>)
        ensures
            res == (if old(self).waiters().contains_key(packet_no) {
                Some(old(self).waiters()[packet_no])
            } else {
                None
            }),
            final(self).waiters() == old(self).waiters().remove(packet_no),
    {
        self.pending_acks.remove(&packet_no)
    }

    /// Forgets the waiter for `packet_no`, if any; the other waiters stay.
    pub fn remove(&mut self, packet_no: u32)
        ensures
            final(self).waiters() == old(self).waiters().remove(packet_no),
    {
        let _ = self.pending_acks.remove(&packet_no);
    }
}

/// Where a send that waits for its acknowledgement stands.
#[derive(Debug, Clone, Copy, PartialEq, Eq, Structural)]
pub enum AckWait {
    SendingFirst,
    WaitingFirst,
    SendingRetry,
    WaitingRetry,
    Done,
}

/// What happened since the last step.
#[derive(Debug, Clone, Copy, PartialEq, Eq, Structural)]
pub enum AckSignal {
    SendOk,
    SendFailed,
    Acked,
    TimedOut,
}

/// How a send that waits for its acknowledgement ends.
#[derive(Debug, Clone, Copy, PartialEq, Eq, Structural)]
pub enum AckOutcome {
    Acknowledged,
    SendFailed,
    TimedOut,
}

/// What to do next.
#[derive(Debug, Clone, Copy, PartialEq, Eq, Structural)]
pub enum AckCommand {
    /// Wait two seconds for the acknowledgement.
    Wait,
    /// Forget the waiter, register a new one and send the packet again.
    Retry,
    /// Forget the waiter and stop with this outcome.
    GiveUp(AckOutcome),
    /// Stop with this outcome; the acknowledgement took the waiter.
    Finish(AckOutcome),
    /// Nothing: the signal does not fit the state.
    Ignore,
}

/// One step of a send that is retried once: a failed send ends it and
/// forgets the waiter, an acknowledgement ends it well, the first timeout
/// sends again, the second forgets the waiter and ends in a timeout.
pub open spec fn ack_transition(state: AckWait, signal: AckSignal) -> (AckWait, AckCommand) {
    match (state, signal) {
        (AckWait::SendingFirst, AckSignal::SendOk) => (AckWait::WaitingFirst, AckCommand::Wait),
        (AckWait::SendingRetry, AckSignal::SendOk) => (AckWait::WaitingRetry, AckCommand::Wait),
        (AckWait::SendingFirst, AckSignal::SendFailed) => (
            AckWait::Done,
            AckCommand::GiveUp(AckOutcome::SendFailed),
        ),
        (AckWait::SendingRetry, AckSignal::SendFailed) => (
            AckWait::Done,
            AckCommand::GiveUp(AckOutcome::SendFailed),
        ),
        (AckWait::WaitingFirst, AckSignal::Acked) => (
            AckWait::Done,
            AckCommand::Finish(AckOutcome::Acknowledged),
        ),
        (AckWait::WaitingRetry, AckSignal::Acked) => (
            AckWait::Done,
            AckCommand::Finish(AckOutcome::Acknowledged),
        ),
        (AckWait::WaitingFirst, AckSignal::TimedOut) => (AckWait::SendingRetry, AckCommand::Retry),
        (AckWait::WaitingRetry, AckSignal::TimedOut) => (
            AckWait::Done,
            AckCommand::GiveUp(AckOutcome::TimedOut),
        ),
        _ => (state, AckCommand::Ignore),
    }
}

/// The next step of a send that waits for its acknowledgement.
pub fn ack_step(state: AckWait, signal: AckSignal) -> (res: (AckWait, AckCommand))
    ensures
        res == ack_transition(state, signal),
        (state == AckWait::WaitingFirst || state == AckWait::WaitingRetry) && signal == AckSignal::Acked
            ==> res == (AckWait::Done, AckCommand::Finish(AckOutcome::Acknowledged)),
        res.1 == AckCommand::GiveUp(AckOutcome::TimedOut) ==> signal == AckSignal::TimedOut,
{
    match (state, signal) {
        (AckWait::SendingFirst, AckSignal::SendOk) => (AckWait::WaitingFirst, AckCommand::Wait),
        (AckWait::SendingRetry, AckSignal::SendOk) => (AckWait::WaitingRetry, AckCommand::Wait),
        (AckWait::SendingFirst, AckSignal::SendFailed) => (
            AckWait::Done,
            AckCommand::GiveUp(AckOutcome::SendFailed),
        ),
        (AckWait::SendingRetry, AckSignal::SendFailed) => (
            AckWait::Done,
            AckCommand::GiveUp(AckOutcome::SendFailed),
        ),
        (AckWait::WaitingFirst, AckSignal::Acked) => (
            AckWait::Done,
            AckCommand::Finish(AckOutcome::Acknowledged),
        ),
        (AckWait::WaitingRetry, AckSignal::Acked) => (
            AckWait::Done,
            AckCommand::Finish(AckOutcome::Acknowledged),
        ),
        (AckWait::WaitingFirst, AckSignal::TimedOut) => (AckWait::SendingRetry, AckCommand::Retry),
        (AckWait::WaitingRetry, AckSignal::TimedOut) => (
            AckWait::Done,
            AckCommand::GiveUp(AckOutcome::TimedOut),
        ),
        _ => (state, AckCommand::Ignore),
    }
}

/// How many more steps a send can take at most.
pub open spec fn ack_rank(s: AckWait) -> nat {
    match s {
        AckWait::SendingFirst => 4,
        AckWait::WaitingFirst => 3,
        AckWait::SendingRetry => 2,
        AckWait::WaitingRetry => 1,
        AckWait::Done => 0,
    }
}

/// Every step that does something brings the send closer to its end, so
/// a packet is sent at most twice and the wait ends after at most four
/// steps; only the second timeout ends in a timeout.
pub proof fn lemma_ack_progress(state: AckWait, signal: AckSignal)
    ensures
        ack_transition(state, signal).1 != AckCommand::Ignore ==> ack_rank(
            ack_transition(state, signal).0,
        ) < ack_rank(state),
        ack_transition(state, signal).1 == AckCommand::GiveUp(AckOutcome::TimedOut) ==> state
            == AckWait::WaitingRetry,
        ack_transition(state, signal).1 == AckCommand::Retry ==> state == AckWait::WaitingFirst,
{
}


/// However a send that waits for its acknowledgement ends, no waiter is
/// left behind: it ends either by forgetting the waiter (a failed send, or
/// the second timeout) or on the acknowledgement, which takes the waiter
/// (`AckTracker::ack`).
pub proof fn lemma_ack_leaves_no_waiter(state: AckWait, signal: AckSignal)
    ensures
        state != AckWait::Done && ack_transition(state, signal).0 == AckWait::Done ==> (
        ack_transition(state, signal).1 matches AckCommand::GiveUp(_)) || (signal == AckSignal::Acked
            && ack_transition(state, signal).1 == AckCommand::Finish(AckOutcome::Acknowledged)),
        ack_transition(state, signal).1 matches AckCommand::Finish(_) ==> signal == AckSignal::Acked,
{
}


/// Where a send stands after the signals `ss`, from `state`.
pub open spec fn ack_run(state: AckWait, ss: Seq<AckSignal>) -> AckWait
    decreases ss.len(),
{
    if ss.len() == 0 {
        state
    } else {
        ack_transition(ack_run(state, ss.drop_last()), ss.last()).0
    }
}

/// What a send does on the signal at position `i` of `ss`.
pub open spec fn ack_command_at(ss: Seq<AckSignal>, i: int) -> AckCommand {
    ack_transition(ack_run(AckWait::SendingFirst, ss.take(i)), ss[i]).1
}

/// Whether a command ends the send.
pub open spec fn ends_send(c: AckCommand) -> bool {
    c matches AckCommand::GiveUp(_) || c matches AckCommand::Finish(_)
}

/// Whether the send retried on one of the signals before position `i`.
#[verifier::opaque]
pub open spec fn retried_before(ss: Seq<AckSignal>, i: int) -> bool {
    exists|j: int| 0 <= j < i && #[trigger] ack_command_at(ss, j) == AckCommand::Retry
}

proof fn lemma_run_step(ss: Seq<AckSignal>, i: int)
    requires
        0 <= i < ss.len(),
    ensures
        ack_run(AckWait::SendingFirst, ss.take(i + 1)) == ack_transition(
            ack_run(AckWait::SendingFirst, ss.take(i)),
            ss[i],
        ).0,
{
    assert(ss.take(i + 1).drop_last() =~= ss.take(i));
}

/// Steps never move a send back.
proof fn lemma_run_rank(ss: Seq<AckSignal>, i: int, j: int)
    requires
        0 <= i <= j <= ss.len(),
    ensures
        ack_rank(ack_run(AckWait::SendingFirst, ss.take(j))) <= ack_rank(
            ack_run(AckWait::SendingFirst, ss.take(i)),
        ),
    decreases j - i,
{
    if j > i {
        lemma_run_rank(ss, i, j - 1);
        lemma_run_step(ss, j - 1);
        lemma_ack_progress(ack_run(AckWait::SendingFirst, ss.take(j - 1)), ss[j - 1]);
    }
}

/// A send that is waiting on its second try has retried before.
proof fn lemma_second_try_follows_retry(ss: Seq<AckSignal>, i: int)
    requires
        0 <= i <= ss.len(),
        ack_run(AckWait::SendingFirst, ss.take(i)) == AckWait::SendingRetry || ack_run(
            AckWait::SendingFirst,
            ss.take(i),
        ) == AckWait::WaitingRetry,
    ensures
        exists|j: int| 0 <= j < i && #[trigger] ack_command_at(ss, j) == AckCommand::Retry,
    decreases i,
{
    if i == 0 {
        assert(ss.take(0) =~= Seq::<AckSignal>::empty());
    } else {
        lemma_run_step(ss, i - 1);
        let prev = ack_run(AckWait::SendingFirst, ss.take(i - 1));
        if prev == AckWait::SendingRetry || prev == AckWait::WaitingRetry {
            lemma_second_try_follows_retry(ss, i - 1);
            let j = choose|j: int| 0 <= j < i - 1 && #[trigger] ack_command_at(ss, j) == AckCommand::Retry;
            assert(ack_command_at(ss, j) == AckCommand::Retry);
        } else {
            assert(ack_command_at(ss, i - 1) == AckCommand::Retry);
        }
    }
}

/// A send that is over was ended by a command: forgetting its waiter or
/// taking the acknowledgement.
proof fn lemma_done_was_ended(ss: Seq<AckSignal>, i: int)
    requires
        0 <= i <= ss.len(),
        ack_run(AckWait::SendingFirst, ss.take(i)) == AckWait::Done,
    ensures
        exists|j: int| 0 <= j < i && ends_send(#[trigger] ack_command_at(ss, j)),
    decreases i,
{
    if i == 0 {
        assert(ss.take(0) =~= Seq::<AckSignal>::empty());
    } else {
        lemma_run_step(ss, i - 1);
        let prev = ack_run(AckWait::SendingFirst, ss.take(i - 1));
        if prev == AckWait::Done {
            lemma_done_was_ended(ss, i - 1);
            let j = choose|j: int| 0 <= j < i - 1 && ends_send(#[trigger] ack_command_at(ss, j));
            assert(ends_send(ack_command_at(ss, j)));
        } else {
            assert(ends_send(ack_command_at(ss, i - 1)));
        }
    }
}

proof fn lemma_one_retry(ss: Seq<AckSignal>)
    ensures
        forall|i: int, j: int|
            0 <= i < j < ss.len() && #[trigger] ack_command_at(ss, i) == AckCommand::Retry
                ==> #[trigger] ack_command_at(ss, j) != AckCommand::Retry,
{
    assert forall|i: int, j: int|
        0 <= i < j < ss.len() && #[trigger] ack_command_at(ss, i) == AckCommand::Retry
            implies #[trigger] ack_command_at(ss, j) != AckCommand::Retry by {
        lemma_run_step(ss, i);
        lemma_run_rank(ss, i + 1, j);
    }
}

proof fn lemma_nothing_after_end(ss: Seq<AckSignal>)
    ensures
        forall|i: int, j: int|
            0 <= i < j < ss.len() && ends_send(#[trigger] ack_command_at(ss, i))
                ==> #[trigger] ack_command_at(ss, j) == AckCommand::Ignore,
{
    assert forall|i: int, j: int|
        0 <= i < j < ss.len() && ends_send(#[trigger] ack_command_at(ss, i))
            implies #[trigger] ack_command_at(ss, j) == AckCommand::Ignore by {
        lemma_run_step(ss, i);
        lemma_run_rank(ss, i + 1, j);
    }
}

proof fn lemma_finish_on_ack(ss: Seq<AckSignal>)
    ensures
        forall|i: int|
            0 <= i < ss.len() && (#[trigger] ack_command_at(ss, i) is Finish) ==> ack_command_at(ss, i)
                == AckCommand::Finish(AckOutcome::Acknowledged) && ss[i] == AckSignal::Acked,
{
}

proof fn lemma_timeout_after_retry(ss: Seq<AckSignal>)
    ensures
        forall|i: int|
            0 <= i < ss.len() && #[trigger] ack_command_at(ss, i) == AckCommand::GiveUp(
                AckOutcome::TimedOut,
            ) ==> retried_before(ss, i),
{
    assert forall|i: int|
        0 <= i < ss.len() && #[trigger] ack_command_at(ss, i) == AckCommand::GiveUp(AckOutcome::TimedOut)
            implies retried_before(ss, i) by {
        lemma_ack_progress(ack_run(AckWait::SendingFirst, ss.take(i)), ss[i]);
        lemma_second_try_follows_retry(ss, i);
        reveal(retried_before);
    }
}

proof fn lemma_over_means_ended(ss: Seq<AckSignal>)
    ensures
        ack_run(AckWait::SendingFirst, ss) == AckWait::Done ==> exists|i: int|
            0 <= i < ss.len() && ends_send(#[trigger] ack_command_at(ss, i)),
{
    if ack_run(AckWait::SendingFirst, ss) == AckWait::Done {
        assert(ss.take(ss.len() as int) =~= ss);
        lemma_done_was_ended(ss, ss.len() as int);
    }
}

/// A whole send that waits for its acknowledgement, whatever the signals
/// `ss` that come in: the packet is sent again at most once, so at most
/// twice in all; the send ends at most once and does nothing after; it
/// ends well only on an acknowledgement, and in a timeout only on its
/// second try; and once it is over, its waiter was either forgotten or
/// taken by the acknowledgement, so none is left behind.
pub proof fn lemma_whole_send(ss: Seq<AckSignal>)
    ensures
        forall|i: int, j: int|
            0 <= i < j < ss.len() && #[trigger] ack_command_at(ss, i) == AckCommand::Retry
                ==> #[trigger] ack_command_at(ss, j) != AckCommand::Retry,
        forall|i: int, j: int|
            0 <= i < j < ss.len() && ends_send(#[trigger] ack_command_at(ss, i))
                ==> #[trigger] ack_command_at(ss, j) == AckCommand::Ignore,
        forall|i: int|
            0 <= i < ss.len() && (#[trigger] ack_command_at(ss, i) is Finish) ==> ack_command_at(ss, i)
                == AckCommand::Finish(AckOutcome::Acknowledged) && ss[i] == AckSignal::Acked,
        forall|i: int|
            0 <= i < ss.len() && #[trigger] ack_command_at(ss, i) == AckCommand::GiveUp(
                AckOutcome::TimedOut,
            ) ==> retried_before(ss, i),
        ack_run(AckWait::SendingFirst, ss) == AckWait::Done ==> exists|i: int|
            0 <= i < ss.len() && ends_send(#[trigger] ack_command_at(ss, i)),
{
    lemma_one_retry(ss);
    lemma_nothing_after_end(ss);
    lemma_finish_on_ack(ss);
    lemma_timeout_after_retry(ss);
    lemma_over_means_ended(ss);
}


/// An acknowledgement that comes while the send waits for it, on its
/// first try or after the retry, ends the send well; a send ends in a
/// timeout only on a timeout, and a failed send only on a failed send.
pub proof fn lemma_ack_ends_well(state: AckWait, signal: AckSignal)
    ensures
        (state == AckWait::WaitingFirst || state == AckWait::WaitingRetry) && signal == AckSignal::Acked
            ==> ack_transition(state, signal) == (AckWait::Done, AckCommand::Finish(AckOutcome::Acknowledged)),
        ack_transition(state, signal).1 == AckCommand::GiveUp(AckOutcome::TimedOut) ==> signal
            == AckSignal::TimedOut,
        ack_transition(state, signal).1 == AckCommand::GiveUp(AckOutcome::SendFailed) ==> signal
            == AckSignal::SendFailed,
{
}

} // verus!
