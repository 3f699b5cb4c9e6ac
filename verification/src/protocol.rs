//! The turn-taking contract between an arbiter and a subject.
//!
//! A *turn* is one full cycle of arbiter-decides followed by subject-reacts.
//! The types here fix the vocabulary of that protocol; the driving loop that
//! plays it lives in [`crate::driver`].

use vstd::prelude::*;

verus! {

/// The three-way decision an arbiter returns each turn.
///
/// `M` is the shared vocabulary of inputs and outputs; `S` explains why a
/// reaction was unacceptable.
#[derive(Debug, Clone, Copy, PartialEq, Eq, Hash, PartialOrd, Ord)]
pub enum Judgment<M, S> {
    /// The reactions were acceptable; present this input next.
    Continue(M),
    /// The reactions were unacceptable, for the given reason; stop.
    Halt(S),
    /// The reactions were acceptable and nothing more is asked; stop.
    Done,
}

/// The arbiter of a cause-effect test: it owns the hidden reference model,
/// chooses each stimulus, and judges the subject's reactions.
///
/// Implementations are expected to be small state machines.  On each call of
/// [`Judge::next`] they must
/// - validate the reactions produced since the previous call, answering
///   `Halt` with a concrete reason on any violation;
/// - answer `Continue` with the next stimulus while further stimulus exists;
/// - answer `Done` once nothing more is asked of the subject; and
/// - fail with `Error` only when their own bookkeeping is broken, which is a
///   defect of the arbiter, not of the subject.
///
/// Every arbiter also keeps a ghost [`Judge::history`] of the calls made to
/// it, so that the driving loop can promise how it used the arbiter.
pub trait Judge: Sized {
    /// Why a reaction was unacceptable.
    type Fault;
    /// One observation presented to the subject, or one reaction produced by
    /// it: the shared vocabulary of the whole exchange.
    type Change;
    /// An internal failure of the arbiter itself.
    type Error;

    /// Ghost record of every call made to [`Judge::next`]: the reactions that
    /// were handed in, paired with the answer that was handed back.
    ///
    /// The default, an empty record for every state, cannot satisfy the
    /// contract of [`Judge::next`]: an arbiter whose calls are to be reasoned
    /// about overrides it, usually with a ghost field it appends to.
    open spec fn history(&self) -> Seq<(Seq<Self::Change>, Result<Judgment<Self::Change, Self::Fault>, Self::Error>)> {
        Seq::empty()
    }

    /// Ghost bound on how many more turns the arbiter can ask for.  Every
    /// `Continue` answer must strictly lower it, which is what lets the
    /// driving loop terminate: exhibiting such a measure is the arbiter
    /// author's termination obligation, and an arbiter that would answer
    /// `Continue` forever admits none.  The default, zero, allows no
    /// `Continue` at all.
    open spec fn measure(&self) -> nat {
        0
    }

    /// Judge the ordered reactions (index 0 earliest) produced by the subject
    /// since the previous call, and decide how the exchange goes on.
    ///
    /// The driving loop makes its first call with an empty vector: that is
    /// the fixed convention by which an arbiter issues its initial stimulus.
    fn next(&mut self, reactions: Vec<Self::Change>) -> (r: Result<Judgment<Self::Change, Self::Fault>, Self::Error>)
        ensures
            final(self).history() == old(self).history().push((reactions@, r)),
            r matches Ok(Judgment::Continue(_)) ==> final(self).measure() < old(self).measure(),
    ;
}

/// The component under test: a stateful reactor that accepts one change and
/// answers with an ordered, possibly empty, list of changes.
///
/// A subject may keep private state across calls, and it may hold reactions
/// back to release them on a later turn; the arbiter decides whether that is
/// acceptable.  Every subject keeps a ghost [`Subject::log`] of its
/// invocations, so that the driving loop can promise how often and with what
/// it was called.
pub trait Subject<M>: Sized {
    /// Ghost record of every invocation: the input received, paired with the
    /// reactions returned.
    ///
    /// The default, an empty record for every state, cannot satisfy the
    /// contract of [`Subject::react`]: a subject whose invocations are to be
    /// reasoned about overrides it.
    open spec fn log(&self) -> Seq<(M, Seq<M>)> {
        Seq::empty()
    }

    /// React to one input with zero or more ordered reactions.
    fn react(&mut self, input: M) -> (out: Vec<M>)
        ensures
            final(self).log() == old(self).log().push((input, out@)),
    ;
}

/// The final result of one completed run: the terminal judgment and the
/// number of turns.
///
/// `judgment` is never `Continue` here: the driving loop consumes every
/// `Continue` by issuing another turn.  `calls` counts how many inputs were
/// delivered to the subject; a suspiciously low count signals an arbiter that
/// stopped early rather than a subject that satisfied every check.
#[derive(Debug, Clone, Copy, PartialEq, Eq, Hash, PartialOrd, Ord)]
pub struct Outcome<J: Judge> {
    /// The terminal judgment of the run.
    pub judgment: Judgment<J::Change, J::Fault>,
    /// How many times the subject was invoked.
    pub calls: usize,
}

impl<J: Judge> Outcome<J> {
    /// Split the outcome into the terminal judgment and the turn count.
    pub fn decompose(self) -> (r: (Judgment<J::Change, J::Fault>, usize))
        ensures
            r == (self.judgment, self.calls),
    {
        (self.judgment, self.calls)
    }
}

/// Says that exactly one run of the driving loop lies between the two
/// snapshots of the arbiter (`j0` to `j1`) and of the subject (`s0` to `s1`).
///
/// Reading the clauses in order: the subject's log only grew; the arbiter was
/// called once more often than the subject; both records kept their past; the
/// first call of the run handed the arbiter an empty reaction list; every
/// non-terminal answer was a `Continue` whose payload became, verbatim, the
/// subject's next input; every reaction list the subject answered was handed,
/// verbatim, to the arbiter on the following call; and the run's last answer
/// was not a `Continue`.
pub open spec fn protocol_run<J: Judge, S: Subject<J::Change>>(j0: J, j1: J, s0: S, s1: S) -> bool {
    let h = j1.history();
    let l = s1.log();
    let hb = j0.history().len() as int;
    let lb = s0.log().len() as int;
    let n = l.len() - lb;
    &&& l.len() >= lb
    &&& h.len() == hb + n + 1
    &&& h.take(hb) == j0.history()
    &&& l.take(lb) == s0.log()
    &&& h[hb].0 == Seq::<J::Change>::empty()
    &&& (forall|i: int| hb <= i < hb + n ==>
            ((#[trigger] h[i]).1 matches Ok(Judgment::Continue(m)) && l[i - hb + lb].0 == m))
    &&& (forall|i: int| lb <= i < lb + n ==> h[i - lb + hb + 1].0 == (#[trigger] l[i]).1)
    &&& !(h.last().1 matches Ok(Judgment::Continue(_)))
}

} // verus!
