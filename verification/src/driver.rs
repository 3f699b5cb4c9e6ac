//! The driving loop, and a strict wrapper around it.
//!
//! The loop is the only control-flow authority of a run and knows nothing
//! about the meaning of the changes it carries back and forth.  It alternates
//! between the arbiter and the subject and stops at the arbiter's first
//! non-`Continue` answer.

use vstd::prelude::*;

verus! {

use crate::protocol::{protocol_run, Judge, Judgment, Outcome, Subject};

/// Drive one full run of the subject under the arbiter.
///
/// The arbiter is asked first, with an empty reaction list.  Each `Continue`
/// answer has its payload delivered to the subject, whose reactions are
/// handed, verbatim, to the arbiter on the following call.  The first `Done`
/// or `Halt` answer ends the run as its [`Outcome`]; an internal error of the
/// arbiter ends the run with that error and no outcome.  The loop itself
/// places no bound on the number of turns: an arbiter that answers `Continue`
/// forever makes the run diverge.
///
/// The contract says that the ghost records of both parties advanced by
/// exactly one run of this protocol ([`protocol_run`]), that the returned
/// judgment is never `Continue`, and that `calls` counts the subject's
/// invocations (saturating only at the unreachable top of `usize`).
pub fn judge<J: Judge, S: Subject<J::Change>>(arbiter: &mut J, subject: &mut S) -> (r: Result<
    Outcome<J>,
    J::Error,
>)
    ensures
        protocol_run(*old(arbiter), *final(arbiter), *old(subject), *final(subject)),
        ({
            let last = final(arbiter).history().last().1;
            let n = final(subject).log().len() - old(subject).log().len();
            let capped: int = if n <= usize::MAX as int {
                n as int
            } else {
                usize::MAX as int
            };
            match r {
                Ok(o) => {
                    &&& last == Ok::<Judgment<J::Change, J::Fault>, J::Error>(o.judgment)
                    &&& !(o.judgment is Continue)
                    &&& o.calls == capped
                },
                Err(e) => last == Err::<Judgment<J::Change, J::Fault>, J::Error>(e),
            }
        }),
{
    let ghost hb = old(arbiter).history().len() as int;
    let ghost lb = old(subject).log().len() as int;
    let mut outputs: Vec<J::Change> = Vec::new();
    let mut calls: usize = 0;
    let ghost mut n: int = 0;
    loop
        invariant
            hb == old(arbiter).history().len(),
            lb == old(subject).log().len(),
            n >= 0,
            subject.log().len() == lb + n,
            arbiter.history().len() == hb + n,
            arbiter.history().take(hb) == old(arbiter).history(),
            subject.log().take(lb) == old(subject).log(),
            n > 0 ==> arbiter.history()[hb].0 == Seq::<J::Change>::empty(),
            outputs@ == if n == 0 {
                Seq::<J::Change>::empty()
            } else {
                subject.log().last().1
            },
            forall|i: int|
                hb <= i < hb + n ==> ((#[trigger] arbiter.history()[i]).1 matches Ok(
                    Judgment::Continue(m),
                ) && subject.log()[i - hb + lb].0 == m),
            forall|i: int|
                lb <= i && i + 1 < lb + n ==> arbiter.history()[i - lb + hb + 1].0 == (
                #[trigger] subject.log()[i]).1,
            calls as int == if n <= usize::MAX as int {
                n
            } else {
                usize::MAX as int
            },
        decreases arbiter.measure(),
    {
        let ghost outs = outputs@;
        let verdict = arbiter.next(outputs);
        let ghost gv = verdict;
        proof {
            assert(arbiter.history().take(hb) =~= old(arbiter).history());
        }
        match verdict {
            Ok(Judgment::Continue(input)) => {
                let reactions = subject.react(input);
                outputs = reactions;
                if calls < usize::MAX {
                    calls = calls + 1;
                }
                proof {
                    n = n + 1;
                    assert(subject.log().take(lb) =~= old(subject).log());
                }
            },
            Ok(terminal) => {
                proof {
                    assert(!(gv matches Ok(Judgment::Continue(_))));
                }
                return Ok(Outcome { judgment: terminal, calls });
            },
            Err(e) => {
                return Err(e);
            },
        }
    }
}

/// How a strict run failed.  The three categories stay programmatically
/// distinguishable, and their [`Failure::label`]s stay textually
/// distinguishable.
pub enum Failure<J: Judge> {
    /// The subject produced an unacceptable reaction: the arbiter's `Halt`
    /// reason, together with the turn count at which it came.
    SubjectFault { calls: usize, fault: J::Fault },
    /// The arbiter itself is defective: its terminal answer was a `Continue`.
    ArbiterDefect { calls: usize },
    /// The arbiter's own bookkeeping failed: its internal error.
    InternalError { error: J::Error },
}

impl<J: Judge> Failure<J> {
    /// A short label naming the failure's category.  The three labels are
    /// pairwise distinct ([`lemma_labels_distinct`]), so reports built on
    /// them keep the categories apart.
    pub fn label(&self) -> (r: &'static str)
        ensures
            self is SubjectFault ==> r@ == "subject fault"@,
            self is ArbiterDefect ==> r@ == "judge fault"@,
            self is InternalError ==> r@ == "judge fail (internal error)"@,
    {
        match self {
            Failure::SubjectFault { .. } => "subject fault",
            Failure::ArbiterDefect { .. } => "judge fault",
            Failure::InternalError { .. } => "judge fail (internal error)",
        }
    }
}

/// The three failure labels are pairwise distinct, so a caller that looks
/// only at [`Failure::label`] can still tell a defective subject from a
/// defective arbiter and from an arbiter's internal error.
pub proof fn lemma_labels_distinct()
    ensures
        "subject fault"@ != "judge fault"@,
        "subject fault"@ != "judge fail (internal error)"@,
        "judge fault"@ != "judge fail (internal error)"@,
{
    reveal_strlit("subject fault");
    reveal_strlit("judge fault");
    reveal_strlit("judge fail (internal error)");
    assert("subject fault"@.len() == 13);
    assert("judge fault"@.len() == 11);
    assert("judge fail (internal error)"@.len() == 27);
}

/// Like [`judge`], but for callers that want hard failures: only a run that
/// ends in `Done` comes back as `Ok`, with its turn count; everything else
/// comes back as the [`Failure`] category it belongs to, carrying the same
/// turn count and diagnostic the plain driver would report.
pub fn judge_panic<J: Judge, S: Subject<J::Change>>(arbiter: &mut J, subject: &mut S) -> (r: Result<
    usize,
    Failure<J>,
>)
    ensures
        protocol_run(*old(arbiter), *final(arbiter), *old(subject), *final(subject)),
        ({
            let last = final(arbiter).history().last().1;
            let n = final(subject).log().len() - old(subject).log().len();
            let capped: int = if n <= usize::MAX as int {
                n as int
            } else {
                usize::MAX as int
            };
            match r {
                Ok(c) => {
                    &&& last == Ok::<Judgment<J::Change, J::Fault>, J::Error>(Judgment::Done)
                    &&& c == capped
                },
                Err(f) => match f {
                    Failure::SubjectFault { calls, fault } => {
                        &&& last == Ok::<Judgment<J::Change, J::Fault>, J::Error>(
                            Judgment::Halt(fault),
                        )
                        &&& calls == capped
                    },
                    Failure::ArbiterDefect { calls } => {
                        &&& (last matches Ok(Judgment::Continue(_)))
                        &&& calls == capped
                    },
                    Failure::InternalError { error } => last == Err::<
                        Judgment<J::Change, J::Fault>,
                        J::Error,
                    >(error),
                },
            }
        }),
{
    match judge(arbiter, subject) {
        Ok(outcome) => {
            let (judgment, count) = outcome.decompose();
            match judgment {
                Judgment::Done => Ok(count),
                Judgment::Halt(why) => Err(Failure::SubjectFault { calls: count, fault: why }),
                Judgment::Continue(_) => Err(Failure::ArbiterDefect { calls: count }),
            }
        },
        Err(e) => Err(Failure::InternalError { error: e }),
    }
}

} // verus!
