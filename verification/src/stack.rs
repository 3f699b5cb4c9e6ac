//! A worked arbiter: judging a LIFO structure, with buffering allowed.
//!
//! The arbiter scripts a list of pushes and pops, simulates them on a
//! reference stack, and keeps a queue of the values the subject still owes
//! for the pops already issued.  The subject may hold those answers back and
//! release several at once on a later turn — the buffering doctrine: only as
//! many leading entries of the expectation queue are compared as the subject
//! actually produced this turn, an unmatched expectation simply stays in the
//! queue, and under-production is never a fault by itself.  The arbiter
//! faults only on over-production (more reactions than outstanding
//! expectations), on a produced value that disagrees with the next expected
//! one, and on a reaction that only the arbiter itself may utter.  A script
//! that ends with expectations still outstanding is a valid `Done`, because
//! nothing ever forces a flush.

use std::collections::VecDeque;
use vstd::prelude::*;

verus! {

use crate::decimal::decimal;
use crate::protocol::{Judge, Judgment};

/// One change in the universe a stack lives in: a command to push or pop,
/// uttered by the arbiter, or a popped value (`None` for "nothing yet"),
/// reported by the subject.
#[derive(Debug, Clone, Copy, PartialEq, Eq)]
pub enum StackChange {
    /// Arbiter: push this value.
    Push(i32),
    /// Arbiter: pop the top value.
    Pop,
    /// Subject: the value a pop produced, or `None` while it holds answers
    /// back.
    Value(Option<i32>),
}

/// The mathematical state of a [`StackJudge`]: the script still to play, the
/// reference stack, and the queue of values the subject still owes.
pub ghost struct StackModel {
    /// The pushes and pops not yet issued, earliest first.
    pub scenario: Seq<StackChange>,
    /// The reference stack, bottom first.
    pub ref_impl: Seq<i32>,
    /// The values the subject still owes for the pops already issued,
    /// earliest owed first.
    pub expect: Seq<i32>,
}

/// How one turn's comparison of reactions against owed values ended.
pub enum Scan {
    /// Every reaction matched the value owed at its position.
    Clean,
    /// The subject signalled `Value(None)`: it is holding answers back, and
    /// the comparison stops there.
    Buffer,
    /// A reported value disagreed with the owed one: expected, got.
    Bad(i32, i32),
    /// The subject uttered a change only the arbiter may utter.
    Foreign,
}

/// Compare reactions, from position `k` on, against the owed values at the
/// same positions; the first divergence decides.  Returns the position where
/// comparing stopped and why.
pub open spec fn scan_from(expect: Seq<i32>, reactions: Seq<StackChange>, k: int) -> (int, Scan)
    decreases reactions.len() - k,
{
    if k < 0 || k >= reactions.len() {
        (k, Scan::Clean)
    } else {
        match reactions[k] {
            StackChange::Value(opt) => match opt {
                Some(v) => if v == expect[k] {
                    scan_from(expect, reactions, k + 1)
                } else {
                    (k, Scan::Bad(expect[k], v))
                },
                None => (k, Scan::Buffer),
            },
            _ => (k, Scan::Foreign),
        }
    }
}

/// [`scan_from`] at the start of the turn's reactions.
pub open spec fn scan(expect: Seq<i32>, reactions: Seq<StackChange>) -> (int, Scan) {
    scan_from(expect, reactions, 0)
}

/// The fault text for a value that disagreed with the owed one.
pub open spec fn mismatch_text(expected: int, got: int) -> Seq<char> {
    "expected "@ + decimal(expected) + ", got "@ + decimal(got)
}

/// What one call of the arbiter answered, at the level of the model.
pub enum StepResult {
    /// The subject is at fault, for this reason.
    Halted(Seq<char>),
    /// The reactions were acceptable; this is the next command.
    Continued(StackChange),
    /// The reactions were acceptable and the script is exhausted.
    Finished,
    /// The arbiter's own simulation is broken, for this reason.
    Failed(Seq<char>),
}

/// Play the next script entry on the reference stack, once the turn's
/// reactions have been accepted.
pub open spec fn advance_script(m: StackModel) -> (StackModel, StepResult) {
    if m.scenario.len() == 0 {
        (m, StepResult::Finished)
    } else {
        let act = m.scenario[0];
        let rest = m.scenario.skip(1);
        match act {
            StackChange::Push(x) => (
                StackModel { scenario: rest, ref_impl: m.ref_impl.push(x), ..m },
                StepResult::Continued(act),
            ),
            StackChange::Pop => if m.ref_impl.len() > 0 {
                (
                    StackModel {
                        scenario: rest,
                        ref_impl: m.ref_impl.drop_last(),
                        expect: m.expect.push(m.ref_impl.last()),
                    },
                    StepResult::Continued(act),
                )
            } else {
                (
                    StackModel { scenario: rest, ..m },
                    StepResult::Failed("bad sim: more pops than pushes"@),
                )
            },
            StackChange::Value(_) => (
                StackModel { scenario: rest, ..m },
                StepResult::Failed("bad sim: Value in scenario"@),
            ),
        }
    }
}

/// One whole call of the arbiter: reject over-production outright, compare
/// the reactions against the owed values, consume exactly the compared
/// prefix of the queue, and, if the reactions were acceptable, play the next
/// script entry.
pub open spec fn step(m: StackModel, reactions: Seq<StackChange>) -> (StackModel, StepResult) {
    if reactions.len() > m.expect.len() {
        (m, StepResult::Halted("too many reactions"@))
    } else {
        let (k, code) = scan(m.expect, reactions);
        match code {
            Scan::Bad(e, g) => (
                StackModel { expect: m.expect.skip(k + 1), ..m },
                StepResult::Halted(mismatch_text(e as int, g as int)),
            ),
            Scan::Foreign => (
                StackModel { expect: m.expect.skip(k), ..m },
                StepResult::Halted("undefined response from stack"@),
            ),
            _ => advance_script(StackModel { expect: m.expect.skip(k), ..m }),
        }
    }
}

/// Says that the exec answer `r` is the model answer `sr`.
pub open spec fn step_matches(
    r: Result<Judgment<StackChange, String>, String>,
    sr: StepResult,
) -> bool {
    match sr {
        StepResult::Halted(t) => r matches Ok(Judgment::Halt(s)) && s@ == t,
        StepResult::Continued(c) => r matches Ok(Judgment::Continue(m)) && m == c,
        StepResult::Finished => r matches Ok(Judgment::Done),
        StepResult::Failed(t) => r matches Err(e) && e@ == t,
    }
}

/// An arbiter for a stack, with buffering allowed.
///
/// Its whole behaviour is the model function [`step`]: each call of `next`
/// takes the model from `self@` to `step(self@, reactions@).0` and answers
/// `step(self@, reactions@).1`.
pub struct StackJudge {
    /// The pushes and pops still to issue, earliest first.
    scenario: VecDeque<StackChange>,
    /// The reference stack, bottom first.
    ref_impl: Vec<i32>,
    /// The values the subject still owes, earliest owed first.
    expect: VecDeque<i32>,
    /// The ghost record of the calls made to this arbiter.
    past: Ghost<Seq<(Seq<StackChange>, Result<Judgment<StackChange, String>, String>)>>,
}

impl View for StackJudge {
    type V = StackModel;

    closed spec fn view(&self) -> StackModel {
        StackModel { scenario: self.scenario@, ref_impl: self.ref_impl@, expect: self.expect@ }
    }
}

impl StackJudge {
    /// An arbiter with an empty script, which accepts silence and ends the
    /// run at once.
    pub fn new() -> (r: Self)
        ensures
            r@ == (StackModel {
                scenario: Seq::<StackChange>::empty(),
                ref_impl: Seq::<i32>::empty(),
                expect: Seq::<i32>::empty(),
            }),
            r.history() == Seq::<(Seq<StackChange>, Result<Judgment<StackChange, String>, String>)>::empty(),
    {
        Self::new_scenario(Vec::new())
    }

    /// An arbiter that will play the given pushes and pops, in order.
    pub fn new_scenario(scenario: Vec<StackChange>) -> (r: Self)
        ensures
            r@ == (StackModel {
                scenario: scenario@,
                ref_impl: Seq::<i32>::empty(),
                expect: Seq::<i32>::empty(),
            }),
            r.history() == Seq::<(Seq<StackChange>, Result<Judgment<StackChange, String>, String>)>::empty(),
    {
        let mut script: VecDeque<StackChange> = VecDeque::new();
        let mut i: usize = 0;
        while i < scenario.len()
            invariant
                i <= scenario@.len(),
                script@ == scenario@.take(i as int),
            decreases scenario@.len() - i,
        {
            script.push_back(scenario[i]);
            proof {
                assert(scenario@.take(i as int).push(scenario@[i as int]) =~= scenario@.take(
                    i + 1,
                ));
            }
            i = i + 1;
        }
        proof {
            assert(scenario@.take(scenario@.len() as int) =~= scenario@);
        }
        StackJudge {
            scenario: script,
            ref_impl: Vec::new(),
            expect: VecDeque::new(),
            past: Ghost(Seq::empty()),
        }
    }

    /// Remove the first `n` owed values: they have been delivered.
    fn drop_expect_front(&mut self, n: usize)
        requires
            n <= old(self).expect@.len(),
        ensures
            final(self).expect@ == old(self).expect@.skip(n as int),
            final(self).scenario@ == old(self).scenario@,
            final(self).ref_impl@ == old(self).ref_impl@,
            final(self).past@ == old(self).past@,
    {
        let mut i: usize = 0;
        proof {
            assert(self.expect@.skip(0) =~= self.expect@);
        }
        while i < n
            invariant
                i <= n <= old(self).expect@.len(),
                self.expect@ == old(self).expect@.skip(i as int),
                self.scenario@ == old(self).scenario@,
                self.ref_impl@ == old(self).ref_impl@,
                self.past@ == old(self).past@,
            decreases n - i,
        {
            let ghost before = self.expect@;
            let _ = self.expect.pop_front();
            proof {
                assert(before.subrange(1, before.len() as int) =~= old(self).expect@.skip(i + 1));
            }
            i = i + 1;
        }
    }

    /// Compare, consume, and play the next script entry: the executable body
    /// of one arbiter call, which realises the model function [`step`].
    fn advance(&mut self, reactions: &Vec<StackChange>) -> (r: Result<
        Judgment<StackChange, String>,
        String,
    >)
        ensures
            final(self)@ == step(old(self)@, reactions@).0,
            step_matches(r, step(old(self)@, reactions@).1),
            final(self).past@ == old(self).past@,
    {
        if reactions.len() > self.expect.len() {
            return Ok(Judgment::Halt(String::from_str("too many reactions")));
        }
        let mut k: usize = 0;
        let mut code = Scan::Clean;
        while k < reactions.len()
            invariant_except_break
                code is Clean,
            invariant
                k <= reactions@.len() <= self.expect@.len(),
                scan(self.expect@, reactions@) == scan_from(self.expect@, reactions@, k as int),
            ensures
                scan(self.expect@, reactions@) == (k as int, code),
                !(code is Clean) ==> k < reactions@.len(),
                code is Clean ==> k == reactions@.len(),
            decreases reactions@.len() - k,
        {
            match reactions[k] {
                StackChange::Value(opt) => match opt {
                    Some(value) => {
                        let owed = self.expect[k];
                        if value == owed {
                            k = k + 1;
                        } else {
                            code = Scan::Bad(owed, value);
                            break ;
                        }
                    },
                    None => {
                        code = Scan::Buffer;
                        break ;
                    },
                },
                _ => {
                    code = Scan::Foreign;
                    break ;
                },
            }
        }
        match code {
            Scan::Bad(expected, got) => {
                self.drop_expect_front(k + 1);
                Ok(Judgment::Halt(mismatch_message(expected, got)))
            },
            Scan::Foreign => {
                self.drop_expect_front(k);
                Ok(Judgment::Halt(String::from_str("undefined response from stack")))
            },
            _ => {
                self.drop_expect_front(k);
                match self.scenario.pop_front() {
                    None => Ok(Judgment::Done),
                    Some(act) => match act {
                        StackChange::Push(x) => {
                            self.ref_impl.push(x);
                            Ok(Judgment::Continue(StackChange::Push(x)))
                        },
                        StackChange::Pop => match self.ref_impl.pop() {
                            Some(top) => {
                                self.expect.push_back(top);
                                Ok(Judgment::Continue(StackChange::Pop))
                            },
                            None => Err(String::from_str("bad sim: more pops than pushes")),
                        },
                        StackChange::Value(_) => Err(String::from_str("bad sim: Value in scenario")),
                    },
                }
            },
        }
    }
}

impl Judge for StackJudge {
    type Fault = String;

    type Change = StackChange;

    type Error = String;

    closed spec fn history(&self) -> Seq<(Seq<StackChange>, Result<Judgment<StackChange, String>, String>)> {
        self.past@
    }

    closed spec fn measure(&self) -> nat {
        self.scenario@.len()
    }

    fn next(&mut self, reactions: Vec<StackChange>) -> (r: Result<
        Judgment<StackChange, String>,
        String,
    >)
        ensures
            final(self)@ == step(old(self)@, reactions@).0,
            step_matches(r, step(old(self)@, reactions@).1),
    {
        let verdict = self.advance(&reactions);
        self.past = Ghost(self.past@.push((reactions@, verdict)));
        verdict
    }
}

/// Comparing stops exactly where the first divergence stands: as long as
/// every reaction before `k` reports the value owed at its position, the
/// scan from the start ends as the scan from `k` ends.
proof fn lemma_scan_prefix(expect: Seq<i32>, reactions: Seq<StackChange>, j: int, k: int)
    requires
        0 <= j <= k <= reactions.len(),
        forall|i: int| j <= i < k ==> reactions[i] == StackChange::Value(Some(expect[i])),
    ensures
        scan_from(expect, reactions, j) == scan_from(expect, reactions, k),
    decreases k - j,
{
    if j < k {
        assert(reactions[j] == StackChange::Value(Some(expect[j])));
        lemma_scan_prefix(expect, reactions, j + 1, k);
    }
}

/// An arbiter whose script is exhausted answers `Done` on any turn whose
/// reactions are acceptable, no matter how many owed values are still
/// outstanding: the buffering doctrine never forces a flush, so
/// under-delivery is not a fault.
pub proof fn lemma_exhausted_script_is_done(m: StackModel, reactions: Seq<StackChange>)
    requires
        m.scenario.len() == 0,
        reactions.len() <= m.expect.len(),
        scan(m.expect, reactions).1 is Clean || scan(m.expect, reactions).1 is Buffer,
    ensures
        step(m, reactions).1 is Finished,
{
}

/// Silence is always acceptable: a turn with no reactions never ends in a
/// fault of the subject, whatever the arbiter's state.
pub proof fn lemma_silence_is_acceptable(m: StackModel)
    ensures
        !(step(m, Seq::<StackChange>::empty()).1 is Halted),
{
}

/// Over-production is caught on the turn it happens: more reactions than
/// outstanding owed values answer `Halt` at once, and consume nothing.
pub proof fn lemma_over_production_halts(m: StackModel, reactions: Seq<StackChange>)
    requires
        reactions.len() > m.expect.len(),
    ensures
        step(m, reactions) == (m, StepResult::Halted("too many reactions"@)),
{
}

/// A mismatch is caught at its position: if the reactions before `k` report
/// exactly the owed values and the one at `k` reports `got` where `expected`
/// is owed, the arbiter answers `Halt` with a fault quoting both values, and
/// no owed value past the `k`-th is consumed on that turn.
pub proof fn lemma_mismatch_halts(
    m: StackModel,
    reactions: Seq<StackChange>,
    k: int,
    expected: i32,
    got: i32,
)
    requires
        reactions.len() <= m.expect.len(),
        0 <= k < reactions.len(),
        forall|i: int| 0 <= i < k ==> reactions[i] == StackChange::Value(Some(m.expect[i])),
        m.expect[k] == expected,
        reactions[k] == StackChange::Value(Some(got)),
        got != expected,
    ensures
        step(m, reactions).1 == StepResult::Halted(mismatch_text(expected as int, got as int)),
        step(m, reactions).0.expect == m.expect.skip(k + 1),
{
    lemma_scan_prefix(m.expect, reactions, 0, k);
    assert(scan(m.expect, reactions) == (k, Scan::Bad(expected, got)));
}

/// A scripted pop against an empty reference stack is the arbiter's own
/// defect, not the subject's: an acceptable turn that meets it takes the
/// internal-error path, never a `Halt`.
pub proof fn lemma_impossible_pop_is_internal_error(m: StackModel, reactions: Seq<StackChange>)
    requires
        reactions.len() <= m.expect.len(),
        scan(m.expect, reactions).1 is Clean || scan(m.expect, reactions).1 is Buffer,
        m.scenario.len() > 0,
        m.scenario[0] == StackChange::Pop,
        m.ref_impl.len() == 0,
    ensures
        step(m, reactions).1 == StepResult::Failed("bad sim: more pops than pushes"@),
{
}

/// The fault text for a value that disagreed with the owed one.
fn mismatch_message(expected: i32, got: i32) -> (r: String)
    ensures
        r@ == mismatch_text(expected as int, got as int),
{
    let mut s = String::from_str("expected ");
    let e = crate::decimal::i32_string(expected);
    s.append(e.as_str());
    s.append(", got ");
    let g = crate::decimal::i32_string(got);
    s.append(g.as_str());
    s
}

} // verus!
