//! Runs of the stack arbiter against subjects of varying honesty.

use caet::stack::{StackChange, StackJudge};
use caet::{judge, judge_panic, Judgment, Subject};
use StackChange::{Pop, Push, Value};

/// A valid push-and-pop scenario.
fn scenario_1() -> StackJudge {
    StackJudge::new_scenario(vec![Push(1), Push(2), Push(3), Pop, Pop, Push(4), Pop])
}

/// This scenario contains a scripting bug (too many pops).
fn scenario_2() -> StackJudge {
    StackJudge::new_scenario(vec![Push(1), Pop, Pop])
}

/// This scenario leaves items in the stack after the last operation, which
/// is valid.
fn scenario_3() -> StackJudge {
    StackJudge::new_scenario(vec![Push(1), Push(2), Push(3), Pop])
}

/// This scenario tests a subject that only pops when its counter runs out.
fn scenario_4() -> StackJudge {
    StackJudge::new_scenario(vec![
        Push(1),
        Push(2),
        Push(3),
        Pop,
        Pop,
        Pop,
        Push(4),
        Push(5),
        Pop,
        Pop,
    ])
}

/// A faithful subject: it mirrors a real stack and reports each popped value
/// at once.
struct GoodStack {
    stack: Vec<i32>,
}

impl Subject<StackChange> for GoodStack {
    fn react(&mut self, input: StackChange) -> Vec<StackChange> {
        match input {
            Push(x) => {
                self.stack.push(x);
                vec![]
            }
            Pop => vec![Value(self.stack.pop())],
            Value(_) => panic!("Value in demo impl"),
        }
    }
}

/// This subject discards everything.  It is a "valid" subject, because the
/// arbiter allows buffering but has no way to force a flush.
struct DiscardAll;

impl Subject<StackChange> for DiscardAll {
    fn react(&mut self, _input: StackChange) -> Vec<StackChange> {
        vec![]
    }
}

/// This subject produces a value even when the command is a push.
struct DumbStack;

impl Subject<StackChange> for DumbStack {
    fn react(&mut self, input: StackChange) -> Vec<StackChange> {
        match input {
            Push(_) => vec![Value(None)],
            Pop => vec![Value(Some(0))],
            Value(_) => panic!("Value in demo impl"),
        }
    }
}

/// This subject remembers the stack size, but reports `0` for everything.
struct ZeroSmart {
    count: usize,
}

impl Subject<StackChange> for ZeroSmart {
    fn react(&mut self, input: StackChange) -> Vec<StackChange> {
        match input {
            Push(_) => {
                self.count += 1;
                vec![]
            }
            Pop => {
                if self.count == 0 {
                    vec![Value(None)]
                } else {
                    self.count -= 1;
                    vec![Value(Some(0))]
                }
            }
            Value(_) => panic!("Value in demo impl"),
        }
    }
}

/// This subject always reports an empty stack.  Like `DiscardAll`, it is a
/// "valid" subject.
struct AlwaysEmpty;

impl Subject<StackChange> for AlwaysEmpty {
    fn react(&mut self, input: StackChange) -> Vec<StackChange> {
        match input {
            Push(_) => vec![],
            Pop => vec![Value(None)],
            Value(_) => panic!("Value in demo impl"),
        }
    }
}

/// This subject returns something irrelevant when popping.
struct Irrelevant;

impl Subject<StackChange> for Irrelevant {
    fn react(&mut self, input: StackChange) -> Vec<StackChange> {
        match input {
            Push(_) => vec![],
            Pop => vec![Push(42)],
            Value(_) => panic!("Value in demo impl"),
        }
    }
}

/// This subject answers pops with silence while its counter lasts, then
/// flushes everything it buffered, in original order.
struct LazyStack {
    stack: Vec<StackChange>,
    count: usize,
}

impl Subject<StackChange> for LazyStack {
    fn react(&mut self, input: StackChange) -> Vec<StackChange> {
        match input {
            Push(x) => {
                self.stack.push(Value(Some(x)));
                self.count += 1;
                vec![]
            }
            Pop => {
                if self.count > 0 {
                    self.count -= 1;
                    vec![Value(None)]
                } else {
                    let mut st = std::mem::take(&mut self.stack);
                    st.reverse();
                    st
                }
            }
            Value(_) => panic!("Value in demo impl"),
        }
    }
}

#[test]
fn test_scenario_1() {
    let mut arbiter = scenario_1();
    let mut subject = GoodStack { stack: vec![] };
    let r = judge_panic(&mut arbiter, &mut subject);
    assert!(r.is_ok());
}

#[test]
fn test_scenario_1_discard() {
    let mut arbiter = scenario_1();
    let mut subject = DiscardAll;
    let j = judge(&mut arbiter, &mut subject);
    assert!(j.is_ok());
    let (j, _) = j.unwrap().decompose();
    assert_eq!(j, Judgment::Done);
}

#[test]
fn test_scenario_1_dumb() {
    let mut arbiter = scenario_1();
    let mut subject = DumbStack;
    let j = judge(&mut arbiter, &mut subject);
    assert!(j.is_ok());
    let (j, _) = j.unwrap().decompose();
    assert_eq!(j, Judgment::Halt("too many reactions".to_string()));
}

#[test]
fn test_scenario_1_zero_smart() {
    let mut arbiter = scenario_1();
    let mut subject = ZeroSmart { count: 0 };
    let j = judge(&mut arbiter, &mut subject);
    assert!(j.is_ok());
    let (j, _) = j.unwrap().decompose();
    assert!(matches!(j, Judgment::Halt(_)), "not \"Halt\": {:?}", j);
    let j = match j {
        Judgment::Halt(s) => s,
        _ => unreachable!(),
    };
    assert!(
        j.starts_with("expected"),
        "not \"expected X, got Y\": {:?}",
        j
    );
}

#[test]
fn test_scenario_1_empty() {
    let mut arbiter = scenario_1();
    let mut subject = AlwaysEmpty;
    let j = judge(&mut arbiter, &mut subject);
    assert!(j.is_ok());
    let (j, _) = j.unwrap().decompose();
    assert_eq!(j, Judgment::Done);
}

#[test]
fn test_scenario_1_irrelevant() {
    let mut arbiter = scenario_1();
    let mut subject = Irrelevant;
    let j = judge(&mut arbiter, &mut subject);
    assert!(j.is_ok());
    let (j, _) = j.unwrap().decompose();
    assert_eq!(
        j,
        Judgment::Halt("undefined response from stack".to_string())
    );
}

#[test]
fn test_scenario_2() {
    let mut arbiter = scenario_2();
    let mut subject = GoodStack { stack: vec![] };
    let j = judge(&mut arbiter, &mut subject);
    match j {
        Err(e) => assert_eq!(e, "bad sim: more pops than pushes".to_string()),
        Ok(_) => panic!("expected the arbiter's internal error"),
    }
}

#[test]
fn test_scenario_3() {
    let mut arbiter = scenario_3();
    let mut subject = GoodStack { stack: vec![] };
    let j = judge(&mut arbiter, &mut subject);
    assert!(j.is_ok());
    let (j, _) = j.unwrap().decompose();
    assert_eq!(j, Judgment::Done);
}

#[test]
fn test_scenario_4() {
    let mut arbiter = scenario_4();
    let mut subject = LazyStack {
        stack: vec![],
        count: 0,
    };
    let j = judge(&mut arbiter, &mut subject);
    assert!(j.is_ok());
    let (j, _) = j.unwrap().decompose();
    assert_eq!(j, Judgment::Done);
}

#[test]
fn test_scenario_1_lazy() {
    let mut arbiter = scenario_1();
    let mut subject = LazyStack {
        stack: vec![],
        count: 0,
    };
    let j = judge(&mut arbiter, &mut subject);
    assert!(j.is_ok());
    let (j, _) = j.unwrap().decompose();
    assert_eq!(j, Judgment::Done);
}
