//! An adversarial test driver for cause-effect systems.
//!
//! A cause-effect system receives discrete inputs and emits zero or more
//! outputs, and its correctness depends on the whole sequence of interactions
//! rather than on any single input/output pair.  This crate plays the
//! adversarial *arbiter* role against such a system: each turn it supplies an
//! input, inspects the outputs accumulated since the previous turn, and
//! decides whether to continue, declare success, or declare failure with a
//! diagnostic.
//!
//! The pieces:
//! - [`Judge`] is the arbiter contract: one operation that maps the subject's
//!   reactions since the last turn to a [`Judgment`], or to an internal error.
//! - [`Subject`] is the component under test: a stateful reactor that maps one
//!   input to an ordered list of reactions.
//! - [`judge`] is the driving loop.  It holds no domain knowledge; it
//!   alternates between arbiter and subject and stops at the first terminal
//!   verdict or internal error, returning an [`Outcome`].
//! - [`judge_panic`] is a strict wrapper that turns every non-success into a
//!   [`Failure`] value whose three categories stay distinguishable.
//! - [`stack`] holds a worked arbiter for a LIFO structure, which also shows
//!   the buffering doctrine: a subject may delay and batch its reactions, and
//!   that delay alone is never a fault.
//!
//! The contract of [`judge`] is stated over ghost interaction records: an
//! arbiter keeps a [`Judge::history`] of the calls made to it, a subject keeps
//! a [`Subject::log`] of its invocations, and the driving loop promises in
//! [`protocol::protocol_run`] that the two records line up turn by turn.

pub mod decimal;
pub mod driver;
pub mod protocol;
pub mod stack;

pub use driver::{judge, judge_panic, Failure};
pub use protocol::{Judge, Judgment, Outcome, Subject};
