//! The behaviour modes and their resolution to one per-line action and an
//! ordered list of finish modes.

use vstd::prelude::*;

verus! {

/// An independently toggled behaviour flag.
#[derive(Clone, Copy, Debug)]
pub enum GrrMode {
    Count,
    Quiet,
    Insensitive,
    Unixtimestamp,
}

/// The set of modes enabled for a run. Built once from the four flags and
/// immutable afterwards; repetition of a flag has no further effect.
#[derive(Clone, Copy, Debug)]
pub struct ModeSet {
    pub count: bool,
    pub quiet: bool,
    pub insensitive: bool,
    pub unix_timestamp: bool,
}

/// The single behaviour applied to every matching line of a run.
#[derive(Clone, Copy, Debug)]
pub enum PerLineAction {
    PlainPrint,
    TimestampPrint,
    Counter,
    /// Unreachable under the precedence rules; kept for completeness.
    Noop,
}

/// The per-line action that governs a run, by fixed precedence: the default
/// is plain printing; unix-timestamp mode selects timestamp printing; count
/// mode overrides both with counting; quiet mode selects counting as well.
pub open spec fn action_of(ms: ModeSet) -> PerLineAction {
    if ms.count || ms.quiet {
        PerLineAction::Counter
    } else if ms.unix_timestamp {
        PerLineAction::TimestampPrint
    } else {
        PerLineAction::PlainPrint
    }
}

/// Whether the action produces one output line per matching line.
pub open spec fn action_prints(a: PerLineAction) -> bool {
    a is PlainPrint || a is TimestampPrint
}

pub fn resolve_action(ms: &ModeSet) -> (r: PerLineAction)
    ensures
        r == action_of(*ms),
{
    let mut r = PerLineAction::PlainPrint;
    if ms.unix_timestamp {
        r = PerLineAction::TimestampPrint;
    }
    if ms.count {
        r = PerLineAction::Counter;
    }
    if ms.quiet {
        r = PerLineAction::Counter;
    }
    r
}

/// The finish modes of a run, in flag declaration order: the enabled modes
/// with `Insensitive` removed, since insensitivity affects matching only.
pub open spec fn finish_modes_spec(ms: ModeSet) -> Seq<GrrMode> {
    (if ms.count {
        seq![GrrMode::Count]
    } else {
        Seq::empty()
    }) + (if ms.quiet {
        seq![GrrMode::Quiet]
    } else {
        Seq::empty()
    }) + (if ms.unix_timestamp {
        seq![GrrMode::Unixtimestamp]
    } else {
        Seq::empty()
    })
}

pub fn finish_modes(ms: &ModeSet) -> (r: Vec<GrrMode>)
    ensures
        r@ == finish_modes_spec(*ms),
{
    let mut r: Vec<GrrMode> = Vec::new();
    if ms.count {
        r.push(GrrMode::Count);
    }
    if ms.quiet {
        r.push(GrrMode::Quiet);
    }
    if ms.unix_timestamp {
        r.push(GrrMode::Unixtimestamp);
    }
    proof {
        assert(r@ =~= finish_modes_spec(*ms));
    }
    r
}

} // verus!
