//! The behaviour laws that hold of a whole run, proved over the same spec
//! functions that `run`'s contract is stated with.

use vstd::prelude::*;
use crate::actions::{finish_fold, finish_one};
use crate::matcher::regex_match;
use crate::modes::{action_of, finish_modes_spec, GrrMode, ModeSet, PerLineAction};
use crate::number::dec_digits;
use crate::run::{matched_of, render_of, run_output_spec, run_success_spec};
use crate::text::{join_space, tokens_of};

verus! {

/// At least one line matches exactly when the matched selection is
/// non-empty.
pub proof fn lemma_matched_nonempty(pat: Seq<char>, lines: Seq<Seq<char>>)
    ensures
        matched_of(pat, lines).len() != 0 <==> exists|i: int|
            0 <= i < lines.len() && regex_match(pat, lines[i]),
    decreases lines.len(),
{
    if lines.len() == 0 {
    } else {
        let prefix = lines.drop_last();
        lemma_matched_nonempty(pat, prefix);
        if regex_match(pat, lines.last()) {
            assert(regex_match(pat, lines[lines.len() - 1]));
        } else {
            if matched_of(pat, prefix).len() != 0 {
                let i = choose|i: int| 0 <= i < prefix.len() && regex_match(pat, prefix[i]);
                assert(regex_match(pat, lines[i]));
            }
            if exists|i: int| 0 <= i < lines.len() && regex_match(pat, lines[i]) {
                let i = choose|i: int| 0 <= i < lines.len() && regex_match(pat, lines[i]);
                assert(i < lines.len() - 1);
                assert(regex_match(pat, prefix[i]));
            }
        }
    }
}

/// The finish loop overwrites its flag at every step, so the last finish
/// mode in flag order alone determines the final result; with no finish
/// mode the initial flag stands.
pub proof fn lemma_finish_fold_last(modes: Seq<GrrMode>, count: nat, acc: bool)
    ensures
        finish_fold(modes, count, acc) == if modes.len() == 0 {
            acc
        } else {
            finish_one(modes.last(), count)
        },
    decreases modes.len(),
{
    if modes.len() != 0 {
        lemma_finish_fold_last(modes.skip(1), count, finish_one(modes[0], count));
        if modes.len() == 1 {
            assert(modes.skip(1).len() == 0);
            assert(modes.last() == modes[0]);
        } else {
            assert(modes.skip(1).last() == modes.last());
        }
    }
}

/// With no flags enabled, every matching line is printed
/// whitespace-collapsed, in original order, non-matching lines produce no
/// output, and the run succeeds.
pub proof fn lemma_no_flags(ms: ModeSet, pat: Seq<char>, lines: Seq<Seq<char>>)
    requires
        !ms.count,
        !ms.quiet,
        !ms.insensitive,
        !ms.unix_timestamp,
    ensures
        run_output_spec(ms, pat, lines) == matched_of(pat, lines).map_values(
            |l: Seq<char>| join_space(tokens_of(l)),
        ),
        run_success_spec(ms, pat, lines) == true,
{
    assert(action_of(ms) is PlainPrint);
    assert(run_output_spec(ms, pat, lines) =~= matched_of(pat, lines).map_values(
        |l: Seq<char>| render_of(action_of(ms), l),
    ));
    assert(matched_of(pat, lines).map_values(|l: Seq<char>| render_of(action_of(ms), l))
        =~= matched_of(pat, lines).map_values(|l: Seq<char>| join_space(tokens_of(l))));
    assert(finish_modes_spec(ms) =~= Seq::<GrrMode>::empty());
}

/// A run is a function of its inputs: the same pattern, modes and input
/// lines determine the same output and the same success flag, so two
/// identical runs yield identical results.
pub proof fn lemma_run_deterministic(
    ms: ModeSet,
    pat: Seq<char>,
    lines: Seq<Seq<char>>,
    out1: Seq<Seq<char>>,
    ok1: bool,
    out2: Seq<Seq<char>>,
    ok2: bool,
)
    requires
        out1 == run_output_spec(ms, pat, lines),
        ok1 == run_success_spec(ms, pat, lines),
        out2 == run_output_spec(ms, pat, lines),
        ok2 == run_success_spec(ms, pat, lines),
    ensures
        out1 == out2,
        ok1 == ok2,
{
}

/// With count mode alone, the run always succeeds and its sole output line
/// is the number of matching lines in decimal.
pub proof fn lemma_count_alone(ms: ModeSet, pat: Seq<char>, lines: Seq<Seq<char>>)
    requires
        ms.count,
        !ms.quiet,
        !ms.unix_timestamp,
    ensures
        run_output_spec(ms, pat, lines) == seq![dec_digits(matched_of(pat, lines).len())],
        run_success_spec(ms, pat, lines) == true,
{
    let c = matched_of(pat, lines).len();
    assert(run_output_spec(ms, pat, lines) =~= seq![dec_digits(c)]);
    let fm = finish_modes_spec(ms);
    assert(fm =~= seq![GrrMode::Count]);
    lemma_finish_fold_last(fm, c, true);
}

/// With quiet mode alone, no line is printed and the run succeeds exactly
/// when at least one line matched.
pub proof fn lemma_quiet_alone(ms: ModeSet, pat: Seq<char>, lines: Seq<Seq<char>>)
    requires
        ms.quiet,
        !ms.count,
        !ms.unix_timestamp,
    ensures
        run_output_spec(ms, pat, lines) == Seq::<Seq<char>>::empty(),
        run_success_spec(ms, pat, lines) <==> exists|i: int|
            0 <= i < lines.len() && regex_match(pat, lines[i]),
{
    assert(action_of(ms) is Counter);
    assert(run_output_spec(ms, pat, lines) =~= Seq::<Seq<char>>::empty());
    let c = matched_of(pat, lines).len();
    let fm = finish_modes_spec(ms);
    assert(fm =~= seq![GrrMode::Quiet]);
    lemma_finish_fold_last(fm, c, true);
    lemma_matched_nonempty(pat, lines);
}

/// With count and quiet both enabled, the per-line action is the same
/// counter in either case, and because quiet stands after count in the
/// finish order, its result overwrites count's unconditional success: the
/// run succeeds exactly when at least one line matched, while the count is
/// still printed.
pub proof fn lemma_count_and_quiet(ms: ModeSet, pat: Seq<char>, lines: Seq<Seq<char>>)
    requires
        ms.count,
        ms.quiet,
        !ms.unix_timestamp,
    ensures
        run_output_spec(ms, pat, lines) == seq![dec_digits(matched_of(pat, lines).len())],
        run_success_spec(ms, pat, lines) <==> exists|i: int|
            0 <= i < lines.len() && regex_match(pat, lines[i]),
{
    assert(action_of(ms) is Counter);
    let c = matched_of(pat, lines).len();
    assert(run_output_spec(ms, pat, lines) =~= seq![dec_digits(c)]);
    let fm = finish_modes_spec(ms);
    assert(fm =~= seq![GrrMode::Count, GrrMode::Quiet]);
    lemma_finish_fold_last(fm, c, true);
    lemma_matched_nonempty(pat, lines);
}

/// Unix-timestamp mode stands last in the finish order and its finish is an
/// unconditional success, so whenever it is enabled it overwrites every
/// earlier finish result: the run always succeeds, even together with
/// quiet.
pub proof fn lemma_unix_timestamp_overwrites_finish(
    ms: ModeSet,
    pat: Seq<char>,
    lines: Seq<Seq<char>>,
)
    requires
        ms.unix_timestamp,
    ensures
        run_success_spec(ms, pat, lines) == true,
{
    let c = crate::run::counter_of(ms, pat, lines);
    let fm = finish_modes_spec(ms);
    assert(fm.len() > 0);
    assert(fm.last() == GrrMode::Unixtimestamp);
    lemma_finish_fold_last(fm, c, true);
}

} // verus!
