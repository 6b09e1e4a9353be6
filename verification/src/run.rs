//! The whole run: resolve the modes, compile the pattern, match each line
//! of the already-read input, apply the one active per-line action, and
//! resolve the finish modes into the final success flag.

use vstd::prelude::*;
use crate::actions::{
    finish_fold, output_line, output_line_counter, output_none, resolve_finish, Inventory,
};
use crate::matcher::{regex_match, regex_ok, Matcher};
use crate::modes::{
    action_of, action_prints, finish_modes_spec, resolve_action, ModeSet, PerLineAction,
};
use crate::number::dec_digits;
use crate::text::{join_space, lines_of, split_lines, tokens_of};
use crate::timestamp::{output_line_parse_unix_timestamp, ts_render};

verus! {

/// The pattern text handed to compilation: a case-insensitivity directive is
/// prepended when insensitive matching is enabled.
pub open spec fn effective_pattern(pat: Seq<char>, insensitive: bool) -> Seq<char> {
    if insensitive {
        "(?i)"@ + pat
    } else {
        pat
    }
}

/// What the active per-line action prints for one matching line.
pub open spec fn render_of(action: PerLineAction, line: Seq<char>) -> Seq<char> {
    match action {
        PerLineAction::TimestampPrint => ts_render(line),
        _ => join_space(tokens_of(line)),
    }
}

/// The lines among `lines` that the pattern matches, in original order.
pub open spec fn matched_of(pat: Seq<char>, lines: Seq<Seq<char>>) -> Seq<Seq<char>>
    decreases lines.len(),
{
    if lines.len() == 0 {
        Seq::empty()
    } else {
        matched_of(pat, lines.drop_last()) + (if regex_match(pat, lines.last()) {
            seq![lines.last()]
        } else {
            Seq::empty()
        })
    }
}

/// The counter's final value: the number of matching lines when the
/// counting action is active, and zero otherwise.
pub open spec fn counter_of(ms: ModeSet, pat: Seq<char>, lines: Seq<Seq<char>>) -> nat {
    if action_of(ms) is Counter {
        matched_of(pat, lines).len()
    } else {
        0
    }
}

/// Every output line of a run, in order: one rendered line per matching
/// input line when the active action prints, then the counter's decimal
/// value when count mode is enabled.
pub open spec fn run_output_spec(ms: ModeSet, pat: Seq<char>, lines: Seq<Seq<char>>) -> Seq<
    Seq<char>,
> {
    (if action_prints(action_of(ms)) {
        matched_of(pat, lines).map_values(|l: Seq<char>| render_of(action_of(ms), l))
    } else {
        Seq::<Seq<char>>::empty()
    }) + (if ms.count {
        seq![dec_digits(counter_of(ms, pat, lines))]
    } else {
        Seq::<Seq<char>>::empty()
    })
}

/// The run's final success flag: the finish modes run in flag order, each
/// overwriting the flag with its own result.
pub open spec fn run_success_spec(ms: ModeSet, pat: Seq<char>, lines: Seq<Seq<char>>) -> bool {
    finish_fold(finish_modes_spec(ms), counter_of(ms, pat, lines), true)
}

/// A rejected pattern: compilation failed before any line was read.
#[derive(Debug)]
pub struct PatternError {
    pub message: String,
}

/// What a completed run produced: its output lines, in order, and its final
/// success flag.
pub struct RunOutcome {
    pub lines: Vec<String>,
    pub success: bool,
}

/// Process the whole input under the enabled modes: select the matching
/// lines, apply the one active per-line action to each, then resolve the
/// finish modes. Fails exactly when the effective pattern does not compile,
/// before any line is processed.
pub fn run(pattern: &str, modes: &ModeSet, content: &str) -> (r: Result<RunOutcome, PatternError>)
    ensures
        r is Ok <==> regex_ok(effective_pattern(pattern@, modes.insensitive)),
        r is Ok ==> r.unwrap().lines@.map_values(|l: String| l@) == run_output_spec(
            *modes,
            effective_pattern(pattern@, modes.insensitive),
            lines_of(content@),
        ),
        r is Ok ==> r.unwrap().success == run_success_spec(
            *modes,
            effective_pattern(pattern@, modes.insensitive),
            lines_of(content@),
        ),
{
    let ghost effp = effective_pattern(pattern@, modes.insensitive);
    let eff: String = if modes.insensitive {
        let mut p = String::from_str("(?i)");
        p.append(pattern);
        p
    } else {
        String::from_str(pattern)
    };
    let matcher = match Matcher::compile(eff.as_str()) {
        Ok(m) => m,
        Err(message) => {
            return Err(PatternError { message });
        },
    };
    let lines = split_lines(content);
    let ghost lsq = lines_of(content@);
    let action = resolve_action(modes);
    let mut inventory = Inventory::new();
    let mut out: Vec<String> = Vec::new();
    let mut i: usize = 0;
    proof {
        assert(lsq.take(0) =~= Seq::<Seq<char>>::empty());
        assert(out@.map_values(|l: String| l@) =~= Seq::<Seq<char>>::empty());
    }
    while i < lines.len()
        invariant
            0 <= i <= lines.len(),
            lines@.map_values(|l: String| l@) == lsq,
            matcher.pat() == effp,
            action == action_of(*modes),
            inventory.count <= i,
            inventory.count as nat == (if action is Counter {
                matched_of(effp, lsq.take(i as int)).len()
            } else {
                0
            }),
            out@.map_values(|l: String| l@) == (if action_prints(action) {
                matched_of(effp, lsq.take(i as int)).map_values(
                    |l: Seq<char>| render_of(action, l),
                )
            } else {
                Seq::<Seq<char>>::empty()
            }),
        decreases lines.len() - i,
    {
        let line = &lines[i];
        let m = matcher.is_match(line.as_str());
        proof {
            assert(lsq.take(i + 1).drop_last() =~= lsq.take(i as int));
            assert(lsq.take(i + 1).last() == lsq[i as int]);
            assert(lsq[i as int] == line@);
            if m {
                assert(matched_of(effp, lsq.take(i + 1)) == matched_of(effp, lsq.take(i as int))
                    + seq![line@]);
            } else {
                assert(matched_of(effp, lsq.take(i + 1)) =~= matched_of(
                    effp,
                    lsq.take(i as int),
                ));
            }
        }
        if m {
            let ghost old_out = out@;
            match action {
                PerLineAction::PlainPrint => {
                    let s = output_line(line.as_str(), &mut inventory);
                    out.push(s);
                },
                PerLineAction::TimestampPrint => {
                    let s = output_line_parse_unix_timestamp(line.as_str(), &mut inventory);
                    out.push(s);
                },
                PerLineAction::Counter => {
                    output_line_counter(line.as_str(), &mut inventory);
                },
                PerLineAction::Noop => {
                    output_none(line.as_str(), &mut inventory);
                },
            }
            proof {
                if action_prints(action) {
                    assert(out@.map_values(|l: String| l@) =~= old_out.map_values(
                        |l: String| l@,
                    ).push(render_of(action, line@)));
                    assert(matched_of(effp, lsq.take(i + 1)).map_values(
                        |l: Seq<char>| render_of(action, l),
                    ) =~= matched_of(effp, lsq.take(i as int)).map_values(
                        |l: Seq<char>| render_of(action, l),
                    ).push(render_of(action, line@)));
                }
            }
        }
        i = i + 1;
    }
    proof {
        assert(lsq.take(lines.len() as int) =~= lsq);
    }
    let (mut finish_out, success) = resolve_finish(modes, &inventory);
    proof {
        assert(inventory.count as nat == counter_of(*modes, effp, lsq));
    }
    let ghost before_append = out@;
    let mut k: usize = 0;
    while k < finish_out.len()
        invariant
            0 <= k <= finish_out.len(),
            out@ == before_append + finish_out@.take(k as int),
        decreases finish_out.len() - k,
    {
        let s = finish_out[k].clone();
        out.push(s);
        proof {
            assert(finish_out@[k as int]@ == finish_out@.take(k + 1).last()@);
            assert(before_append + finish_out@.take(k + 1) =~= (before_append + finish_out@.take(
                k as int,
            )).push(finish_out@[k as int]));
        }
        k = k + 1;
    }
    proof {
        assert(finish_out@.take(finish_out.len() as int) =~= finish_out@);
        assert(out@.map_values(|l: String| l@) =~= before_append.map_values(|l: String| l@)
            + finish_out@.map_values(|l: String| l@));
        assert(out@.map_values(|l: String| l@) =~= run_output_spec(*modes, effp, lsq));
    }
    Ok(RunOutcome { lines: out, success })
}

/// The process exit status that a final success flag maps to.
pub fn exit_status(success: bool) -> (r: i32)
    ensures
        success ==> r == 0,
        !success ==> r == 1,
{
    if success {
        0
    } else {
        1
    }
}

} // verus!
