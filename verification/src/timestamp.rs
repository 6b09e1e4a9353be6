//! Leading-timestamp normalisation.
//!
//! A line's first whitespace-delimited token, with colon characters removed,
//! is read as a non-negative epoch value: seconds if it fits 32 bits, else
//! milliseconds to divide by 1000 — a best-effort heuristic, not an
//! authoritative unit detector. On success the line is rendered as the
//! formatted UTC date-time, a ` | ` separator, and the remaining tokens; a
//! first token that is not numeric is not an error, the original tokens are
//! rendered instead.

use vstd::prelude::*;
use crate::number::{parse_u64, u64_parse_ok, u64_parse_val};
use crate::text::{
    chars_to_string, join_space, join_tokens, remove_colons, str_to_chars, strip_colons, tokenize,
    tokens_of,
};

verus! {

/// The text that formatting the epoch second value `secs` as a UTC
/// date-time with `%Y-%m-%d %H:%M:%S.%f` yields.
pub uninterp spec fn utc_format_of(secs: u64) -> Seq<char>;

/// Whether `secs` is within the range of epoch seconds that
/// `chrono::DateTime::from_timestamp` accepts.
pub uninterp spec fn utc_in_range(secs: u64) -> bool;

/// Relies on `chrono::DateTime::<Utc>::from_timestamp` and
/// `DateTime::format`: `None` exactly on an out-of-range number of seconds,
/// and the formatted text is a function of the seconds alone. The documented
/// range spans the years −262143 to 262142, so any value that fits 32 bits
/// is accepted.
#[verifier::external_body]
fn utc_datetime_string(secs: u64) -> (r: Option<String>)
    requires
        secs <= i64::MAX as u64,
    ensures
        r is Some <==> utc_in_range(secs),
        r is Some ==> r.unwrap()@ == utc_format_of(secs),
        secs <= u32::MAX ==> r is Some,
{
    chrono::DateTime::<chrono::Utc>::from_timestamp(secs as i64, 0).map(
        |dt| dt.format("%Y-%m-%d %H:%M:%S.%f").to_string(),
    )
}

/// The epoch value reinterpreted by the 32-bit cutoff heuristic: seconds as
/// they stand if the value fits 32 bits, else milliseconds divided by 1000.
pub open spec fn epoch_secs_of(t: u64) -> u64 {
    if t <= u32::MAX as u64 {
        t
    } else {
        (t as int / 1000) as u64
    }
}

/// Format an epoch value as a UTC date-time string, after the seconds-vs-
/// milliseconds heuristic; `None` for the rare value whose seconds lie
/// beyond the representable calendar.
pub fn parse_unix_ts(timestamp: u64) -> (r: Option<String>)
    ensures
        r is Some <==> utc_in_range(epoch_secs_of(timestamp)),
        r is Some ==> r.unwrap()@ == utc_format_of(epoch_secs_of(timestamp)),
        epoch_secs_of(timestamp) <= u32::MAX ==> r is Some,
{
    let tmp: u64 = if timestamp <= 0xFFFF_FFFF {
        timestamp
    } else {
        timestamp / 1000
    };
    proof {
        assert(tmp as int <= timestamp as int) by (nonlinear_arith)
            requires
                tmp as int == timestamp as int || tmp as int == timestamp as int / 1000,
                timestamp >= 0,
        ;
    }
    utc_datetime_string(tmp)
}

/// The rendering of a line under timestamp printing: the first token, colons
/// removed, read as an epoch value; on success the formatted UTC date-time,
/// ` | `, and the remaining tokens; otherwise the original tokens joined
/// with single spaces.
pub open spec fn ts_render(line: Seq<char>) -> Seq<char> {
    let toks = tokens_of(line);
    if toks.len() > 0 && u64_parse_ok(strip_colons(toks[0])) && utc_in_range(
        epoch_secs_of(u64_parse_val(strip_colons(toks[0])) as u64),
    ) {
        utc_format_of(epoch_secs_of(u64_parse_val(strip_colons(toks[0])) as u64)) + " | "@
            + join_space(toks.skip(1))
    } else {
        join_space(toks)
    }
}

/// Timestamp printing: render the line with its leading epoch token
/// normalised to a UTC date-time, or fall back to the original tokens.
pub fn output_line_parse_unix_timestamp(
    line: &str,
    _inventory: &mut crate::actions::Inventory,
) -> (r: String)
    ensures
        r@ == ts_render(line@),
        *old(_inventory) == *final(_inventory),
{
    let cs = str_to_chars(line);
    let toks = tokenize(&cs);
    let ghost toksq = toks@.map_values(|t: Vec<char>| t@);
    if toks.len() == 0 {
        let joined = join_tokens(&toks, 0);
        proof {
            assert(toksq.skip(0) =~= toksq);
        }
        return chars_to_string(&joined);
    }
    let stripped = remove_colons(&toks[0]);
    match parse_u64(&stripped) {
        None => {
            let joined = join_tokens(&toks, 0);
            proof {
                assert(toksq.skip(0) =~= toksq);
            }
            chars_to_string(&joined)
        },
        Some(number) => {
            match parse_unix_ts(number) {
                None => {
                    let joined = join_tokens(&toks, 0);
                    proof {
                        assert(toksq.skip(0) =~= toksq);
                    }
                    chars_to_string(&joined)
                },
                Some(ts) => {
                    let tail = join_tokens(&toks, 1);
                    let mut out = ts;
                    out.append(" | ");
                    let tail_s = chars_to_string(&tail);
                    out.append(tail_s.as_str());
                    proof {
                        assert(out@ =~= utc_format_of(
                            epoch_secs_of(u64_parse_val(strip_colons(toksq[0])) as u64),
                        ) + " | "@ + join_space(toksq.skip(1)));
                    }
                    out
                },
            }
        },
    }
}

} // verus!
