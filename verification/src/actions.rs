//! Run state, the per-line actions, and the finish resolver.
//!
//! The per-line actions that print return the rendered line instead of
//! writing it; callers collect the returned lines and hand them to whatever
//! output stream the program uses.

use vstd::prelude::*;
use crate::modes::{finish_modes, finish_modes_spec, GrrMode, ModeSet};
use crate::number::{dec_digits, u64_to_string};
use crate::text::{collapse_whitespace, join_space, tokens_of};

verus! {

/// Run-scoped state: the single counter that counting actions mutate and
/// finish actions read.
pub struct Inventory {
    pub count: usize,
}

impl Inventory {
    pub fn new() -> (r: Inventory)
        ensures
            r.count == 0,
    {
        Inventory { count: 0 }
    }
}

/// Plain printing: the matching line with its runs of whitespace collapsed
/// to single spaces.
pub fn output_line(line: &str, _inventory: &mut Inventory) -> (r: String)
    ensures
        r@ == join_space(tokens_of(line@)),
        *old(_inventory) == *final(_inventory),
{
    collapse_whitespace(line)
}

/// Counting: ignore the line's content and increment the counter by one.
pub fn output_line_counter(_line: &str, inventory: &mut Inventory)
    requires
        old(inventory).count < usize::MAX,
    ensures
        final(inventory).count == old(inventory).count + 1,
{
    inventory.count = inventory.count + 1;
}

/// No output and no mutation.
pub fn output_none(_line: &str, _inventory: &mut Inventory)
    ensures
        *old(_inventory) == *final(_inventory),
{
}

/// The finish behaviour of one mode: quiet reports success exactly when at
/// least one line matched; every other mode reports success.
pub open spec fn finish_one(m: GrrMode, count: nat) -> bool {
    match m {
        GrrMode::Quiet => count != 0,
        _ => true,
    }
}

/// The running success flag after the finish modes have run in order, each
/// overwriting the flag with its own result: there is no aggregation, so the
/// last mode in flag order alone determines the final value.
pub open spec fn finish_fold(modes: Seq<GrrMode>, count: nat, acc: bool) -> bool
    decreases modes.len(),
{
    if modes.len() == 0 {
        acc
    } else {
        finish_fold(modes.skip(1), count, finish_one(modes[0], count))
    }
}

/// Finish behaviour of a mode that affects neither output nor the flag.
pub fn finish_mode_noop(_inventory: &Inventory) -> (r: bool)
    ensures
        r == true,
{
    true
}

/// Quiet finish: success exactly when at least one line matched.
pub fn finish_mode_returncode(inventory: &Inventory) -> (r: bool)
    ensures
        r == (inventory.count != 0),
{
    inventory.count != 0
}

/// Count finish: the sole output line holds the counter's decimal value;
/// success regardless of that value.
pub fn finish_count_mode(inventory: &Inventory) -> (r: (String, bool))
    ensures
        r.0@ == dec_digits(inventory.count as nat),
        r.1 == true,
{
    (u64_to_string(inventory.count as u64), true)
}

/// Walk the finish modes in flag order; each overwrites the running success
/// flag, and count finish contributes its output line.
pub fn resolve_finish(ms: &ModeSet, inventory: &Inventory) -> (r: (Vec<String>, bool))
    ensures
        r.0@.map_values(|l: String| l@) == if ms.count {
            seq![dec_digits(inventory.count as nat)]
        } else {
            Seq::<Seq<char>>::empty()
        },
        r.1 == finish_fold(finish_modes_spec(*ms), inventory.count as nat, true),
{
    let ghost fm = finish_modes_spec(*ms);
    let modes = finish_modes(ms);
    let mut out: Vec<String> = Vec::new();
    let mut flag = true;
    let mut j: usize = 0;
    proof {
        assert(fm.skip(0) =~= fm);
        assert(out@.map_values(|l: String| l@) =~= Seq::<Seq<char>>::empty());
    }
    while j < modes.len()
        invariant
            0 <= j <= modes.len(),
            modes@ == fm,
            fm == finish_modes_spec(*ms),
            finish_fold(fm, inventory.count as nat, true) == finish_fold(
                fm.skip(j as int),
                inventory.count as nat,
                flag,
            ),
            out@.map_values(|l: String| l@) == if ms.count && j > 0 {
                seq![dec_digits(inventory.count as nat)]
            } else {
                Seq::<Seq<char>>::empty()
            },
        decreases modes.len() - j,
    {
        let ghost old_out = out@;
        match modes[j] {
            GrrMode::Count => {
                let (line, b) = finish_count_mode(inventory);
                out.push(line);
                flag = b;
            },
            GrrMode::Quiet => {
                flag = finish_mode_returncode(inventory);
            },
            GrrMode::Insensitive => {
                flag = finish_mode_noop(inventory);
            },
            GrrMode::Unixtimestamp => {
                flag = finish_mode_noop(inventory);
            },
        }
        proof {
            assert(fm.skip(j as int).skip(1) =~= fm.skip(j + 1));
            assert(flag == finish_one(fm[j as int], inventory.count as nat));
            if ms.count && j == 0 {
                assert(out@.map_values(|l: String| l@) =~= seq![
                    dec_digits(inventory.count as nat),
                ]);
            } else {
                assert(out@ == old_out);
            }
        }
        j = j + 1;
    }
    proof {
        assert(fm.skip(j as int).len() == 0);
    }
    (out, flag)
}

/// The conjunctive combination of the finish modes' results: success exactly
/// when every enabled finish mode reports success.
pub open spec fn finish_all(modes: Seq<GrrMode>, count: nat) -> bool {
    forall|i: int| 0 <= i < modes.len() ==> finish_one(modes[i], count)
}

/// A separate, corrected combination of the finish modes: the conjunction of
/// their results instead of the last one overwriting the others. It changes
/// no output; it only combines the same per-mode success values.
pub fn resolve_finish_conjunctive(ms: &ModeSet, inventory: &Inventory) -> (r: bool)
    ensures
        r == finish_all(finish_modes_spec(*ms), inventory.count as nat),
{
    let ghost fm = finish_modes_spec(*ms);
    let modes = finish_modes(ms);
    let mut flag = true;
    let mut j: usize = 0;
    while j < modes.len()
        invariant
            0 <= j <= modes.len(),
            modes@ == fm,
            flag == finish_all(fm.take(j as int), inventory.count as nat),
        decreases modes.len() - j,
    {
        let step = match modes[j] {
            GrrMode::Count => finish_count_mode(inventory).1,
            GrrMode::Quiet => finish_mode_returncode(inventory),
            GrrMode::Insensitive => finish_mode_noop(inventory),
            GrrMode::Unixtimestamp => finish_mode_noop(inventory),
        };
        flag = flag && step;
        proof {
            assert(fm.take(j + 1).drop_last() =~= fm.take(j as int));
            assert(fm.take(j + 1).last() == fm[j as int]);
            assert(forall|i: int|
                0 <= i < j + 1 ==> fm.take(j + 1)[i] == (if i < j {
                    fm.take(j as int)[i]
                } else {
                    fm[j as int]
                }));
        }
        j = j + 1;
    }
    proof {
        assert(fm.take(j as int) =~= fm);
    }
    flag
}

} // verus!
