//! The conversion of a whole log: the first pass finds the instructions and
//! their stages, the second attaches the parameters that the rules harvest.

use vstd::prelude::*;
use crate::pass_one::{
    error_of, fetch_count, finalized_insts, finalized_slots, first_malformed, line_event,
    pass_one, run,
};
use crate::pass_two::{carries, lines_applied, pass_two, rule_views, start_of, PassTwoView};
use crate::rules::ParamTransEntry;
use crate::text::{chars_of, lines_of, split_lines};
use crate::trace::{ConvertError, Trace};

verus! {

/// Where the second pass ends on a log whose structural lines are all well
/// formed.
pub open spec fn converted(text: Seq<char>, scale: usize, rules: Seq<ParamTransEntry>)
    -> PassTwoView {
    let lines = lines_of(text);
    let end = run(lines, scale, lines.len() as int);
    lines_applied(
        start_of(finalized_insts(end), carries(rules)),
        finalized_slots(end),
        rule_views(rules),
        lines,
        scale,
        0,
    )
}

/// Some structural line of the log is malformed.
pub open spec fn has_malformed(text: Seq<char>, scale: usize) -> bool {
    exists|i: int| first_malformed(lines_of(text), scale, i)
}

/// Converts a log into a trace. The cycles of the log are divided by `scale`.
/// The rules are left as they were but for the sequence numbers that they
/// carry. Fails on the first malformed structural line; otherwise, where a
/// decode block is not closed or a captured sequence number is no number.
pub fn gem5_to_dptv(gem5: String, scale: usize, param_trans: &mut Vec<ParamTransEntry>) -> (r:
    Result<Trace, ConvertError>)
    requires
        scale > 0,
    ensures
        rule_views(final(param_trans)@) == rule_views(old(param_trans)@),
        match r {
            Ok(trace) => {
                let end = converted(gem5@, scale, old(param_trans)@);
                &&& !has_malformed(gem5@, scale)
                &&& end.failed is None
                &&& trace@ == end.insts
                &&& carries(final(param_trans)@) == end.carries
                &&& trace@.len() == fetch_count(
                    lines_of(gem5@),
                    scale,
                    lines_of(gem5@).len() as int,
                )
            },
            Err(e) => if has_malformed(gem5@, scale) {
                exists|i: int|
                    first_malformed(lines_of(gem5@), scale, i) && e == error_of(
                        line_event(lines_of(gem5@)[i], scale),
                    )
            } else {
                converted(gem5@, scale, old(param_trans)@).failed == Some(e)
            },
        },
{
    let chars = chars_of(gem5.as_str());
    let lines = split_lines(&chars);
    let (mut trace, bounds) = match pass_one(&lines, scale) {
        Ok(found) => found,
        Err(e) => {
            return Err(e);
        },
    };
    match pass_two(&mut trace.insts, &bounds, param_trans, &lines, scale) {
        Some(e) => Err(e),
        None => Ok(trace),
    }
}

} // verus!
