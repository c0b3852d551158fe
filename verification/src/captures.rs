//! From one match of a pattern to parameters: the offset that a group's name
//! encodes, the sequence number that the match addresses, and the placing of
//! each group's text.

use vstd::prelude::*;
use crate::cycle_bounds::{slot_in, slot_range, CycleInstrBounds, Slot};
use crate::number::{decimal_int, format_int, isize_of, parse_isize, parse_usize, usize_of};
use crate::placement::{attach_range, attached_range, place_on_inst, placed};
use crate::rules::{groups_view, GroupCapture, GroupView};
use crate::text::{chars_of, same, slice, split_at_sub, split_once_sub, text_of};
use crate::trace::{insts_view, params_view, Inst, InstView, Param, ParamView};

verus! {

/// The offset that the tail of a group's name denotes; 0 where it denotes no
/// number.
pub open spec fn offset_of(tail: Seq<char>) -> int {
    match isize_of(tail) {
        Some(n) => n,
        None => 0,
    }
}

/// The parameter name and the offset that a group's name encodes: what
/// stands before `PLUS` or `MINUS`, and the number behind it, added or
/// subtracted.
pub open spec fn offset_name(name: Seq<char>) -> (Seq<char>, int) {
    match split_at_sub(name, "PLUS"@) {
        Some((l, r)) => (l, offset_of(r)),
        None => match split_at_sub(name, "MINUS"@) {
            Some((l, r)) => (l, -offset_of(r)),
            None => (name, 0),
        },
    }
}

/// The value of a parameter: the captured number moved by the offset, or the
/// captured text itself where it is no number.
pub open spec fn shifted(text: Seq<char>, offset: int) -> Seq<char> {
    match isize_of(text) {
        Some(n) => decimal_int(n + offset),
        None => text,
    }
}

/// Reads the parameter name and the offset out of a group's name.
pub fn split_offset(name: &Vec<char>) -> (r: (Vec<char>, i128))
    ensures
        (r.0@, r.1 as int) == offset_name(name@),
        -0x8000_0000_0000_0000 <= r.1 <= 0x8000_0000_0000_0000,
{
    let plus = chars_of("PLUS");
    let minus = chars_of("MINUS");
    match split_once_sub(name, &plus) {
        Some((l, r)) => {
            let off: i128 = match parse_isize(&r) {
                Some(n) => n,
                None => 0,
            };
            (l, off)
        },
        None => match split_once_sub(name, &minus) {
            Some((l, r)) => {
                let off: i128 = match parse_isize(&r) {
                    Some(n) => n,
                    None => 0,
                };
                (l, -off)
            },
            None => {
                let l = slice(name, 0, name.len());
                assert(l@ =~= name@);
                (l, 0)
            },
        },
    }
}

/// The value of a parameter whose group captured `text`, under `offset`.
pub fn shift_value(text: &Vec<char>, offset: i128) -> (r: Vec<char>)
    requires
        -0x8000_0000_0000_0000 <= offset <= 0x8000_0000_0000_0000,
    ensures
        r@ == shifted(text@, offset as int),
{
    match parse_isize(text) {
        Some(n) => format_int(n + offset),
        None => {
            let r = slice(text, 0, text.len());
            assert(r@ =~= text@);
            r
        },
    }
}

/// The text that the group `name` captured, looking from group `k` on.
pub open spec fn captured(groups: Seq<GroupView>, name: Seq<char>, k: int) -> Option<Seq<char>>
    decreases groups.len() - k,
{
    if k < 0 || k >= groups.len() {
        None
    } else if groups[k].name == name && groups[k].text is Some {
        groups[k].text
    } else {
        captured(groups, name, k + 1)
    }
}

/// The text that the group `name` captured in one match, if it took part.
pub fn lookup(groups: &Vec<GroupCapture>, name: &Vec<char>) -> (r: Option<Vec<char>>)
    ensures
        match r {
            Some(t) => captured(groups_view(groups@), name@, 0) == Some(t@),
            None => captured(groups_view(groups@), name@, 0) is None,
        },
{
    let ghost all = groups_view(groups@);
    let mut k: usize = 0;
    while k < groups.len()
        invariant
            0 <= k <= groups@.len(),
            all == groups_view(groups@),
            captured(all, name@, 0) == captured(all, name@, k as int),
        decreases groups@.len() - k,
    {
        assert(all[k as int] == groups@[k as int]@);
        let group_name = chars_of(groups[k].name.as_str());
        if same(&group_name, name) {
            match &groups[k].text {
                Some(t) => {
                    return Some(chars_of(t.as_str()));
                },
                None => {},
            }
        }
        k = k + 1;
    }
    None
}

/// The sequence number that the rule carries after a match, and the one that
/// the match addresses: a group `sn_all` sets the carried number; where the
/// carried number is 0, a group `sn` gives the number for this match alone.
/// Nothing where such a group captured no number.
pub open spec fn resolved(carry: usize, groups: Seq<GroupView>) -> Option<(usize, usize)> {
    let carried = match captured(groups, "sn_all"@, 0) {
        Some(t) => usize_of(t),
        None => Some(carry),
    };
    match carried {
        None => None,
        Some(c) => if c != 0 {
            Some((c, c))
        } else {
            match captured(groups, "sn"@, 0) {
                Some(t) => match usize_of(t) {
                    Some(n) => Some((c, n)),
                    None => None,
                },
                None => Some((c, 0usize)),
            }
        },
    }
}

/// Resolves the sequence numbers of one match; nothing where a group that
/// holds one captured no number.
pub fn resolve(carry: usize, groups: &Vec<GroupCapture>) -> (r: Option<(usize, usize)>)
    ensures
        r == resolved(carry, groups_view(groups@)),
{
    let sn_all = chars_of("sn_all");
    let sn = chars_of("sn");
    let carried = match lookup(groups, &sn_all) {
        Some(t) => parse_usize(&t),
        None => Some(carry),
    };
    match carried {
        None => None,
        Some(c) => if c != 0 {
            Some((c, c))
        } else {
            match lookup(groups, &sn) {
                Some(t) => match parse_usize(&t) {
                    Some(n) => Some((c, n)),
                    None => None,
                },
                None => Some((c, 0)),
            }
        },
    }
}

/// `x`, but no more than `n`.
pub open spec fn clamp(x: int, n: int) -> int {
    if x < n {
        x
    } else {
        n
    }
}

/// The instructions after one group of a match has been placed. A group that
/// took no part in the match, and the two groups that hold sequence numbers,
/// yield no parameter. With sequence number 0 the parameter goes to every
/// stage of the rule's name at this cycle, among the instructions that the
/// index gives for the cycle; otherwise to the instruction of that number, if
/// there is one.
pub open spec fn group_placed(
    insts: Seq<InstView>,
    slots: Seq<Slot>,
    stage_name: Seq<char>,
    cycle: usize,
    sn: usize,
    g: GroupView,
) -> Seq<InstView> {
    match g.text {
        None => insts,
        Some(t) => {
            let (base, off) = offset_name(g.name);
            if base == "sn"@ || base == "sn_all"@ {
                insts
            } else {
                let p = ParamView { name: base, value: shifted(t, off) };
                if sn == 0 {
                    let r = slot_range(slot_in(slots, cycle as int));
                    attached_range(
                        insts,
                        clamp(r.0, insts.len() as int),
                        clamp(r.1, insts.len() as int),
                        true,
                        stage_name,
                        true,
                        cycle,
                        seq![p],
                    )
                } else if sn - 1 < insts.len() {
                    insts.update(sn - 1, placed(insts[sn - 1], stage_name, cycle, p))
                } else {
                    insts
                }
            }
        },
    }
}

/// Places the parameter that one group of a match yields.
pub fn place_group(
    insts: &mut Vec<Inst>,
    bounds: &CycleInstrBounds,
    stage_name: &String,
    cycle: usize,
    sn: usize,
    group: &GroupCapture,
)
    requires
        bounds.wf(),
    ensures
        final(insts)@.len() == old(insts)@.len(),
        insts_view(final(insts)@) == group_placed(
            insts_view(old(insts)@),
            bounds@,
            stage_name@,
            cycle,
            sn,
            group@,
        ),
{
    let ghost before = insts_view(insts@);
    let text = match &group.text {
        None => {
            return ;
        },
        Some(t) => chars_of(t.as_str()),
    };
    let name = chars_of(group.name.as_str());
    let (base, off) = split_offset(&name);
    let reserved_one = chars_of("sn");
    let reserved_all = chars_of("sn_all");
    if same(&base, &reserved_one) || same(&base, &reserved_all) {
        return ;
    }
    let value = shift_value(&text, off);
    let param = Param::new(text_of(&base), text_of(&value));
    if sn == 0 {
        let r = bounds.inst_range(cycle);
        let n = insts.len();
        let lo = if r.start < n { r.start } else { n };
        let hi = if r.end < n { r.end } else { n };
        let mut params: Vec<Param> = Vec::new();
        params.push(param);
        assert(params_view(params@) =~= seq![param@]);
        attach_range(insts, lo, hi, true, stage_name, true, cycle, &params);
    } else if sn - 1 < insts.len() {
        place_on_inst(&mut insts[sn - 1], stage_name, cycle, param);
        assert(insts_view(insts@) =~= before.update(
            sn - 1,
            placed(before[sn - 1], stage_name@, cycle, param@),
        ));
    }
}

/// The instructions after the first `k` groups of a match have been placed.
pub open spec fn groups_placed(
    insts: Seq<InstView>,
    slots: Seq<Slot>,
    stage_name: Seq<char>,
    cycle: usize,
    sn: usize,
    groups: Seq<GroupView>,
    k: int,
) -> Seq<InstView>
    decreases k,
{
    if k <= 0 {
        insts
    } else {
        group_placed(
            groups_placed(insts, slots, stage_name, cycle, sn, groups, k - 1),
            slots,
            stage_name,
            cycle,
            sn,
            groups[k - 1],
        )
    }
}

/// Places the parameters that the groups of one match yield, in order.
pub fn place_groups(
    insts: &mut Vec<Inst>,
    bounds: &CycleInstrBounds,
    stage_name: &String,
    cycle: usize,
    sn: usize,
    groups: &Vec<GroupCapture>,
)
    requires
        bounds.wf(),
    ensures
        final(insts)@.len() == old(insts)@.len(),
        insts_view(final(insts)@) == groups_placed(
            insts_view(old(insts)@),
            bounds@,
            stage_name@,
            cycle,
            sn,
            groups_view(groups@),
            groups@.len() as int,
        ),
{
    let ghost before = insts_view(insts@);
    let ghost all = groups_view(groups@);
    let mut k: usize = 0;
    while k < groups.len()
        invariant
            insts@.len() == old(insts)@.len(),
            bounds.wf(),
            0 <= k <= groups@.len(),
            all == groups_view(groups@),
            insts_view(insts@) == groups_placed(
                before,
                bounds@,
                stage_name@,
                cycle,
                sn,
                all,
                k as int,
            ),
        decreases groups@.len() - k,
    {
        assert(all[k as int] == groups@[k as int]@);
        place_group(insts, bounds, stage_name, cycle, sn, &groups[k]);
        k = k + 1;
    }
}

} // verus!
