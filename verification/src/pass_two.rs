//! The second pass over a log: the diagnostic lines, from which parameters
//! are harvested and attached to the stages that the first pass has found.

use vstd::prelude::*;
use regex::Regex;
use crate::captures::{groups_placed, place_groups, resolve, resolved};
use crate::cycle_bounds::{CycleInstrBounds, Slot};
use crate::number::{parse_usize, usize_of};
use crate::pass_one::scaled;
use crate::placement::{attach_decode, decoded, group_end, push_params};
use crate::rules::{
    find_captures, groups_view, matches_view, regex_captures, GroupCapture, GroupView,
    ParamTransEntry,
};
use crate::text::{
    chars_of, ends_with, find_sub, occurs_at, split_at_first, split_at_sub, split_once,
    split_once_sub, starts_with, sub_from, text_of, texts_view, trim, trim_of,
};
use crate::trace::{
    insts_view, params_view, ConvertError, Inst, InstView, Param, ParamView,
};

verus! {

/// What one rule has done to the instructions, the sequence number that it
/// carries, and whether a match has failed.
pub struct RuleState {
    pub insts: Seq<InstView>,
    pub carry: usize,
    pub failed: Option<ConvertError>,
}

/// The state after one more match of a pattern of the rule.
pub open spec fn match_step(
    st: RuleState,
    slots: Seq<Slot>,
    stage_name: Seq<char>,
    cycle: usize,
    groups: Seq<GroupView>,
) -> RuleState {
    if st.failed is Some {
        st
    } else {
        match resolved(st.carry, groups) {
            None => RuleState { failed: Some(ConvertError::MalformedSequenceNumber), ..st },
            Some((carry, sn)) => RuleState {
                insts: groups_placed(
                    st.insts,
                    slots,
                    stage_name,
                    cycle,
                    sn,
                    groups,
                    groups.len() as int,
                ),
                carry,
                failed: None,
            },
        }
    }
}

/// The state after the first `k` matches of one pattern.
pub open spec fn matches_applied(
    st: RuleState,
    slots: Seq<Slot>,
    stage_name: Seq<char>,
    cycle: usize,
    matches: Seq<Seq<GroupView>>,
    k: int,
) -> RuleState
    decreases k,
{
    if k <= 0 {
        st
    } else {
        match_step(
            matches_applied(st, slots, stage_name, cycle, matches, k - 1),
            slots,
            stage_name,
            cycle,
            matches[k - 1],
        )
    }
}

/// The state after the first `k` patterns of a rule have been matched
/// against a line.
pub open spec fn patterns_applied(
    st: RuleState,
    slots: Seq<Slot>,
    stage_name: Seq<char>,
    cycle: usize,
    regexes: Seq<Regex>,
    line: Seq<char>,
    k: int,
) -> RuleState
    decreases k,
{
    if k <= 0 {
        st
    } else {
        let prev = patterns_applied(st, slots, stage_name, cycle, regexes, line, k - 1);
        let matches = regex_captures(regexes[k - 1], line);
        matches_applied(prev, slots, stage_name, cycle, matches, matches.len() as int)
    }
}

/// Takes the matches of one pattern in. Returns the sequence number that the
/// rule carries afterwards, and the failure, if a match has failed.
pub fn apply_matches(
    insts: &mut Vec<Inst>,
    bounds: &CycleInstrBounds,
    stage_name: &String,
    cycle: usize,
    carry: usize,
    failed: Option<ConvertError>,
    matches: &Vec<Vec<GroupCapture>>,
) -> (r: (usize, Option<ConvertError>))
    requires
        bounds.wf(),
    ensures
        final(insts)@.len() == old(insts)@.len(),
        (RuleState { insts: insts_view(final(insts)@), carry: r.0, failed: r.1 })
            == matches_applied(
            RuleState { insts: insts_view(old(insts)@), carry, failed },
            bounds@,
            stage_name@,
            cycle,
            matches_view(matches@),
            matches@.len() as int,
        ),
{
    let ghost start = RuleState { insts: insts_view(insts@), carry, failed };
    let ghost all = matches_view(matches@);
    let mut carry = carry;
    let mut failed = failed;
    let mut k: usize = 0;
    while k < matches.len()
        invariant
            insts@.len() == old(insts)@.len(),
            bounds.wf(),
            0 <= k <= matches@.len(),
            all == matches_view(matches@),
            (RuleState { insts: insts_view(insts@), carry, failed }) == matches_applied(
                start,
                bounds@,
                stage_name@,
                cycle,
                all,
                k as int,
            ),
        decreases matches@.len() - k,
    {
        assert(all[k as int] == groups_view(matches@[k as int]@));
        if failed.is_none() {
            match resolve(carry, &matches[k]) {
                None => {
                    failed = Some(ConvertError::MalformedSequenceNumber);
                },
                Some((c, sn)) => {
                    place_groups(insts, bounds, stage_name, cycle, sn, &matches[k]);
                    carry = c;
                },
            }
        }
        k = k + 1;
    }
    (carry, failed)
}

/// What the rules have in common with the lines they are held against: the
/// start of the flags that a rule applies to, the name of its stages, and
/// its patterns.
pub struct RuleView {
    pub flag: Seq<char>,
    pub stage_name: Seq<char>,
    pub regexes: Seq<Regex>,
}

/// What the second pass reads of a rule, apart from its carried number.
pub open spec fn rule_view(e: ParamTransEntry) -> RuleView {
    RuleView { flag: e.flag@, stage_name: e.stage_name@, regexes: e.regexes@ }
}

/// What the second pass reads of the rules, in order.
pub open spec fn rule_views(v: Seq<ParamTransEntry>) -> Seq<RuleView> {
    Seq::new(v.len(), |i: int| rule_view(v[i]))
}

/// The sequence numbers that the rules carry.
pub open spec fn carries(v: Seq<ParamTransEntry>) -> Seq<usize> {
    Seq::new(v.len(), |i: int| v[i].cur_sn)
}

/// What the rules have done with one line so far: the instructions, the
/// sequence number that each rule carries, and whether a match has failed.
pub struct LineState {
    pub insts: Seq<InstView>,
    pub carries: Seq<usize>,
    pub failed: Option<ConvertError>,
}

/// The state of the second pass between two lines.
pub struct PassTwoView {
    pub insts: Seq<InstView>,
    /// For each rule, the sequence number that it carries.
    pub carries: Seq<usize>,
    /// The first instruction that no decode block has claimed.
    pub cursor: int,
    pub failed: Option<ConvertError>,
}

/// The state after rule `idx` has been held against a line: it applies where
/// the line's flag starts with the rule's.
pub open spec fn rule_applied(
    st: LineState,
    slots: Seq<Slot>,
    rule: RuleView,
    idx: int,
    cycle: usize,
    flag: Seq<char>,
    line: Seq<char>,
) -> LineState {
    if !occurs_at(flag, rule.flag, 0) {
        st
    } else {
        let r = patterns_applied(
            RuleState { insts: st.insts, carry: st.carries[idx], failed: st.failed },
            slots,
            rule.stage_name,
            cycle,
            rule.regexes,
            line,
            rule.regexes.len() as int,
        );
        LineState {
            insts: r.insts,
            carries: st.carries.update(idx, r.carry),
            failed: r.failed,
        }
    }
}

/// The state after the first `k` rules have been held against a line.
pub open spec fn rules_applied(
    st: LineState,
    slots: Seq<Slot>,
    rules: Seq<RuleView>,
    cycle: usize,
    flag: Seq<char>,
    line: Seq<char>,
    k: int,
) -> LineState
    decreases k,
{
    if k <= 0 {
        st
    } else {
        rule_applied(
            rules_applied(st, slots, rules, cycle, flag, line, k - 1),
            slots,
            rules[k - 1],
            k - 1,
            cycle,
            flag,
            line,
        )
    }
}

/// Holds one rule against a line.
pub fn apply_rule(
    insts: &mut Vec<Inst>,
    bounds: &CycleInstrBounds,
    rule: &mut ParamTransEntry,
    cycle: usize,
    line: &String,
    failed: Option<ConvertError>,
) -> (r: Option<ConvertError>)
    requires
        bounds.wf(),
    ensures
        final(insts)@.len() == old(insts)@.len(),
        rule_view(*final(rule)) == rule_view(*old(rule)),
        (RuleState { insts: insts_view(final(insts)@), carry: final(rule).cur_sn, failed: r })
            == patterns_applied(
            RuleState { insts: insts_view(old(insts)@), carry: old(rule).cur_sn, failed },
            bounds@,
            old(rule).stage_name@,
            cycle,
            old(rule).regexes@,
            line@,
            old(rule).regexes@.len() as int,
        ),
{
    let ghost start = RuleState { insts: insts_view(insts@), carry: rule.cur_sn, failed };
    let mut carry = rule.cur_sn;
    let mut failed = failed;
    let mut j: usize = 0;
    while j < rule.regexes.len()
        invariant
            insts@.len() == old(insts)@.len(),
            bounds.wf(),
            *rule == *old(rule),
            0 <= j <= rule.regexes@.len(),
            (RuleState { insts: insts_view(insts@), carry, failed }) == patterns_applied(
                start,
                bounds@,
                rule.stage_name@,
                cycle,
                rule.regexes@,
                line@,
                j as int,
            ),
        decreases rule.regexes@.len() - j,
    {
        let matches = find_captures(&rule.regexes[j], line.as_str());
        let r = apply_matches(insts, bounds, &rule.stage_name, cycle, carry, failed, &matches);
        carry = r.0;
        failed = r.1;
        j = j + 1;
    }
    rule.cur_sn = carry;
    failed
}

/// Holds every rule against a line, in order.
pub fn apply_rules(
    insts: &mut Vec<Inst>,
    bounds: &CycleInstrBounds,
    rules: &mut Vec<ParamTransEntry>,
    cycle: usize,
    flag: &Vec<char>,
    line: &String,
    failed: Option<ConvertError>,
) -> (r: Option<ConvertError>)
    requires
        bounds.wf(),
    ensures
        final(insts)@.len() == old(insts)@.len(),
        rule_views(final(rules)@) == rule_views(old(rules)@),
        (LineState {
            insts: insts_view(final(insts)@),
            carries: carries(final(rules)@),
            failed: r,
        }) == rules_applied(
            LineState { insts: insts_view(old(insts)@), carries: carries(old(rules)@), failed },
            bounds@,
            rule_views(old(rules)@),
            cycle,
            flag@,
            line@,
            old(rules)@.len() as int,
        ),
{
    let ghost start = LineState { insts: insts_view(insts@), carries: carries(rules@), failed };
    let ghost views = rule_views(rules@);
    let mut failed = failed;
    let mut k: usize = 0;
    while k < rules.len()
        invariant
            insts@.len() == old(insts)@.len(),
            bounds.wf(),
            0 <= k <= rules@.len(),
            rules@.len() == views.len(),
            views == rule_views(rules@),
            (LineState { insts: insts_view(insts@), carries: carries(rules@), failed })
                == rules_applied(start, bounds@, views, cycle, flag@, line@, k as int),
        decreases rules@.len() - k,
    {
        let ghost prev_rules = rules@;
        let ghost prev = LineState {
            insts: insts_view(insts@),
            carries: carries(rules@),
            failed,
        };
        assert(views[k as int] == rule_view(rules@[k as int]));
        let rule_flag = chars_of(rules[k].flag.as_str());
        if starts_with(flag, &rule_flag) {
            failed = apply_rule(insts, bounds, &mut rules[k], cycle, line, failed);
            proof {
                assert(forall|i: int|
                    0 <= i < prev_rules.len() && i != k ==> rules@[i] == prev_rules[i]);
                assert(rule_views(rules@) =~= views);
                assert(carries(rules@) =~= prev.carries.update(
                    k as int,
                    rules@[k as int].cur_sn,
                ));
            }
        }
        k = k + 1;
    }
    failed
}

/// The three fields of a diagnostic line: the cycle, scaled; the flag; and
/// the rest. Colons divide them, and the white space around each is left
/// out. Nothing where a colon is missing or the cycle is no number.
pub open spec fn line_fields(line: Seq<char>, scale: usize) -> Option<
    (usize, Seq<char>, Seq<char>),
> {
    match split_at_first(line, ':') {
        None => None,
        Some((c, rest)) => match usize_of(trim_of(c)) {
            None => None,
            Some(n) => match split_at_first(rest, ':') {
                None => None,
                Some((flag, body)) => Some((scaled(n, scale), trim_of(flag), trim_of(body))),
            },
        },
    }
}

/// Reads the three fields of a diagnostic line.
pub fn read_fields(line: &Vec<char>, scale: usize) -> (r: Option<(usize, Vec<char>, Vec<char>)>)
    requires
        scale > 0,
    ensures
        match r {
            None => line_fields(line@, scale) is None,
            Some((c, f, b)) => line_fields(line@, scale) == Some((c, f@, b@)),
        },
{
    match split_once(line, ':') {
        None => None,
        Some((c, rest)) => match parse_usize(&trim(&c)) {
            None => None,
            Some(n) => match split_once(&rest, ':') {
                None => None,
                Some((flag, body)) => Some((n / scale, trim(&flag), trim(&body))),
            },
        },
    }
}

/// The instruction that a decode line names: the flag holds the decode
/// unit's marker, and the rest holds `Decode: Decoded `, the instruction,
/// and ` instruction`.
pub open spec fn decode_token(flag: Seq<char>, body: Seq<char>) -> Option<Seq<char>> {
    if sub_from(flag, "system.cpu.decoder"@, 0) < 0 {
        None
    } else {
        match split_at_sub(body, "Decode: Decoded "@) {
            None => None,
            Some((_, right)) => match split_at_sub(right, " instruction"@) {
                None => None,
                Some((token, _)) => Some(token),
            },
        }
    }
}

/// Reads the instruction that a decode line names.
pub fn decode_header(flag: &Vec<char>, body: &Vec<char>) -> (r: Option<Vec<char>>)
    ensures
        match r {
            None => decode_token(flag@, body@) is None,
            Some(t) => decode_token(flag@, body@) == Some(t@),
        },
{
    let marker = chars_of("system.cpu.decoder");
    if find_sub(flag, &marker).is_none() {
        return None;
    }
    let before = chars_of("Decode: Decoded ");
    let after = chars_of(" instruction");
    match split_once_sub(body, &before) {
        None => None,
        Some((_, right)) => match split_once_sub(&right, &after) {
            None => None,
            Some((token, _)) => Some(token),
        },
    }
}

/// The characters that are taken out of a record's value.
pub open spec fn is_mark(c: char) -> bool {
    c == '{' || c == '}' || c == ',' || c == '\t'
}

/// The first `k` characters of `v` without the marks among them.
pub open spec fn stripped(v: Seq<char>, k: int) -> Seq<char>
    decreases k,
{
    if k <= 0 {
        Seq::empty()
    } else if is_mark(v[k - 1]) {
        stripped(v, k - 1)
    } else {
        stripped(v, k - 1).push(v[k - 1])
    }
}

/// `v` without braces, commas and tabs.
pub fn strip_marks(v: &Vec<char>) -> (r: Vec<char>)
    ensures
        r@ == stripped(v@, v@.len() as int),
{
    let mut r: Vec<char> = Vec::new();
    let mut k: usize = 0;
    while k < v.len()
        invariant
            0 <= k <= v@.len(),
            r@ == stripped(v@, k as int),
        decreases v@.len() - k,
    {
        let c = v[k];
        if !(c == '{' || c == '}' || c == ',' || c == '\t') {
            r.push(c);
        }
        k = k + 1;
    }
    r
}

/// The parameter that one line of a decode block contributes: the name
/// before the first `=` and the value behind it, the value without its marks,
/// both without the white space around them. Nothing where there is no `=` or
/// the value is empty.
pub open spec fn record_param(line: Seq<char>) -> Option<ParamView> {
    match split_at_first(line, '=') {
        None => None,
        Some((n, v)) => {
            let value = trim_of(stripped(v, v.len() as int));
            if value.len() > 0 {
                Some(ParamView { name: trim_of(n), value })
            } else {
                None
            }
        },
    }
}

/// Reads the parameter that one line of a decode block contributes.
pub fn read_record(line: &Vec<char>) -> (r: Option<Param>)
    ensures
        match r {
            None => record_param(line@) is None,
            Some(p) => record_param(line@) == Some(p@),
        },
{
    match split_once(line, '=') {
        None => None,
        Some((n, v)) => {
            let value = trim(&strip_marks(&v));
            if value.len() > 0 {
                Some(Param::new(text_of(&trim(&n)), text_of(&value)))
            } else {
                None
            }
        },
    }
}

/// The line ends in a closing brace.
pub open spec fn closes(line: Seq<char>) -> bool {
    "}"@.len() <= line.len() && occurs_at(line, "}"@, line.len() - "}"@.len())
}

/// The first line at or after `k` that ends in a closing brace, or -1.
pub open spec fn block_end(lines: Seq<Seq<char>>, k: int) -> int
    decreases lines.len() - k,
{
    if k < 0 || k >= lines.len() {
        -1
    } else if closes(lines[k]) {
        k
    } else {
        block_end(lines, k + 1)
    }
}

/// The parameters that the lines from `from` up to, not including, `k`
/// contribute.
pub open spec fn params_after(lines: Seq<Seq<char>>, from: int, k: int) -> Seq<ParamView>
    decreases k - from,
{
    if k <= from {
        Seq::empty()
    } else {
        match record_param(lines[k - 1]) {
            Some(p) => params_after(lines, from, k - 1).push(p),
            None => params_after(lines, from, k - 1),
        }
    }
}

/// Reads the lines of a decode block from `from` on: its parameters, and the
/// line that closes it. Nothing where the log ends before a line closes it.
pub fn read_block(lines: &Vec<Vec<char>>, from: usize) -> (r: Option<(Vec<Param>, usize)>)
    requires
        from <= lines@.len(),
    ensures
        match r {
            None => block_end(texts_view(lines@), from as int) < 0,
            Some((ps, e)) => from <= e < lines@.len() && e == block_end(
                texts_view(lines@),
                from as int,
            ) && params_view(ps@) == params_after(texts_view(lines@), from as int, e + 1),
        },
{
    let ghost all = texts_view(lines@);
    let brace = chars_of("}");
    let mut params: Vec<Param> = Vec::new();
    assert(params_view(params@) =~= Seq::empty());
    let mut k: usize = from;
    while k < lines.len()
        invariant
            from <= k <= lines@.len(),
            all == texts_view(lines@),
            brace@ == "}"@,
            block_end(all, from as int) == block_end(all, k as int),
            params_view(params@) == params_after(all, from as int, k as int),
        decreases lines@.len() - k,
    {
        assert(all[k as int] == lines@[k as int]@);
        let ghost before = params_view(params@);
        match read_record(&lines[k]) {
            Some(p) => {
                params.push(p);
                assert(params_view(params@) =~= before.push(p@));
            },
            None => {},
        }
        if ends_with(&lines[k], &brace) {
            return Some((params, k));
        }
        k = k + 1;
    }
    None
}

/// The parameter that the first line of a decode block contributes.
pub open spec fn header_param(token: Seq<char>) -> ParamView {
    ParamView { name: "Instr: "@, value: token }
}

/// The state after the line at `i`, and the line to go on with. A line
/// without the three fields changes nothing. A decode line takes the lines up
/// to the one that closes its block with it; its parameters go to the group
/// of instructions at the cursor, which moves behind the group. Every other
/// line is held against the rules.
pub open spec fn line_step(
    st: PassTwoView,
    slots: Seq<Slot>,
    rules: Seq<RuleView>,
    lines: Seq<Seq<char>>,
    scale: usize,
    i: int,
) -> (PassTwoView, int) {
    if st.failed is Some {
        (st, i + 1)
    } else {
        match line_fields(lines[i], scale) {
            None => (st, i + 1),
            Some((cycle, flag, body)) => match decode_token(flag, body) {
                Some(token) => {
                    let e = block_end(lines, i + 1);
                    if e < 0 {
                        (
                            PassTwoView { failed: Some(ConvertError::TruncatedDecode), ..st },
                            lines.len() as int,
                        )
                    } else {
                        let ps = seq![header_param(token)] + params_after(lines, i + 1, e + 1);
                        (
                            PassTwoView {
                                insts: decoded(st.insts, st.cursor, ps),
                                cursor: group_end(st.insts, st.cursor),
                                ..st
                            },
                            e + 1,
                        )
                    }
                },
                None => {
                    let r = rules_applied(
                        LineState { insts: st.insts, carries: st.carries, failed: st.failed },
                        slots,
                        rules,
                        cycle,
                        flag,
                        body,
                        rules.len() as int,
                    );
                    (
                        PassTwoView {
                            insts: r.insts,
                            carries: r.carries,
                            failed: r.failed,
                            ..st
                        },
                        i + 1,
                    )
                },
            },
        }
    }
}

/// The state after the lines from `i` on.
pub open spec fn lines_applied(
    st: PassTwoView,
    slots: Seq<Slot>,
    rules: Seq<RuleView>,
    lines: Seq<Seq<char>>,
    scale: usize,
    i: int,
) -> PassTwoView
    decreases lines.len() - i,
{
    if i < 0 || i >= lines.len() {
        st
    } else {
        let next = line_step(st, slots, rules, lines, scale, i);
        if next.1 <= i || next.1 > lines.len() {
            next.0
        } else {
            lines_applied(next.0, slots, rules, lines, scale, next.1)
        }
    }
}

/// The state that the second pass starts in.
pub open spec fn start_of(insts: Seq<InstView>, carries: Seq<usize>) -> PassTwoView {
    PassTwoView { insts, carries, cursor: 0, failed: None }
}

/// Harvests the parameters of every line and attaches them. Returns the
/// failure, if there was one: the instructions are then not to be used.
pub fn pass_two(
    insts: &mut Vec<Inst>,
    bounds: &CycleInstrBounds,
    rules: &mut Vec<ParamTransEntry>,
    lines: &Vec<Vec<char>>,
    scale: usize,
) -> (r: Option<ConvertError>)
    requires
        bounds.wf(),
        scale > 0,
    ensures
        final(insts)@.len() == old(insts)@.len(),
        rule_views(final(rules)@) == rule_views(old(rules)@),
        ({
            let end = lines_applied(
                start_of(insts_view(old(insts)@), carries(old(rules)@)),
                bounds@,
                rule_views(old(rules)@),
                texts_view(lines@),
                scale,
                0,
            );
            &&& insts_view(final(insts)@) == end.insts
            &&& carries(final(rules)@) == end.carries
            &&& r == end.failed
        }),
{
    let ghost all = texts_view(lines@);
    let ghost views = rule_views(rules@);
    let ghost goal = lines_applied(
        start_of(insts_view(insts@), carries(rules@)),
        bounds@,
        views,
        all,
        scale,
        0,
    );
    let mut cursor: usize = 0;
    let mut failed: Option<ConvertError> = None;
    let mut i: usize = 0;
    while i < lines.len()
        invariant
            insts@.len() == old(insts)@.len(),
            bounds.wf(),
            scale > 0,
            0 <= i <= lines@.len(),
            all == texts_view(lines@),
            views == rule_views(rules@),
            goal == lines_applied(
                PassTwoView {
                    insts: insts_view(insts@),
                    carries: carries(rules@),
                    cursor: cursor as int,
                    failed,
                },
                bounds@,
                views,
                all,
                scale,
                i as int,
            ),
        decreases lines@.len() - i,
    {
        assert(all[i as int] == lines@[i as int]@);
        if failed.is_some() {
            i = i + 1;
        } else {
            match read_fields(&lines[i], scale) {
                None => {
                    i = i + 1;
                },
                Some((cycle, flag, body)) => match decode_header(&flag, &body) {
                    Some(token) => match read_block(lines, i + 1) {
                        None => {
                            failed = Some(ConvertError::TruncatedDecode);
                            i = lines.len();
                        },
                        Some((block, e)) => {
                            let mut params: Vec<Param> = Vec::new();
                            params.push(
                                Param::new(text_of(&chars_of("Instr: ")), text_of(&token)),
                            );
                            assert(params_view(params@) =~= seq![header_param(token@)]);
                            push_params(&mut params, &block);
                            cursor = attach_decode(insts, cursor, &params);
                            i = e + 1;
                        },
                    },
                    None => {
                        let line = text_of(&body);
                        failed =
                        apply_rules(insts, bounds, rules, cycle, &flag, &line, failed);
                        i = i + 1;
                    },
                },
            }
        }
    }
    failed
}

} // verus!
