//! The translation rules: each binds a flag of the log to a stage name and to
//! the patterns whose named groups yield parameters.

use vstd::prelude::*;
use regex::Regex;
use crate::text::{
    chars_of, lines_of, slice, split_at_first, split_lines, split_once, text_of, texts_view, trim,
    trim_of, trim_start, trim_start_of,
};

verus! {

/// A compiled pattern of the `regex` crate, carried as an opaque value.
#[verifier::external_type_specification]
#[verifier::external_body]
pub struct ExRegex(regex::Regex);

/// The reason why `regex` refused a pattern, carried as an opaque value.
#[verifier::external_type_specification]
#[verifier::external_body]
pub struct ExRegexError(regex::Error);

/// One named group of a pattern in one match: its name, and the text that it
/// captured, where it took part in the match.
pub struct GroupCapture {
    pub name: String,
    pub text: Option<String>,
}

/// A group of a match, as a value.
pub struct GroupView {
    pub name: Seq<char>,
    pub text: Option<Seq<char>>,
}

impl View for GroupCapture {
    type V = GroupView;

    open spec fn view(&self) -> GroupView {
        GroupView {
            name: self.name@,
            text: match self.text {
                Some(t) => Some(t@),
                None => None,
            },
        }
    }
}

/// The groups of one match, as values.
pub open spec fn groups_view(v: Seq<GroupCapture>) -> Seq<GroupView> {
    Seq::new(v.len(), |i: int| v[i]@)
}

/// The matches of one pattern, as values.
pub open spec fn matches_view(v: Seq<Vec<GroupCapture>>) -> Seq<Seq<GroupView>> {
    Seq::new(v.len(), |i: int| groups_view(v[i]@))
}

/// The text that a pattern was compiled from.
pub uninterp spec fn pattern_text(re: Regex) -> Seq<char>;

/// The matches of a pattern in a line: for each of its successive
/// non-overlapping matches, the named groups of the pattern in the order in
/// which it declares them, each with the text that it captured in that match.
pub uninterp spec fn regex_captures(re: Regex, line: Seq<char>) -> Seq<Seq<GroupView>>;

/// Compiles a pattern with `regex::Regex::new`. Nothing is claimed of which
/// patterns compile; a compiled pattern keeps the text that it was compiled
/// from, which `Regex::as_str` returns.
#[verifier::external_body]
pub(crate) fn compile(pattern: &str) -> (r: Result<Regex, regex::Error>)
    ensures
        match r {
            Ok(re) => pattern_text(re) == pattern@,
            Err(_) => true,
        },
{
    Regex::new(pattern)
}

/// Walks `Regex::captures_iter` over `line` and, for each match, the names
/// that `Regex::capture_names` yields, looking each up with `Captures::name`.
/// The result is the one that `regex_captures` names.
#[verifier::external_body]
pub(crate) fn find_captures(re: &Regex, line: &str) -> (r: Vec<Vec<GroupCapture>>)
    ensures
        matches_view(r@) == regex_captures(*re, line@),
{
    re.captures_iter(line).map(|cap| {
        re.capture_names().flatten().map(|n| GroupCapture {
            name: n.to_string(),
            text: cap.name(n).map(|m| m.as_str().to_string()),
        }).collect()
    }).collect()
}

/// A translation rule.
pub struct ParamTransEntry {
    /// The start of the flags that the rule applies to.
    pub flag: String,
    /// The name of the stages that take the parameters, or `any`.
    pub stage_name: String,
    pub regexes: Vec<Regex>,
    /// The sequence number that a line has set for the lines that follow; 0
    /// while none has.
    pub cur_sn: usize,
}

/// Why a rule text yields no rules.
#[derive(Debug, Clone, Copy, PartialEq, Eq, Structural)]
pub enum RuleError {
    /// A rule line without a colon between flag and stage name.
    MalformedRule,
    /// A pattern that does not compile.
    InvalidPattern,
}

/// A rule as text: its flag, its stage name and its patterns.
pub struct RuleText {
    pub flag: Vec<char>,
    pub stage_name: Vec<char>,
    pub patterns: Vec<Vec<char>>,
}

/// A rule as text, as a value.
pub struct RuleTextView {
    pub flag: Seq<char>,
    pub stage_name: Seq<char>,
    pub patterns: Seq<Seq<char>>,
}

impl View for RuleText {
    type V = RuleTextView;

    open spec fn view(&self) -> RuleTextView {
        RuleTextView {
            flag: self.flag@,
            stage_name: self.stage_name@,
            patterns: texts_view(self.patterns@),
        }
    }
}

/// The rules of a rule text, as values.
pub open spec fn rule_texts_view(v: Seq<RuleText>) -> Seq<RuleTextView> {
    Seq::new(v.len(), |i: int| v[i]@)
}

/// What one line of a rule text is.
pub enum RuleLine {
    /// A comment or an empty line.
    Blank,
    /// The start of a rule: a hyphen, the flag, a colon and the stage name.
    Head { flag: Seq<char>, stage_name: Seq<char> },
    /// A hyphen line without a colon.
    Malformed,
    /// A pattern of the rule that was started last.
    Pattern { text: Seq<char> },
}

/// What a line of a rule text is. A head's flag is the text between the
/// hyphen and the first colon without the white space around it; its stage
/// name is what follows the colon without leading white space.
pub open spec fn rule_line(line: Seq<char>) -> RuleLine {
    if line.len() > 0 && line[0] == '#' {
        RuleLine::Blank
    } else if line.len() > 0 && line[0] == '-' {
        match split_at_first(line.subrange(1, line.len() as int), ':') {
            None => RuleLine::Malformed,
            Some((l, r)) => RuleLine::Head { flag: trim_of(l), stage_name: trim_start_of(r) },
        }
    } else if line.len() > 0 {
        RuleLine::Pattern { text: line }
    } else {
        RuleLine::Blank
    }
}

/// The rules under construction after some lines: the finished ones, and the
/// one that the last head has started.
pub struct RulesState {
    pub done: Seq<RuleTextView>,
    pub current: RuleTextView,
}

/// A rule joins the finished ones unless its flag is empty.
pub open spec fn closed(st: RulesState) -> Seq<RuleTextView> {
    if st.current.flag.len() > 0 {
        st.done.push(st.current)
    } else {
        st.done
    }
}

/// The state after one more line.
pub open spec fn rule_step(st: RulesState, kind: RuleLine) -> RulesState {
    match kind {
        RuleLine::Head { flag, stage_name } => RulesState {
            done: closed(st),
            current: RuleTextView { flag, stage_name, patterns: Seq::empty() },
        },
        RuleLine::Pattern { text } => RulesState {
            current: RuleTextView { patterns: st.current.patterns.push(text), ..st.current },
            ..st
        },
        _ => st,
    }
}

/// The state after the first `k` lines.
pub open spec fn rules_after(lines: Seq<Seq<char>>, k: int) -> RulesState
    decreases k,
{
    if k <= 0 {
        RulesState {
            done: Seq::empty(),
            current: RuleTextView {
                flag: Seq::empty(),
                stage_name: Seq::empty(),
                patterns: Seq::empty(),
            },
        }
    } else {
        rule_step(rules_after(lines, k - 1), rule_line(lines[k - 1]))
    }
}

/// The rules that a rule text holds.
pub open spec fn rules_of(text: Seq<char>) -> Seq<RuleTextView> {
    closed(rules_after(lines_of(text), lines_of(text).len() as int))
}

/// Some line of the text is a hyphen line without a colon.
pub open spec fn has_bad_rule(text: Seq<char>) -> bool {
    exists|i: int|
        0 <= i < lines_of(text).len() && #[trigger] rule_line(lines_of(text)[i]) is Malformed
}

/// Reads the rules of a rule text: comment lines start with `#`, a line that
/// starts with `-` starts a rule, and every other line that is not empty is a
/// pattern of the rule started last. Patterns before the first rule, and rules
/// with an empty flag, are left out.
pub fn parse_rules(text: &Vec<char>) -> (r: Result<Vec<RuleText>, RuleError>)
    ensures
        match r {
            Ok(rules) => !has_bad_rule(text@) && rule_texts_view(rules@) == rules_of(text@),
            Err(e) => e == RuleError::MalformedRule && has_bad_rule(text@),
        },
{
    let lines = split_lines(text);
    let ghost all = lines_of(text@);
    let mut done: Vec<RuleText> = Vec::new();
    let mut current = RuleText { flag: Vec::new(), stage_name: Vec::new(), patterns: Vec::new() };
    assert(rule_texts_view(done@) =~= Seq::empty());
    assert(current@.patterns =~= Seq::empty());
    let mut i: usize = 0;
    while i < lines.len()
        invariant
            all == lines_of(text@),
            all == texts_view(lines@),
            0 <= i <= lines@.len(),
            rules_after(all, i as int) == (RulesState {
                done: rule_texts_view(done@),
                current: current@,
            }),
            forall|j: int| 0 <= j < i ==> !(#[trigger] rule_line(all[j]) is Malformed),
        decreases lines@.len() - i,
    {
        let line = &lines[i];
        assert(all[i as int] == line@);
        let ghost prev = rules_after(all, i as int);
        if line.len() > 0 && line[0] == '#' {
        } else if line.len() > 0 && line[0] == '-' {
            let rest = slice(line, 1, line.len());
            match split_once(&rest, ':') {
                None => {
                    assert(rule_line(all[i as int]) is Malformed);
                    return Err(RuleError::MalformedRule);
                },
                Some((l, r)) => {
                    let flag = trim(&l);
                    let stage_name = trim_start(&r);
                    let mut fresh = RuleText { flag, stage_name, patterns: Vec::new() };
                    assert(fresh@.patterns =~= Seq::empty());
                    std::mem::swap(&mut current, &mut fresh);
                    if fresh.flag.len() > 0 {
                        done.push(fresh);
                        assert(rule_texts_view(done@) =~= closed(prev));
                    }
                },
            }
        } else if line.len() > 0 {
            let ghost before = current@.patterns;
            current.patterns.push(slice(line, 0, line.len()));
            proof {
                assert(line@.subrange(0, line@.len() as int) =~= line@);
                assert(current@.patterns =~= before.push(line@));
            }
        }
        i = i + 1;
    }
    let ghost st = rules_after(all, lines@.len() as int);
    if current.flag.len() > 0 {
        done.push(current);
        assert(rule_texts_view(done@) =~= closed(st));
    }
    Ok(done)
}

/// The patterns that compiled, in order, where all of them did.
pub fn collect_compiled(results: Vec<Result<Regex, regex::Error>>) -> (r: Result<
    Vec<Regex>,
    RuleError,
>)
    ensures
        match r {
            Ok(v) => v@.len() == results@.len() && forall|j: int|
                0 <= j < v@.len() ==> results@[j] == Ok::<Regex, regex::Error>(#[trigger] v@[j]),
            Err(e) => e == RuleError::InvalidPattern && exists|j: int|
                0 <= j < results@.len() && #[trigger] results@[j] is Err,
        },
{
    let mut rest = results;
    let mut out: Vec<Regex> = Vec::new();
    while rest.len() > 0
        invariant
            out@.len() + rest@.len() == results@.len(),
            forall|j: int|
                0 <= j < out@.len() ==> results@[j] == Ok::<Regex, regex::Error>(#[trigger] out@[j]),
            forall|j: int| 0 <= j < rest@.len() ==> #[trigger] rest@[j] == results@[out@.len() + j],
        decreases rest@.len(),
    {
        let ghost at = out@.len() as int;
        assert(rest@[0] == results@[at + 0]);
        let first = rest.remove(0);
        match first {
            Ok(re) => {
                out.push(re);
            },
            Err(_) => {
                assert(results@[at] is Err);
                return Err(RuleError::InvalidPattern);
            },
        }
    }
    Ok(out)
}

/// The rule is the one that `t` describes: its patterns were compiled from
/// the texts of `t`, in order, and it carries no sequence number.
pub open spec fn entry_of(e: ParamTransEntry, t: RuleTextView) -> bool {
    &&& e.flag@ == t.flag
    &&& e.stage_name@ == t.stage_name
    &&& e.cur_sn == 0
    &&& e.regexes@.len() == t.patterns.len()
    &&& forall|j: int|
        0 <= j < t.patterns.len() ==> pattern_text(#[trigger] e.regexes@[j]) == t.patterns[j]
}

/// The rules are the ones that `t` describes, in order.
pub open spec fn entries_of(v: Seq<ParamTransEntry>, t: Seq<RuleTextView>) -> bool {
    v.len() == t.len() && forall|i: int| 0 <= i < v.len() ==> entry_of(#[trigger] v[i], t[i])
}

/// Some rule has a pattern.
pub open spec fn has_pattern(t: Seq<RuleTextView>) -> bool {
    exists|i: int| 0 <= i < t.len() && (#[trigger] t[i]).patterns.len() > 0
}

impl ParamTransEntry {
    /// Compiles the patterns of one rule.
    pub fn compile_rule(rule: &RuleText) -> (r: Result<ParamTransEntry, RuleError>)
        ensures
            match r {
                Ok(e) => entry_of(e, rule@),
                Err(e) => e == RuleError::InvalidPattern && rule@.patterns.len() > 0,
            },
    {
        let mut results: Vec<Result<Regex, regex::Error>> = Vec::new();
        let mut j: usize = 0;
        while j < rule.patterns.len()
            invariant
                0 <= j <= rule.patterns@.len(),
                results@.len() == j,
                forall|k: int|
                    0 <= k < j ==> match #[trigger] results@[k] {
                        Ok(re) => pattern_text(re) == rule.patterns@[k]@,
                        Err(_) => true,
                    },
            decreases rule.patterns@.len() - j,
        {
            let source = text_of(&rule.patterns[j]);
            results.push(compile(source.as_str()));
            j = j + 1;
        }
        match collect_compiled(results) {
            Ok(regexes) => {
                let e = ParamTransEntry {
                    flag: text_of(&rule.flag),
                    stage_name: text_of(&rule.stage_name),
                    regexes,
                    cur_sn: 0,
                };
                assert forall|k: int| 0 <= k < rule@.patterns.len() implies pattern_text(
                    #[trigger] e.regexes@[k],
                ) == rule@.patterns[k] by {
                    assert(results@[k] == Ok::<Regex, regex::Error>(e.regexes@[k]));
                }
                Ok(e)
            },
            Err(e) => Err(e),
        }
    }

    /// The rules of a rule text, their patterns compiled. Fails on a rule line
    /// without a colon, and where a pattern does not compile.
    pub fn new(text: &str) -> (r: Result<Vec<ParamTransEntry>, RuleError>)
        ensures
            match r {
                Ok(v) => !has_bad_rule(text@) && entries_of(v@, rules_of(text@)),
                Err(RuleError::MalformedRule) => has_bad_rule(text@),
                Err(RuleError::InvalidPattern) => !has_bad_rule(text@) && has_pattern(
                    rules_of(text@),
                ),
            },
    {
        let chars = chars_of(text);
        let rules = match parse_rules(&chars) {
            Ok(rules) => rules,
            Err(e) => {
                return Err(e);
            },
        };
        let mut out: Vec<ParamTransEntry> = Vec::new();
        let mut i: usize = 0;
        while i < rules.len()
            invariant
                0 <= i <= rules@.len(),
                !has_bad_rule(text@),
                rule_texts_view(rules@) == rules_of(text@),
                out@.len() == i,
                forall|k: int| 0 <= k < i ==> entry_of(#[trigger] out@[k], rules_of(text@)[k]),
            decreases rules@.len() - i,
        {
            assert(rule_texts_view(rules@)[i as int] == rules@[i as int]@);
            match ParamTransEntry::compile_rule(&rules[i]) {
                Ok(e) => {
                    out.push(e);
                },
                Err(e) => {
                    assert(rules_of(text@)[i as int].patterns.len() > 0);
                    return Err(e);
                },
            }
            i = i + 1;
        }
        Ok(out)
    }
}

} // verus!
