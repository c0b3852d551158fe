//! The first pass over a log: the structural lines, from which the
//! instructions, their stages and the per-cycle index are built.

use vstd::prelude::*;
use crate::cycle_bounds::{claimed, CycleInstrBounds, Slot};
use crate::number::{parse_usize, usize_of};
use crate::text::{
    chars_of, concat, occurs_at, pieces_of, same, slice, split_all, split_at_first, split_once,
    starts_with, text_of, texts_view,
};
use crate::trace::{bare_stage, blank_inst, ConvertError, Inst, InstView, Stage, Trace};

verus! {

/// What one line of the log means to the first pass.
pub enum Event {
    /// No structural line.
    Ignored,
    /// A stage that the simulator skipped: its scaled cycle is 0.
    Skipped,
    MalformedFetch,
    MalformedStage,
    /// The start of a new instruction.
    Fetch {
        cycle: usize,
        name: Seq<char>,
        pc: Seq<char>,
        micro_pc: usize,
        seq_num: usize,
        text: Seq<char>,
    },
    /// A further stage of the current instruction.
    Stage { cycle: usize, name: Seq<char>, id: char },
}

/// An event, as the engine holds it.
pub enum LineEvent {
    Ignored,
    Skipped,
    MalformedFetch,
    MalformedStage,
    Fetch {
        cycle: usize,
        name: Vec<char>,
        pc: Vec<char>,
        micro_pc: usize,
        seq_num: usize,
        text: Vec<char>,
    },
    Stage { cycle: usize, name: Vec<char>, id: char },
}

impl View for LineEvent {
    type V = Event;

    open spec fn view(&self) -> Event {
        match *self {
            LineEvent::Ignored => Event::Ignored,
            LineEvent::Skipped => Event::Skipped,
            LineEvent::MalformedFetch => Event::MalformedFetch,
            LineEvent::MalformedStage => Event::MalformedStage,
            LineEvent::Fetch { cycle, name, pc, micro_pc, seq_num, text } => Event::Fetch {
                cycle,
                name: name@,
                pc: pc@,
                micro_pc,
                seq_num,
                text: text@,
            },
            LineEvent::Stage { cycle, name, id } => Event::Stage { cycle, name: name@, id },
        }
    }
}

/// A raw cycle divided by the scale, rounding down.
pub open spec fn scaled(cycle: usize, scale: usize) -> usize {
    (cycle as int / scale as int) as usize
}

/// The display code of a stage: the first character of its name, but for the
/// two names that would collide with another stage's.
pub open spec fn stage_code(name: Seq<char>) -> char
    recommends
        name.len() > 0,
{
    if name == "dispatch"@ {
        'D'
    } else if name == "retire"@ {
        'R'
    } else {
        name[0]
    }
}

/// The event of a fetch payload: name, raw cycle, program counter,
/// micro-operation index, sequence number counted from 1, instruction type
/// and, optionally, instruction text, divided by colons.
pub open spec fn fetch_event(p: Seq<char>, scale: usize) -> Event {
    let f = pieces_of(p, ':');
    if f.len() < 6 {
        Event::MalformedFetch
    } else {
        match (usize_of(f[1]), usize_of(f[3]), usize_of(f[4])) {
            (Some(c), Some(m), Some(s)) => if s == 0 || scaled(c, scale) == usize::MAX {
                Event::MalformedFetch
            } else {
                Event::Fetch {
                    cycle: scaled(c, scale),
                    name: f[0],
                    pc: f[2],
                    micro_pc: m,
                    seq_num: (s - 1) as usize,
                    text: f[5] + " : "@ + (if f.len() > 6 {
                        f[6]
                    } else {
                        "nop"@
                    }),
                }
            },
            _ => Event::MalformedFetch,
        }
    }
}

/// The cycle field of what follows a stage's name: what stands before the
/// next colon, or all of it where there is none.
pub open spec fn cycle_field(rest: Seq<char>) -> Seq<char> {
    match split_at_first(rest, ':') {
        Some((n, _)) => n,
        None => rest,
    }
}

/// The event of another stage's payload: name, a colon, the raw cycle and,
/// optionally, a colon and more.
pub open spec fn stage_event(p: Seq<char>, scale: usize) -> Event {
    match split_at_first(p, ':') {
        None => Event::MalformedStage,
        Some((name, rest)) => {
            let number = cycle_field(rest);
            match usize_of(number) {
                None => Event::MalformedStage,
                Some(c) => if scaled(c, scale) == 0 {
                    Event::Skipped
                } else if name.len() == 0 || scaled(c, scale) == usize::MAX {
                    Event::MalformedStage
                } else {
                    Event::Stage { cycle: scaled(c, scale), name, id: stage_code(name) }
                },
            }
        },
    }
}

/// The event of one line of the log.
pub open spec fn line_event(line: Seq<char>, scale: usize) -> Event {
    let prefix = "O3PipeView:"@;
    if !occurs_at(line, prefix, 0) {
        Event::Ignored
    } else {
        let p = line.subrange(prefix.len() as int, line.len() as int);
        if occurs_at(p, "fetch"@, 0) {
            fetch_event(p, scale)
        } else {
            stage_event(p, scale)
        }
    }
}

/// Reads the payload of a fetch line.
pub fn read_fetch(p: &Vec<char>, scale: usize) -> (r: LineEvent)
    requires
        scale > 0,
    ensures
        r@ == fetch_event(p@, scale),
{
    let f = split_all(p, ':');
    if f.len() < 6 {
        return LineEvent::MalformedFetch;
    }
    proof {
        assert(forall|i: int| 0 <= i < f@.len() ==> #[trigger] texts_view(f@)[i] == f@[i]@);
    }
    let c = match parse_usize(&f[1]) {
        Some(c) => c,
        None => {
            return LineEvent::MalformedFetch;
        },
    };
    let m = match parse_usize(&f[3]) {
        Some(m) => m,
        None => {
            return LineEvent::MalformedFetch;
        },
    };
    let s = match parse_usize(&f[4]) {
        Some(s) => s,
        None => {
            return LineEvent::MalformedFetch;
        },
    };
    let cycle: usize = c / scale;
    if s == 0 || cycle == usize::MAX {
        return LineEvent::MalformedFetch;
    }
    let separator = chars_of(" : ");
    let head = concat(&f[5], &separator);
    let text = if f.len() > 6 {
        concat(&head, &f[6])
    } else {
        let nop = chars_of("nop");
        concat(&head, &nop)
    };
    let name = slice(&f[0], 0, f[0].len());
    let pc = slice(&f[2], 0, f[2].len());
    proof {
        assert(name@ =~= f@[0]@);
        assert(pc@ =~= f@[2]@);
        assert(texts_view(f@)[0] == f@[0]@);
        assert(texts_view(f@)[2] == f@[2]@);
        assert(texts_view(f@)[5] == f@[5]@);
        if f@.len() > 6 {
            assert(texts_view(f@)[6] == f@[6]@);
        }
    }
    LineEvent::Fetch { cycle, name, pc, micro_pc: m, seq_num: s - 1, text }
}

/// The display code of the stage `name`.
pub fn stage_id(name: &Vec<char>) -> (r: char)
    requires
        name@.len() > 0,
    ensures
        r == stage_code(name@),
{
    let dispatch = chars_of("dispatch");
    let retire = chars_of("retire");
    if same(name, &dispatch) {
        'D'
    } else if same(name, &retire) {
        'R'
    } else {
        name[0]
    }
}

/// Reads the payload of the line of a stage other than fetch.
pub fn read_stage(p: &Vec<char>, scale: usize) -> (r: LineEvent)
    requires
        scale > 0,
    ensures
        r@ == stage_event(p@, scale),
{
    match split_once(p, ':') {
        None => LineEvent::MalformedStage,
        Some((name, rest)) => {
            let number = match split_once(&rest, ':') {
                Some((n, _)) => n,
                None => rest,
            };
            match parse_usize(&number) {
                None => LineEvent::MalformedStage,
                Some(c) => {
                    let cycle: usize = c / scale;
                    if cycle == 0 {
                        LineEvent::Skipped
                    } else if name.len() == 0 || cycle == usize::MAX {
                        LineEvent::MalformedStage
                    } else {
                        let id = stage_id(&name);
                        LineEvent::Stage { cycle, name, id }
                    }
                },
            }
        },
    }
}

/// Reads one line of the log.
pub fn read_line(line: &Vec<char>, scale: usize) -> (r: LineEvent)
    requires
        scale > 0,
    ensures
        r@ == line_event(line@, scale),
{
    let prefix = chars_of("O3PipeView:");
    if !starts_with(line, &prefix) {
        return LineEvent::Ignored;
    }
    let p = slice(line, prefix.len(), line.len());
    let fetch = chars_of("fetch");
    if starts_with(&p, &fetch) {
        read_fetch(&p, scale)
    } else {
        read_stage(&p, scale)
    }
}

/// The state of the first pass between two lines.
pub struct PassOneView {
    /// The instructions finalized so far.
    pub insts: Seq<InstView>,
    /// The per-cycle index of the finalized instructions.
    pub slots: Seq<Slot>,
    /// Whether a fetch event has been seen: before the first one the pass
    /// awaits it, afterwards it accumulates the stages of `current`.
    pub started: bool,
    pub current: InstView,
    pub seq_num: usize,
    pub min_cycle: usize,
    pub max_cycle: usize,
}

/// The state before the first line: no fetch event has been seen.
pub open spec fn initial() -> PassOneView {
    PassOneView {
        insts: Seq::empty(),
        slots: Seq::empty(),
        started: false,
        current: blank_inst(),
        seq_num: 0,
        min_cycle: 0,
        max_cycle: 0,
    }
}

/// The instructions after the current one has been finalized: it joins them,
/// unless no fetch event has been seen yet.
pub open spec fn finalized_insts(st: PassOneView) -> Seq<InstView> {
    if st.started {
        st.insts.push(st.current)
    } else {
        st.insts
    }
}

/// The index after the current instruction has been finalized: its window is
/// claimed for its sequence number.
pub open spec fn finalized_slots(st: PassOneView) -> Seq<Slot> {
    if st.started {
        claimed(st.slots, st.min_cycle as int, st.max_cycle as int, st.seq_num)
    } else {
        st.slots
    }
}

/// The state after one more event.
pub open spec fn step(st: PassOneView, ev: Event) -> PassOneView {
    match ev {
        Event::Fetch { cycle, name, pc, micro_pc, seq_num, text } => PassOneView {
            insts: finalized_insts(st),
            slots: finalized_slots(st),
            started: true,
            current: InstView {
                tid: 0,
                pc,
                micro_pc,
                text,
                stages: seq![bare_stage(cycle, name, 'f')],
            },
            seq_num,
            min_cycle: cycle,
            max_cycle: cycle,
        },
        Event::Stage { cycle, name, id } => PassOneView {
            current: InstView {
                stages: st.current.stages.push(bare_stage(cycle, name, id)),
                ..st.current
            },
            min_cycle: if cycle < st.min_cycle {
                cycle
            } else {
                st.min_cycle
            },
            max_cycle: if cycle > st.max_cycle {
                cycle
            } else {
                st.max_cycle
            },
            ..st
        },
        _ => st,
    }
}

/// The state after the first `k` lines.
pub open spec fn run(lines: Seq<Seq<char>>, scale: usize, k: int) -> PassOneView
    decreases k,
{
    if k <= 0 {
        initial()
    } else {
        step(run(lines, scale, k - 1), line_event(lines[k - 1], scale))
    }
}

/// The event of a structural line that cannot be read.
pub open spec fn is_malformed(ev: Event) -> bool {
    ev is MalformedFetch || ev is MalformedStage
}

/// Line `i` is the first one that is malformed.
pub open spec fn first_malformed(lines: Seq<Seq<char>>, scale: usize, i: int) -> bool {
    &&& 0 <= i < lines.len()
    &&& is_malformed(line_event(lines[i], scale))
    &&& forall|j: int| 0 <= j < i ==> !is_malformed(#[trigger] line_event(lines[j], scale))
}

/// The number of fetch events among the first `k` lines.
pub open spec fn fetch_count(lines: Seq<Seq<char>>, scale: usize, k: int) -> nat
    decreases k,
{
    if k <= 0 {
        0
    } else {
        fetch_count(lines, scale, k - 1) + if line_event(lines[k - 1], scale) is Fetch {
            1nat
        } else {
            0nat
        }
    }
}

/// After any number of lines, the finalized instructions are as many as the
/// fetch events seen, less the current one; so at the end of the log, when
/// the current one is finalized too, there is one instruction for each fetch
/// event.
pub proof fn lemma_fetch_boundary(lines: Seq<Seq<char>>, scale: usize, k: int)
    requires
        0 <= k <= lines.len(),
    ensures
        run(lines, scale, k).started == (fetch_count(lines, scale, k) > 0),
        run(lines, scale, k).insts.len() + (if run(lines, scale, k).started {
            1nat
        } else {
            0nat
        }) == fetch_count(lines, scale, k),
        finalized_insts(run(lines, scale, k)).len() == fetch_count(lines, scale, k),
    decreases k,
{
    if k > 0 {
        lemma_fetch_boundary(lines, scale, k - 1);
    }
}

/// A structural line of a stage other than fetch whose scaled cycle is 0
/// leaves the state as it was: no stage is added to the current instruction.
pub proof fn lemma_skip_convention(st: PassOneView, p: Seq<char>, scale: usize)
    requires
        scale > 0,
        !occurs_at(p, "fetch"@, 0),
        match split_at_first(p, ':') {
            Some((_, rest)) => match usize_of(cycle_field(rest)) {
                Some(c) => scaled(c, scale) == 0,
                None => false,
            },
            None => false,
        },
    ensures
        line_event("O3PipeView:"@ + p, scale) is Skipped,
        step(st, line_event("O3PipeView:"@ + p, scale)) == st,
        step(st, line_event("O3PipeView:"@ + p, scale)).current.stages == st.current.stages,
{
    let prefix = "O3PipeView:"@;
    let line = prefix + p;
    assert(line.subrange(0, prefix.len() as int) =~= prefix);
    assert(line.subrange(prefix.len() as int, line.len() as int) =~= p);
}

/// The first pass at work: the finalized instructions, the index, and the
/// instruction that is being accumulated.
pub struct PassOne {
    pub trace: Trace,
    pub bounds: CycleInstrBounds,
    pub started: bool,
    pub current: Inst,
    pub seq_num: usize,
    pub min_cycle: usize,
    pub max_cycle: usize,
}

impl View for PassOne {
    type V = PassOneView;

    open spec fn view(&self) -> PassOneView {
        PassOneView {
            insts: self.trace@,
            slots: self.bounds@,
            started: self.started,
            current: self.current@,
            seq_num: self.seq_num,
            min_cycle: self.min_cycle,
            max_cycle: self.max_cycle,
        }
    }
}

/// The cycles and sequence numbers that an event carries leave room for the
/// index to grow by one.
pub open spec fn event_in_range(ev: Event) -> bool {
    match ev {
        Event::Fetch { cycle, seq_num, .. } => cycle < usize::MAX && seq_num < usize::MAX,
        Event::Stage { cycle, .. } => cycle < usize::MAX,
        _ => true,
    }
}

impl PassOne {
    /// The index is well formed, and the current window and sequence number
    /// leave room for it to grow by one.
    pub open spec fn wf(&self) -> bool {
        self.bounds.wf() && self.max_cycle < usize::MAX && self.seq_num < usize::MAX
    }

    /// The pass before its first line.
    pub fn new() -> (r: PassOne)
        ensures
            r.wf(),
            r@ == initial(),
    {
        PassOne {
            trace: Trace::new(),
            bounds: CycleInstrBounds::new(),
            started: false,
            current: Inst::new(),
            seq_num: 0,
            min_cycle: 0,
            max_cycle: 0,
        }
    }

    /// Takes one event in.
    pub fn apply(&mut self, ev: LineEvent)
        requires
            old(self).wf(),
            event_in_range(ev@),
        ensures
            final(self).wf(),
            final(self)@ == step(old(self)@, ev@),
    {
        match ev {
            LineEvent::Fetch { cycle, name, pc, micro_pc, seq_num, text } => {
                let mut stages: Vec<Stage> = Vec::new();
                stages.push(Stage::new(cycle, text_of(&name), 'f'));
                let mut fresh = Inst {
                    tid: 0,
                    pc: text_of(&pc),
                    micro_pc,
                    text: text_of(&text),
                    stages,
                };
                assert(fresh@.stages =~= seq![bare_stage(cycle, name@, 'f')]);
                std::mem::swap(&mut self.current, &mut fresh);
                if self.started {
                    self.trace.add_inst(fresh);
                    self.bounds.add(self.min_cycle, self.max_cycle, self.seq_num);
                }
                self.started = true;
                self.seq_num = seq_num;
                self.min_cycle = cycle;
                self.max_cycle = cycle;
            },
            LineEvent::Stage { cycle, name, id } => {
                let stage = Stage::new(cycle, text_of(&name), id);
                self.current.stages.push(stage);
                assert(self.current@.stages =~= old(self).current@.stages.push(
                    bare_stage(cycle, name@, id),
                ));
                if cycle < self.min_cycle {
                    self.min_cycle = cycle;
                }
                if cycle > self.max_cycle {
                    self.max_cycle = cycle;
                }
            },
            _ => {},
        }
    }

    /// Finalizes the instruction that is still being accumulated.
    pub fn finish(self) -> (r: (Trace, CycleInstrBounds))
        requires
            self.wf(),
        ensures
            r.0@ == finalized_insts(self@),
            r.1@ == finalized_slots(self@),
            r.1.wf(),
    {
        let mut trace = self.trace;
        let mut bounds = self.bounds;
        if self.started {
            trace.add_inst(self.current);
            bounds.add(self.min_cycle, self.max_cycle, self.seq_num);
        }
        (trace, bounds)
    }
}

/// The failure that a malformed line stands for.
pub open spec fn error_of(ev: Event) -> ConvertError {
    if ev is MalformedFetch {
        ConvertError::MalformedFetch
    } else {
        ConvertError::MalformedStage
    }
}

/// Builds the instructions and the per-cycle index from the structural lines
/// of a log. Fails at the first malformed structural line.
pub fn pass_one(lines: &Vec<Vec<char>>, scale: usize) -> (r: Result<
    (Trace, CycleInstrBounds),
    ConvertError,
>)
    requires
        scale > 0,
    ensures
        match r {
            Ok((trace, bounds)) => {
                let end = run(texts_view(lines@), scale, lines@.len() as int);
                &&& forall|i: int| !first_malformed(texts_view(lines@), scale, i)
                &&& trace@ == finalized_insts(end)
                &&& bounds@ == finalized_slots(end)
                &&& bounds.wf()
                &&& trace@.len() == fetch_count(texts_view(lines@), scale, lines@.len() as int)
            },
            Err(e) => exists|i: int|
                first_malformed(texts_view(lines@), scale, i) && e == error_of(
                    line_event(texts_view(lines@)[i], scale),
                ),
        },
{
    let ghost all = texts_view(lines@);
    let mut state = PassOne::new();
    let mut i: usize = 0;
    while i < lines.len()
        invariant
            scale > 0,
            all == texts_view(lines@),
            0 <= i <= lines@.len(),
            state.wf(),
            state@ == run(all, scale, i as int),
            forall|j: int| 0 <= j < i ==> !is_malformed(#[trigger] line_event(all[j], scale)),
        decreases lines@.len() - i,
    {
        let ev = read_line(&lines[i], scale);
        assert(all[i as int] == lines@[i as int]@);
        match ev {
            LineEvent::MalformedFetch => {
                assert(first_malformed(all, scale, i as int));
                return Err(ConvertError::MalformedFetch);
            },
            LineEvent::MalformedStage => {
                assert(first_malformed(all, scale, i as int));
                return Err(ConvertError::MalformedStage);
            },
            _ => {},
        }
        assert(event_in_range(ev@));
        state.apply(ev);
        i = i + 1;
    }
    proof {
        lemma_fetch_boundary(all, scale, lines@.len() as int);
    }
    let r = state.finish();
    Ok(r)
}

} // verus!
