//! The structured trace: instructions, their pipeline stages and the
//! parameters attached to them; and what can go wrong in building one.

use vstd::prelude::*;

verus! {

/// The colour that every stage is given.
pub const STAGE_COLOR: usize = 7;

/// A name and a value, both text.
pub struct Param {
    pub name: String,
    pub value: String,
}

/// One occurrence of a pipeline stage for one instruction.
pub struct Stage {
    pub cycle: usize,
    pub name: String,
    pub id: char,
    pub color: usize,
    pub params: Vec<Param>,
}

/// One dynamically executed instruction.
pub struct Inst {
    pub tid: usize,
    pub pc: String,
    pub micro_pc: usize,
    pub text: String,
    pub stages: Vec<Stage>,
}

/// The instructions of a log, in the order of their fetch events.
pub struct Trace {
    pub insts: Vec<Inst>,
}

/// Why a log cannot be converted.
#[derive(Debug, Clone, Copy, PartialEq, Eq, Structural)]
pub enum ConvertError {
    /// A fetch event with fewer than six fields, with a cycle, micro-operation
    /// index or sequence number that is no number, or with sequence number 0.
    MalformedFetch,
    /// A stage event without a cycle field, with a cycle that is no number, or
    /// without a name.
    MalformedStage,
    /// A decode block that the log ends in before its closing brace.
    TruncatedDecode,
    /// A captured sequence number that is no number.
    MalformedSequenceNumber,
}

/// A parameter, as a value.
pub struct ParamView {
    pub name: Seq<char>,
    pub value: Seq<char>,
}

/// A stage, as a value.
pub struct StageView {
    pub cycle: usize,
    pub name: Seq<char>,
    pub id: char,
    pub color: usize,
    pub params: Seq<ParamView>,
}

/// An instruction, as a value.
pub struct InstView {
    pub tid: usize,
    pub pc: Seq<char>,
    pub micro_pc: usize,
    pub text: Seq<char>,
    pub stages: Seq<StageView>,
}

/// The parameters held in `v`, as values.
pub open spec fn params_view(v: Seq<Param>) -> Seq<ParamView> {
    Seq::new(v.len(), |i: int| v[i]@)
}

/// The stages held in `v`, as values.
pub open spec fn stages_view(v: Seq<Stage>) -> Seq<StageView> {
    Seq::new(v.len(), |i: int| v[i]@)
}

/// The instructions held in `v`, as values.
pub open spec fn insts_view(v: Seq<Inst>) -> Seq<InstView> {
    Seq::new(v.len(), |i: int| v[i]@)
}

impl View for Param {
    type V = ParamView;

    open spec fn view(&self) -> ParamView {
        ParamView { name: self.name@, value: self.value@ }
    }
}

impl View for Stage {
    type V = StageView;

    open spec fn view(&self) -> StageView {
        StageView {
            cycle: self.cycle,
            name: self.name@,
            id: self.id,
            color: self.color,
            params: params_view(self.params@),
        }
    }
}

impl View for Inst {
    type V = InstView;

    open spec fn view(&self) -> InstView {
        InstView {
            tid: self.tid,
            pc: self.pc@,
            micro_pc: self.micro_pc,
            text: self.text@,
            stages: stages_view(self.stages@),
        }
    }
}

impl View for Trace {
    type V = Seq<InstView>;

    open spec fn view(&self) -> Seq<InstView> {
        insts_view(self.insts@)
    }
}

impl Param {
    /// The parameter with that name and value.
    pub fn new(name: String, value: String) -> (r: Param)
        ensures
            r@ == (ParamView { name: name@, value: value@ }),
    {
        Param { name, value }
    }

    /// A parameter with the same name and value.
    pub fn copy(&self) -> (r: Param)
        ensures
            r@ == self@,
    {
        Param { name: self.name.clone(), value: self.value.clone() }
    }
}

impl Stage {
    /// A stage without parameters.
    pub fn new(cycle: usize, name: String, id: char) -> (r: Stage)
        ensures
            r@ == bare_stage(cycle, name@, id),
    {
        let r = Stage { cycle, name, id, color: STAGE_COLOR, params: Vec::new() };
        assert(r@.params =~= Seq::empty());
        r
    }
}

/// The stage at `cycle` with that name and display code, without parameters.
pub open spec fn bare_stage(cycle: usize, name: Seq<char>, id: char) -> StageView {
    StageView { cycle, name, id, color: STAGE_COLOR, params: Seq::empty() }
}

/// The instruction that nothing is known of yet.
pub open spec fn blank_inst() -> InstView {
    InstView { tid: 0, pc: Seq::empty(), micro_pc: 0, text: Seq::empty(), stages: Seq::empty() }
}

impl Inst {
    /// An instruction that nothing is known of yet.
    pub fn new() -> (r: Inst)
        ensures
            r@ == blank_inst(),
    {
        let r = Inst {
            tid: 0,
            pc: String::new(),
            micro_pc: 0,
            text: String::new(),
            stages: Vec::new(),
        };
        assert(r@.stages =~= Seq::empty());
        r
    }
}

impl Trace {
    /// A trace without instructions.
    pub fn new() -> (r: Trace)
        ensures
            r@ == Seq::<InstView>::empty(),
    {
        let r = Trace { insts: Vec::new() };
        assert(r@ =~= Seq::empty());
        r
    }

    /// Appends `inst` as the next instruction.
    pub fn add_inst(&mut self, inst: Inst)
        ensures
            final(self)@ == old(self)@.push(inst@),
    {
        self.insts.push(inst);
        assert(self@ =~= old(self)@.push(inst@));
    }
}

} // verus!
