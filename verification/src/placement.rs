//! Placing parameters: on the stages of an instruction that a name or a cycle
//! selects, on the instructions of one decoded macro-instruction, and on a
//! placeholder stage where no stage fits.

use vstd::prelude::*;
use crate::text::{chars_of, text_of};
use crate::trace::{
    insts_view, params_view, stages_view, Inst, InstView, Param, ParamView, Stage, StageView,
    STAGE_COLOR,
};

verus! {

/// Whether a stage is selected: by its name, where `by_name` asks for it, and
/// by its cycle, where `by_cycle` does.
pub open spec fn hits(
    stage: StageView,
    by_name: bool,
    name: Seq<char>,
    by_cycle: bool,
    cycle: usize,
) -> bool {
    (by_name ==> stage.name == name) && (by_cycle ==> stage.cycle == cycle)
}

/// The stage with `ps` appended to its parameters.
pub open spec fn with_params(stage: StageView, ps: Seq<ParamView>) -> StageView {
    StageView { params: stage.params + ps, ..stage }
}

/// The stages after `ps` has been appended to the parameters of each selected
/// one.
pub open spec fn attached(
    stages: Seq<StageView>,
    by_name: bool,
    name: Seq<char>,
    by_cycle: bool,
    cycle: usize,
    ps: Seq<ParamView>,
) -> Seq<StageView> {
    Seq::new(
        stages.len(),
        |i: int|
            if hits(stages[i], by_name, name, by_cycle, cycle) {
                with_params(stages[i], ps)
            } else {
                stages[i]
            },
    )
}

/// Some stage is selected.
pub open spec fn any_hit(
    stages: Seq<StageView>,
    by_name: bool,
    name: Seq<char>,
    by_cycle: bool,
    cycle: usize,
) -> bool {
    exists|i: int| 0 <= i < stages.len() && hits(#[trigger] stages[i], by_name, name, by_cycle, cycle)
}

/// The instructions after `ps` has been appended to each selected stage of
/// the instructions at positions `lo` to `hi - 1`.
pub open spec fn attached_range(
    insts: Seq<InstView>,
    lo: int,
    hi: int,
    by_name: bool,
    name: Seq<char>,
    by_cycle: bool,
    cycle: usize,
    ps: Seq<ParamView>,
) -> Seq<InstView> {
    Seq::new(
        insts.len(),
        |k: int|
            if lo <= k < hi {
                InstView {
                    stages: attached(insts[k].stages, by_name, name, by_cycle, cycle, ps),
                    ..insts[k]
                }
            } else {
                insts[k]
            },
    )
}

/// Appends copies of the parameters in `src` to `dst`.
pub fn push_params(dst: &mut Vec<Param>, src: &Vec<Param>)
    ensures
        params_view(final(dst)@) == params_view(old(dst)@) + params_view(src@),
{
    let mut i: usize = 0;
    while i < src.len()
        invariant
            0 <= i <= src@.len(),
            params_view(dst@) == params_view(old(dst)@) + params_view(src@).subrange(0, i as int),
        decreases src@.len() - i,
    {
        let ghost before = dst@;
        dst.push(src[i].copy());
        i = i + 1;
        assert(params_view(dst@) =~= params_view(before).push(src@[i - 1]@));
        assert(params_view(dst@) =~= params_view(old(dst)@) + params_view(src@).subrange(
            0,
            i as int,
        ));
    }
    assert(params_view(src@).subrange(0, src@.len() as int) =~= params_view(src@));
}

/// Appends `params` to each selected stage; says whether one was selected.
pub fn attach_to_stages(
    stages: &mut Vec<Stage>,
    by_name: bool,
    name: &String,
    by_cycle: bool,
    cycle: usize,
    params: &Vec<Param>,
) -> (found: bool)
    ensures
        stages_view(final(stages)@) == attached(
            stages_view(old(stages)@),
            by_name,
            name@,
            by_cycle,
            cycle,
            params_view(params@),
        ),
        found == any_hit(stages_view(old(stages)@), by_name, name@, by_cycle, cycle),
{
    let ghost before = stages_view(stages@);
    let ghost goal = attached(before, by_name, name@, by_cycle, cycle, params_view(params@));
    let mut found = false;
    let mut i: usize = 0;
    while i < stages.len()
        invariant
            0 <= i <= stages@.len(),
            stages@.len() == before.len(),
            before == stages_view(old(stages)@),
            goal == attached(before, by_name, name@, by_cycle, cycle, params_view(params@)),
            forall|k: int| 0 <= k < i ==> #[trigger] stages@[k]@ == goal[k],
            forall|k: int| i <= k < stages@.len() ==> #[trigger] stages@[k]@ == before[k],
            found == exists|k: int|
                0 <= k < i && hits(#[trigger] before[k], by_name, name@, by_cycle, cycle),
        decreases stages@.len() - i,
    {
        let ghost prev = stages@;
        assert(stages@[i as int]@ == before[i as int]);
        let name_fits = !by_name || stages[i].name == *name;
        let cycle_fits = !by_cycle || stages[i].cycle == cycle;
        if name_fits && cycle_fits {
            assert(hits(before[i as int], by_name, name@, by_cycle, cycle));
            push_params(&mut stages[i].params, params);
            found = true;
            assert(stages@[i as int]@ == with_params(before[i as int], params_view(params@)));
        }
        assert(forall|k: int| 0 <= k < prev.len() && k != i ==> stages@[k] == prev[k]);
        assert(stages@[i as int]@ == goal[i as int]);
        assert forall|k: int| 0 <= k < i + 1 implies #[trigger] stages@[k]@ == goal[k] by {
            if k < i {
                assert(prev[k]@ == goal[k]);
            }
        }
        assert forall|k: int| i + 1 <= k < stages@.len() implies #[trigger] stages@[k]@
            == before[k] by {
            assert(prev[k]@ == before[k]);
        }
        i = i + 1;
    }
    assert(stages_view(stages@) =~= goal);
    found
}

/// Appends `params` to each selected stage of the instructions at positions
/// `lo` to `hi - 1`.
pub fn attach_range(
    insts: &mut Vec<Inst>,
    lo: usize,
    hi: usize,
    by_name: bool,
    name: &String,
    by_cycle: bool,
    cycle: usize,
    params: &Vec<Param>,
)
    requires
        lo <= hi <= old(insts)@.len(),
    ensures
        final(insts)@.len() == old(insts)@.len(),
        insts_view(final(insts)@) == attached_range(
            insts_view(old(insts)@),
            lo as int,
            hi as int,
            by_name,
            name@,
            by_cycle,
            cycle,
            params_view(params@),
        ),
{
    let ghost before = insts_view(insts@);
    let ghost goal = attached_range(
        before,
        lo as int,
        hi as int,
        by_name,
        name@,
        by_cycle,
        cycle,
        params_view(params@),
    );
    let mut i: usize = lo;
    while i < hi
        invariant
            lo <= i <= hi <= insts@.len(),
            insts@.len() == before.len(),
            before == insts_view(old(insts)@),
            goal == attached_range(
                before,
                lo as int,
                hi as int,
                by_name,
                name@,
                by_cycle,
                cycle,
                params_view(params@),
            ),
            forall|k: int| 0 <= k < i ==> #[trigger] insts@[k]@ == goal[k],
            forall|k: int| i <= k < insts@.len() ==> #[trigger] insts@[k]@ == before[k],
        decreases hi - i,
    {
        let ghost prev = insts@;
        assert(insts@[i as int]@ == before[i as int]);
        attach_to_stages(&mut insts[i].stages, by_name, name, by_cycle, cycle, params);
        assert(forall|k: int| 0 <= k < prev.len() && k != i ==> insts@[k] == prev[k]);
        assert(insts@[i as int]@ == goal[i as int]);
        assert forall|k: int| 0 <= k < i + 1 implies #[trigger] insts@[k]@ == goal[k] by {
            if k < i {
                assert(prev[k]@ == goal[k]);
            }
        }
        assert forall|k: int| i + 1 <= k < insts@.len() implies #[trigger] insts@[k]@
            == before[k] by {
            assert(prev[k]@ == before[k]);
        }
        i = i + 1;
    }
    assert(insts_view(insts@) =~= goal);
}

/// The first position at or after `k` of an instruction that starts a
/// macro-instruction, or the number of instructions where there is none.
pub open spec fn next_start(insts: Seq<InstView>, k: int) -> int
    decreases insts.len() - k,
{
    if k < 0 || k >= insts.len() {
        insts.len() as int
    } else if insts[k].micro_pc == 0 {
        k
    } else {
        next_start(insts, k + 1)
    }
}

/// Where the group of instructions that starts at `cursor` ends: before the
/// next instruction after the first whose micro-operation index is 0. With no
/// instruction left at `cursor`, the group is empty.
pub open spec fn group_end(insts: Seq<InstView>, cursor: int) -> int {
    if cursor >= insts.len() {
        cursor
    } else {
        next_start(insts, cursor + 1)
    }
}

/// A group holds its first instruction, then only instructions whose
/// micro-operation index is not 0, and is followed by the end of the list or by
/// an instruction whose micro-operation index is 0.
pub proof fn lemma_group_end(insts: Seq<InstView>, cursor: int)
    requires
        0 <= cursor < insts.len(),
    ensures
        cursor < group_end(insts, cursor) <= insts.len(),
        forall|k: int| cursor < k < group_end(insts, cursor) ==> insts[k].micro_pc != 0,
        group_end(insts, cursor) < insts.len() ==> insts[group_end(insts, cursor)].micro_pc == 0,
{
    lemma_next_start(insts, cursor + 1);
}

/// Between `k` and the next start no instruction starts a macro-instruction.
pub proof fn lemma_next_start(insts: Seq<InstView>, k: int)
    requires
        0 <= k <= insts.len(),
    ensures
        k <= next_start(insts, k) <= insts.len(),
        forall|j: int| k <= j < next_start(insts, k) ==> insts[j].micro_pc != 0,
        next_start(insts, k) < insts.len() ==> insts[next_start(insts, k)].micro_pc == 0,
    decreases insts.len() - k,
{
    if k < insts.len() && insts[k].micro_pc != 0 {
        lemma_next_start(insts, k + 1);
    }
}

/// The instructions after the parameters of one decode block have been
/// attached to the `decode` stages of the group that starts at `cursor`.
pub open spec fn decoded(insts: Seq<InstView>, cursor: int, ps: Seq<ParamView>) -> Seq<InstView> {
    attached_range(insts, cursor, group_end(insts, cursor), true, "decode"@, false, 0, ps)
}

/// Attaches the parameters of one decode block to the `decode` stages of the
/// instructions of one macro-instruction, from `cursor` on; returns the
/// position of the first instruction that is left for the next block.
pub fn attach_decode(insts: &mut Vec<Inst>, cursor: usize, params: &Vec<Param>) -> (next: usize)
    ensures
        final(insts)@.len() == old(insts)@.len(),
        next == group_end(insts_view(old(insts)@), cursor as int),
        insts_view(final(insts)@) == decoded(
            insts_view(old(insts)@),
            cursor as int,
            params_view(params@),
        ),
{
    let ghost before = insts_view(insts@);
    if cursor >= insts.len() {
        assert(insts_view(insts@) =~= decoded(before, cursor as int, params_view(params@)));
        return cursor;
    }
    let mut end: usize = cursor + 1;
    while end < insts.len() && insts[end].micro_pc != 0
        invariant
            cursor < end <= insts@.len(),
            before == insts_view(insts@),
            next_start(before, cursor + 1) == next_start(before, end as int),
        decreases insts@.len() - end,
    {
        assert(before[end as int].micro_pc == insts@[end as int].micro_pc);
        end = end + 1;
    }
    assert(end < insts@.len() ==> before[end as int].micro_pc == insts@[end as int].micro_pc);
    let decode = text_of(&chars_of("decode"));
    attach_range(insts, cursor, end, true, &decode, false, 0, params);
    end
}

/// The first position at or after `k` of a stage later than `cycle`, or the
/// number of stages where there is none.
pub open spec fn first_later(stages: Seq<StageView>, k: int, cycle: usize) -> int
    decreases stages.len() - k,
{
    if k < 0 || k >= stages.len() {
        stages.len() as int
    } else if stages[k].cycle > cycle {
        k
    } else {
        first_later(stages, k + 1, cycle)
    }
}

/// Where a stage at `cycle` is inserted: before the first stage with a
/// greater cycle.
pub open spec fn insert_position(stages: Seq<StageView>, cycle: usize) -> int {
    first_later(stages, 0, cycle)
}

/// Before the first later stage, from `k` on, no stage is later than `cycle`.
pub proof fn lemma_first_later(stages: Seq<StageView>, k: int, cycle: usize)
    requires
        0 <= k <= stages.len(),
    ensures
        k <= first_later(stages, k, cycle) <= stages.len(),
        forall|j: int| k <= j < first_later(stages, k, cycle) ==> stages[j].cycle <= cycle,
        first_later(stages, k, cycle) < stages.len() ==> stages[first_later(
            stages,
            k,
            cycle,
        )].cycle > cycle,
    decreases stages.len() - k,
{
    if k < stages.len() && stages[k].cycle <= cycle {
        lemma_first_later(stages, k + 1, cycle);
    }
}

/// No stage comes before one with a smaller cycle.
pub open spec fn ordered(stages: Seq<StageView>) -> bool {
    forall|i: int, j: int| 0 <= i < j < stages.len() ==> stages[i].cycle <= stages[j].cycle
}

/// Stages in the order of their cycles stay so when a stage is inserted
/// before the first one with a greater cycle.
pub proof fn lemma_insert_keeps_order(stages: Seq<StageView>, stage: StageView)
    requires
        ordered(stages),
    ensures
        0 <= insert_position(stages, stage.cycle) <= stages.len(),
        ordered(stages.insert(insert_position(stages, stage.cycle), stage)),
{
    lemma_first_later(stages, 0, stage.cycle);
    let p = insert_position(stages, stage.cycle);
    let r = stages.insert(p, stage);
    assert forall|i: int, j: int| 0 <= i < j < r.len() implies r[i].cycle <= r[j].cycle by {
        if i < p && j > p {
            assert(r[i] == stages[i]);
            assert(r[j] == stages[j - 1]);
        } else if i == p {
            assert(r[j] == stages[j - 1]);
            assert(p <= j - 1);
        } else if j == p {
            assert(r[i] == stages[i]);
        } else if j < p {
            assert(r[i] == stages[i]);
            assert(r[j] == stages[j]);
        } else {
            assert(r[i] == stages[i - 1]);
            assert(r[j] == stages[j - 1]);
        }
    }
}

/// The placeholder stage that hosts one parameter at `cycle`.
pub open spec fn dummy_stage(cycle: usize, p: ParamView) -> StageView {
    StageView { cycle, name: "DUMMY INFO"@, id: 'X', color: STAGE_COLOR, params: seq![p] }
}

/// The instruction after one parameter has been placed on it. Under the stage
/// name `any` it goes to every stage at `cycle`, or to a placeholder stage
/// where there is none; under another name, to every stage of that name.
pub open spec fn placed(
    inst: InstView,
    stage_name: Seq<char>,
    cycle: usize,
    p: ParamView,
) -> InstView {
    let any = stage_name == "any"@;
    if any && !any_hit(inst.stages, false, stage_name, true, cycle) {
        InstView {
            stages: inst.stages.insert(insert_position(inst.stages, cycle), dummy_stage(cycle, p)),
            ..inst
        }
    } else {
        InstView { stages: attached(inst.stages, !any, stage_name, any, cycle, seq![p]), ..inst }
    }
}

/// Inserts a placeholder stage that hosts `param` at `cycle`.
pub fn insert_dummy(stages: &mut Vec<Stage>, cycle: usize, param: Param)
    ensures
        stages_view(final(stages)@) == stages_view(old(stages)@).insert(
            insert_position(stages_view(old(stages)@), cycle),
            dummy_stage(cycle, param@),
        ),
{
    let ghost before = stages_view(stages@);
    let mut at: usize = 0;
    while at < stages.len() && stages[at].cycle <= cycle
        invariant
            0 <= at <= stages@.len(),
            before == stages_view(stages@),
            first_later(before, 0, cycle) == first_later(before, at as int, cycle),
        decreases stages@.len() - at,
    {
        assert(before[at as int].cycle == stages@[at as int].cycle);
        at = at + 1;
    }
    assert(at < stages@.len() ==> before[at as int].cycle == stages@[at as int].cycle);
    let mut params: Vec<Param> = Vec::new();
    params.push(param);
    let stage = Stage {
        cycle,
        name: text_of(&chars_of("DUMMY INFO")),
        id: 'X',
        color: STAGE_COLOR,
        params,
    };
    assert(stage@.params =~= seq![param@]);
    stages.insert(at, stage);
    assert(stages_view(stages@) =~= before.insert(at as int, dummy_stage(cycle, param@)));
}

/// Places one parameter on the instruction.
pub fn place_on_inst(inst: &mut Inst, stage_name: &String, cycle: usize, param: Param)
    ensures
        final(inst)@ == placed(old(inst)@, stage_name@, cycle, param@),
{
    let any = text_of(&chars_of("any"));
    let any_name = *stage_name == any;
    let mut params: Vec<Param> = Vec::new();
    params.push(param.copy());
    assert(params_view(params@) =~= seq![param@]);
    let found = attach_to_stages(&mut inst.stages, !any_name, stage_name, any_name, cycle, &params);
    if !found && any_name {
        proof {
            let s = stages_view(old(inst).stages@);
            assert(stages_view(inst.stages@) =~= s);
        }
        insert_dummy(&mut inst.stages, cycle, param);
    }
}

} // verus!
