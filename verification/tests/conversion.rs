use gem5conv::engine::gem5_to_dptv;
use gem5conv::pass_one::{pass_one, read_line, LineEvent};
use gem5conv::placement::{attach_decode, insert_dummy, place_on_inst};
use gem5conv::rules::{parse_rules, ParamTransEntry, RuleError};
use gem5conv::trace::{ConvertError, Inst, Param, Stage, Trace};

fn cs(s: &str) -> Vec<char> {
    s.chars().collect()
}

fn rules(text: &str) -> Vec<ParamTransEntry> {
    match ParamTransEntry::new(text) {
        Ok(v) => v,
        Err(e) => panic!("rules: {:?}", e),
    }
}

fn convert(log: &str, scale: usize, rule_text: &str) -> Trace {
    let mut r = rules(rule_text);
    match gem5_to_dptv(log.to_string(), scale, &mut r) {
        Ok(t) => t,
        Err(e) => panic!("convert: {:?}", e),
    }
}

fn pairs(stage: &Stage) -> Vec<(String, String)> {
    stage.params.iter().map(|p| (p.name.clone(), p.value.clone())).collect()
}

fn pair(n: &str, v: &str) -> (String, String) {
    (n.to_string(), v.to_string())
}

fn stage_at(cycle: usize, name: &str) -> Stage {
    Stage::new(cycle, name.to_string(), name.chars().next().unwrap_or('?'))
}

fn inst_with(micro_pc: usize, stages: Vec<Stage>) -> Inst {
    let mut i = Inst::new();
    i.micro_pc = micro_pc;
    i.stages = stages;
    i
}

#[test]
fn one_fetch_line_gives_one_instruction() {
    let t = convert("O3PipeView:fetch:1000:0x400:0:1:ADD:add r1,r2", 500, "");
    assert_eq!(t.insts.len(), 1);
    let i = &t.insts[0];
    assert_eq!(i.pc, "0x400");
    assert_eq!(i.micro_pc, 0);
    assert_eq!(i.tid, 0);
    assert_eq!(i.text, "ADD : add r1,r2");
    assert_eq!(i.stages.len(), 1);
    assert_eq!(i.stages[0].name, "fetch");
    assert_eq!(i.stages[0].cycle, 2);
    assert_eq!(i.stages[0].id, 'f');
    assert_eq!(i.stages[0].color, 7);
    assert!(i.stages[0].params.is_empty());
}

#[test]
fn a_fetch_without_text_reads_nop() {
    let t = convert("O3PipeView:fetch:999:0x8:3:2:MUL", 500, "");
    assert_eq!(t.insts[0].text, "MUL : nop");
    assert_eq!(t.insts[0].micro_pc, 3);
    assert_eq!(t.insts[0].stages[0].cycle, 1);
}

#[test]
fn an_empty_log_gives_no_instruction() {
    assert_eq!(convert("", 500, "").insts.len(), 0);
    assert_eq!(convert("nothing here\n1000: flag: text\n", 500, "").insts.len(), 0);
}

const LOG: &str = "O3PipeView:fetch:1000:0x400:0:1:ADD:add r1,r2\n\
O3PipeView:decode:1500:\n\
O3PipeView:rename:2000\n\
O3PipeView:dispatch:2500\n\
O3PipeView:issue:0\n\
O3PipeView:complete:499\n\
O3PipeView:retire:3000:store:0\n\
O3PipeView:fetch:1500:0x404:0:2:SUB:sub r3,r4\n\
O3PipeView:decode:2000\n\
O3PipeView:rename:2500\n";

#[test]
fn there_is_one_instruction_for_each_fetch_line() {
    let t = convert(LOG, 500, "");
    assert_eq!(t.insts.len(), 2);
    assert_eq!(t.insts[1].pc, "0x404");
    assert_eq!(t.insts[1].text, "SUB : sub r3,r4");
}

#[test]
fn stages_with_scaled_cycle_zero_are_skipped() {
    let t = convert(LOG, 500, "");
    let names: Vec<&str> = t.insts[0].stages.iter().map(|s| s.name.as_str()).collect();
    assert_eq!(names, vec!["fetch", "decode", "rename", "dispatch", "retire"]);
    let cycles: Vec<usize> = t.insts[0].stages.iter().map(|s| s.cycle).collect();
    assert_eq!(cycles, vec![2, 3, 4, 5, 6]);
}

#[test]
fn display_codes_follow_the_first_character_but_for_two_names() {
    let t = convert(LOG, 500, "");
    let ids: Vec<char> = t.insts[0].stages.iter().map(|s| s.id).collect();
    assert_eq!(ids, vec!['f', 'd', 'r', 'D', 'R']);
}

#[test]
fn read_line_tells_the_kinds_of_lines_apart() {
    assert!(matches!(read_line(&cs("1000: system.cpu: text"), 500), LineEvent::Ignored));
    assert!(matches!(read_line(&cs("O3PipeView:issue:499"), 500), LineEvent::Skipped));
    assert!(matches!(read_line(&cs("O3PipeView:issue"), 500), LineEvent::MalformedStage));
    assert!(matches!(read_line(&cs("O3PipeView:issue:x"), 500), LineEvent::MalformedStage));
    assert!(matches!(read_line(&cs("O3PipeView::500"), 500), LineEvent::MalformedStage));
    assert!(matches!(read_line(&cs("O3PipeView::499"), 500), LineEvent::Skipped));
    assert!(matches!(read_line(&cs("O3PipeView:fetch:1:2:3"), 500), LineEvent::MalformedFetch));
    assert!(matches!(
        read_line(&cs("O3PipeView:fetch:1000:0x4:0:0:ADD"), 500),
        LineEvent::MalformedFetch
    ));
    assert!(matches!(
        read_line(&cs("O3PipeView:fetch:1000:0x4:zero:1:ADD"), 500),
        LineEvent::MalformedFetch
    ));
    match read_line(&cs("O3PipeView:retire:1000:store:0"), 500) {
        LineEvent::Stage { cycle, name, id } => {
            assert_eq!(cycle, 2);
            assert_eq!(name, cs("retire"));
            assert_eq!(id, 'R');
        }
        _ => panic!("no stage"),
    }
}

#[test]
fn malformed_structural_lines_fail_the_conversion() {
    let mut r = rules("");
    let e = gem5_to_dptv("O3PipeView:fetch:1000:0x400".to_string(), 500, &mut r);
    assert!(matches!(e, Err(ConvertError::MalformedFetch)));
    let e = gem5_to_dptv(
        "O3PipeView:fetch:1000:0x400:0:1:ADD\nO3PipeView:rename:soon".to_string(),
        500,
        &mut r,
    );
    assert!(matches!(e, Err(ConvertError::MalformedStage)));
    let lines = vec![cs("O3PipeView:decode")];
    assert!(matches!(pass_one(&lines, 1), Err(ConvertError::MalformedStage)));
}

#[test]
fn pass_one_records_each_window_in_the_index() {
    let lines: Vec<Vec<char>> = LOG.split('\n').map(cs).collect();
    match pass_one(&lines, 500) {
        Ok((trace, bounds)) => {
            assert_eq!(trace.insts.len(), 2);
            assert_eq!(bounds.inst_range(1), 0..0);
            assert_eq!(bounds.inst_range(2), 0..1);
            assert_eq!(bounds.inst_range(3), 0..2);
            assert_eq!(bounds.inst_range(5), 0..2);
            assert_eq!(bounds.inst_range(6), 0..1);
            assert_eq!(bounds.inst_range(7), 0..0);
        }
        Err(e) => panic!("{:?}", e),
    }
}

const RULES: &str = "# the rules\n\
- system.cpu.rename : rename\n\
\\[sn:(?<sn>\\d+)\\] reg=(?<regPLUS4>\\w+)\n\
\n\
- system.cpu.fetch: fetch\n\
pc=(?<pc>\\w+)\n\
- system.cpu.iew :any\n\
\\[sn:(?<sn>\\d+)\\] note=(?<note>\\w+)\n";

#[test]
fn rule_text_is_read_into_rules() {
    let r = rules(RULES);
    assert_eq!(r.len(), 3);
    assert_eq!(r[0].flag, "system.cpu.rename");
    assert_eq!(r[0].stage_name, "rename");
    assert_eq!(r[0].regexes.len(), 1);
    assert_eq!(r[0].regexes[0].as_str(), "\\[sn:(?<sn>\\d+)\\] reg=(?<regPLUS4>\\w+)");
    assert_eq!(r[0].cur_sn, 0);
    assert_eq!(r[1].flag, "system.cpu.fetch");
    assert_eq!(r[1].stage_name, "fetch");
    assert_eq!(r[2].stage_name, "any");
}

#[test]
fn patterns_before_the_first_rule_and_rules_without_flag_are_left_out() {
    match parse_rules(&cs("a+\n#c\n- : x\nb+\n- f : s\nc+\nd+\n")) {
        Ok(r) => {
            assert_eq!(r.len(), 1);
            assert_eq!(r[0].flag, cs("f"));
            assert_eq!(r[0].stage_name, cs("s"));
            assert_eq!(r[0].patterns, vec![cs("c+"), cs("d+")]);
        }
        Err(e) => panic!("{:?}", e),
    }
}

#[test]
fn a_rule_line_without_colon_is_malformed() {
    assert!(matches!(ParamTransEntry::new("- flag stage\n"), Err(RuleError::MalformedRule)));
    assert!(matches!(parse_rules(&cs("-")), Err(RuleError::MalformedRule)));
}

#[test]
fn a_pattern_that_does_not_compile_is_invalid() {
    assert!(matches!(ParamTransEntry::new("- f : s\n(unclosed\n"), Err(RuleError::InvalidPattern)));
}

#[test]
fn a_numbered_parameter_goes_to_the_named_stage_with_its_offset() {
    let log = format!("{}  2000: system.cpu.rename: [sn:1] reg=10\n", LOG);
    let t = convert(&log, 500, RULES);
    assert_eq!(pairs(&t.insts[0].stages[2]), vec![pair("reg", "14")]);
    assert!(t.insts[1].stages[2].params.is_empty());
    assert!(t.insts[0].stages[0].params.is_empty());
}

#[test]
fn a_numbered_parameter_ignores_the_cycle_under_a_stage_name() {
    let log = format!("{}99000: system.cpu.rename.map: [sn:2] reg=abc\n", LOG);
    let t = convert(&log, 500, RULES);
    assert_eq!(pairs(&t.insts[1].stages[2]), vec![pair("reg", "abc")]);
    assert_eq!(t.insts[1].stages.len(), 3);
}

#[test]
fn a_parameter_for_a_missing_instruction_is_dropped() {
    let log = format!("{}2000: system.cpu.rename: [sn:3] reg=1\n", LOG);
    let t = convert(&log, 500, RULES);
    for i in &t.insts {
        for s in &i.stages {
            assert!(s.params.is_empty());
        }
    }
}

#[test]
fn a_parameter_without_number_goes_to_every_stage_of_that_name_at_that_cycle() {
    let log = format!("{}1000: system.cpu.fetch: pc=0x400\n1500: system.cpu.fetch: pc=0x404 pc=0x408\n", LOG);
    let t = convert(&log, 500, RULES);
    assert_eq!(pairs(&t.insts[0].stages[0]), vec![pair("pc", "0x400")]);
    assert_eq!(pairs(&t.insts[1].stages[0]), vec![pair("pc", "0x404"), pair("pc", "0x408")]);
}

#[test]
fn under_any_a_parameter_goes_to_the_stages_at_the_cycle() {
    let log = format!("{}2000: system.cpu.iew: [sn:1] note=here\n", LOG);
    let t = convert(&log, 500, RULES);
    assert_eq!(t.insts[0].stages.len(), 5);
    assert_eq!(pairs(&t.insts[0].stages[2]), vec![pair("note", "here")]);
}

#[test]
fn under_any_a_placeholder_stage_hosts_a_parameter_that_fits_no_stage() {
    let log = format!("{}250: system.cpu.iew: [sn:2] note=early\n", LOG);
    let t = convert(&log, 50, RULES);
    let cycles: Vec<usize> = t.insts[1].stages.iter().map(|s| s.cycle).collect();
    assert_eq!(cycles, vec![5, 30, 40, 50]);
    let s = &t.insts[1].stages[0];
    assert_eq!(s.name, "DUMMY INFO");
    assert_eq!(s.id, 'X');
    assert_eq!(s.color, 7);
    assert_eq!(pairs(s), vec![pair("note", "early")]);
}

#[test]
fn a_carried_sequence_number_applies_to_the_lines_that_follow() {
    let rule_text = "- system.cpu.commit : retire\n\
\\[sn_all:(?<sn_all>\\d+)\\]\n\
val=(?<val>\\w+)\n";
    let log = format!(
        "{}3000: system.cpu.commit: [sn_all:1] start\n3100: system.cpu.commit: val=7\n",
        LOG
    );
    let mut r = rules(rule_text);
    let t = gem5_to_dptv(log, 500, &mut r);
    match t {
        Ok(t) => {
            assert_eq!(pairs(&t.insts[0].stages[4]), vec![pair("val", "7")]);
            assert!(t.insts[1].stages.iter().all(|s| s.params.is_empty()));
        }
        Err(e) => panic!("{:?}", e),
    }
    assert_eq!(r[0].cur_sn, 1);
}

#[test]
fn a_sequence_number_that_is_no_number_fails_the_conversion() {
    let mut r = rules("- f : rename\nsn=(?<sn>\\w+) v=(?<v>\\w+)\n");
    let log = format!("{}2000: f: sn=one v=2\n", LOG);
    assert!(matches!(
        gem5_to_dptv(log, 500, &mut r),
        Err(ConvertError::MalformedSequenceNumber)
    ));
}

#[test]
fn lines_without_three_fields_are_skipped() {
    let log = format!("{}no colon here\nabc: system.cpu.fetch: pc=1\n1000: system.cpu.fetch pc=1\n", LOG);
    let t = convert(&log, 500, RULES);
    assert!(t.insts.iter().all(|i| i.stages.iter().all(|s| s.params.is_empty())));
}

const MICRO: &str = "O3PipeView:fetch:1000:0x400:0:1:ADD:add\n\
O3PipeView:decode:1500\n\
O3PipeView:fetch:1000:0x400:1:2:ADD:add\n\
O3PipeView:decode:1500\n\
O3PipeView:rename:2000\n\
O3PipeView:fetch:1000:0x400:2:3:ADD:add\n\
O3PipeView:decode:1500\n\
O3PipeView:fetch:2000:0x404:0:4:SUB:sub\n\
O3PipeView:decode:2500\n";

const BLOCK: &str = "1500: system.cpu.decoder: Decode: Decoded add instruction: {\n\
\tmnemonic = add,\n\
\tflags = {},\n\
no record here\n\
\tsize = 4 }\n";

#[test]
fn a_decode_block_goes_to_the_micro_operations_of_one_instruction() {
    let log = format!("{}{}", MICRO, BLOCK);
    let t = convert(&log, 500, "");
    let want = vec![pair("Instr: ", "add"), pair("mnemonic", "add"), pair("size", "4")];
    assert_eq!(pairs(&t.insts[0].stages[1]), want);
    assert_eq!(pairs(&t.insts[1].stages[1]), want);
    assert_eq!(pairs(&t.insts[2].stages[1]), want);
    assert!(t.insts[3].stages[1].params.is_empty());
    assert!(t.insts[1].stages[2].params.is_empty());
    assert!(t.insts[0].stages[0].params.is_empty());
}

#[test]
fn the_next_decode_block_goes_to_the_next_group() {
    let log = format!("{}{}{}{}", MICRO, BLOCK, BLOCK.replace("add", "sub"), BLOCK);
    let t = convert(&log, 500, "");
    assert_eq!(t.insts[2].stages[1].params.len(), 3);
    assert_eq!(
        pairs(&t.insts[3].stages[1]),
        vec![pair("Instr: ", "sub"), pair("mnemonic", "sub"), pair("size", "4")]
    );
}

#[test]
fn a_decode_block_that_is_not_closed_fails_the_conversion() {
    let log = format!("{}1500: system.cpu.decoder: Decode: Decoded add instruction: {{\n a = 1,\n", MICRO);
    let mut r = rules("");
    assert!(matches!(gem5_to_dptv(log, 500, &mut r), Err(ConvertError::TruncatedDecode)));
}

#[test]
fn attach_decode_stops_before_the_next_first_micro_operation() {
    let mut insts = vec![
        inst_with(0, vec![stage_at(1, "fetch"), stage_at(2, "decode")]),
        inst_with(1, vec![stage_at(2, "decode")]),
        inst_with(2, vec![stage_at(2, "decode"), stage_at(3, "decode")]),
        inst_with(0, vec![stage_at(3, "decode")]),
        inst_with(1, vec![stage_at(3, "decode")]),
    ];
    let params = vec![Param::new("k".to_string(), "v".to_string())];
    let next = attach_decode(&mut insts, 0, &params);
    assert_eq!(next, 3);
    assert!(insts[0].stages[0].params.is_empty());
    assert_eq!(pairs(&insts[0].stages[1]), vec![pair("k", "v")]);
    assert_eq!(pairs(&insts[1].stages[0]), vec![pair("k", "v")]);
    assert_eq!(pairs(&insts[2].stages[0]), vec![pair("k", "v")]);
    assert_eq!(pairs(&insts[2].stages[1]), vec![pair("k", "v")]);
    assert!(insts[3].stages[0].params.is_empty());
    let next = attach_decode(&mut insts, next, &params);
    assert_eq!(next, 5);
    assert_eq!(pairs(&insts[4].stages[0]), vec![pair("k", "v")]);
    assert_eq!(attach_decode(&mut insts, next, &params), 5);
    assert_eq!(attach_decode(&mut insts, 9, &params), 9);
}

#[test]
fn a_placeholder_stage_goes_before_the_first_later_stage() {
    let mut stages = vec![stage_at(2, "a"), stage_at(4, "b"), stage_at(8, "c")];
    insert_dummy(&mut stages, 5, Param::new("n".to_string(), "v".to_string()));
    let cycles: Vec<usize> = stages.iter().map(|s| s.cycle).collect();
    assert_eq!(cycles, vec![2, 4, 5, 8]);
    assert_eq!(stages[2].name, "DUMMY INFO");
    insert_dummy(&mut stages, 4, Param::new("n".to_string(), "v".to_string()));
    let cycles: Vec<usize> = stages.iter().map(|s| s.cycle).collect();
    assert_eq!(cycles, vec![2, 4, 4, 5, 8]);
    assert_eq!(stages[1].name, "b");
    assert_eq!(stages[2].name, "DUMMY INFO");
    insert_dummy(&mut stages, 9, Param::new("n".to_string(), "v".to_string()));
    assert_eq!(stages[5].cycle, 9);
}

#[test]
fn place_on_inst_synthesizes_only_under_any() {
    let mut inst = inst_with(0, vec![stage_at(2, "fetch"), stage_at(4, "rename")]);
    place_on_inst(&mut inst, &"issue".to_string(), 3, Param::new("a".to_string(), "1".to_string()));
    assert_eq!(inst.stages.len(), 2);
    place_on_inst(&mut inst, &"any".to_string(), 3, Param::new("b".to_string(), "2".to_string()));
    assert_eq!(inst.stages.len(), 3);
    assert_eq!(inst.stages[1].cycle, 3);
    assert_eq!(pairs(&inst.stages[1]), vec![pair("b", "2")]);
    place_on_inst(&mut inst, &"any".to_string(), 3, Param::new("c".to_string(), "3".to_string()));
    assert_eq!(inst.stages.len(), 3);
    assert_eq!(pairs(&inst.stages[1]), vec![pair("b", "2"), pair("c", "3")]);
    place_on_inst(&mut inst, &"rename".to_string(), 9, Param::new("d".to_string(), "4".to_string()));
    assert_eq!(pairs(&inst.stages[2]), vec![pair("d", "4")]);
}
