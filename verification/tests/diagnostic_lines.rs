use gem5conv::captures::{lookup, resolve};
use gem5conv::pass_two::{decode_header, read_block, read_fields, read_record, strip_marks};
use gem5conv::rules::GroupCapture;

fn cs(s: &str) -> Vec<char> {
    s.chars().collect()
}

fn group(name: &str, text: Option<&str>) -> GroupCapture {
    GroupCapture { name: name.to_string(), text: text.map(|t| t.to_string()) }
}

#[test]
fn read_fields_scales_the_cycle_and_trims_the_fields() {
    assert_eq!(
        read_fields(&cs("  1750 : system.cpu.rename : [sn:1] a=b:c "), 500),
        Some((3, cs("system.cpu.rename"), cs("[sn:1] a=b:c")))
    );
    assert_eq!(read_fields(&cs("499:f:"), 500), Some((0, cs("f"), cs(""))));
}

#[test]
fn read_fields_gives_nothing_for_other_lines() {
    assert_eq!(read_fields(&cs("no colon"), 500), None);
    assert_eq!(read_fields(&cs("12: one colon only"), 500), None);
    assert_eq!(read_fields(&cs("O3PipeView:fetch:1"), 500), None);
    assert_eq!(read_fields(&cs("1 2: f: x"), 500), None);
}

#[test]
fn decode_header_needs_the_marker_and_both_phrases() {
    assert_eq!(
        decode_header(&cs("system.cpu.decoder"), &cs("Decode: Decoded mov instruction: {")),
        Some(cs("mov"))
    );
    assert_eq!(
        decode_header(&cs("x.system.cpu.decoder.y"), &cs("a Decode: Decoded  instruction")),
        Some(cs(""))
    );
    assert_eq!(decode_header(&cs("system.cpu.decode"), &cs("Decode: Decoded mov instruction")), None);
    assert_eq!(decode_header(&cs("system.cpu.decoder"), &cs("Decode: Decoded mov")), None);
    assert_eq!(decode_header(&cs("system.cpu.decoder"), &cs("mov instruction")), None);
}

#[test]
fn strip_marks_takes_braces_commas_and_tabs_out() {
    assert_eq!(strip_marks(&cs("{a,\tb} c")), cs("ab c"));
    assert_eq!(strip_marks(&cs("{},\t")), cs(""));
}

#[test]
fn read_record_reads_name_and_value() {
    let p = read_record(&cs("\t rm = {3, 4},")).map(|p| (p.name, p.value));
    assert_eq!(p, Some(("rm".to_string(), "3 4".to_string())));
    let p = read_record(&cs("a=b=c")).map(|p| (p.name, p.value));
    assert_eq!(p, Some(("a".to_string(), "b=c".to_string())));
    assert!(read_record(&cs("flags = { },")).is_none());
    assert!(read_record(&cs("no equals sign }")).is_none());
}

#[test]
fn read_block_ends_at_the_first_closing_line() {
    let lines = vec![cs("head {"), cs(" a = 1,"), cs("text"), cs(" b = 2 }"), cs(" c = 3 }")];
    match read_block(&lines, 1) {
        Some((params, end)) => {
            assert_eq!(end, 3);
            let got: Vec<(String, String)> =
                params.into_iter().map(|p| (p.name, p.value)).collect();
            assert_eq!(
                got,
                vec![("a".to_string(), "1".to_string()), ("b".to_string(), "2".to_string())]
            );
        }
        None => panic!("no block"),
    }
    assert!(read_block(&lines, 5).is_none());
    let open = vec![cs("head {"), cs(" a = 1,")];
    assert!(read_block(&open, 1).is_none());
}

#[test]
fn lookup_finds_the_group_that_took_part() {
    let groups = vec![group("a", None), group("b", Some("x")), group("c", Some(""))];
    assert_eq!(lookup(&groups, &cs("a")), None);
    assert_eq!(lookup(&groups, &cs("b")), Some(cs("x")));
    assert_eq!(lookup(&groups, &cs("c")), Some(cs("")));
    assert_eq!(lookup(&groups, &cs("d")), None);
}

#[test]
fn resolve_prefers_the_carried_number() {
    let plain = vec![group("v", Some("1"))];
    assert_eq!(resolve(0, &plain), Some((0, 0)));
    assert_eq!(resolve(5, &plain), Some((5, 5)));
    let own = vec![group("sn", Some("3")), group("v", Some("1"))];
    assert_eq!(resolve(0, &own), Some((0, 3)));
    assert_eq!(resolve(5, &own), Some((5, 5)));
    let all = vec![group("sn_all", Some("9")), group("sn", Some("3"))];
    assert_eq!(resolve(5, &all), Some((9, 9)));
    let reset = vec![group("sn_all", Some("0")), group("sn", Some("3"))];
    assert_eq!(resolve(5, &reset), Some((0, 3)));
    let bad = vec![group("sn", Some("x"))];
    assert_eq!(resolve(0, &bad), None);
    assert_eq!(resolve(2, &bad), Some((2, 2)));
    let bad_all = vec![group("sn_all", Some(""))];
    assert_eq!(resolve(2, &bad_all), None);
}
