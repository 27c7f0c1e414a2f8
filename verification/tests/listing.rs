use column_rs::listing::{format_opcodes, is_reduced, OpcodeRow, OpcodeSection};

fn opcode_row(addr: usize, opcode: &'static str, operands: &str, is_finalize: bool) -> OpcodeRow {
    OpcodeRow {
        addr,
        opcode,
        operands: operands.to_string(),
        comment: String::new(),
        is_finalize,
    }
}

#[test]
fn format_opcodes_single_section_has_no_label_header() {
    let sections = vec![OpcodeSection {
        label: "body".to_string(),
        rows: vec![
            opcode_row(0, "LoadColumn", "reg=0 column=id", false),
            opcode_row(1, "Emit", "registers=[0]", false),
        ],
    }];
    let out = format_opcodes(&sections);
    assert!(!out.contains("body\n"));
    assert!(out.contains("LoadColumn"));
    assert!(out.contains("reg=0 column=id"));
}

#[test]
fn format_opcodes_draws_a_divider_before_finalize() {
    let sections = vec![OpcodeSection {
        label: "body".to_string(),
        rows: vec![
            opcode_row(0, "LoadColumn", "reg=0 column=id", false),
            opcode_row(1, "Emit", "registers=[0]", false),
            opcode_row(2, "Finalize", "limit=None", true),
        ],
    }];
    let out = format_opcodes(&sections);
    let emit_pos = out.find("Emit").unwrap();
    let finalize_pos = out.find("Finalize").unwrap();
    let between = &out[emit_pos..finalize_pos];
    assert!(between.contains('├'));
}

#[test]
fn format_opcodes_labels_multiple_sections() {
    let sections = vec![
        OpcodeSection {
            label: "JOIN build (regions)".to_string(),
            rows: vec![opcode_row(0, "HashBuild", "table=0", false)],
        },
        OpcodeSection {
            label: "JOIN probe".to_string(),
            rows: vec![opcode_row(0, "HashProbe", "table=0", false)],
        },
    ];
    let out = format_opcodes(&sections);
    assert!(out.contains("JOIN build (regions)\n"));
    assert!(out.contains("JOIN probe\n"));
}

#[test]
fn one_table_is_drawn_to_the_character() {
    let sections = vec![OpcodeSection {
        label: "body".to_string(),
        rows: vec![
            opcode_row(9, "Emit", "registers=[0]", false),
            opcode_row(10, "Combine", "", true),
        ],
    }];
    let expected = "\
┌──────┬─────────┬───────────────┬─────────┐
│ addr │ opcode  │ operands      │ comment │
├──────┼─────────┼───────────────┼─────────┤
│ 9    │ Emit    │ registers=[0] │         │
├──────┼─────────┼───────────────┼─────────┤
│ 10   │ Combine │               │         │
└──────┴─────────┴───────────────┴─────────┘
";
    assert_eq!(format_opcodes(&sections), expected);
}

#[test]
fn columns_are_as_wide_as_the_bytes_of_their_longest_cell() {
    let sections = vec![OpcodeSection {
        label: String::new(),
        rows: vec![opcode_row(0, "Emit", "ééééé", false)],
    }];
    let out = format_opcodes(&sections);
    assert!(out.contains("│ operands   │"));
    assert!(out.contains("│ ééééé      │"));
    let lengths: Vec<usize> = out.lines().map(|l| l.chars().count()).collect();
    assert!(lengths.iter().all(|n| *n == lengths[0]));
}

#[test]
fn an_empty_line_stands_between_two_sections() {
    let sections = vec![
        OpcodeSection { label: "build".to_string(), rows: vec![] },
        OpcodeSection { label: "probe".to_string(), rows: vec![] },
    ];
    let out = format_opcodes(&sections);
    assert!(out.starts_with("build\n┌"));
    assert!(out.contains("┘\n\nprobe\n┌"));
    assert!(out.ends_with("┘\n"));
}

#[test]
fn a_listing_without_sections_is_empty() {
    assert_eq!(format_opcodes(&[]), "");
}

#[test]
fn a_program_that_reduces_is_told_by_its_opcodes() {
    let section = |opcode: &'static str| OpcodeSection {
        label: String::new(),
        rows: vec![
            opcode_row(0, "LoadColumn", "", false),
            opcode_row(1, opcode, "", false),
        ],
    };
    assert!(is_reduced(&[section("Emit"), section("Reduce")]));
    assert!(is_reduced(&[section("GroupReduce")]));
    assert!(!is_reduced(&[section("Emit"), section("reduce")]));
    assert!(!is_reduced(&[section("Reduced")]));
    assert!(!is_reduced(&[]));
}
