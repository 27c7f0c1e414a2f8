use column_rs::plan::{format_plan, is_finite_plan, PlanNode};

fn node(id: u32, parent: u32, detail: &str) -> PlanNode {
    PlanNode {
        id,
        parent,
        detail: detail.to_string(),
    }
}

#[test]
fn empty_plan_is_empty_string() {
    assert_eq!(format_plan(&[]), "");
}

#[test]
fn single_node_plan_prints_just_the_root() {
    let nodes = vec![node(0, 0, "SCAN events")];
    assert_eq!(format_plan(&nodes), "SCAN events\n");
}

#[test]
fn two_level_plan_uses_last_branch_marker() {
    let nodes = vec![node(0, 0, "EMIT: region"), node(1, 0, "SCAN events")];
    let out = format_plan(&nodes);
    assert_eq!(out, "EMIT: region\n└── SCAN events\n");
}

#[test]
fn multiple_children_use_middle_and_last_markers() {
    let nodes = vec![
        node(0, 0, "JOIN"),
        node(1, 0, "SCAN a"),
        node(2, 0, "SCAN b"),
    ];
    let out = format_plan(&nodes);
    assert_eq!(out, "JOIN\n├── SCAN a\n└── SCAN b\n");
}

#[test]
fn three_level_nesting_indents_grandchildren() {
    let nodes = vec![
        node(0, 0, "SCAN events (3 row groups)"),
        node(1, 0, "LOAD COLUMNS: region, amount"),
    ];
    let out = format_plan(&nodes);
    assert_eq!(
        out,
        "SCAN events (3 row groups)\n└── LOAD COLUMNS: region, amount\n"
    );

    let deep = vec![
        node(0, 0, "EMIT: region"),
        node(1, 0, "SCAN events"),
        node(2, 1, "LOAD COLUMNS: region, amount"),
    ];
    let out = format_plan(&deep);
    assert_eq!(
        out,
        "EMIT: region\n└── SCAN events\n    └── LOAD COLUMNS: region, amount\n"
    );
}

#[test]
fn a_middle_branch_goes_on_below_its_children() {
    let nodes = vec![
        node(0, 0, "QUERY PLAN"),
        node(1, 0, "SCAN events (3 row groups, ~1200000 rows)"),
        node(2, 1, "LOAD COLUMNS: region, amount"),
        node(3, 0, "EMIT: region"),
    ];
    assert!(is_finite_plan(&nodes));
    assert_eq!(
        format_plan(&nodes),
        "QUERY PLAN\n\
         ├── SCAN events (3 row groups, ~1200000 rows)\n\
         │   └── LOAD COLUMNS: region, amount\n\
         └── EMIT: region\n"
    );
}

#[test]
fn a_node_below_itself_makes_a_plan_infinite() {
    let nodes = vec![node(0, 0, "root"), node(1, 0, "a"), node(2, 1, "b"), node(1, 2, "c")];
    assert!(!is_finite_plan(&nodes));
}

#[test]
fn a_cycle_out_of_reach_of_the_root_does_no_harm() {
    let nodes = vec![node(0, 0, "root"), node(1, 2, "a"), node(2, 1, "b")];
    assert!(is_finite_plan(&nodes));
    assert_eq!(format_plan(&nodes), "root\n");
}

#[test]
fn a_plan_without_nodes_is_finite() {
    assert!(is_finite_plan(&[]));
}
