use ddlog_ingest::changelog::{
    dump_delta, format_change, log_file_name, relation_lines, touched_relations, Change, LogAppend,
};

fn change(value: &str, weight: i64) -> Change {
    Change { relation: "Edge".to_string(), value: value.to_string(), weight }
}

fn change_of(relation: &str, value: &str, weight: i64) -> Change {
    Change { relation: relation.to_string(), value: value.to_string(), weight }
}

fn lines(texts: &[&str]) -> Vec<String> {
    texts.iter().map(|text| text.to_string()).collect()
}

#[test]
fn an_appearance_is_written_with_a_plus() {
    assert_eq!(format_change(1, "A, B, 1"), "+1, (A, B, 1)");
}

#[test]
fn a_retraction_is_written_with_a_minus() {
    assert_eq!(format_change(-1, "A, B, 1"), "-1, (A, B, 1)");
}

#[test]
fn larger_weights_are_written_in_full() {
    assert_eq!(format_change(10, "x"), "+10, (x)");
    assert_eq!(format_change(-10, "x"), "-10, (x)");
    assert_eq!(format_change(1234567890, "x"), "+1234567890, (x)");
    assert_eq!(format_change(-907, "x"), "-907, (x)");
    assert_eq!(format_change(100, "x"), "+100, (x)");
}

#[test]
fn zero_is_written_with_a_plus() {
    assert_eq!(format_change(0, "x"), "+0, (x)");
}

#[test]
fn the_widest_weights_are_written_in_full() {
    assert_eq!(format_change(i64::MAX, ""), "+9223372036854775807, ()");
    assert_eq!(format_change(i64::MIN, ""), "-9223372036854775808, ()");
    assert_eq!(format_change(i64::MIN + 1, ""), "-9223372036854775807, ()");
}

#[test]
fn lines_agree_with_the_standard_formatting() {
    for weight in [-1000, -99, -10, -9, -1, 0, 1, 9, 10, 11, 99, 100, 101, 65536] {
        let value = "Edge{.parent = \"A\", .child = \"B\", .weight = 1}";
        assert_eq!(format_change(weight, value), format!("{:+}, ({})", weight, value));
    }
}

#[test]
fn the_value_is_taken_as_it_is() {
    assert_eq!(format_change(1, "(nested) ünïcode, \"q\""), "+1, ((nested) ünïcode, \"q\")");
}

#[test]
fn the_log_of_edge_is_edge_out() {
    assert_eq!(log_file_name("Edge"), "Edge.out");
}

#[test]
fn a_log_is_named_after_its_relation() {
    assert_eq!(log_file_name("Path"), "Path.out");
    assert_eq!(log_file_name(""), ".out");
    assert_eq!(log_file_name("a.b"), "a.b.out");
}

#[test]
fn an_empty_change_set_touches_nothing() {
    assert_eq!(touched_relations(&vec![]), Vec::<String>::new());
    assert_eq!(relation_lines(&vec![], "Edge"), Vec::<String>::new());
    assert_eq!(dump_delta(&vec![]), vec![]);
}

#[test]
fn a_relation_is_touched_once() {
    let delta = vec![change("a", 1), change("b", 1), change("c", -1)];
    assert_eq!(touched_relations(&delta), lines(&["Edge"]));
}

#[test]
fn relations_are_listed_as_they_first_appear() {
    let delta = vec![
        change_of("Path", "a", 1),
        change_of("Edge", "b", 1),
        change_of("Path", "c", -1),
        change_of("Root", "d", 1),
        change_of("Edge", "e", 1),
    ];
    assert_eq!(touched_relations(&delta), lines(&["Path", "Edge", "Root"]));
}

#[test]
fn each_relation_gets_its_own_lines_in_order() {
    let delta = vec![
        change_of("Path", "a", 1),
        change_of("Edge", "b", 1),
        change_of("Path", "c", -1),
        change_of("Root", "d", 3),
        change_of("Edge", "e", -2),
    ];
    assert_eq!(
        dump_delta(&delta),
        vec![
            LogAppend {
                relation: "Path".to_string(),
                file_name: "Path.out".to_string(),
                lines: lines(&["+1, (a)", "-1, (c)"]),
            },
            LogAppend {
                relation: "Edge".to_string(),
                file_name: "Edge.out".to_string(),
                lines: lines(&["+1, (b)", "-2, (e)"]),
            },
            LogAppend {
                relation: "Root".to_string(),
                file_name: "Root.out".to_string(),
                lines: lines(&["+3, (d)"]),
            },
        ]
    );
    assert_eq!(relation_lines(&delta, "Edge"), lines(&["+1, (b)", "-2, (e)"]));
    assert_eq!(relation_lines(&delta, "edge"), Vec::<String>::new());
    assert_eq!(relation_lines(&delta, "Other"), Vec::<String>::new());
}

#[test]
fn relation_names_are_told_apart_by_case() {
    let delta = vec![change_of("Edge", "a", 1), change_of("edge", "b", 1)];
    assert_eq!(touched_relations(&delta), lines(&["Edge", "edge"]));
    assert_eq!(dump_delta(&delta).len(), 2);
}

#[test]
fn lines_come_in_the_order_of_the_change_set() {
    let delta = vec![change("c", 1), change("a", -1), change("b", 2)];
    assert_eq!(
        relation_lines(&delta, "Edge"),
        vec!["+1, (c)".to_string(), "-1, (a)".to_string(), "+2, (b)".to_string()]
    );
}

#[test]
fn a_change_set_becomes_one_addition_per_relation() {
    let delta = vec![change("A, B, 1", -1), change("A, B, 2", 1)];
    assert_eq!(
        dump_delta(&delta),
        vec![LogAppend {
            relation: "Edge".to_string(),
            file_name: "Edge.out".to_string(),
            lines: vec!["-1, (A, B, 1)".to_string(), "+1, (A, B, 2)".to_string()],
        }]
    );
}

#[test]
fn equal_changes_are_each_written() {
    let delta = vec![change("x", 1), change("x", 1)];
    let additions = dump_delta(&delta);
    assert_eq!(additions.len(), 1);
    assert_eq!(additions[0].lines, vec!["+1, (x)".to_string(), "+1, (x)".to_string()]);
}

#[test]
fn exporting_twice_adds_to_the_end() {
    let mut log: Vec<(String, Vec<String>)> = Vec::new();
    let first = vec![change("a", 1), change_of("Path", "p", 1), change("b", 1)];
    let second = vec![change("a", -1), change("c", 1), change_of("Root", "r", 1)];
    for delta in [&first, &second] {
        for addition in dump_delta(delta) {
            match log.iter_mut().find(|(name, _)| *name == addition.file_name) {
                Some((_, lines)) => lines.extend(addition.lines),
                None => log.push((addition.file_name, addition.lines)),
            }
        }
    }
    assert_eq!(
        log,
        vec![
            ("Edge.out".to_string(), lines(&["+1, (a)", "+1, (b)", "-1, (a)", "+1, (c)"])),
            ("Path.out".to_string(), lines(&["+1, (p)"])),
            ("Root.out".to_string(), lines(&["+1, (r)"])),
        ]
    );
}

#[test]
fn changes_can_be_copied() {
    let change = change("x", -3);
    assert_eq!(change.clone(), change);
}
