use ddlog_ingest::records::{read_records, readable_records};

fn texts(rows: &[&[&str]]) -> Vec<Vec<String>> {
    rows.iter().map(|row| row.iter().map(|text| text.to_string()).collect()).collect()
}

#[test]
fn the_header_is_passed_over() {
    let data = b"parent,child,weight\nA,B,1.0\nB,C,2.0\n";
    assert_eq!(read_records(data), texts(&[&["A", "B", "1.0"], &["B", "C", "2.0"]]));
}

#[test]
fn a_source_with_only_a_header_has_no_records() {
    assert_eq!(read_records(b"parent,child,weight\n"), texts(&[]));
}

#[test]
fn an_empty_source_has_no_records() {
    assert_eq!(read_records(b""), texts(&[]));
}

#[test]
fn the_last_line_needs_no_line_end() {
    assert_eq!(read_records(b"a,b\n1,2"), texts(&[&["1", "2"]]));
}

#[test]
fn records_may_differ_in_length() {
    let data = b"parent,child,weight\nA,B,1.0\nC,D\nE,F,3.0,extra\n";
    assert_eq!(
        read_records(data),
        texts(&[&["A", "B", "1.0"], &["C", "D"], &["E", "F", "3.0", "extra"]])
    );
}

#[test]
fn quoted_fields_are_unquoted() {
    let data = b"h1,h2\n\"a,b\",\"say \"\"hi\"\"\"\n";
    assert_eq!(read_records(data), texts(&[&["a,b", "say \"hi\""]]));
}

#[test]
fn fields_are_not_trimmed() {
    assert_eq!(read_records(b"h1,h2\n a , b\n"), texts(&[&[" a ", " b"]]));
}

#[test]
fn line_ends_of_both_kinds_are_taken() {
    assert_eq!(read_records(b"h\r\na\r\nb\n"), texts(&[&["a"], &["b"]]));
}

#[test]
fn update_rows_keep_their_sign_and_relation() {
    let data = b"sign,relation,parent,child,weight\n-1,Edge,A,B,1.0\n1,Edge,A,B,2.0\n";
    assert_eq!(
        read_records(data),
        texts(&[&["-1", "Edge", "A", "B", "1.0"], &["1", "Edge", "A", "B", "2.0"]])
    );
}

#[test]
fn a_record_that_is_not_text_is_left_out() {
    let data = b"h1,h2\na,b\n\xff\xfe,c\nd,e\n";
    assert_eq!(read_records(data), texts(&[&["a", "b"], &["d", "e"]]));
}

#[test]
fn unreadable_records_are_left_out_in_place() {
    let records = vec![
        Some(vec!["a".to_string()]),
        None,
        Some(vec!["b".to_string(), "c".to_string()]),
        None,
    ];
    assert_eq!(readable_records(&records), texts(&[&["a"], &["b", "c"]]));
    assert_eq!(readable_records(&vec![]), texts(&[]));
    assert_eq!(readable_records(&vec![None, None]), texts(&[]));
}
