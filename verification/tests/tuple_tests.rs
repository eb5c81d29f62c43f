use ddlog_ingest::error::IngestError;
use ddlog_ingest::relation::Relations;
use ddlog_ingest::tuple::{parse_tuple_for_relation, required_fields, Field, Number, Tuple};

fn field(text: &str) -> Field {
    let number = text.parse::<f32>().ok().map(|value| Number { bits: value.to_bits() });
    Field::new(text.to_string(), number)
}

fn row(texts: &[&str]) -> Vec<Field> {
    texts.iter().map(|text| field(text)).collect()
}

fn edge(parent: &str, child: &str, weight: f32) -> Tuple {
    Tuple::Edge {
        parent: parent.to_string(),
        child: child.to_string(),
        weight: Number { bits: weight.to_bits() },
    }
}

#[test]
fn field_keeps_text_and_number() {
    let made = Field::new("2.5".to_string(), Some(Number { bits: 2.5f32.to_bits() }));
    assert_eq!(made.text, "2.5");
    assert_eq!(made.number, Some(Number { bits: 0x4020_0000 }));
    let plain = Field::new("A".to_string(), None);
    assert_eq!(plain.text, "A");
    assert_eq!(plain.number, None);
    assert_eq!(plain.clone(), plain);
}

#[test]
fn edge_takes_three_fields() {
    assert_eq!(required_fields(Relations::Edge), 3);
}

#[test]
fn decodes_a_data_row_at_offset_zero() {
    assert_eq!(
        parse_tuple_for_relation(&row(&["A", "B", "1.0"]), 0, Relations::Edge),
        Ok(edge("A", "B", 1.0))
    );
}

#[test]
fn decodes_an_update_row_at_offset_two() {
    assert_eq!(
        parse_tuple_for_relation(&row(&["-1", "Edge", "A", "B", "2.5"]), 2, Relations::Edge),
        Ok(edge("A", "B", 2.5))
    );
}

#[test]
fn decoding_at_an_offset_is_decoding_the_rest() {
    let whole = row(&["1", "Edge", "x", "y", "0.25", "extra"]);
    let rest = row(&["x", "y", "0.25", "extra"]);
    assert_eq!(
        parse_tuple_for_relation(&whole, 2, Relations::Edge),
        parse_tuple_for_relation(&rest, 0, Relations::Edge)
    );
}

#[test]
fn text_fields_pass_through_unchanged() {
    let decoded =
        parse_tuple_for_relation(&row(&[" a b ", "", "3"]), 0, Relations::Edge).unwrap();
    assert_eq!(decoded, edge(" a b ", "", 3.0));
    assert_eq!(decoded.relation(), Relations::Edge);
    let Tuple::Edge { parent, child, weight } = decoded.clone();
    assert_eq!(parent, " a b ");
    assert_eq!(child, "");
    assert_eq!(weight, Number { bits: 0x4040_0000 });
}

#[test]
fn numeric_looking_text_fields_stay_text() {
    assert_eq!(
        parse_tuple_for_relation(&row(&["1", "2", "3"]), 0, Relations::Edge),
        Ok(edge("1", "2", 3.0))
    );
}

#[test]
fn extra_fields_are_not_read() {
    assert_eq!(
        parse_tuple_for_relation(&row(&["A", "B", "1.5", "not a number"]), 0, Relations::Edge),
        Ok(edge("A", "B", 1.5))
    );
}

#[test]
fn a_row_without_the_weight_is_malformed() {
    assert_eq!(
        parse_tuple_for_relation(&row(&["A", "B"]), 0, Relations::Edge),
        Err(IngestError::MalformedField)
    );
}

#[test]
fn short_rows_are_malformed() {
    for texts in [&[][..], &["A"][..], &["A", "B"][..]] {
        assert_eq!(
            parse_tuple_for_relation(&row(texts), 0, Relations::Edge),
            Err(IngestError::MalformedField)
        );
    }
    assert_eq!(
        parse_tuple_for_relation(&row(&["1", "Edge", "A", "B"]), 2, Relations::Edge),
        Err(IngestError::MalformedField)
    );
}

#[test]
fn an_offset_past_the_row_is_malformed() {
    let fields = row(&["A", "B", "1.0"]);
    for offset in [1, 2, 3, 4, usize::MAX - 2, usize::MAX - 1, usize::MAX] {
        assert_eq!(
            parse_tuple_for_relation(&fields, offset, Relations::Edge),
            Err(IngestError::MalformedField)
        );
    }
}

#[test]
fn a_weight_that_is_no_number_is_malformed() {
    for weight in ["", "heavy", "1,5", "1.0x", "0x10"] {
        assert_eq!(
            parse_tuple_for_relation(&row(&["A", "B", weight]), 0, Relations::Edge),
            Err(IngestError::MalformedField)
        );
    }
}

#[test]
fn the_number_of_the_field_is_what_is_decoded() {
    let fields = vec![
        Field::new("A".to_string(), None),
        Field::new("B".to_string(), None),
        Field::new("anything".to_string(), Some(Number { bits: 42 })),
    ];
    assert_eq!(
        parse_tuple_for_relation(&fields, 0, Relations::Edge),
        Ok(Tuple::Edge {
            parent: "A".to_string(),
            child: "B".to_string(),
            weight: Number { bits: 42 },
        })
    );
}

#[test]
fn decoding_a_written_back_tuple_is_stable() {
    let first = parse_tuple_for_relation(&row(&["A", "B", "1.50"]), 0, Relations::Edge).unwrap();
    let Tuple::Edge { parent, child, weight } = first.clone();
    let numeral = f32::from_bits(weight.bits).to_string();
    assert_eq!(numeral, "1.5");
    let written = vec![
        Field::new(parent, None),
        Field::new(child, None),
        Field::new(numeral, Some(weight)),
    ];
    let second = parse_tuple_for_relation(&written, 0, Relations::Edge).unwrap();
    assert_eq!(second, first);
    assert_eq!(parse_tuple_for_relation(&row(&["A", "B", "1.5"]), 0, Relations::Edge), Ok(second));
}
