use ddlog_ingest::error::IngestError;
use ddlog_ingest::relation::{
    relation_name, relation_str_to_enum, same_text, same_text_in_any_case, to_lower, Relations,
};

#[test]
fn resolves_the_declared_name() {
    assert_eq!(relation_str_to_enum("Edge"), Ok(Relations::Edge));
}

#[test]
fn resolves_the_lower_case_name() {
    assert_eq!(relation_str_to_enum("edge"), Ok(Relations::Edge));
}

#[test]
fn both_spellings_give_the_same_relation() {
    assert_eq!(relation_str_to_enum("edge"), relation_str_to_enum("Edge"));
}

#[test]
fn every_capitalisation_resolves() {
    for name in ["EDGE", "eDGE", "edgE", "EdGe", "eDge", "EDge", "edGE", "Edge", "edge"] {
        assert_eq!(relation_str_to_enum(name), Ok(Relations::Edge));
    }
}

#[test]
fn all_sixteen_case_variants_resolve_to_the_same_relation() {
    let letters = ['e', 'd', 'g', 'e'];
    for mask in 0..16u32 {
        let name: String = letters
            .iter()
            .enumerate()
            .map(|(at, letter)| {
                if mask & (1 << at) != 0 {
                    letter.to_ascii_uppercase()
                } else {
                    *letter
                }
            })
            .collect();
        assert_eq!(relation_str_to_enum(&name), relation_str_to_enum("Edge"));
        assert_eq!(relation_str_to_enum(&name), Ok(Relations::Edge));
    }
}

#[test]
fn unsupported_names_are_unknown() {
    for name in
        ["Foo", "FOO", "", "Edges", "Edg", " edge", "edge ", "Path", "édge", "ÉDGE", "e-dge", "Egde"]
    {
        assert_eq!(
            relation_str_to_enum(name),
            Err(IngestError::UnknownRelation { name: name.to_string() })
        );
    }
}

#[test]
fn declared_name_of_edge() {
    assert_eq!(relation_name(Relations::Edge), "Edge");
}

#[test]
fn declared_name_resolves_to_its_relation() {
    assert_eq!(relation_str_to_enum(relation_name(Relations::Edge)), Ok(Relations::Edge));
    assert_eq!(
        relation_str_to_enum(&relation_name(Relations::Edge).to_lowercase()),
        Ok(Relations::Edge)
    );
}

#[test]
fn same_text_compares_characters() {
    assert!(same_text("", ""));
    assert!(same_text("abc", "abc"));
    assert!(!same_text("abc", "abd"));
    assert!(!same_text("abc", "ab"));
    assert!(!same_text("1", "-1"));
    assert!(same_text("é", "é"));
}

#[test]
fn capitals_become_small_letters() {
    assert_eq!(to_lower('A'), 'a');
    assert_eq!(to_lower('Z'), 'z');
    assert_eq!(to_lower('M'), 'm');
    assert_eq!(to_lower('a'), 'a');
    assert_eq!(to_lower('z'), 'z');
    assert_eq!(to_lower('@'), '@');
    assert_eq!(to_lower('['), '[');
    assert_eq!(to_lower('0'), '0');
    assert_eq!(to_lower('É'), 'É');
    for c in ['A', 'q', 'Z', '_', '9', 'ß', 'Ω'] {
        assert_eq!(to_lower(c), c.to_ascii_lowercase());
    }
}

#[test]
fn texts_are_compared_in_any_case() {
    assert!(same_text_in_any_case("", ""));
    assert!(same_text_in_any_case("Edge", "eDGE"));
    assert!(same_text_in_any_case("abc1_", "ABC1_"));
    assert!(!same_text_in_any_case("Edge", "Edges"));
    assert!(!same_text_in_any_case("Edge", "Edg"));
    assert!(!same_text_in_any_case("Edge", "Edgf"));
    assert!(!same_text_in_any_case("a", ""));
    assert!(same_text_in_any_case("é", "é"));
    assert!(!same_text_in_any_case("é", "É"));
    assert!(!same_text_in_any_case("[", "{"));
    assert!(!same_text_in_any_case("@", "`"));
}
