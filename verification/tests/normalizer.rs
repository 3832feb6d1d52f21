//! The XML normalizer on the provider's list idioms, including the
//! documented single-element asymmetry.

use awscore::xml::{xml_to_json, GenericValue};

fn text_of(v: &GenericValue) -> &str {
    v.as_text().expect("a text value").as_str()
}

#[test]
fn repeated_tags_accumulate_into_a_sequence() {
    // Two item siblings normalize to a sequence of two strings.
    let v = xml_to_json("<Items><item>a</item><item>b</item></Items>").expect("parses");
    let items = v.get("Items").expect("root key");
    let list = items.get("item").expect("item key");
    match list {
        GenericValue::List(elems) => {
            assert_eq!(elems.len(), 2);
            assert_eq!(text_of(&elems[0]), "a");
            assert_eq!(text_of(&elems[1]), "b");
        },
        _ => panic!("two siblings must form a sequence"),
    }
}

#[test]
fn single_occurrence_stays_a_bare_value() {
    // One item sibling stays a bare value: the documented asymmetry, which
    // callers must branch on, is asserted exactly, not fixed.
    let v = xml_to_json("<Items><item>a</item></Items>").expect("parses");
    let items = v.get("Items").expect("root key");
    let single = items.get("item").expect("item key");
    match single {
        GenericValue::Text(s) => assert_eq!(s, "a"),
        GenericValue::List(_) => panic!("a single occurrence must not become a one-element sequence"),
        _ => panic!("a single occurrence of a text element is its text"),
    }
}

#[test]
fn list_items_tolerates_both_shapes() {
    let v = xml_to_json("<R><Items><item>a</item><item>b</item></Items></R>").expect("parses");
    let both = v.get("R").unwrap().get("Items").unwrap().get("item").unwrap().clone();
    assert_eq!(both.list_items().len(), 2);

    let v1 = xml_to_json("<R><Items><item><Name>a</Name></item></Items></R>").expect("parses");
    let one = v1.get("R").unwrap().get("Items").unwrap().get("item").unwrap().clone();
    let items = one.list_items();
    assert_eq!(items.len(), 1);
    assert_eq!(text_of(items[0].get("Name").unwrap()), "a");

    assert_eq!(GenericValue::Null.list_items().len(), 0);
}

#[test]
fn nested_elements_become_nested_mappings() {
    let v = xml_to_json("<a><b><c>x</c></b></a>").expect("parses");
    let c = v.get("a").unwrap().get("b").unwrap().get("c").unwrap();
    assert_eq!(text_of(c), "x");
}

#[test]
fn text_content_is_trimmed_and_empty_elements_are_null() {
    let v = xml_to_json("<a><b>  spaced  </b><c></c><d/></a>").expect("parses");
    let a = v.get("a").unwrap();
    assert_eq!(text_of(a.get("b").unwrap()), "spaced");
    assert!(matches!(a.get("c").unwrap(), GenericValue::Null));
    assert!(matches!(a.get("d").unwrap(), GenericValue::Null));
}

#[test]
fn declarations_and_attributes_are_dropped() {
    let v = xml_to_json("<?xml version=\"1.0\"?>\n<a attr=\"zz\"><b>x</b></a>").expect("parses");
    assert_eq!(text_of(v.get("a").unwrap().get("b").unwrap()), "x");
}

#[test]
fn malformed_documents_are_errors_not_panics() {
    assert!(xml_to_json("").is_err());
    assert!(xml_to_json("no tags").is_err());
    assert!(xml_to_json("<a><b></a></b>").is_err());
    assert!(xml_to_json("<a>").is_err());
    assert!(xml_to_json("<a></a><b></b>").is_err());
    assert!(xml_to_json("<unclosed").is_err());
}

#[test]
fn whitespace_around_the_root_is_tolerated() {
    let v = xml_to_json("\n  <a>x</a>\n  ").expect("parses");
    assert_eq!(text_of(v.get("a").unwrap()), "x");
}

#[test]
fn mixed_repeated_structures_accumulate() {
    let v = xml_to_json("<R><e><k>1</k></e><e><k>2</k></e><e><k>3</k></e></R>").expect("parses");
    let list = v.get("R").unwrap().get("e").unwrap().clone().list_items();
    assert_eq!(list.len(), 3);
    assert_eq!(text_of(list[2].get("k").unwrap()), "3");
}

#[test]
fn location_constraint_shapes_parse() {
    // The bucket-region lookup's two response shapes.
    let v = xml_to_json("<LocationConstraint>eu-west-1</LocationConstraint>").expect("parses");
    assert_eq!(text_of(v.get("LocationConstraint").unwrap()), "eu-west-1");
    let empty = xml_to_json("<LocationConstraint></LocationConstraint>").expect("parses");
    assert!(matches!(empty.get("LocationConstraint").unwrap(), GenericValue::Null));
}
