use blockstore::entity::{Entity, Value};
use blockstore::mirror::{set_property, EntityWithSpaceName, Property};
use blockstore::text::{read_i32, without_quotes};

fn mi_transfer(space: &str, operation: i32, from: &str, to: &str, value: Value) -> EntityWithSpaceName {
    let mut entity = Entity::new();
    entity.add("id".to_string(), Value::String("0xfeed".to_string()));
    entity.add("operation".to_string(), Value::Int(operation));
    entity.add("from_account".to_string(), Value::String(from.to_string()));
    entity.add("to_account".to_string(), Value::String(to.to_string()));
    entity.add("value".to_string(), value);
    EntityWithSpaceName::new(space.to_string(), entity, 17)
}

fn mi_properties(properties: &[Property]) -> Vec<(String, String)> {
    properties.iter().map(|p| (p.name.clone(), p.value.clone())).collect()
}

fn mi_pair(name: &str, value: &str) -> (String, String) {
    (name.to_string(), value.to_string())
}

#[test]
fn values_have_a_text_form() {
    assert_eq!(Value::String("plain".to_string()).to_text(), "plain");
    assert_eq!(Value::Int(0).to_text(), "0");
    assert_eq!(Value::Int(-42).to_text(), "-42");
    assert_eq!(Value::Int(i32::MAX).to_text(), "2147483647");
    assert_eq!(Value::Int(i32::MIN).to_text(), "-2147483648");
    assert_eq!(Value::BigDecimal("1.5".to_string()).to_text(), "1.5");
    assert_eq!(Value::BigInt("123456789012345678901234567890".to_string()).to_text(),
        "123456789012345678901234567890");
    assert_eq!(Value::Bool(true).to_text(), "true");
    assert_eq!(Value::Bool(false).to_text(), "false");
    assert_eq!(Value::Null.to_text(), "null");
    assert_eq!(Value::Bytes(vec![]).to_text(), "0x");
    assert_eq!(Value::Bytes(vec![1, 2, 3, 15, 16]).to_text(), "0x0102030f10");
    assert_eq!(Value::Bytes(vec![0xf9, 0xb4, 0xca, 0x00, 0xff]).to_text(), "0xf9b4ca00ff");
    assert_eq!(Value::List(vec![]).to_text(), "[]");
    assert_eq!(Value::List(vec!["a".to_string()]).to_text(), "[a]");
    assert_eq!(Value::List(vec!["a".to_string(), "b".to_string()]).to_text(), "[a, b]");
}

#[test]
fn quotes_are_taken_off() {
    assert_eq!(without_quotes(""), "");
    assert_eq!(without_quotes("abc"), "abc");
    assert_eq!(without_quotes("\"abc\""), "abc");
    assert_eq!(without_quotes("a\"b\"\"c"), "abc");
    assert_eq!(without_quotes("\"\"\""), "");
    assert_eq!(without_quotes("'é\"ü'"), "'éü'");
}

#[test]
fn numbers_are_read_from_text() {
    assert_eq!(read_i32("17"), Some(17));
    assert_eq!(read_i32("-5"), Some(-5));
    assert_eq!(read_i32("+5"), Some(5));
    assert_eq!(read_i32("2147483647"), Some(2147483647));
    assert_eq!(read_i32("2147483648"), None);
    assert_eq!(read_i32(""), None);
    assert_eq!(read_i32("1.5"), None);
    assert_eq!(read_i32(" 1"), None);
    assert_eq!(read_i32("\"1\""), None);
}

#[test]
fn transfers_become_two_vertices() {
    let entities = vec![
        mi_transfer("TokenTransfer", 1, "\"0xaa\"", "0xbb", Value::Int(250)),
        mi_transfer("Poi$", 1, "0xcc", "0xdd", Value::Int(1)),
        mi_transfer("TokenTransfer", 2, "0xee", "0xff", Value::Int(2)),
        mi_transfer("Other", 1, "x", "y", Value::String("-3".to_string())),
    ];
    let queries = EntityWithSpaceName::entity_to_insert_tag_query(&entities);
    assert_eq!(queries.len(), 4);
    assert_eq!(queries[0].space_name, "TokenTransfer");
    assert_eq!(queries[0].tag_name, "TokenTransfer_tag");
    assert_eq!(mi_properties(&queries[0].properties), vec![mi_pair("from_account", "\"0xaa\"")]);
    assert_eq!(queries[0].vid, "0xaa");
    assert!(queries[0].if_not_exists);
    assert_eq!(queries[0].value, 250);
    assert_eq!(queries[1].tag_name, "TokenTransfer_tag");
    assert_eq!(mi_properties(&queries[1].properties), vec![mi_pair("to_account", "0xbb")]);
    assert_eq!(queries[1].vid, "0xbb");
    assert_eq!(queries[1].value, 250);
    assert_eq!(queries[2].space_name, "Other");
    assert_eq!(queries[2].tag_name, "Other_tag");
    assert_eq!(queries[2].vid, "x");
    assert_eq!(queries[2].value, -3);
    assert_eq!(queries[3].vid, "y");
    assert!(EntityWithSpaceName::entity_to_insert_tag_query(&vec![]).is_empty());
    let same = EntityWithSpaceName::try_entity_to_insert_tag_query(&entities).unwrap();
    assert_eq!(format!("{:?}", same), format!("{:?}", queries));
}

#[test]
fn transfers_become_an_edge() {
    let entities = vec![
        mi_transfer("Poi$", 1, "0xcc", "0xdd", Value::Int(1)),
        mi_transfer("TokenTransfer", 1, "\"0xaa\"", "0xbb", Value::String("\"250\"".to_string())),
        mi_transfer("TokenTransfer", 0, "0xee", "0xff", Value::Int(2)),
    ];
    let queries = EntityWithSpaceName::entity_to_insert_edge_queries(&entities);
    assert_eq!(queries.len(), 1);
    let query = &queries[0];
    assert_eq!(query.space_name, "TokenTransfer");
    assert_eq!(query.edge_name, "tx");
    // The edge runs from the receiver to the sender.
    assert_eq!(query.from_vertex, "0xbb");
    assert_eq!(query.to_vertex, "0xaa");
    assert_eq!(query.rank, 17);
    assert_eq!(query.value, 250);
    let properties = mi_properties(&query.properties);
    assert_eq!(properties.len(), 4);
    assert_eq!(properties[0], mi_pair("from_account", "\"0xaa\""));
    assert_eq!(properties[1], mi_pair("to_account", "0xbb"));
    assert_eq!(properties[2].0, "transactions");
    assert_eq!(properties[3], mi_pair("value", "\"250\""));
    let transactions = &properties[2].1;
    assert_eq!(transactions.len(), 7 + 20 + 3);
    assert!(transactions.starts_with("(\"250\","));
    assert!(transactions.ends_with(",+)"));
    let tag = &transactions[7..27];
    assert!(tag.chars().all(|c| c.is_ascii_digit() || c.is_ascii_lowercase()));
}

#[test]
fn edge_with_a_given_tag() {
    let entity = mi_transfer("TokenTransfer", 1, "a", "b", Value::Int(5));
    let query = entity.insert_edge_query("abc123");
    assert_eq!(
        mi_properties(&query.properties),
        vec![
            mi_pair("from_account", "a"),
            mi_pair("to_account", "b"),
            mi_pair("transactions", "(5,abc123,+)"),
            mi_pair("value", "5"),
        ]
    );
    assert_eq!((query.from_vertex.as_str(), query.to_vertex.as_str()), ("b", "a"));
    assert_eq!((query.rank, query.value), (17, 5));
}

#[test]
fn entities_that_cannot_be_mirrored_are_told_apart() {
    let good = || mi_transfer("TokenTransfer", 1, "a", "b", Value::Int(5));
    assert!(good().vertices_known());
    assert!(good().edge_known());
    assert_eq!(good().mirrored(), Some(true));
    assert_eq!(mi_transfer("Poi$", 1, "a", "b", Value::Int(5)).mirrored(), Some(false));
    assert_eq!(mi_transfer("T", 3, "a", "b", Value::Int(5)).mirrored(), Some(false));

    let not_a_number = mi_transfer("TokenTransfer", 1, "a", "b", Value::String("many".to_string()));
    assert!(!not_a_number.vertices_known());
    assert!(!not_a_number.edge_known());
    // A value in quotes is a number for the edge only.
    let quoted = mi_transfer("TokenTransfer", 1, "a", "b", Value::String("\"5\"".to_string()));
    assert!(!quoted.vertices_known());
    assert!(quoted.edge_known());
    // An entity that is not mirrored needs nothing but its operation.
    let skipped = mi_transfer("TokenTransfer", 0, "a", "b", Value::Null);
    assert!(skipped.vertices_known());
    assert!(skipped.edge_known());
    let mut bare = Entity::new();
    bare.add("id".to_string(), Value::String("1".to_string()));
    let no_operation = EntityWithSpaceName::new("TokenTransfer".to_string(), bare, 1);
    assert_eq!(no_operation.mirrored(), None);
    assert!(!no_operation.vertices_known());
    assert!(!no_operation.edge_known());
    let mut digest = Entity::new();
    digest.add("id".to_string(), Value::String("1".to_string()));
    let poi = EntityWithSpaceName::new("Poi$".to_string(), digest, 1);
    assert!(poi.vertices_known());
    assert!(poi.edge_known());
    let mut partial = Entity::new();
    partial.add("operation".to_string(), Value::Int(1));
    partial.add("from_account".to_string(), Value::String("a".to_string()));
    partial.add("value".to_string(), Value::Int(1));
    let no_receiver = EntityWithSpaceName::new("TokenTransfer".to_string(), partial, 1);
    assert!(!no_receiver.vertices_known());
    assert!(!no_receiver.edge_known());

    assert!(EntityWithSpaceName::try_entity_to_insert_tag_query(&vec![good(), not_a_number])
        .is_none());
    assert!(EntityWithSpaceName::try_entity_to_insert_edge_queries(&vec![good(), no_operation])
        .is_none());
    assert_eq!(
        EntityWithSpaceName::try_entity_to_insert_edge_queries(&vec![good(), quoted])
            .unwrap()
            .len(),
        2
    );
    assert_eq!(
        EntityWithSpaceName::try_entity_to_insert_tag_query(&vec![good(), poi, skipped])
            .unwrap()
            .len(),
        2
    );
}

#[test]
fn random_strings_are_digits_and_lower_case_letters() {
    assert_eq!(EntityWithSpaceName::get_random_string(0), "");
    let mut seen = std::collections::HashSet::new();
    for len in [1usize, 5, 20, 64] {
        for _ in 0..50 {
            let text = EntityWithSpaceName::get_random_string(len);
            assert_eq!(text.len(), len);
            assert!(text.chars().all(|c| c.is_ascii_digit() || c.is_ascii_lowercase()));
            if len == 20 {
                seen.insert(text);
            }
        }
    }
    assert!(seen.len() > 1);
}

#[test]
fn properties_are_set_in_place() {
    let mut properties = Vec::new();
    set_property(&mut properties, "a".to_string(), "1".to_string());
    set_property(&mut properties, "b".to_string(), "2".to_string());
    set_property(&mut properties, "a".to_string(), "3".to_string());
    assert_eq!(mi_properties(&properties), vec![mi_pair("a", "3"), mi_pair("b", "2")]);
}
