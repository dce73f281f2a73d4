use lokalise_key_usage::builder::{
    collect_labels_from_object_literal, flatten_translation_keys, ConstructionError,
};
use lokalise_key_usage::labels::{ShapeError, TranslateObjectValue, LABELS};
use lokalise_key_usage::string_map::StringMap;
use lokalise_key_usage::syntax::{
    Ident, KeyValueProp, MemberExpr, MemberProp, Node, ObjectLit, Prop, PropName, PropOrSpread,
};

fn string(text: &str) -> Node {
    Node::Str(text.to_string())
}

fn object(props: Vec<PropOrSpread>) -> ObjectLit {
    ObjectLit { props }
}

fn nested(props: Vec<PropOrSpread>) -> Node {
    Node::Object(object(props))
}

/// `key: value`
fn plain(key: &str, value: Node) -> PropOrSpread {
    PropOrSpread::Prop(Prop::KeyValue(KeyValueProp {
        key: PropName::Ident(key.to_string()),
        value: Box::new(value),
    }))
}

/// `[object.name]: value`
fn computed(object: &str, name: &str, value: Node) -> PropOrSpread {
    let key = Node::Member(MemberExpr {
        obj: Box::new(Node::Ident(Ident { sym: object.to_string(), ctxt: 1 })),
        prop: MemberProp::Ident(name.to_string()),
    });
    PropOrSpread::Prop(Prop::KeyValue(KeyValueProp {
        key: PropName::Computed(Box::new(key)),
        value: Box::new(value),
    }))
}

fn sizes(prefix: &str) -> Node {
    nested(vec![
        computed("SIZE", "samll", string(&format!("{}.small", prefix))),
        computed("SIZE", "large", string(&format!("{}.large", prefix))),
    ])
}

fn pet(prefix: &str) -> Node {
    nested(vec![plain("name", string(prefix)), plain("size", sizes(prefix))])
}

#[test]
fn empty_object() {
    let object_lit = object(vec![]);
    let labels = collect_labels_from_object_literal(&object_lit).unwrap();
    assert_eq!(labels, LABELS::Object(StringMap::new()));
}

#[test]
fn simple_object() {
    let object_lit = object(vec![
        plain("bird", string("i18n.bird")),
        plain("cat", string("i18n.cat")),
        plain("dog", string("i18n.dog")),
    ]);
    let labels = collect_labels_from_object_literal(&object_lit).unwrap();
    let object = labels.get_object().unwrap();
    assert_eq!(
        object.get("bird").unwrap().get_string().unwrap(),
        "i18n.bird"
    );
    assert_eq!(object.get("cat").unwrap().get_string().unwrap(), "i18n.cat");
    assert_eq!(object.get("dog").unwrap().get_string().unwrap(), "i18n.dog");
}

#[test]
fn simple_computed() {
    let object_lit = object(vec![
        computed("PET", "bird", string("i18n.bird")),
        computed("PET", "cat", string("i18n.cat")),
        computed("PET", "dog", string("i18n.dog")),
    ]);
    let labels = collect_labels_from_object_literal(&object_lit).unwrap();
    let computed = labels.get_computed().unwrap();
    assert!(computed.contains("i18n.bird"));
    assert!(computed.contains("i18n.cat"));
    assert!(computed.contains("i18n.dog"));
}

#[test]
#[should_panic(expected = "mixing string and computed keys is not allowed")]
fn mixed_object_computed() {
    let object_lit = object(vec![
        plain("bird", string("i18n.bird")),
        plain("cat", string("i18n.cat")),
        plain("dog", string("i18n.dog")),
        computed("PET", "bird", string("i18n.bird")),
        computed("PET", "cat", string("i18n.cat")),
        computed("PET", "dog", string("i18n.dog")),
    ]);
    collect_labels_from_object_literal(&object_lit)
        .map_err(|e| e.message())
        .unwrap();
}

#[test]
fn nested_object() {
    let object_lit = object(vec![
        plain("fly", nested(vec![plain("bird", string("i18n.bird"))])),
        plain(
            "walk",
            nested(vec![
                plain("cat", string("i18n.cat")),
                plain("dog", string("i18n.dog")),
            ]),
        ),
    ]);
    let labels = collect_labels_from_object_literal(&object_lit).unwrap();
    let object = labels.get_object().unwrap();
    let fly_object = object
        .get("fly")
        .unwrap()
        .get_labels()
        .unwrap()
        .get_object()
        .unwrap();
    let walk_object = object
        .get("walk")
        .unwrap()
        .get_labels()
        .unwrap()
        .get_object()
        .unwrap();
    assert_eq!(
        fly_object.get("bird").unwrap().get_string().unwrap(),
        "i18n.bird"
    );
    assert_eq!(
        walk_object.get("cat").unwrap().get_string().unwrap(),
        "i18n.cat"
    );
    assert_eq!(
        walk_object.get("dog").unwrap().get_string().unwrap(),
        "i18n.dog"
    );
}

#[test]
fn nested_computed() {
    let object_lit = object(vec![
        computed("PET", "bird", pet("i18n.bird")),
        computed("PET", "cat", pet("i18n.cat")),
        computed("PET", "dog", pet("i18n.dog")),
    ]);
    let labels = collect_labels_from_object_literal(&object_lit).unwrap();
    let computed = labels.get_computed().unwrap();
    assert!(computed.contains("i18n.bird"));
    assert!(computed.contains("i18n.bird.small"));
    assert!(computed.contains("i18n.bird.large"));
    assert!(computed.contains("i18n.cat"));
    assert!(computed.contains("i18n.cat.small"));
    assert!(computed.contains("i18n.cat.large"));
    assert!(computed.contains("i18n.dog"));
    assert!(computed.contains("i18n.dog.small"));
    assert!(computed.contains("i18n.dog.large"));
}

#[test]
fn complex() {
    let object_lit = object(vec![
        plain("title", string("i18n.pet.party")),
        plain("bird", pet("i18n.bird")),
        plain("cat", pet("i18n.cat")),
        plain("dog", pet("i18n.dog")),
    ]);
    let labels = collect_labels_from_object_literal(&object_lit).unwrap();
    let object = labels.get_object().unwrap();
    assert_eq!(
        object.get("title").unwrap().get_string().unwrap(),
        "i18n.pet.party"
    );

    let bird_object = object
        .get("bird")
        .unwrap()
        .get_labels()
        .unwrap()
        .get_object()
        .unwrap();
    assert_eq!(
        bird_object.get("name").unwrap().get_string().unwrap(),
        "i18n.bird"
    );
    let bird_size_computed = bird_object
        .get("size")
        .unwrap()
        .get_labels()
        .unwrap()
        .get_computed()
        .unwrap();
    assert!(bird_size_computed.contains("i18n.bird.small"));
    assert!(bird_size_computed.contains("i18n.bird.large"));

    let cat_object = object
        .get("cat")
        .unwrap()
        .get_labels()
        .unwrap()
        .get_object()
        .unwrap();
    assert_eq!(
        cat_object.get("name").unwrap().get_string().unwrap(),
        "i18n.cat"
    );
    let cat_size_computed = cat_object
        .get("size")
        .unwrap()
        .get_labels()
        .unwrap()
        .get_computed()
        .unwrap();
    assert!(cat_size_computed.contains("i18n.cat.small"));
    assert!(cat_size_computed.contains("i18n.cat.large"));

    let dog_object = object
        .get("dog")
        .unwrap()
        .get_labels()
        .unwrap()
        .get_object()
        .unwrap();
    assert_eq!(
        dog_object.get("name").unwrap().get_string().unwrap(),
        "i18n.dog"
    );
    let dog_size_computed = dog_object
        .get("size")
        .unwrap()
        .get_labels()
        .unwrap()
        .get_computed()
        .unwrap();
    assert!(dog_size_computed.contains("i18n.dog.small"));
    assert!(dog_size_computed.contains("i18n.dog.large"));
}

#[test]
fn empty_object_is_never_computed() {
    let labels = collect_labels_from_object_literal(&object(vec![])).unwrap();
    assert_eq!(labels.get_object().unwrap().len(), 0);
    assert_eq!(labels.get_computed().unwrap_err(), ShapeError::Object);
}

#[test]
fn plain_strings_give_exactly_their_pairs() {
    let labels = collect_labels_from_object_literal(&object(vec![
        plain("bird", string("i18n.bird")),
        plain("cat", string("i18n.cat")),
    ]))
    .unwrap();
    let entries = labels.get_object().unwrap();
    assert_eq!(entries.len(), 2);
    assert_eq!(entries.get("bird").unwrap().get_string().unwrap(), "i18n.bird");
    assert_eq!(entries.get("cat").unwrap().get_string().unwrap(), "i18n.cat");
    assert!(entries.get("dog").is_none());
    assert!(!entries.contains_key("i18n.bird"));
}

#[test]
fn repeated_plain_key_keeps_the_last_value() {
    let labels = collect_labels_from_object_literal(&object(vec![
        plain("bird", string("first")),
        plain("cat", string("i18n.cat")),
        plain("bird", string("second")),
    ]))
    .unwrap();
    let entries = labels.get_object().unwrap();
    assert_eq!(entries.len(), 2);
    assert_eq!(entries.get("bird").unwrap().get_string().unwrap(), "second");
}

#[test]
fn computed_level_holds_exactly_the_strings_beneath() {
    let labels = collect_labels_from_object_literal(&object(vec![
        computed("PET", "bird", string("i18n.bird")),
        computed("PET", "cat", nested(vec![plain("name", string("i18n.cat"))])),
        computed("PET", "dog", string("i18n.bird")),
    ]))
    .unwrap();
    let keys = labels.get_computed().unwrap();
    assert_eq!(keys.len(), 2);
    assert!(keys.contains("i18n.bird"));
    assert!(keys.contains("i18n.cat"));
    assert!(!keys.contains("name"));
    assert_eq!(labels.get_object().unwrap_err(), ShapeError::Computed);
}

#[test]
fn computed_keys_with_empty_values_give_the_empty_set() {
    let labels =
        collect_labels_from_object_literal(&object(vec![computed("PET", "bird", nested(vec![]))]))
            .unwrap();
    assert!(labels.get_computed().unwrap().is_empty());
}

#[test]
fn plain_then_computed_fails() {
    let result = collect_labels_from_object_literal(&object(vec![
        plain("bird", string("i18n.bird")),
        computed("PET", "cat", string("i18n.cat")),
    ]));
    assert_eq!(result.unwrap_err(), ConstructionError::MixedKeys);
}

#[test]
fn computed_then_plain_fails() {
    let result = collect_labels_from_object_literal(&object(vec![
        computed("PET", "cat", string("i18n.cat")),
        plain("bird", string("i18n.bird")),
    ]));
    assert_eq!(result.unwrap_err(), ConstructionError::MixedKeys);
}

#[test]
fn mixing_inside_a_nested_level_fails() {
    let result = collect_labels_from_object_literal(&object(vec![plain(
        "pets",
        nested(vec![
            computed("PET", "cat", string("i18n.cat")),
            plain("bird", string("i18n.bird")),
        ]),
    )]));
    assert_eq!(result.unwrap_err(), ConstructionError::MixedKeys);
}

#[test]
fn levels_choose_their_style_independently() {
    let labels = collect_labels_from_object_literal(&object(vec![computed(
        "PET",
        "cat",
        nested(vec![
            plain("name", string("i18n.cat")),
            computed("SIZE", "small", string("i18n.cat.small")),
        ]),
    )]))
    .unwrap();
    let keys = labels.get_computed().unwrap();
    assert_eq!(keys.len(), 2);
    assert!(keys.contains("i18n.cat"));
    assert!(keys.contains("i18n.cat.small"));
}

#[test]
fn spread_fails() {
    let spread = PropOrSpread::Spread(Box::new(Node::Ident(Ident {
        sym: "other".to_string(),
        ctxt: 1,
    })));
    let result = collect_labels_from_object_literal(&object(vec![
        plain("bird", string("i18n.bird")),
        spread,
    ]));
    assert_eq!(result.unwrap_err(), ConstructionError::Spread);
    assert_eq!(ConstructionError::Spread.message(), "spread is not allowed");
}

#[test]
fn shorthand_property_fails() {
    let shorthand = PropOrSpread::Prop(Prop::Other(vec![Node::Ident(Ident {
        sym: "bird".to_string(),
        ctxt: 1,
    })]));
    let result = collect_labels_from_object_literal(&object(vec![shorthand]));
    assert_eq!(result.unwrap_err(), ConstructionError::NotKeyValue);
    assert_eq!(
        ConstructionError::NotKeyValue.message(),
        "only key-value prop is allowed"
    );
}

#[test]
fn value_that_is_no_string_and_no_object_fails() {
    let result = collect_labels_from_object_literal(&object(vec![plain(
        "bird",
        Node::Other(vec![]),
    )]));
    assert_eq!(result.unwrap_err(), ConstructionError::InvalidValue);
    let result = collect_labels_from_object_literal(&object(vec![computed(
        "PET",
        "bird",
        Node::Array(vec![string("i18n.bird")]),
    )]));
    assert_eq!(result.unwrap_err(), ConstructionError::InvalidValue);
    assert_eq!(
        ConstructionError::InvalidValue.message(),
        "value can only be string and object literal"
    );
}

#[test]
fn key_that_is_neither_plain_nor_computed_fails() {
    let quoted = PropOrSpread::Prop(Prop::KeyValue(KeyValueProp {
        key: PropName::Other,
        value: Box::new(string("i18n.bird")),
    }));
    let result = collect_labels_from_object_literal(&object(vec![quoted]));
    assert_eq!(result.unwrap_err(), ConstructionError::InvalidKey);
    assert_eq!(
        ConstructionError::InvalidKey.message(),
        "key can only be string or computed"
    );
}

#[test]
fn the_first_error_in_source_order_is_reported() {
    let result = collect_labels_from_object_literal(&object(vec![
        plain("bird", Node::Other(vec![])),
        computed("PET", "cat", string("i18n.cat")),
    ]));
    assert_eq!(result.unwrap_err(), ConstructionError::InvalidValue);
    let result = collect_labels_from_object_literal(&object(vec![
        plain("bird", string("i18n.bird")),
        computed("PET", "cat", Node::Other(vec![])),
    ]));
    assert_eq!(result.unwrap_err(), ConstructionError::MixedKeys);
}

#[test]
fn error_beneath_a_nested_literal_fails_the_whole() {
    let result = collect_labels_from_object_literal(&object(vec![plain(
        "pets",
        nested(vec![plain("bird", Node::Other(vec![]))]),
    )]));
    assert_eq!(result.unwrap_err(), ConstructionError::InvalidValue);
}

#[test]
fn flattening_ignores_keys() {
    let quoted = PropOrSpread::Prop(Prop::KeyValue(KeyValueProp {
        key: PropName::Other,
        value: Box::new(string("i18n.quoted")),
    }));
    let keys = flatten_translation_keys(&object(vec![
        plain("bird", string("i18n.bird")),
        computed("PET", "cat", nested(vec![plain("name", string("i18n.cat"))])),
        quoted,
    ]))
    .unwrap();
    assert_eq!(keys.len(), 3);
    assert!(keys.contains("i18n.bird"));
    assert!(keys.contains("i18n.cat"));
    assert!(keys.contains("i18n.quoted"));
}

#[test]
fn flattening_fails_on_what_is_no_pair() {
    let spread = PropOrSpread::Spread(Box::new(Node::Other(vec![])));
    assert_eq!(
        flatten_translation_keys(&object(vec![spread])).unwrap_err(),
        ConstructionError::Spread
    );
    let method = PropOrSpread::Prop(Prop::Other(vec![]));
    assert_eq!(
        flatten_translation_keys(&object(vec![method])).unwrap_err(),
        ConstructionError::NotKeyValue
    );
    assert_eq!(
        flatten_translation_keys(&object(vec![plain("n", Node::Other(vec![]))])).unwrap_err(),
        ConstructionError::InvalidValue
    );
}

#[test]
fn getters_of_the_wrong_kind_fail() {
    let value = TranslateObjectValue::String("i18n.bird".to_string());
    assert_eq!(value.get_string().unwrap(), "i18n.bird");
    assert_eq!(value.get_labels().unwrap_err(), ShapeError::String);
    let value = TranslateObjectValue::NestedLabels(LABELS::Object(StringMap::new()));
    assert_eq!(value.get_string().unwrap_err(), ShapeError::NestedLabels);
    assert!(value.get_labels().is_ok());
    assert_eq!(ShapeError::NestedLabels.message(), "it's a nested labels");
    assert_eq!(ShapeError::String.message(), "it's a string");
    assert_eq!(ShapeError::Computed.message(), "it's a computed");
    assert_eq!(ShapeError::Object.message(), "it's an object");
}

#[test]
fn trees_are_equal_whatever_the_order_of_their_entries() {
    let one = collect_labels_from_object_literal(&object(vec![
        plain("bird", string("i18n.bird")),
        plain("pets", nested(vec![computed("PET", "cat", string("a")), computed("PET", "dog", string("b"))])),
    ]))
    .unwrap();
    let other = collect_labels_from_object_literal(&object(vec![
        plain("pets", nested(vec![computed("PET", "dog", string("b")), computed("PET", "cat", string("a"))])),
        plain("bird", string("i18n.bird")),
    ]))
    .unwrap();
    assert_eq!(one, other);
    let different = collect_labels_from_object_literal(&object(vec![
        plain("bird", string("i18n.bird")),
        plain("pets", nested(vec![computed("PET", "cat", string("a"))])),
    ]))
    .unwrap();
    assert_ne!(one, different);
    assert_ne!(one, LABELS::Object(StringMap::new()));
}

#[test]
fn leaves_are_every_key_beneath() {
    let labels = collect_labels_from_object_literal(&object(vec![
        plain("title", string("i18n.pet.party")),
        plain("bird", pet("i18n.bird")),
    ]))
    .unwrap();
    let keys = labels.leaves();
    assert_eq!(keys.len(), 4);
    assert!(keys.contains("i18n.pet.party"));
    assert!(keys.contains("i18n.bird"));
    assert!(keys.contains("i18n.bird.small"));
    assert!(keys.contains("i18n.bird.large"));
}
