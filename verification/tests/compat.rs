//! Compatibility checker behavior: required names, numeric widening,
//! array recursion, absence flags, and the contravariant reply direction.

use ten_core::attr::{PropertyAttribute, ValueType};
use ten_core::schema::{
    are_msg_schemas_compatible, are_ten_schemas_compatible, SchemaError, TenMsgSchema, TenSchema,
};

fn scalar(kind: ValueType) -> PropertyAttribute {
    PropertyAttribute { prop_type: kind, items: None, properties: None, required: None }
}

fn object_schema(props: Vec<(&str, PropertyAttribute)>, required: Vec<&str>) -> TenSchema {
    TenSchema {
        attr: PropertyAttribute {
            prop_type: ValueType::Object,
            items: None,
            properties: Some(props.into_iter().map(|(n, a)| (n.to_string(), a)).collect()),
            required: Some(required.into_iter().map(|s| s.to_string()).collect()),
        },
    }
}

fn check(source: &TenSchema, target: &TenSchema) -> Result<(), SchemaError> {
    are_ten_schemas_compatible(Some(source), Some(target), false, false)
}

#[test]
fn required_name_must_exist_in_source() {
    let source = object_schema(vec![("a", scalar(ValueType::Bool))], vec![]);
    let target = object_schema(vec![("b", scalar(ValueType::Bool))], vec!["b"]);
    assert!(check(&source, &target).is_err());

    let source = object_schema(
        vec![("a", scalar(ValueType::Bool)), ("b", scalar(ValueType::Bool))],
        vec![],
    );
    assert!(check(&source, &target).is_ok());
}

#[test]
fn producer_may_have_extra_unrequired_properties() {
    let source = object_schema(
        vec![("a", scalar(ValueType::Bool)), ("extra", scalar(ValueType::Str))],
        vec![],
    );
    let target = object_schema(vec![("a", scalar(ValueType::Bool))], vec!["a"]);
    assert!(check(&source, &target).is_ok());
}

#[test]
fn numeric_widening_is_accepted_narrowing_rejected() {
    let widenings = [
        (ValueType::Int8, ValueType::Int64),
        (ValueType::Int16, ValueType::Int32),
        (ValueType::Uint8, ValueType::Uint64),
        (ValueType::Uint8, ValueType::Int16),
        (ValueType::Uint32, ValueType::Int64),
        (ValueType::Float32, ValueType::Float64),
    ];
    for (s, t) in widenings {
        let source = object_schema(vec![("v", scalar(s))], vec![]);
        let target = object_schema(vec![("v", scalar(t))], vec!["v"]);
        assert!(check(&source, &target).is_ok(), "{s:?} should fit {t:?}");
    }
    let narrowings = [
        (ValueType::Int64, ValueType::Int32),
        (ValueType::Uint64, ValueType::Uint8),
        (ValueType::Int16, ValueType::Uint16),
        (ValueType::Float64, ValueType::Float32),
        (ValueType::Str, ValueType::Bool),
    ];
    for (s, t) in narrowings {
        let source = object_schema(vec![("v", scalar(s))], vec![]);
        let target = object_schema(vec![("v", scalar(t))], vec!["v"]);
        assert!(check(&source, &target).is_err(), "{s:?} should not fit {t:?}");
    }
}

fn array_of(item: PropertyAttribute) -> PropertyAttribute {
    PropertyAttribute {
        prop_type: ValueType::Array,
        items: Some(Box::new(item)),
        properties: None,
        required: None,
    }
}

#[test]
fn array_item_templates_are_checked_recursively() {
    let source = object_schema(vec![("xs", array_of(scalar(ValueType::Int8)))], vec![]);
    let target = object_schema(vec![("xs", array_of(scalar(ValueType::Int64)))], vec!["xs"]);
    assert!(check(&source, &target).is_ok());

    let target = object_schema(vec![("xs", array_of(scalar(ValueType::Int8)))], vec!["xs"]);
    let source = object_schema(vec![("xs", array_of(scalar(ValueType::Int64)))], vec![]);
    assert!(check(&source, &target).is_err());
}

#[test]
fn nested_required_names_are_checked() {
    let inner_src = PropertyAttribute {
        prop_type: ValueType::Object,
        items: None,
        properties: Some(vec![("x".to_string(), scalar(ValueType::Bool))]),
        required: None,
    };
    let inner_tgt = PropertyAttribute {
        prop_type: ValueType::Object,
        items: None,
        properties: Some(vec![("y".to_string(), scalar(ValueType::Bool))]),
        required: Some(vec!["y".to_string()]),
    };
    let source = object_schema(vec![("o", inner_src)], vec![]);
    let target = object_schema(vec![("o", inner_tgt)], vec!["o"]);
    // The inner object requires `y`, which the producer does not have.
    assert!(check(&source, &target).is_err());
}

#[test]
fn absence_flags_guard_missing_operands() {
    let s = object_schema(vec![], vec![]);
    assert!(are_ten_schemas_compatible(Some(&s), None, false, true).is_ok());
    let e = are_ten_schemas_compatible(Some(&s), None, false, false).unwrap_err();
    assert!(e.message().contains("target schema is undefined"));
    assert!(are_ten_schemas_compatible(None, Some(&s), true, false).is_ok());
    let e = are_ten_schemas_compatible(None, Some(&s), false, false).unwrap_err();
    assert!(e.message().contains("source schema is undefined"));
}

#[test]
fn reversal_law_result_incompatibility_fails_overall() {
    // A's message fits B's message...
    let a = TenMsgSchema {
        msg: Some(object_schema(vec![("v", scalar(ValueType::Int8))], vec![])),
        // ...but A's declared result cannot accept what B's result requires.
        result: Some(object_schema(vec![("r", scalar(ValueType::Str))], vec!["r"])),
    };
    let b = TenMsgSchema {
        msg: Some(object_schema(vec![("v", scalar(ValueType::Int64))], vec!["v"])),
        result: Some(object_schema(vec![("r", scalar(ValueType::Int64))], vec![])),
    };
    // The message direction alone passes.
    assert!(
        are_ten_schemas_compatible(a.msg.as_ref(), b.msg.as_ref(), true, true).is_ok()
    );
    // The reply direction reverses: B's result must fit A's result, and
    // Int64 cannot stand where Str is required.
    assert!(
        are_ten_schemas_compatible(b.result.as_ref(), a.result.as_ref(), true, true).is_err()
    );
    // So the combined check fails overall.
    assert!(are_msg_schemas_compatible(Some(&a), Some(&b), true, true).is_err());
}

#[test]
fn msg_schemas_without_results_pass_permissively() {
    let a = TenMsgSchema { msg: Some(object_schema(vec![], vec![])), result: None };
    let b = TenMsgSchema { msg: Some(object_schema(vec![], vec![])), result: None };
    assert!(are_msg_schemas_compatible(Some(&a), Some(&b), true, true).is_ok());
    assert!(are_msg_schemas_compatible(None, Some(&b), true, true).is_ok());
    assert!(are_msg_schemas_compatible(Some(&a), None, true, true).is_ok());
}
