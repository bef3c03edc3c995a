//! Path navigator behavior: parsing, materialization, the read/write
//! round trip, required-ness reporting and kind conflicts.

use ten_core::attr::{PropertyAttribute, ValueType};
use ten_core::navigate::{navigate_property_path, navigate_property_path_mut, PathError, WriteOp};

fn scalar(kind: ValueType) -> PropertyAttribute {
    PropertyAttribute { prop_type: kind, items: None, properties: None, required: None }
}

fn attr_eq(a: &PropertyAttribute, b: &PropertyAttribute) -> bool {
    if a.prop_type != b.prop_type {
        return false;
    }
    match (&a.items, &b.items) {
        (None, None) => {},
        (Some(x), Some(y)) => {
            if !attr_eq(x, y) {
                return false;
            }
        },
        _ => return false,
    }
    match (&a.properties, &b.properties) {
        (None, None) => {},
        (Some(x), Some(y)) => {
            if x.len() != y.len() {
                return false;
            }
            for i in 0..x.len() {
                if x[i].0 != y[i].0 || !attr_eq(&x[i].1, &y[i].1) {
                    return false;
                }
            }
        },
        _ => return false,
    }
    a.required == b.required
}

#[test]
fn write_then_read_round_trip_top_level() {
    let mut props: Vec<(String, PropertyAttribute)> = Vec::new();
    let written = scalar(ValueType::Str);
    let r = navigate_property_path_mut(&mut props, "greeting", WriteOp::SetAttr(written));
    assert!(r.is_ok());

    let found = navigate_property_path(Some(&props), None, "greeting");
    let (attr, required) = found.expect("written attribute must be readable");
    assert!(attr_eq(attr, &scalar(ValueType::Str)));
    assert_eq!(required, Some(false));
}

#[test]
fn write_then_read_round_trip_nested() {
    let mut props: Vec<(String, PropertyAttribute)> = Vec::new();
    let written = scalar(ValueType::Uint32);
    let r = navigate_property_path_mut(&mut props, "a.b[0].c", WriteOp::SetAttr(written));
    assert!(r.is_ok());

    let found = navigate_property_path(Some(&props), None, "a.b[0].c");
    let (attr, required) = found.expect("written attribute must be readable");
    assert!(attr_eq(attr, &scalar(ValueType::Uint32)));
    // The walk descended, so required-ness is reported false.
    assert_eq!(required, Some(false));
}

#[test]
fn indexed_final_segment_returns_item_template() {
    let mut props: Vec<(String, PropertyAttribute)> = Vec::new();
    let r = navigate_property_path_mut(
        &mut props,
        "frames[3]",
        WriteOp::SetKind(ValueType::Float64),
    );
    assert!(r.is_ok());

    // Any index aliases the single shared item template.
    let found = navigate_property_path(Some(&props), None, "frames[7]");
    let (attr, required) = found.expect("item template must be readable");
    assert_eq!(attr.prop_type, ValueType::Float64);
    // An indexed final segment carries no required-ness.
    assert_eq!(required, None);
}

#[test]
fn missing_name_reads_not_found() {
    let props: Vec<(String, PropertyAttribute)> = vec![("a".to_string(), scalar(ValueType::Bool))];
    assert!(navigate_property_path(Some(&props), None, "b").is_none());
    assert!(navigate_property_path(Some(&props), None, "a.b").is_none());
    assert!(navigate_property_path(Some(&props), None, "a[0]").is_none());
    assert!(navigate_property_path(None, None, "a").is_none());
}

#[test]
fn required_flag_only_at_top_level() {
    let mut props: Vec<(String, PropertyAttribute)> = Vec::new();
    navigate_property_path_mut(&mut props, "x", WriteOp::SetKind(ValueType::Int8)).unwrap();
    let required = vec!["x".to_string()];

    let (_, flag) = navigate_property_path(Some(&props), Some(&required), "x").unwrap();
    assert_eq!(flag, Some(true));

    let (_, flag) = navigate_property_path(Some(&props), None, "x").unwrap();
    assert_eq!(flag, Some(false));
}

#[test]
fn kind_conflict_fails_write() {
    let mut props: Vec<(String, PropertyAttribute)> = Vec::new();
    navigate_property_path_mut(&mut props, "x", WriteOp::SetKind(ValueType::Str)).unwrap();

    // `x` is a scalar now; dotting into it conflicts.
    let r = navigate_property_path_mut(&mut props, "x.y", WriteOp::SetKind(ValueType::Bool));
    assert!(matches!(r, Err(PathError::KindConflict)));

    // Indexing into it conflicts too.
    let r = navigate_property_path_mut(&mut props, "x[0]", WriteOp::SetKind(ValueType::Bool));
    assert!(matches!(r, Err(PathError::KindConflict)));
}

#[test]
fn invalid_index_syntax_fails_write() {
    let mut props: Vec<(String, PropertyAttribute)> = Vec::new();
    let r = navigate_property_path_mut(&mut props, "a[]", WriteOp::SetKind(ValueType::Bool));
    assert!(matches!(r, Err(PathError::InvalidPath)));
    let r = navigate_property_path_mut(&mut props, "a[x]", WriteOp::SetKind(ValueType::Bool));
    assert!(matches!(r, Err(PathError::InvalidPath)));
    let r = navigate_property_path_mut(&mut props, "a[1]b", WriteOp::SetKind(ValueType::Bool));
    assert!(matches!(r, Err(PathError::InvalidPath)));
    // Nothing was materialized by the failed parses.
    assert!(props.is_empty());
}

#[test]
fn intermediate_nodes_are_materialized() {
    let mut props: Vec<(String, PropertyAttribute)> = Vec::new();
    navigate_property_path_mut(&mut props, "outer.inner", WriteOp::SetKind(ValueType::Int64))
        .unwrap();

    let (outer, _) = navigate_property_path(Some(&props), None, "outer").unwrap();
    assert_eq!(outer.prop_type, ValueType::Object);
    assert!(outer.properties.is_some());
}
