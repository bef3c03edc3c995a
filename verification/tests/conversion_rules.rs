//! Rule-engine behavior: kind inference from a fixed value's form, the
//! keep-original baseline, renaming, silent no-ops, rule errors, and
//! idempotence of a FixedValue rule.

use ten_core::attr::{PropertyAttribute, ValueType};
use ten_core::conversion::{
    convert_rules_to_schema_properties, msg_conversion_get_dest_msg_name,
    msg_conversion_get_final_target_schema, MsgAndResultConversion, MsgConversion,
    MsgConversionMode, MsgConversionRule, MsgConversionRules, RuleErrorKind, RuleValue,
};
use ten_core::manifest::{Manifest, ManifestApi, ManifestApiMsg, ManifestApiProperty, MsgType};
use ten_core::store::{PkgInfo, PkgsCache, SchemaStore};

fn fixed(path: &str, value: RuleValue) -> MsgConversionRule {
    MsgConversionRule {
        path: path.to_string(),
        conversion_mode: MsgConversionMode::FixedValue,
        value: Some(value),
        original_path: None,
    }
}

fn from_original(path: &str, original: &str) -> MsgConversionRule {
    MsgConversionRule {
        path: path.to_string(),
        conversion_mode: MsgConversionMode::FromOriginal,
        value: None,
        original_path: Some(original.to_string()),
    }
}

fn apply(
    rules: Vec<MsgConversionRule>,
    src: Option<&Vec<(String, PropertyAttribute)>>,
    src_required: Option<&Vec<String>>,
    dest: &mut Vec<(String, PropertyAttribute)>,
    dest_required: &mut Option<Vec<String>>,
) -> Result<(), ten_core::conversion::RuleError> {
    convert_rules_to_schema_properties(&rules, None, src, src_required, dest, dest_required)
}

fn kind_of(props: &Vec<(String, PropertyAttribute)>, name: &str) -> ValueType {
    props.iter().find(|(n, _)| n == name).map(|(_, a)| a.prop_type).unwrap()
}

#[test]
fn fixed_value_kind_inference() {
    let mut dest: Vec<(String, PropertyAttribute)> = Vec::new();
    let mut req: Option<Vec<String>> = None;
    let rules = vec![
        fixed("neg", RuleValue::Int(-3)),
        fixed("pos", RuleValue::Int(3)),
        fixed("big", RuleValue::Uint(u64::MAX)),
        fixed("f", RuleValue::Float),
        fixed("b", RuleValue::Bool(true)),
        fixed("s", RuleValue::Str("hi".to_string())),
    ];
    apply(rules, None, None, &mut dest, &mut req).unwrap();
    assert_eq!(kind_of(&dest, "neg"), ValueType::Int64);
    assert_eq!(kind_of(&dest, "pos"), ValueType::Uint64);
    assert_eq!(kind_of(&dest, "big"), ValueType::Uint64);
    assert_eq!(kind_of(&dest, "f"), ValueType::Float64);
    assert_eq!(kind_of(&dest, "b"), ValueType::Bool);
    assert_eq!(kind_of(&dest, "s"), ValueType::Str);
    // Every fixed value at top level is appended to the required list.
    assert_eq!(
        req,
        Some(vec![
            "neg".to_string(),
            "pos".to_string(),
            "big".to_string(),
            "f".to_string(),
            "b".to_string(),
            "s".to_string()
        ])
    );
}

#[test]
fn non_scalar_fixed_value_is_rejected() {
    for bad in [RuleValue::Null, RuleValue::Object, RuleValue::Array] {
        let mut dest: Vec<(String, PropertyAttribute)> = Vec::new();
        let mut req: Option<Vec<String>> = None;
        let e = apply(vec![fixed("x", bad)], None, None, &mut dest, &mut req).unwrap_err();
        assert_eq!(e.index, 0);
        assert_eq!(e.kind, RuleErrorKind::UnsupportedValue);
    }
}

#[test]
fn missing_fields_are_rejected_with_position() {
    let mut dest: Vec<(String, PropertyAttribute)> = Vec::new();
    let mut req: Option<Vec<String>> = None;
    let no_value = MsgConversionRule {
        path: "x".to_string(),
        conversion_mode: MsgConversionMode::FixedValue,
        value: None,
        original_path: None,
    };
    let e = apply(
        vec![fixed("ok", RuleValue::Bool(false)), no_value],
        None,
        None,
        &mut dest,
        &mut req,
    )
    .unwrap_err();
    assert_eq!(e.index, 1);
    assert_eq!(e.kind, RuleErrorKind::MissingValue);

    let mut dest: Vec<(String, PropertyAttribute)> = Vec::new();
    let mut req: Option<Vec<String>> = None;
    let no_original = MsgConversionRule {
        path: "x".to_string(),
        conversion_mode: MsgConversionMode::FromOriginal,
        value: None,
        original_path: None,
    };
    let e = apply(vec![no_original], None, None, &mut dest, &mut req).unwrap_err();
    assert_eq!(e.index, 0);
    assert_eq!(e.kind, RuleErrorKind::MissingOriginalPath);
}

#[test]
fn bad_destination_path_is_rejected() {
    let mut dest: Vec<(String, PropertyAttribute)> = Vec::new();
    let mut req: Option<Vec<String>> = None;
    let e = apply(vec![fixed("a[]", RuleValue::Bool(true))], None, None, &mut dest, &mut req)
        .unwrap_err();
    assert_eq!(e.index, 0);
    assert_eq!(e.kind, RuleErrorKind::BadPath);
}

#[test]
fn from_original_copies_and_tracks_required() {
    let src: Vec<(String, PropertyAttribute)> = vec![(
        "width".to_string(),
        PropertyAttribute {
            prop_type: ValueType::Uint16,
            items: None,
            properties: None,
            required: None,
        },
    )];
    let src_required = vec!["width".to_string()];
    let mut dest: Vec<(String, PropertyAttribute)> = Vec::new();
    let mut req: Option<Vec<String>> = None;
    apply(
        vec![from_original("w", "width")],
        Some(&src),
        Some(&src_required),
        &mut dest,
        &mut req,
    )
    .unwrap();
    assert_eq!(kind_of(&dest, "w"), ValueType::Uint16);
    // The source attribute was required, so the destination name is too.
    assert_eq!(req, Some(vec!["w".to_string()]));
}

#[test]
fn from_original_missing_source_is_a_silent_no_op() {
    let src: Vec<(String, PropertyAttribute)> = Vec::new();
    let mut dest: Vec<(String, PropertyAttribute)> = Vec::new();
    let mut req: Option<Vec<String>> = None;
    apply(vec![from_original("w", "nothing.here")], Some(&src), None, &mut dest, &mut req)
        .unwrap();
    assert!(dest.is_empty());
    assert_eq!(req, None);
}

fn props_eq(a: &Vec<(String, PropertyAttribute)>, b: &Vec<(String, PropertyAttribute)>) -> bool {
    if a.len() != b.len() {
        return false;
    }
    for i in 0..a.len() {
        if a[i].0 != b[i].0 || a[i].1.prop_type != b[i].1.prop_type {
            return false;
        }
    }
    true
}

#[test]
fn fixed_value_rule_is_idempotent_on_the_tree() {
    // Top-level path.
    let mut dest: Vec<(String, PropertyAttribute)> = Vec::new();
    let mut req: Option<Vec<String>> = None;
    apply(vec![fixed("x", RuleValue::Int(1))], None, None, &mut dest, &mut req).unwrap();
    let once = clone_props(&dest);
    apply(vec![fixed("x", RuleValue::Int(1))], None, None, &mut dest, &mut req).unwrap();
    assert!(props_eq(&once, &dest));

    // Nested path.
    let mut dest: Vec<(String, PropertyAttribute)> = Vec::new();
    let mut req: Option<Vec<String>> = None;
    apply(vec![fixed("a.b", RuleValue::Int(1))], None, None, &mut dest, &mut req).unwrap();
    let len_once = dest.len();
    apply(vec![fixed("a.b", RuleValue::Int(1))], None, None, &mut dest, &mut req).unwrap();
    assert_eq!(dest.len(), len_once);
    let (inner_name, inner) = &dest[0];
    assert_eq!(inner_name, "a");
    assert_eq!(inner.properties.as_ref().unwrap().len(), 1);
}

fn clone_props(v: &Vec<(String, PropertyAttribute)>) -> Vec<(String, PropertyAttribute)> {
    v.iter().map(|(n, a)| (n.clone(), clone_attr(a))).collect()
}

fn clone_attr(a: &PropertyAttribute) -> PropertyAttribute {
    PropertyAttribute {
        prop_type: a.prop_type,
        items: a.items.as_ref().map(|b| Box::new(clone_attr(b))),
        properties: a.properties.as_ref().map(clone_props),
        required: a.required.clone(),
    }
}

fn empty_api() -> ManifestApi {
    ManifestApi {
        property: None,
        cmd_in: None,
        cmd_out: None,
        data_in: None,
        data_out: None,
        audio_frame_in: None,
        audio_frame_out: None,
        video_frame_in: None,
        video_frame_out: None,
    }
}

fn cache_with_cmd_out(addon: &str, msg: ManifestApiMsg) -> PkgsCache {
    let mut api = empty_api();
    api.cmd_out = Some(vec![msg]);
    let manifest =
        Manifest { name: addon.to_string(), version: "1.0.0".to_string(), api: Some(api) };
    let schema_store = SchemaStore::from_manifest(&manifest).unwrap();
    PkgsCache { pkgs: vec![PkgInfo { manifest, schema_store }] }
}

#[test]
fn rename_rule_resolves_destination_name() {
    let conv = MsgAndResultConversion {
        msg: Some(MsgConversion {
            rules: MsgConversionRules {
                rules: vec![fixed("ten.name", RuleValue::Str("foo".to_string()))],
                keep_original: None,
            },
        }),
        result: None,
    };
    let (name, index) = msg_conversion_get_dest_msg_name("orig", &conv);
    assert_eq!(name, "foo");
    assert_eq!(index, Some(0));

    // A non-string value at the reserved path does not rename.
    let conv = MsgAndResultConversion {
        msg: Some(MsgConversion {
            rules: MsgConversionRules {
                rules: vec![fixed("ten.name", RuleValue::Int(3))],
                keep_original: None,
            },
        }),
        result: None,
    };
    let (name, index) = msg_conversion_get_dest_msg_name("orig", &conv);
    assert_eq!(name, "orig");
    assert_eq!(index, None);
}

#[test]
fn rename_rule_contributes_no_property() {
    let pkgs = cache_with_cmd_out(
        "addon_src",
        ManifestApiMsg {
            name: "orig".to_string(),
            property: Some(ManifestApiProperty { properties: Some(Vec::new()), required: None }),
            result: None,
        },
    );
    let conv = MsgAndResultConversion {
        msg: Some(MsgConversion {
            rules: MsgConversionRules {
                rules: vec![fixed("ten.name", RuleValue::Str("foo".to_string()))],
                keep_original: None,
            },
        }),
        result: None,
    };
    let (name, index) = msg_conversion_get_dest_msg_name("orig", &conv);
    let (msg, result) = msg_conversion_get_final_target_schema(
        &pkgs,
        &"addon_src".to_string(),
        &"addon_dest".to_string(),
        &MsgType::Cmd,
        "orig",
        name.as_str(),
        index,
        &conv,
    )
    .unwrap();
    let msg = msg.unwrap();
    // The synthesized message carries the new name and no `ten.name`
    // property.
    assert_eq!(msg.name, "foo");
    let props = msg.property.unwrap().properties.unwrap();
    assert!(props.iter().all(|(n, _)| n != "ten.name"));
    assert!(props.is_empty());
    assert!(result.is_none());
}

#[test]
fn keep_original_seeds_from_source() {
    let pkgs = cache_with_cmd_out(
        "addon_src",
        ManifestApiMsg {
            name: "orig".to_string(),
            property: Some(ManifestApiProperty {
                properties: Some(vec![(
                    "kept".to_string(),
                    PropertyAttribute {
                        prop_type: ValueType::Bool,
                        items: None,
                        properties: None,
                        required: None,
                    },
                )]),
                required: Some(vec!["kept".to_string()]),
            }),
            result: None,
        },
    );
    let conv = MsgAndResultConversion {
        msg: Some(MsgConversion {
            rules: MsgConversionRules {
                rules: vec![fixed("added", RuleValue::Int(7))],
                keep_original: Some(true),
            },
        }),
        result: None,
    };
    let (msg, _) = msg_conversion_get_final_target_schema(
        &pkgs,
        &"addon_src".to_string(),
        &"addon_dest".to_string(),
        &MsgType::Cmd,
        "orig",
        "orig",
        None,
        &conv,
    )
    .unwrap();
    let msg = msg.unwrap();
    let property = msg.property.unwrap();
    let props = property.properties.unwrap();
    assert_eq!(props.len(), 2);
    assert_eq!(props[0].0, "kept");
    assert_eq!(props[1].0, "added");
    assert_eq!(props[1].1.prop_type, ValueType::Uint64);
    assert_eq!(
        property.required,
        Some(vec!["kept".to_string(), "added".to_string()])
    );
}
