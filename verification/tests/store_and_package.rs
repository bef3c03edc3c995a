//! Schema-store construction, store lookups, the package file name, and
//! the hidden-pattern classification.

use ten_core::attr::{PropertyAttribute, ValueType};
use ten_core::manifest::{
    Manifest, ManifestApi, ManifestApiCmdResult, ManifestApiMsg, ManifestApiProperty,
    MsgDirection, MsgType,
};
use ten_core::package::{get_tpkg_file_name, is_hidden_pattern};
use ten_core::store::{
    find_c_msg_schema_from_pkg_info, PkgInfo, SchemaStore,
};

fn empty_api() -> ManifestApi {
    ManifestApi {
        property: None,
        cmd_in: None,
        cmd_out: None,
        data_in: None,
        data_out: None,
        audio_frame_in: None,
        audio_frame_out: None,
        video_frame_in: None,
        video_frame_out: None,
    }
}

fn msg_decl(name: &str) -> ManifestApiMsg {
    ManifestApiMsg {
        name: name.to_string(),
        property: Some(ManifestApiProperty {
            properties: Some(vec![(
                "v".to_string(),
                PropertyAttribute {
                    prop_type: ValueType::Int32,
                    items: None,
                    properties: None,
                    required: None,
                },
            )]),
            required: None,
        }),
        result: None,
    }
}

#[test]
fn manifest_without_api_has_no_store() {
    let manifest = Manifest { name: "a".to_string(), version: "1.0.0".to_string(), api: None };
    assert!(SchemaStore::from_manifest(&manifest).unwrap().is_none());
}

#[test]
fn store_holds_each_declared_table() {
    let mut api = empty_api();
    api.cmd_in = Some(vec![msg_decl("c_in")]);
    api.cmd_out = Some(vec![msg_decl("c_out")]);
    api.data_in = Some(vec![msg_decl("d_in")]);
    api.video_frame_out = Some(vec![msg_decl("v_out")]);
    let manifest =
        Manifest { name: "a".to_string(), version: "1.0.0".to_string(), api: Some(api) };
    let store = SchemaStore::from_manifest(&manifest).unwrap().unwrap();
    assert_eq!(store.cmd_in.len(), 1);
    assert_eq!(store.cmd_in[0].0, "c_in");
    assert_eq!(store.cmd_out.len(), 1);
    assert_eq!(store.data_in.len(), 1);
    assert_eq!(store.video_frame_out.len(), 1);
    assert_eq!(store.data_out.len(), 0);
    assert_eq!(store.audio_frame_in.len(), 0);

    // The compiled payload schema is an object schema holding the
    // declared attribute.
    let compiled = store.cmd_in[0].1.msg.as_ref().unwrap();
    assert_eq!(compiled.attr.prop_type, ValueType::Object);
    let props = compiled.attr.properties.as_ref().unwrap();
    assert_eq!(props.len(), 1);
    assert_eq!(props[0].0, "v");
    assert_eq!(props[0].1.prop_type, ValueType::Int32);
}

#[test]
fn duplicate_message_name_fails_the_build() {
    let mut api = empty_api();
    api.cmd_in = Some(vec![msg_decl("same"), msg_decl("same")]);
    let manifest =
        Manifest { name: "a".to_string(), version: "1.0.0".to_string(), api: Some(api) };
    let e = SchemaStore::from_manifest(&manifest).unwrap_err();
    assert!(e.message().contains("duplicated schema definition"));
    assert!(e.message().contains("same"));
}

#[test]
fn command_result_schema_is_compiled() {
    let mut api = empty_api();
    let mut m = msg_decl("c");
    m.result = Some(ManifestApiCmdResult {
        property: Some(ManifestApiProperty {
            properties: Some(vec![(
                "code".to_string(),
                PropertyAttribute {
                    prop_type: ValueType::Int8,
                    items: None,
                    properties: None,
                    required: None,
                },
            )]),
            required: Some(vec!["code".to_string()]),
        }),
    });
    api.cmd_in = Some(vec![m]);
    let manifest =
        Manifest { name: "a".to_string(), version: "1.0.0".to_string(), api: Some(api) };
    let store = SchemaStore::from_manifest(&manifest).unwrap().unwrap();
    let pair = &store.cmd_in[0].1;
    let result = pair.result.as_ref().unwrap();
    assert_eq!(result.attr.required, Some(vec!["code".to_string()]));
}

#[test]
fn find_schema_by_type_name_and_direction() {
    let mut api = empty_api();
    api.cmd_in = Some(vec![msg_decl("ping")]);
    api.data_out = Some(vec![msg_decl("frame")]);
    let manifest =
        Manifest { name: "a".to_string(), version: "1.0.0".to_string(), api: Some(api) };
    let schema_store = SchemaStore::from_manifest(&manifest).unwrap();
    let pkg = PkgInfo { manifest, schema_store };

    assert!(
        find_c_msg_schema_from_pkg_info(&pkg, &MsgType::Cmd, "ping", &MsgDirection::In).is_some()
    );
    assert!(
        find_c_msg_schema_from_pkg_info(&pkg, &MsgType::Cmd, "ping", &MsgDirection::Out).is_none()
    );
    assert!(
        find_c_msg_schema_from_pkg_info(&pkg, &MsgType::Data, "frame", &MsgDirection::Out)
            .is_some()
    );
    assert!(
        find_c_msg_schema_from_pkg_info(&pkg, &MsgType::Data, "other", &MsgDirection::Out)
            .is_none()
    );

    let bare = PkgInfo {
        manifest: Manifest { name: "b".to_string(), version: "1".to_string(), api: None },
        schema_store: None,
    };
    assert!(
        find_c_msg_schema_from_pkg_info(&bare, &MsgType::Cmd, "ping", &MsgDirection::In).is_none()
    );
}

#[test]
fn tpkg_file_name_joins_name_and_version() {
    let pkg = PkgInfo {
        manifest: Manifest {
            name: "my_ext".to_string(),
            version: "1.2.3".to_string(),
            api: None,
        },
        schema_store: None,
    };
    assert_eq!(get_tpkg_file_name(&pkg), "my_ext_1.2.3.tpkg");
}

#[test]
fn hidden_pattern_classification() {
    assert!(is_hidden_pattern(".git"));
    assert!(is_hidden_pattern(".cache"));
    assert!(is_hidden_pattern("src/.hidden"));
    assert!(is_hidden_pattern("a/b/.c/d"));
    assert!(!is_hidden_pattern("src/main.rs"));
    assert!(!is_hidden_pattern("docs/readme.txt"));
    assert!(!is_hidden_pattern(""));
}
