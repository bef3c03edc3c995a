//! Connection-validator scenarios: adding flows between extensions with
//! compatible, incompatible, missing and duplicate schemas.

use ten_core::attr::{PropertyAttribute, ValueType};
use ten_core::graph::{Graph, GraphNode};
use ten_core::manifest::{
    Manifest, ManifestApi, ManifestApiMsg, ManifestApiProperty, MsgType,
};
use ten_core::conversion::{
    MsgAndResultConversion, MsgConversion, MsgConversionMode, MsgConversionRule,
    MsgConversionRules, RuleValue,
};
use ten_core::store::{PkgInfo, PkgsCache, SchemaStore};

fn scalar(kind: ValueType) -> PropertyAttribute {
    PropertyAttribute { prop_type: kind, items: None, properties: None, required: None }
}

fn msg_decl(name: &str, props: Vec<(&str, ValueType)>, required: Vec<&str>) -> ManifestApiMsg {
    let properties: Vec<(String, PropertyAttribute)> =
        props.into_iter().map(|(n, k)| (n.to_string(), scalar(k))).collect();
    ManifestApiMsg {
        name: name.to_string(),
        property: Some(ManifestApiProperty {
            properties: Some(properties),
            required: Some(required.into_iter().map(|s| s.to_string()).collect()),
        }),
        result: None,
    }
}

fn empty_api() -> ManifestApi {
    ManifestApi {
        property: None,
        cmd_in: None,
        cmd_out: None,
        data_in: None,
        data_out: None,
        audio_frame_in: None,
        audio_frame_out: None,
        video_frame_in: None,
        video_frame_out: None,
    }
}

fn addon(name: &str, api: ManifestApi) -> PkgInfo {
    let manifest =
        Manifest { name: name.to_string(), version: "1.0.0".to_string(), api: Some(api) };
    let schema_store = SchemaStore::from_manifest(&manifest).unwrap();
    PkgInfo { manifest, schema_store }
}

/// The standard mock addons: addon 1 produces, the others consume; some
/// consumers require shapes the producer cannot satisfy.
fn standard_pkgs() -> PkgsCache {
    let mut api1 = empty_api();
    api1.cmd_out = Some(vec![
        msg_decl("test_cmd", vec![("value", ValueType::Int32)], vec![]),
        msg_decl("cmd1", vec![("value", ValueType::Int32)], vec![]),
        msg_decl("cmd_incompatible", vec![("foo", ValueType::Str)], vec!["foo"]),
        msg_decl("cmd2", vec![("value", ValueType::Int64)], vec![]),
    ]);
    api1.data_out = Some(vec![
        msg_decl("data1", vec![("payload", ValueType::Buf)], vec![]),
        msg_decl("data_incompatible", vec![("n", ValueType::Uint64)], vec!["n"]),
    ]);
    api1.audio_frame_out = Some(vec![msg_decl("audio1", vec![], vec![])]);
    api1.video_frame_out = Some(vec![msg_decl("video1", vec![], vec![])]);

    let mut api2 = empty_api();
    api2.cmd_in = Some(vec![
        msg_decl("test_cmd", vec![("value", ValueType::Int64)], vec![]),
        msg_decl("cmd1", vec![("value", ValueType::Int64)], vec![]),
    ]);
    api2.data_in = Some(vec![msg_decl("data1", vec![("payload", ValueType::Buf)], vec![])]);

    let mut api3 = empty_api();
    api3.cmd_in = Some(vec![msg_decl(
        "cmd_incompatible",
        vec![("foo", ValueType::Int64)],
        vec!["foo"],
    )]);
    api3.data_in = Some(vec![msg_decl(
        "data_incompatible",
        vec![("n", ValueType::Uint8)],
        vec!["n"],
    )]);

    let mut api4 = empty_api();
    api4.cmd_in = Some(vec![
        msg_decl("cmd1", vec![("value", ValueType::Int64)], vec![]),
        msg_decl("cmd2", vec![("value", ValueType::Int32)], vec!["value"]),
    ]);

    PkgsCache {
        pkgs: vec![
            addon("extension_addon_1", api1),
            addon("extension_addon_2", api2),
            addon("extension_addon_3", api3),
            addon("extension_addon_4", api4),
        ],
    }
}

fn create_test_node(name: &str, addon: &str, app: Option<&str>) -> GraphNode {
    GraphNode {
        name: name.to_string(),
        addon: addon.to_string(),
        app: app.map(|s| s.to_string()),
    }
}

fn empty_graph(nodes: Vec<GraphNode>) -> Graph {
    Graph { nodes, connections: None, exposed_messages: None, exposed_properties: None }
}

fn add_conn(
    graph: &mut Graph,
    src_app: Option<&str>,
    src_ext: &str,
    ty: MsgType,
    name: &str,
    dest_app: Option<&str>,
    dest_ext: &str,
    pkgs: &PkgsCache,
) -> Result<(), ten_core::graph::GraphError> {
    ten_core::graph::graph_add_connection(
        graph,
        src_app.map(|s| s.to_string()),
        src_ext.to_string(),
        ty,
        name.to_string(),
        dest_app.map(|s| s.to_string()),
        dest_ext.to_string(),
        pkgs,
        None,
    )
}

const APP: Option<&str> = Some("http://example.com:8000");

#[test]
fn test_add_connection_2() {
    let pkgs_cache = standard_pkgs();
    let mut graph = empty_graph(vec![
        create_test_node("ext1", "extension_addon_1", Some("http://example.com:8000")),
        create_test_node("ext2", "extension_addon_2", Some("http://example.com:8000")),
    ]);

    let result = add_conn(&mut graph, APP, "ext1", MsgType::Cmd, "test_cmd", APP, "ext2", &pkgs_cache);

    assert!(result.is_ok());
    assert!(graph.connections.is_some());

    let connections = graph.connections.as_ref().unwrap();
    assert_eq!(connections.len(), 1);

    let connection = &connections[0];
    assert_eq!(connection.loc.app, Some("http://example.com:8000".to_string()));
    assert_eq!(connection.loc.extension, Some("ext1".to_string()));

    let cmd_flows = connection.cmd.as_ref().unwrap();
    assert_eq!(cmd_flows.len(), 1);

    let flow = &cmd_flows[0];
    assert_eq!(flow.name, "test_cmd");
    assert_eq!(flow.dest.len(), 1);

    let dest = &flow.dest[0];
    assert_eq!(dest.loc.app, Some("http://example.com:8000".to_string()));
    assert_eq!(dest.loc.extension, Some("ext2".to_string()));
}

#[test]
fn test_add_connection_nonexistent_source() {
    let pkgs_cache = standard_pkgs();
    let mut graph = empty_graph(vec![create_test_node("ext2", "extension_addon_2", Some("app1"))]);

    // This source node does not exist.
    let result = add_conn(
        &mut graph,
        Some("app1"),
        "ext1",
        MsgType::Cmd,
        "test_cmd",
        Some("app1"),
        "ext2",
        &pkgs_cache,
    );

    assert!(result.is_err());
    assert!(graph.connections.is_none());
}

#[test]
fn test_add_connection_nonexistent_destination() {
    let pkgs_cache = standard_pkgs();
    let mut graph = empty_graph(vec![create_test_node("ext1", "extension_addon_1", Some("app1"))]);

    // This destination node does not exist.
    let result = add_conn(
        &mut graph,
        Some("app1"),
        "ext1",
        MsgType::Cmd,
        "test_cmd",
        Some("app1"),
        "ext2",
        &pkgs_cache,
    );

    assert!(result.is_err());
    assert!(graph.connections.is_none());
}

#[test]
fn test_add_connection_to_existing_flow() {
    let pkgs_cache = standard_pkgs();
    let mut graph = empty_graph(vec![
        create_test_node("ext1", "extension_addon_1", Some("http://example.com:8000")),
        create_test_node("ext2", "extension_addon_2", Some("http://example.com:8000")),
        create_test_node("ext3", "extension_addon_3", Some("http://example.com:8000")),
    ]);

    let result = add_conn(&mut graph, APP, "ext1", MsgType::Cmd, "test_cmd", APP, "ext2", &pkgs_cache);
    assert!(result.is_ok());

    // Same source and kind, a second message name to a different
    // destination: the connection gains a second flow entry.
    let result = add_conn(&mut graph, APP, "ext1", MsgType::Cmd, "test_cmd_2", APP, "ext3", &pkgs_cache);
    println!("result: {result:?}");
    assert!(result.is_ok());

    let connections = graph.connections.as_ref().unwrap();
    assert_eq!(connections.len(), 1);

    let connection = &connections[0];
    let cmd_flows = connection.cmd.as_ref().unwrap();
    assert_eq!(cmd_flows.len(), 2);

    let flow = &cmd_flows[0];
    assert_eq!(flow.name, "test_cmd");
    assert_eq!(flow.dest.len(), 1);
    assert_eq!(flow.dest[0].loc.extension, Some("ext2".to_string()));

    let flow = &cmd_flows[1];
    assert_eq!(flow.name, "test_cmd_2");
    assert_eq!(flow.dest.len(), 1);
    assert_eq!(flow.dest[0].loc.extension, Some("ext3".to_string()));
}

#[test]
fn test_add_different_message_types() {
    let pkgs_cache = standard_pkgs();
    let mut graph = empty_graph(vec![
        create_test_node("ext1", "extension_addon_1", Some("http://example.com:8000")),
        create_test_node("ext2", "extension_addon_2", Some("http://example.com:8000")),
    ]);

    let result = add_conn(&mut graph, APP, "ext1", MsgType::Cmd, "cmd1", APP, "ext2", &pkgs_cache);
    assert!(result.is_ok());
    let result = add_conn(&mut graph, APP, "ext1", MsgType::Data, "data1", APP, "ext2", &pkgs_cache);
    assert!(result.is_ok());
    let result =
        add_conn(&mut graph, APP, "ext1", MsgType::AudioFrame, "audio1", APP, "ext2", &pkgs_cache);
    assert!(result.is_ok());
    let result =
        add_conn(&mut graph, APP, "ext1", MsgType::VideoFrame, "video1", APP, "ext2", &pkgs_cache);
    assert!(result.is_ok());

    let connection = &graph.connections.as_ref().unwrap()[0];

    assert!(connection.cmd.is_some());
    assert!(connection.data.is_some());
    assert!(connection.audio_frame.is_some());
    assert!(connection.video_frame.is_some());

    assert_eq!(connection.cmd.as_ref().unwrap()[0].name, "cmd1");
    assert_eq!(connection.data.as_ref().unwrap()[0].name, "data1");
    assert_eq!(connection.audio_frame.as_ref().unwrap()[0].name, "audio1");
    assert_eq!(connection.video_frame.as_ref().unwrap()[0].name, "video1");
}

#[test]
fn test_add_duplicate_connection() {
    let pkgs_cache = standard_pkgs();
    let mut graph = empty_graph(vec![
        create_test_node("ext1", "extension_addon_1", Some("http://example.com:8000")),
        create_test_node("ext2", "extension_addon_2", Some("http://example.com:8000")),
    ]);

    let result = add_conn(&mut graph, APP, "ext1", MsgType::Cmd, "test_cmd", APP, "ext2", &pkgs_cache);
    assert!(result.is_ok());

    // The identical connection again must be rejected.
    let result = add_conn(&mut graph, APP, "ext1", MsgType::Cmd, "test_cmd", APP, "ext2", &pkgs_cache);
    assert!(result.is_err());

    let error_msg = result.unwrap_err().message();
    assert!(error_msg.contains("Connection already exists"));

    // The second attempt changed nothing.
    let connections = graph.connections.as_ref().unwrap();
    assert_eq!(connections.len(), 1);

    let connection = &connections[0];
    let cmd_flows = connection.cmd.as_ref().unwrap();
    assert_eq!(cmd_flows.len(), 1);

    let flow = &cmd_flows[0];
    assert_eq!(flow.dest.len(), 1);
}

#[test]
fn test_schema_compatibility_check() {
    let pkgs_cache = standard_pkgs();
    let mut graph = empty_graph(vec![
        create_test_node("ext1", "extension_addon_1", Some("http://example.com:8000")),
        create_test_node("ext2", "extension_addon_2", Some("http://example.com:8000")),
        create_test_node("ext3", "extension_addon_3", Some("http://example.com:8000")),
        create_test_node("ext4", "extension_addon_4", Some("http://example.com:8000")),
    ]);

    // Compatible command: Int32 produced, Int64 accepted.
    let result = add_conn(&mut graph, APP, "ext1", MsgType::Cmd, "cmd1", APP, "ext2", &pkgs_cache);
    assert!(result.is_ok());

    // Compatible data.
    let result = add_conn(&mut graph, APP, "ext1", MsgType::Data, "data1", APP, "ext3", &pkgs_cache);
    assert!(result.is_ok());

    // Incompatible command: the consumer requires foo as Int64, the
    // producer declares it Str.
    let result =
        add_conn(&mut graph, APP, "ext1", MsgType::Cmd, "cmd_incompatible", APP, "ext3", &pkgs_cache);
    assert!(result.is_err());
    assert!(result.unwrap_err().message().contains("schema incompatibility"));

    // Compatible with a second consumer.
    let result = add_conn(&mut graph, APP, "ext1", MsgType::Cmd, "cmd1", APP, "ext4", &pkgs_cache);
    assert!(result.is_ok());

    // Incompatible: Int64 produced where Int32 is required.
    let result = add_conn(&mut graph, APP, "ext1", MsgType::Cmd, "cmd2", APP, "ext4", &pkgs_cache);
    println!("result: {result:?}");
    assert!(result.is_err());
    assert!(result.unwrap_err().message().contains("schema incompatibility"));

    // Incompatible data: Uint64 produced where Uint8 is required.
    let result =
        add_conn(&mut graph, APP, "ext1", MsgType::Data, "data_incompatible", APP, "ext3", &pkgs_cache);
    assert!(result.is_err());
    assert!(result.unwrap_err().message().contains("schema incompatibility"));
}

#[test]
fn test_add_connection_with_conversion_rename() {
    let pkgs_cache = standard_pkgs();
    let mut graph = empty_graph(vec![
        create_test_node("ext1", "extension_addon_1", Some("http://example.com:8000")),
        create_test_node("ext2", "extension_addon_2", Some("http://example.com:8000")),
    ]);
    // Rename `orig` to `test_cmd` en route; the synthesized schema is
    // checked against the destination's `test_cmd` declaration.
    let conv = MsgAndResultConversion {
        msg: Some(MsgConversion {
            rules: MsgConversionRules {
                rules: vec![MsgConversionRule {
                    path: "ten.name".to_string(),
                    conversion_mode: MsgConversionMode::FixedValue,
                    value: Some(RuleValue::Str("test_cmd".to_string())),
                    original_path: None,
                }],
                keep_original: None,
            },
        }),
        result: None,
    };
    let result = ten_core::graph::graph_add_connection(
        &mut graph,
        APP.map(|s| s.to_string()),
        "ext1".to_string(),
        MsgType::Cmd,
        "orig".to_string(),
        APP.map(|s| s.to_string()),
        "ext2".to_string(),
        &pkgs_cache,
        Some(conv),
    );
    assert!(result.is_ok());
    // The flow is recorded under the source message name.
    let flows = graph.connections.as_ref().unwrap()[0].cmd.as_ref().unwrap();
    assert_eq!(flows[0].name, "orig");
    assert!(flows[0].dest[0].msg_conversion.is_some());
}

#[test]
fn test_add_connection_with_invalid_conversion() {
    let pkgs_cache = standard_pkgs();
    let mut graph = empty_graph(vec![
        create_test_node("ext1", "extension_addon_1", Some("http://example.com:8000")),
        create_test_node("ext2", "extension_addon_2", Some("http://example.com:8000")),
    ]);
    // A FixedValue rule without a value is invalid; nothing is inserted.
    let conv = MsgAndResultConversion {
        msg: Some(MsgConversion {
            rules: MsgConversionRules {
                rules: vec![MsgConversionRule {
                    path: "x".to_string(),
                    conversion_mode: MsgConversionMode::FixedValue,
                    value: None,
                    original_path: None,
                }],
                keep_original: None,
            },
        }),
        result: None,
    };
    let result = ten_core::graph::graph_add_connection(
        &mut graph,
        APP.map(|s| s.to_string()),
        "ext1".to_string(),
        MsgType::Cmd,
        "test_cmd".to_string(),
        APP.map(|s| s.to_string()),
        "ext2".to_string(),
        &pkgs_cache,
        Some(conv),
    );
    assert!(result.is_err());
    assert!(graph.connections.is_none());
}

#[test]
fn test_failed_add_leaves_graph_unchanged() {
    let pkgs_cache = standard_pkgs();
    let mut graph = empty_graph(vec![
        create_test_node("ext1", "extension_addon_1", Some("http://example.com:8000")),
        create_test_node("ext3", "extension_addon_3", Some("http://example.com:8000")),
    ]);

    let result = add_conn(&mut graph, APP, "ext1", MsgType::Cmd, "cmd1", APP, "ext3", &pkgs_cache);
    assert!(result.is_ok());
    let before = graph.connections.as_ref().unwrap().len();

    // A failing add must not touch the connection list.
    let result =
        add_conn(&mut graph, APP, "ext1", MsgType::Cmd, "cmd_incompatible", APP, "ext3", &pkgs_cache);
    assert!(result.is_err());
    assert_eq!(graph.connections.as_ref().unwrap().len(), before);
    let flows = graph.connections.as_ref().unwrap()[0].cmd.as_ref().unwrap();
    assert_eq!(flows.len(), 1);
}
