//! The graph model and the connection validator: adding a message flow
//! between two extensions is gated on both endpoints existing, on the
//! effective schemas being compatible, and on the flow not already
//! existing — and the graph is mutated only when every check passes.

use vstd::prelude::*;

use crate::conversion::{
    keeps_original, msg_schema_lookup, rename_index, synth_msg, synth_result, MsgAndResultConversion,
    RuleError, RuleValueV,
};
use crate::manifest::{MsgDirection, MsgType, MsgV};
use crate::attr::map_get_s;
use crate::schema::{msg_compat_err, msg_compat_ok, MsgSchemaV, SchemaError, TenMsgSchema};
use crate::store::{
    compiled_schema, create_c_schema_from_properties_and_required, find_pkg, store_table, PkgInfo,
    PkgsCache,
};

verus! {

/// Where a connection endpoint lives: an application and an extension.
pub struct GraphLoc {
    pub app: Option<String>,
    pub extension: Option<String>,
}

/// One destination of a message flow, with the conversion attached to the
/// edge.
pub struct GraphDestination {
    pub loc: GraphLoc,
    pub msg_conversion: Option<MsgAndResultConversion>,
}

/// All destinations a named message is sent to from one source.
pub struct GraphMessageFlow {
    pub name: String,
    pub dest: Vec<GraphDestination>,
}

/// Every flow leaving one source location, grouped by message kind.
pub struct GraphConnection {
    pub loc: GraphLoc,
    pub cmd: Option<Vec<GraphMessageFlow>>,
    pub data: Option<Vec<GraphMessageFlow>>,
    pub audio_frame: Option<Vec<GraphMessageFlow>>,
    pub video_frame: Option<Vec<GraphMessageFlow>>,
}

/// One extension instance in the graph, bound to an addon.
pub struct GraphNode {
    pub name: String,
    pub addon: String,
    pub app: Option<String>,
}

/// A message name the graph exposes outward.
pub struct GraphExposedMessage {
    pub msg_type: MsgType,
    pub name: String,
    pub extension: Option<String>,
}

/// A property the graph exposes outward.
pub struct GraphExposedProperty {
    pub extension: Option<String>,
    pub name: String,
}

/// A wiring of extension nodes through named message connections.
pub struct Graph {
    pub nodes: Vec<GraphNode>,
    pub connections: Option<Vec<GraphConnection>>,
    pub exposed_messages: Option<Vec<GraphExposedMessage>>,
    pub exposed_properties: Option<Vec<GraphExposedProperty>>,
}

/// A graph together with where it came from.
pub struct GraphInfo {
    pub name: Option<String>,
    pub auto_start: Option<bool>,
    pub graph: Graph,
    pub import_uri: Option<String>,
    pub app_base_dir: Option<String>,
    pub belonging_pkg_type: Option<String>,
    pub belonging_pkg_name: Option<String>,
}

/// Why a connection was rejected.  Each failure leaves the graph exactly
/// as it was.
#[derive(Debug)]
pub enum GraphError {
    /// An endpoint is not a node of the graph.
    NodeNotFound { extension: String },
    /// The effective source schema does not fit the destination schema.
    SchemaIncompatible(SchemaError),
    /// The edge's conversion rule list is itself invalid.
    Conversion(RuleError),
    /// The identical flow to the identical destination already exists.
    DuplicateConnection,
}

impl GraphError {
    /// A short description for error reports.
    pub fn message(&self) -> String {
        match self {
            GraphError::NodeNotFound { extension } => "node not found in graph: ".to_owned()
                .concat(extension.as_str()),
            GraphError::SchemaIncompatible(e) => "schema incompatibility: ".to_owned().concat(
                e.message().as_str(),
            ),
            GraphError::Conversion(e) => "invalid conversion rule: ".to_owned().concat(
                e.message().as_str(),
            ),
            GraphError::DuplicateConnection => "Connection already exists".to_owned(),
        }
    }
}

pub open spec fn opt_str_v(o: Option<String>) -> Option<Seq<char>> {
    match o {
        Option::Some(s) => Option::Some(s@),
        Option::None => Option::None,
    }
}

/// A location names the given endpoint.
pub open spec fn loc_matches(loc: GraphLoc, app: Option<String>, ext: Seq<char>) -> bool {
    &&& opt_str_v(loc.app) == opt_str_v(app)
    &&& loc.extension matches Option::Some(e) && e@ == ext
}

/// Index of the first node with the given app and name, or -1.
pub open spec fn node_index(nodes: Seq<GraphNode>, app: Option<String>, ext: Seq<char>) -> int
    decreases nodes.len(),
{
    if nodes.len() == 0 {
        -1
    } else if nodes[0].name@ == ext && opt_str_v(nodes[0].app) == opt_str_v(app) {
        0
    } else {
        let r = node_index(nodes.drop_first(), app, ext);
        if r < 0 {
            -1
        } else {
            r + 1
        }
    }
}

proof fn lemma_node_index(nodes: Seq<GraphNode>, app: Option<String>, ext: Seq<char>)
    ensures
        node_index(nodes, app, ext) >= 0 ==> {
            &&& node_index(nodes, app, ext) < nodes.len()
            &&& nodes[node_index(nodes, app, ext)].name@ == ext
            &&& opt_str_v(nodes[node_index(nodes, app, ext)].app) == opt_str_v(app)
            &&& forall|j: int|
                0 <= j < node_index(nodes, app, ext) ==> !(#[trigger] nodes[j].name@ == ext
                    && opt_str_v(nodes[j].app) == opt_str_v(app))
        },
        node_index(nodes, app, ext) == -1 ==> forall|j: int|
            0 <= j < nodes.len() ==> !(#[trigger] nodes[j].name@ == ext && opt_str_v(nodes[j].app)
                == opt_str_v(app)),
        node_index(nodes, app, ext) >= 0 || node_index(nodes, app, ext) == -1,
    decreases nodes.len(),
{
    if nodes.len() > 0 && !(nodes[0].name@ == ext && opt_str_v(nodes[0].app) == opt_str_v(app)) {
        lemma_node_index(nodes.drop_first(), app, ext);
        let t = nodes.drop_first();
        let r = node_index(t, app, ext);
        if r >= 0 {
            assert(nodes[r + 1] == t[r]);
            assert forall|j: int| 0 <= j < r + 1 implies !(#[trigger] nodes[j].name@ == ext
                && opt_str_v(nodes[j].app) == opt_str_v(app)) by {
                if j >= 1 {
                    assert(nodes[j] == t[j - 1]);
                }
            }
        } else {
            assert forall|j: int| 0 <= j < nodes.len() implies !(#[trigger] nodes[j].name@ == ext
                && opt_str_v(nodes[j].app) == opt_str_v(app)) by {
                if j >= 1 {
                    assert(nodes[j] == t[j - 1]);
                }
            }
        }
    }
}

fn opt_string_eq(a: &Option<String>, b: &Option<String>) -> (r: bool)
    ensures
        r == (opt_str_v(*a) == opt_str_v(*b)),
{
    match a {
        Option::Some(x) => match b {
            Option::Some(y) => *x == *y,
            Option::None => false,
        },
        Option::None => match b {
            Option::Some(_) => false,
            Option::None => true,
        },
    }
}

/// Find the first node with the given app and name.
fn find_node<'a>(nodes: &'a Vec<GraphNode>, app: &Option<String>, ext: &String) -> (r: Option<
    &'a GraphNode,
>)
    ensures
        match r {
            Option::Some(n) => {
                &&& node_index(nodes@, *app, ext@) >= 0
                &&& *n == nodes@[node_index(nodes@, *app, ext@)]
            },
            Option::None => node_index(nodes@, *app, ext@) == -1,
        },
{
    let n = nodes.len();
    for i in 0..n
        invariant
            n == nodes@.len(),
            forall|j: int|
                0 <= j < i ==> !(#[trigger] nodes@[j].name@ == ext@ && opt_str_v(nodes@[j].app)
                    == opt_str_v(*app)),
    {
        let node = &nodes[i];
        if node.name == *ext && opt_string_eq(&node.app, app) {
            proof {
                lemma_node_index(nodes@, *app, ext@);
                let ni = node_index(nodes@, *app, ext@);
                if ni == -1 {
                    assert(false);
                }
                if ni < i as int {
                    assert(false);
                }
                if ni > i as int {
                    assert(false);
                }
            }
            return Option::Some(&nodes[i]);
        }
    }
    proof {
        lemma_node_index(nodes@, *app, ext@);
        if node_index(nodes@, *app, ext@) >= 0 {
            assert(false);
        }
    }
    Option::None
}

/// The flow list of a connection for one message kind.
pub open spec fn flows_of(c: GraphConnection, ty: MsgType) -> Option<Vec<GraphMessageFlow>> {
    match ty {
        MsgType::Cmd => c.cmd,
        MsgType::Data => c.data,
        MsgType::AudioFrame => c.audio_frame,
        MsgType::VideoFrame => c.video_frame,
    }
}

/// Index of the first connection whose source is the given endpoint, or
/// -1.
pub open spec fn conn_index(cs: Seq<GraphConnection>, app: Option<String>, ext: Seq<char>) -> int
    decreases cs.len(),
{
    if cs.len() == 0 {
        -1
    } else if loc_matches(cs[0].loc, app, ext) {
        0
    } else {
        let r = conn_index(cs.drop_first(), app, ext);
        if r < 0 {
            -1
        } else {
            r + 1
        }
    }
}

proof fn lemma_conn_index(cs: Seq<GraphConnection>, app: Option<String>, ext: Seq<char>)
    ensures
        conn_index(cs, app, ext) >= 0 ==> {
            &&& conn_index(cs, app, ext) < cs.len()
            &&& loc_matches(cs[conn_index(cs, app, ext)].loc, app, ext)
            &&& forall|j: int|
                0 <= j < conn_index(cs, app, ext) ==> !loc_matches(#[trigger] cs[j].loc, app, ext)
        },
        conn_index(cs, app, ext) == -1 ==> forall|j: int|
            0 <= j < cs.len() ==> !loc_matches(#[trigger] cs[j].loc, app, ext),
        conn_index(cs, app, ext) >= 0 || conn_index(cs, app, ext) == -1,
    decreases cs.len(),
{
    if cs.len() > 0 && !loc_matches(cs[0].loc, app, ext) {
        lemma_conn_index(cs.drop_first(), app, ext);
        let t = cs.drop_first();
        let r = conn_index(t, app, ext);
        if r >= 0 {
            assert(cs[r + 1] == t[r]);
            assert forall|j: int| 0 <= j < r + 1 implies !loc_matches(
                #[trigger] cs[j].loc,
                app,
                ext,
            ) by {
                if j >= 1 {
                    assert(cs[j] == t[j - 1]);
                }
            }
        } else {
            assert forall|j: int| 0 <= j < cs.len() implies !loc_matches(
                #[trigger] cs[j].loc,
                app,
                ext,
            ) by {
                if j >= 1 {
                    assert(cs[j] == t[j - 1]);
                }
            }
        }
    }
}

/// Index of the first flow with the given message name, or -1.
pub open spec fn flow_index(fs: Seq<GraphMessageFlow>, name: Seq<char>) -> int
    decreases fs.len(),
{
    if fs.len() == 0 {
        -1
    } else if fs[0].name@ == name {
        0
    } else {
        let r = flow_index(fs.drop_first(), name);
        if r < 0 {
            -1
        } else {
            r + 1
        }
    }
}

proof fn lemma_flow_index(fs: Seq<GraphMessageFlow>, name: Seq<char>)
    ensures
        flow_index(fs, name) >= 0 ==> {
            &&& flow_index(fs, name) < fs.len()
            &&& fs[flow_index(fs, name)].name@ == name
            &&& forall|j: int| 0 <= j < flow_index(fs, name) ==> #[trigger] fs[j].name@ != name
        },
        flow_index(fs, name) == -1 ==> forall|j: int|
            0 <= j < fs.len() ==> #[trigger] fs[j].name@ != name,
        flow_index(fs, name) >= 0 || flow_index(fs, name) == -1,
    decreases fs.len(),
{
    if fs.len() > 0 && fs[0].name@ != name {
        lemma_flow_index(fs.drop_first(), name);
        let t = fs.drop_first();
        let r = flow_index(t, name);
        if r >= 0 {
            assert(fs[r + 1] == t[r]);
            assert forall|j: int| 0 <= j < r + 1 implies #[trigger] fs[j].name@ != name by {
                if j >= 1 {
                    assert(fs[j] == t[j - 1]);
                }
            }
        } else {
            assert forall|j: int| 0 <= j < fs.len() implies #[trigger] fs[j].name@ != name by {
                if j >= 1 {
                    assert(fs[j] == t[j - 1]);
                }
            }
        }
    }
}

/// The flow already sends to the given endpoint.
pub open spec fn dest_in_flow(f: GraphMessageFlow, app: Option<String>, ext: Seq<char>) -> bool {
    exists|j: int| 0 <= j < f.dest@.len() && loc_matches(#[trigger] f.dest@[j].loc, app, ext)
}

/// The connections of a graph, an empty sequence when none were added yet.
pub open spec fn conns_of(g: Graph) -> Seq<GraphConnection> {
    match g.connections {
        Option::Some(v) => v@,
        Option::None => Seq::empty(),
    }
}

/// The identical flow to the identical destination already exists.
pub open spec fn has_duplicate(
    g: Graph,
    src_app: Option<String>,
    src_ext: Seq<char>,
    ty: MsgType,
    name: Seq<char>,
    dest_app: Option<String>,
    dest_ext: Seq<char>,
) -> bool {
    let cs = conns_of(g);
    let ci = conn_index(cs, src_app, src_ext);
    ci >= 0 && match flows_of(cs[ci], ty) {
        Option::Some(fs) => {
            let fi = flow_index(fs@, name);
            fi >= 0 && dest_in_flow(fs@[fi], dest_app, dest_ext)
        },
        Option::None => false,
    }
}

/// The compiled schema pair of one message in one addon's store, if the
/// addon is cached, has a store, and declares the message.
pub open spec fn pkg_msg_schema_v(
    pkgs: Seq<PkgInfo>,
    addon: Seq<char>,
    ty: MsgType,
    dir: MsgDirection,
    name: Seq<char>,
) -> Option<MsgSchemaV> {
    match find_pkg(pkgs, addon) {
        Option::None => Option::None,
        Option::Some(pkg) => match pkg.schema_store {
            Option::None => Option::None,
            Option::Some(store) => map_get_s(store_table(store, ty, dir), name),
        },
    }
}

/// The destination message name and skipped rule position the rename
/// pre-pass resolves.
pub open spec fn dest_name_of(conv: &MsgAndResultConversion, src_name: Seq<char>) -> (
    Seq<char>,
    Option<int>,
) {
    match &conv.msg {
        Option::None => (src_name, Option::None),
        Option::Some(mc) => {
            let rv = mc.rules.rules.deep_view();
            let ri = rename_index(rv, 0);
            if ri < 0 {
                (src_name, Option::None)
            } else {
                (
                    match rv[ri].value {
                        Option::Some(RuleValueV::Str(s)) => s,
                        _ => src_name,
                    },
                    Option::Some(ri),
                )
            }
        },
    }
}

/// The manifest-level declared message, viewed.
pub open spec fn declared_msg_v(
    pkgs: Seq<PkgInfo>,
    addon: Seq<char>,
    dir: MsgDirection,
    ty: MsgType,
    name: Seq<char>,
) -> Option<MsgV> {
    match msg_schema_lookup(pkgs, addon, dir, ty, name) {
        Option::Some(m) => Option::Some(m.deep_view()),
        Option::None => Option::None,
    }
}

/// The effective source schema pair the compatibility check sees: with a
/// conversion, each declared rule set synthesizes its half and an absent
/// rule set leaves that half absent; without one, the raw compiled source
/// schema stands.  `Err` carries the first rule failure.
pub open spec fn effective_schema_v(
    pkgs: Seq<PkgInfo>,
    src_addon: Seq<char>,
    dest_addon: Seq<char>,
    ty: MsgType,
    src_name: Seq<char>,
    dest_name: Seq<char>,
    skip: Option<int>,
    msg_conversion: &Option<MsgAndResultConversion>,
) -> Result<Option<MsgSchemaV>, RuleError> {
    match msg_conversion {
        Option::None => Result::Ok(pkg_msg_schema_v(pkgs, src_addon, ty, MsgDirection::Out, src_name)),
        Option::Some(conv) => {
            let src_m = declared_msg_v(pkgs, src_addon, MsgDirection::Out, ty, src_name);
            let dest_m = declared_msg_v(pkgs, dest_addon, MsgDirection::In, ty, dest_name);
            let msg_part = match &conv.msg {
                Option::None => Result::Ok(Option::None),
                Option::Some(mc) => match synth_msg(
                    src_m,
                    mc.rules.rules.deep_view(),
                    keeps_original(mc),
                    skip,
                    dest_name,
                ) {
                    Result::Ok(mv) => Result::Ok(Option::Some(compiled_schema(mv.property))),
                    Result::Err(e) => Result::Err(e),
                },
            };
            let result_part = match &conv.result {
                Option::None => Result::Ok(Option::None),
                Option::Some(rc) => match synth_result(
                    src_m,
                    dest_m,
                    rc.rules.rules.deep_view(),
                    keeps_original(rc),
                ) {
                    Result::Ok(rv) => Result::Ok(Option::Some(compiled_schema(rv.property))),
                    Result::Err(e) => Result::Err(e),
                },
            };
            match msg_part {
                Result::Err(e) => Result::Err(e),
                Result::Ok(mp) => match result_part {
                    Result::Err(e) => Result::Err(e),
                    Result::Ok(rp) => Result::Ok(
                        Option::Some(MsgSchemaV { msg: mp, result: rp }),
                    ),
                },
            }
        },
    }
}

/// The whole decision the validator makes, in order: endpoints, rule
/// synthesis, compatibility, duplicate — and which error each failure
/// reports.
pub open spec fn add_connection_check(
    pkgs: Seq<PkgInfo>,
    g: Graph,
    src_app: Option<String>,
    src_extension: String,
    msg_type: MsgType,
    msg_name: String,
    dest_app: Option<String>,
    dest_extension: String,
    msg_conversion: &Option<MsgAndResultConversion>,
) -> Result<(), GraphError> {
    let si = node_index(g.nodes@, src_app, src_extension@);
    let di = node_index(g.nodes@, dest_app, dest_extension@);
    if si < 0 {
        Result::Err(GraphError::NodeNotFound { extension: src_extension })
    } else if di < 0 {
        Result::Err(GraphError::NodeNotFound { extension: dest_extension })
    } else {
        let src_addon = g.nodes@[si].addon@;
        let dest_addon = g.nodes@[di].addon@;
        let rename = match msg_conversion {
            Option::Some(conv) => dest_name_of(conv, msg_name@),
            Option::None => (msg_name@, Option::None),
        };
        let dest_v = pkg_msg_schema_v(pkgs, dest_addon, msg_type, MsgDirection::In, rename.0);
        match effective_schema_v(
            pkgs,
            src_addon,
            dest_addon,
            msg_type,
            msg_name@,
            rename.0,
            rename.1,
            msg_conversion,
        ) {
            Result::Err(e) => Result::Err(GraphError::Conversion(e)),
            Result::Ok(eff) => {
                if !msg_compat_ok(eff, dest_v, true, true) {
                    Result::Err(
                        GraphError::SchemaIncompatible(msg_compat_err(eff, dest_v, true, true)),
                    )
                } else if has_duplicate(
                    g,
                    src_app,
                    src_extension@,
                    msg_type,
                    msg_name@,
                    dest_app,
                    dest_extension@,
                ) {
                    Result::Err(GraphError::DuplicateConnection)
                } else {
                    Result::Ok(())
                }
            },
        }
    }
}

/// The connection holds no flows of any other kind.
pub open spec fn other_flows_none(c: GraphConnection, ty: MsgType) -> bool {
    &&& (ty != MsgType::Cmd ==> c.cmd is None)
    &&& (ty != MsgType::Data ==> c.data is None)
    &&& (ty != MsgType::AudioFrame ==> c.audio_frame is None)
    &&& (ty != MsgType::VideoFrame ==> c.video_frame is None)
}

/// Flow lists of every other kind are untouched.
pub open spec fn other_flows_same(old_c: GraphConnection, new_c: GraphConnection, ty: MsgType) -> bool {
    &&& (ty != MsgType::Cmd ==> new_c.cmd == old_c.cmd)
    &&& (ty != MsgType::Data ==> new_c.data == old_c.data)
    &&& (ty != MsgType::AudioFrame ==> new_c.audio_frame == old_c.audio_frame)
    &&& (ty != MsgType::VideoFrame ==> new_c.video_frame == old_c.video_frame)
}

/// How the graph looks after a successful insert: the flow to the new
/// destination exists; everything else is untouched.
pub open spec fn connection_added(
    old_g: Graph,
    new_g: Graph,
    src_app: Option<String>,
    src_extension: String,
    msg_type: MsgType,
    msg_name: String,
    dest_app: Option<String>,
    dest_extension: String,
    conv: Option<MsgAndResultConversion>,
) -> bool {
    let old_cs = conns_of(old_g);
    let new_cs = conns_of(new_g);
    let ci = conn_index(old_cs, src_app, src_extension@);
    &&& new_g.nodes == old_g.nodes
    &&& new_g.exposed_messages == old_g.exposed_messages
    &&& new_g.exposed_properties == old_g.exposed_properties
    &&& new_g.connections is Some
    &&& if ci < 0 {
        // A whole new connection at the end.
        &&& new_cs.len() == old_cs.len() + 1
        &&& new_cs.subrange(0, old_cs.len() as int) == old_cs
        &&& loc_matches(new_cs.last().loc, src_app, src_extension@)
        &&& other_flows_none(new_cs.last(), msg_type)
        &&& match flows_of(new_cs.last(), msg_type) {
            Option::Some(fs) => {
                &&& fs@.len() == 1
                &&& fs@[0].name@ == msg_name@
                &&& fs@[0].dest@.len() == 1
                &&& loc_matches(fs@[0].dest@[0].loc, dest_app, dest_extension@)
                &&& fs@[0].dest@[0].msg_conversion == conv
            },
            Option::None => false,
        }
    } else {
        let old_c = old_cs[ci];
        let new_c = new_cs[ci];
        &&& new_cs.len() == old_cs.len()
        &&& forall|j: int| 0 <= j < old_cs.len() && j != ci ==> #[trigger] new_cs[j] == old_cs[j]
        &&& new_c.loc == old_c.loc
        &&& other_flows_same(old_c, new_c, msg_type)
        &&& match flows_of(old_c, msg_type) {
            Option::None => {
                // The first flow of this kind on the connection.
                match flows_of(new_c, msg_type) {
                    Option::Some(fs) => {
                        &&& fs@.len() == 1
                        &&& fs@[0].name@ == msg_name@
                        &&& fs@[0].dest@.len() == 1
                        &&& loc_matches(fs@[0].dest@[0].loc, dest_app, dest_extension@)
                        &&& fs@[0].dest@[0].msg_conversion == conv
                    },
                    Option::None => false,
                }
            },
            Option::Some(old_fs) => {
                let fi = flow_index(old_fs@, msg_name@);
                match flows_of(new_c, msg_type) {
                    Option::Some(new_fs) => if fi < 0 {
                        // A new flow under this message name.
                        &&& new_fs@.len() == old_fs@.len() + 1
                        &&& new_fs@.subrange(0, old_fs@.len() as int) == old_fs@
                        &&& new_fs@.last().name@ == msg_name@
                        &&& new_fs@.last().dest@.len() == 1
                        &&& loc_matches(new_fs@.last().dest@[0].loc, dest_app, dest_extension@)
                        &&& new_fs@.last().dest@[0].msg_conversion == conv
                    } else {
                        // One more destination on the existing flow.
                        let old_f = old_fs@[fi];
                        let new_f = new_fs@[fi];
                        &&& new_fs@.len() == old_fs@.len()
                        &&& forall|j: int|
                            0 <= j < old_fs@.len() && j != fi ==> #[trigger] new_fs@[j]
                                == old_fs@[j]
                        &&& new_f.name == old_f.name
                        &&& new_f.dest@.len() == old_f.dest@.len() + 1
                        &&& new_f.dest@.subrange(0, old_f.dest@.len() as int) == old_f.dest@
                        &&& loc_matches(new_f.dest@.last().loc, dest_app, dest_extension@)
                        &&& new_f.dest@.last().msg_conversion == conv
                    },
                    Option::None => false,
                }
            },
        }
    }
}

fn clone_opt_string(o: &Option<String>) -> (r: Option<String>)
    ensures
        r == *o,
{
    match o {
        Option::Some(s) => Option::Some(s.clone()),
        Option::None => Option::None,
    }
}

/// Find the first connection from the given endpoint.
fn find_conn(cs: &Vec<GraphConnection>, app: &Option<String>, ext: &String) -> (r: Option<usize>)
    ensures
        match r {
            Option::Some(i) => 0 <= i < cs@.len() && conn_index(cs@, *app, ext@) == i as int,
            Option::None => conn_index(cs@, *app, ext@) == -1,
        },
{
    let n = cs.len();
    for i in 0..n
        invariant
            n == cs@.len(),
            forall|j: int| 0 <= j < i ==> !loc_matches(#[trigger] cs@[j].loc, *app, ext@),
    {
        let c = &cs[i];
        let ext_matches = match &c.loc.extension {
            Option::Some(e) => *e == *ext,
            Option::None => false,
        };
        if ext_matches && opt_string_eq(&c.loc.app, app) {
            proof {
                lemma_conn_index(cs@, *app, ext@);
                let ci = conn_index(cs@, *app, ext@);
                assert(loc_matches(cs@[i as int].loc, *app, ext@));
                if ci == -1 {
                    assert(false);
                }
                if ci < i as int {
                    assert(false);
                }
                if ci > i as int {
                    assert(false);
                }
            }
            return Option::Some(i);
        }
    }
    proof {
        lemma_conn_index(cs@, *app, ext@);
        if conn_index(cs@, *app, ext@) >= 0 {
            assert(false);
        }
    }
    Option::None
}

/// Find the first flow with the given message name.
fn find_flow(fs: &Vec<GraphMessageFlow>, name: &String) -> (r: Option<usize>)
    ensures
        match r {
            Option::Some(i) => 0 <= i < fs@.len() && flow_index(fs@, name@) == i as int,
            Option::None => flow_index(fs@, name@) == -1,
        },
{
    let n = fs.len();
    for i in 0..n
        invariant
            n == fs@.len(),
            forall|j: int| 0 <= j < i ==> #[trigger] fs@[j].name@ != name@,
    {
        if fs[i].name == *name {
            proof {
                lemma_flow_index(fs@, name@);
                let fi = flow_index(fs@, name@);
                if fi == -1 {
                    assert(false);
                }
                if fi < i as int {
                    assert(false);
                }
                if fi > i as int {
                    assert(false);
                }
            }
            return Option::Some(i);
        }
    }
    proof {
        lemma_flow_index(fs@, name@);
        if flow_index(fs@, name@) >= 0 {
            assert(false);
        }
    }
    Option::None
}

/// Does the flow already send to the given endpoint?
fn flow_has_dest(f: &GraphMessageFlow, app: &Option<String>, ext: &String) -> (r: bool)
    ensures
        r == dest_in_flow(*f, *app, ext@),
{
    let n = f.dest.len();
    for j in 0..n
        invariant
            n == f.dest@.len(),
            forall|k: int| 0 <= k < j ==> !loc_matches(#[trigger] f.dest@[k].loc, *app, ext@),
    {
        let d = &f.dest[j];
        let ext_matches = match &d.loc.extension {
            Option::Some(e) => *e == *ext,
            Option::None => false,
        };
        if ext_matches && opt_string_eq(&d.loc.app, app) {
            proof {
                assert(loc_matches(f.dest@[j as int].loc, *app, ext@));
            }
            return true;
        }
    }
    proof {
        if dest_in_flow(*f, *app, ext@) {
            let k = choose|k: int|
                0 <= k < f.dest@.len() && loc_matches(#[trigger] f.dest@[k].loc, *app, ext@);
            assert(false);
        }
    }
    false
}

/// Append the destination under the message name: materialize the flow
/// list, extend the flow when the name exists, open a new flow otherwise.
fn add_to_flows(flows: &mut Option<Vec<GraphMessageFlow>>, msg_name: String, d: GraphDestination)
    ensures
        match *old(flows) {
            Option::None => (*final(flows)) matches Option::Some(fs) && {
                &&& fs@.len() == 1
                &&& fs@[0].name == msg_name
                &&& fs@[0].dest@.len() == 1
                &&& fs@[0].dest@[0] == d
            },
            Option::Some(old_fs) => (*final(flows)) matches Option::Some(new_fs) && {
                let fi = flow_index(old_fs@, msg_name@);
                if fi < 0 {
                    &&& new_fs@.len() == old_fs@.len() + 1
                    &&& new_fs@.subrange(0, old_fs@.len() as int) == old_fs@
                    &&& new_fs@.last().name == msg_name
                    &&& new_fs@.last().dest@.len() == 1
                    &&& new_fs@.last().dest@[0] == d
                } else {
                    &&& new_fs@.len() == old_fs@.len()
                    &&& forall|j: int|
                        0 <= j < old_fs@.len() && j != fi ==> #[trigger] new_fs@[j] == old_fs@[j]
                    &&& new_fs@[fi].name == old_fs@[fi].name
                    &&& new_fs@[fi].dest@.len() == old_fs@[fi].dest@.len() + 1
                    &&& new_fs@[fi].dest@.subrange(0, old_fs@[fi].dest@.len() as int) == old_fs@[
                        fi
                    ].dest@
                    &&& new_fs@[fi].dest@.last() == d
                }
            },
        },
{
    match flows {
        Option::None => {
            let mut dv: Vec<GraphDestination> = Vec::new();
            dv.push(d);
            let mut fs: Vec<GraphMessageFlow> = Vec::new();
            fs.push(GraphMessageFlow { name: msg_name, dest: dv });
            *flows = Option::Some(fs);
        },
        Option::Some(fv) => {
            match find_flow(fv, &msg_name) {
                Option::None => {
                    let mut dv: Vec<GraphDestination> = Vec::new();
                    dv.push(d);
                    fv.push(GraphMessageFlow { name: msg_name, dest: dv });
                    proof {
                        assert(fv@.subrange(0, fv@.len() - 1) =~= old(flows)->0@);
                    }
                },
                Option::Some(fi) => {
                    let f = &mut fv[fi];
                    f.dest.push(d);
                    proof {
                        assert(f.dest@.subrange(0, f.dest@.len() - 1) =~= old(flows)->0@[
                            fi as int
                        ].dest@);
                    }
                },
            }
        },
    }
}

/// Validate and insert one connection: resolve both endpoints, synthesize
/// the effective schema when a conversion is attached, check
/// compatibility, reject a duplicate — and only then mutate the graph.
/// Every failure leaves the graph exactly as it was.
#[verifier::rlimit(100)]
pub fn graph_add_connection(
    graph: &mut Graph,
    src_app: Option<String>,
    src_extension: String,
    msg_type: MsgType,
    msg_name: String,
    dest_app: Option<String>,
    dest_extension: String,
    pkgs_cache: &PkgsCache,
    msg_conversion: Option<MsgAndResultConversion>,
) -> (r: Result<(), GraphError>)
    ensures
        match r {
            Result::Ok(()) => {
                &&& add_connection_check(
                    pkgs_cache.pkgs@,
                    *old(graph),
                    src_app,
                    src_extension,
                    msg_type,
                    msg_name,
                    dest_app,
                    dest_extension,
                    &msg_conversion,
                ) is Ok
                &&& connection_added(
                    *old(graph),
                    *final(graph),
                    src_app,
                    src_extension,
                    msg_type,
                    msg_name,
                    dest_app,
                    dest_extension,
                    msg_conversion,
                )
            },
            Result::Err(e) => {
                &&& add_connection_check(
                    pkgs_cache.pkgs@,
                    *old(graph),
                    src_app,
                    src_extension,
                    msg_type,
                    msg_name,
                    dest_app,
                    dest_extension,
                    &msg_conversion,
                ) == Result::Err::<(), GraphError>(e)
                &&& *final(graph) == *old(graph)
            },
        },
{
    let ghost g0 = *graph;
    let ghost pv = pkgs_cache.pkgs@;
    let ghost conv0 = msg_conversion;
    let ghost se = src_extension;
    let ghost de = dest_extension;
    let ghost mn = msg_name;
    // Resolve both endpoints before any schema work.
    let src_node_addon = match find_node(&graph.nodes, &src_app, &src_extension) {
        Option::Some(n) => n.addon.clone(),
        Option::None => {
            return Result::Err(GraphError::NodeNotFound { extension: src_extension });
        },
    };
    let dest_node_addon = match find_node(&graph.nodes, &dest_app, &dest_extension) {
        Option::Some(n) => n.addon.clone(),
        Option::None => {
            return Result::Err(GraphError::NodeNotFound { extension: dest_extension });
        },
    };
    let ghost si = node_index(g0.nodes@, src_app, se@);
    let ghost di = node_index(g0.nodes@, dest_app, de@);
    proof {
        assert(si >= 0 && di >= 0);
        assert(src_node_addon == g0.nodes@[si].addon);
        assert(dest_node_addon == g0.nodes@[di].addon);
    }
    // The destination message name defaults to the source name unless a
    // rename rule resolves it.
    let (dest_msg_name, ten_name_rule_index) = match &msg_conversion {
        Option::Some(conv) => crate::conversion::msg_conversion_get_dest_msg_name(
            msg_name.as_str(),
            conv,
        ),
        Option::None => (msg_name.clone(), Option::None),
    };
    let ghost rename_v = match &conv0 {
        Option::Some(conv) => dest_name_of(conv, mn@),
        Option::None => (mn@, Option::None::<int>),
    };
    proof {
        match &conv0 {
            Option::Some(conv) => {
                match &conv.msg {
                    Option::Some(mc) => {
                        let rv = mc.rules.rules.deep_view();
                        assert(vstd::std_specs::vec::spec_vec_len(&mc.rules.rules)
                            == mc.rules.rules@.len());
                        assert(rv.len() == mc.rules.rules@.len());
                        let ri = rename_index(rv, 0);
                        if ri >= 0 {
                            assert(ten_name_rule_index == Option::Some(ri as usize));
                            assert(0 <= ri < rv.len());
                            assert((ri as usize) as int == ri);
                        }
                    },
                    Option::None => {},
                }
            },
            Option::None => {},
        }
        assert(dest_msg_name@ == rename_v.0);
        assert(rename_v.1 == (match ten_name_rule_index {
            Option::Some(u) => Option::Some(u as int),
            Option::None => Option::None::<int>,
        }));
    }
    // Resolve the compiled schemas of both sides from their addons'
    // stores; a missing addon or store means "no schema", not an error.
    let src_pkg = crate::store::get_pkg_info_for_extension_addon(pkgs_cache, &src_node_addon);
    let src_schema: Option<&TenMsgSchema> = match src_pkg {
        Option::Some(p) => crate::store::find_c_msg_schema_from_pkg_info(
            p,
            &msg_type,
            msg_name.as_str(),
            &MsgDirection::Out,
        ),
        Option::None => Option::None,
    };
    let ghost src_sch_v = pkg_msg_schema_v(pv, g0.nodes@[si].addon@, msg_type, MsgDirection::Out, mn@);
    proof {
        assert(match src_schema {
            Option::Some(s) => src_sch_v == Option::Some(s.deep_view()),
            Option::None => src_sch_v is None,
        });
    }
    let dest_pkg = crate::store::get_pkg_info_for_extension_addon(pkgs_cache, &dest_node_addon);
    let dest_schema: Option<&TenMsgSchema> = match dest_pkg {
        Option::Some(p) => crate::store::find_c_msg_schema_from_pkg_info(
            p,
            &msg_type,
            dest_msg_name.as_str(),
            &MsgDirection::In,
        ),
        Option::None => Option::None,
    };
    let ghost dest_sch_v = pkg_msg_schema_v(
        pv,
        g0.nodes@[di].addon@,
        msg_type,
        MsgDirection::In,
        rename_v.0,
    );
    proof {
        assert(match dest_schema {
            Option::Some(s) => dest_sch_v == Option::Some(s.deep_view()),
            Option::None => dest_sch_v is None,
        });
    }
    let ghost eff_spec = effective_schema_v(
        pv,
        g0.nodes@[si].addon@,
        g0.nodes@[di].addon@,
        msg_type,
        mn@,
        rename_v.0,
        rename_v.1,
        &conv0,
    );
    // Synthesize the effective schema when a conversion is attached, and
    // check compatibility; the reply direction is always permissive.
    let compat: Result<(), SchemaError> = match &msg_conversion {
        Option::None => {
            proof {
                assert(eff_spec == Result::Ok::<Option<MsgSchemaV>, RuleError>(src_sch_v));
            }
            crate::schema::are_msg_schemas_compatible(src_schema, dest_schema, true, true)
        },
        Option::Some(conv) => {
            match crate::conversion::msg_conversion_get_final_target_schema(
                pkgs_cache,
                &src_node_addon,
                &dest_node_addon,
                &msg_type,
                msg_name.as_str(),
                dest_msg_name.as_str(),
                ten_name_rule_index,
                conv,
            ) {
                Result::Err(e) => {
                    proof {
                        assert(eff_spec == Result::Err::<Option<MsgSchemaV>, RuleError>(e));
                    }
                    return Result::Err(GraphError::Conversion(e));
                },
                Result::Ok(pair) => {
                    let eff = TenMsgSchema {
                        msg: match &pair.0 {
                            Option::Some(m) => Option::Some(
                                create_c_schema_from_properties_and_required(&m.property),
                            ),
                            Option::None => Option::None,
                        },
                        result: match &pair.1 {
                            Option::Some(rr) => Option::Some(
                                create_c_schema_from_properties_and_required(&rr.property),
                            ),
                            Option::None => Option::None,
                        },
                    };
                    proof {
                        assert(eff_spec == Result::Ok::<Option<MsgSchemaV>, RuleError>(
                            Option::Some(eff.deep_view()),
                        ));
                    }
                    crate::schema::are_msg_schemas_compatible(
                        Option::Some(&eff),
                        dest_schema,
                        true,
                        true,
                    )
                },
            }
        },
    };
    match compat {
        Result::Ok(()) => {},
        Result::Err(e) => {
            proof {
                assert(eff_spec matches Result::Ok(effv) && !msg_compat_ok(
                    effv,
                    dest_sch_v,
                    true,
                    true,
                ) && e == msg_compat_err(effv, dest_sch_v, true, true));
            }
            return Result::Err(GraphError::SchemaIncompatible(e));
        },
    }
    // Reject the identical flow to the identical destination.
    let mut duplicate = false;
    match &graph.connections {
        Option::Some(cs) => {
            match find_conn(cs, &src_app, &src_extension) {
                Option::Some(ci) => {
                    let c = &cs[ci];
                    let flows: &Option<Vec<GraphMessageFlow>> = match msg_type {
                        MsgType::Cmd => &c.cmd,
                        MsgType::Data => &c.data,
                        MsgType::AudioFrame => &c.audio_frame,
                        MsgType::VideoFrame => &c.video_frame,
                    };
                    match flows {
                        Option::Some(fv) => {
                            match find_flow(fv, &msg_name) {
                                Option::Some(fi) => {
                                    duplicate = flow_has_dest(
                                        &fv[fi],
                                        &dest_app,
                                        &dest_extension,
                                    );
                                },
                                Option::None => {},
                            }
                        },
                        Option::None => {},
                    }
                },
                Option::None => {},
            }
        },
        Option::None => {},
    }
    proof {
        assert(duplicate == has_duplicate(g0, src_app, se@, msg_type, mn@, dest_app, de@));
    }
    if duplicate {
        return Result::Err(GraphError::DuplicateConnection);
    }
    // Every check passed: mutate the graph.
    let new_dest = GraphDestination {
        loc: GraphLoc {
            app: clone_opt_string(&dest_app),
            extension: Option::Some(dest_extension.clone()),
        },
        msg_conversion,
    };
    proof {
        assert(loc_matches(new_dest.loc, dest_app, de@));
        assert(new_dest.msg_conversion == conv0);
    }
    match &mut graph.connections {
        Option::None => {
            let mut c = GraphConnection {
                loc: GraphLoc {
                    app: clone_opt_string(&src_app),
                    extension: Option::Some(src_extension.clone()),
                },
                cmd: Option::None,
                data: Option::None,
                audio_frame: Option::None,
                video_frame: Option::None,
            };
            match msg_type {
                MsgType::Cmd => add_to_flows(&mut c.cmd, msg_name, new_dest),
                MsgType::Data => add_to_flows(&mut c.data, msg_name, new_dest),
                MsgType::AudioFrame => add_to_flows(&mut c.audio_frame, msg_name, new_dest),
                MsgType::VideoFrame => add_to_flows(&mut c.video_frame, msg_name, new_dest),
            }
            let mut v: Vec<GraphConnection> = Vec::new();
            v.push(c);
            graph.connections = Option::Some(v);
            proof {
                assert(conns_of(g0) =~= Seq::<GraphConnection>::empty());
                assert(conns_of(*graph).subrange(0, 0) =~= conns_of(g0));
            }
        },
        Option::Some(cs) => {
            match find_conn(cs, &src_app, &src_extension) {
                Option::None => {
                    let mut c = GraphConnection {
                        loc: GraphLoc {
                            app: clone_opt_string(&src_app),
                            extension: Option::Some(src_extension.clone()),
                        },
                        cmd: Option::None,
                        data: Option::None,
                        audio_frame: Option::None,
                        video_frame: Option::None,
                    };
                    match msg_type {
                        MsgType::Cmd => add_to_flows(&mut c.cmd, msg_name, new_dest),
                        MsgType::Data => add_to_flows(&mut c.data, msg_name, new_dest),
                        MsgType::AudioFrame => add_to_flows(&mut c.audio_frame, msg_name, new_dest),
                        MsgType::VideoFrame => add_to_flows(&mut c.video_frame, msg_name, new_dest),
                    }
                    cs.push(c);
                    proof {
                        assert(cs@.subrange(0, cs@.len() - 1) =~= conns_of(g0));
                    }
                },
                Option::Some(ci) => {
                    let c = &mut cs[ci];
                    match msg_type {
                        MsgType::Cmd => add_to_flows(&mut c.cmd, msg_name, new_dest),
                        MsgType::Data => add_to_flows(&mut c.data, msg_name, new_dest),
                        MsgType::AudioFrame => add_to_flows(&mut c.audio_frame, msg_name, new_dest),
                        MsgType::VideoFrame => add_to_flows(&mut c.video_frame, msg_name, new_dest),
                    }
                },
            }
        },
    }
    Result::Ok(())
}

/// Wrap prepared nodes and connections as a predefined graph description.
/// Empty exposure lists are recorded as absent.
pub fn get_pkg_predefined_graph_from_nodes_and_connections(
    graph_name: &str,
    auto_start: bool,
    nodes: Vec<GraphNode>,
    connections: Vec<GraphConnection>,
    exposed_messages: Vec<GraphExposedMessage>,
    exposed_properties: Vec<GraphExposedProperty>,
) -> (r: GraphInfo)
    ensures
        r.name matches Option::Some(n) && n@ == graph_name@,
        r.auto_start == Option::Some(auto_start),
        r.graph.nodes == nodes,
        r.graph.connections == Option::Some(connections),
        r.graph.exposed_messages == (if exposed_messages@.len() == 0 {
            Option::None::<Vec<GraphExposedMessage>>
        } else {
            Option::Some(exposed_messages)
        }),
        r.graph.exposed_properties == (if exposed_properties@.len() == 0 {
            Option::None::<Vec<GraphExposedProperty>>
        } else {
            Option::Some(exposed_properties)
        }),
        r.import_uri is None,
        r.app_base_dir is None,
        r.belonging_pkg_type is None,
        r.belonging_pkg_name is None,
{
    GraphInfo {
        name: Option::Some(graph_name.to_owned()),
        auto_start: Option::Some(auto_start),
        graph: Graph {
            nodes,
            connections: Option::Some(connections),
            exposed_messages: if exposed_messages.is_empty() {
                Option::None
            } else {
                Option::Some(exposed_messages)
            },
            exposed_properties: if exposed_properties.is_empty() {
                Option::None
            } else {
                Option::Some(exposed_properties)
            },
        },
        import_uri: Option::None,
        app_base_dir: Option::None,
        belonging_pkg_type: Option::None,
        belonging_pkg_name: Option::None,
    }
}

/// The cache of loaded graphs, keyed by a 128-bit identifier.
pub struct GraphsCache {
    pub entries: Vec<(u128, GraphInfo)>,
}

/// First cached graph satisfying the predicate.
pub fn graphs_cache_find<F: Fn(&GraphInfo) -> bool>(
    graphs_cache: &GraphsCache,
    predicate: F,
) -> (r: Option<&GraphInfo>)
    requires
        forall|g: &GraphInfo| #[trigger] call_requires(predicate, (g,)),
    ensures
        r matches Option::Some(g) ==> call_ensures(predicate, (g,), true) && exists|i: int|
            0 <= i < graphs_cache.entries@.len() && #[trigger] graphs_cache.entries@[i].1 == *g,
{
    let n = graphs_cache.entries.len();
    for i in 0..n
        invariant
            n == graphs_cache.entries@.len(),
            forall|g: &GraphInfo| #[trigger] call_requires(predicate, (g,)),
    {
        let entry = &graphs_cache.entries[i];
        if predicate(&entry.1) {
            proof {
                assert(graphs_cache.entries@[i as int].1 == entry.1);
            }
            return Option::Some(&entry.1);
        }
    }
    Option::None
}

/// Position of the first cached graph satisfying the predicate; the caller
/// indexes the cache to mutate it.
pub fn graphs_cache_find_mut<F: Fn(&GraphInfo) -> bool>(
    graphs_cache: &GraphsCache,
    predicate: F,
) -> (r: Option<usize>)
    requires
        forall|g: &GraphInfo| #[trigger] call_requires(predicate, (g,)),
    ensures
        r matches Option::Some(i) ==> 0 <= i < graphs_cache.entries@.len() && exists|
            g: &GraphInfo,
        |
            #[trigger] call_ensures(predicate, (g,), true) && *g == graphs_cache.entries@[
                i as int
            ].1,
{
    let n = graphs_cache.entries.len();
    for i in 0..n
        invariant
            n == graphs_cache.entries@.len(),
            forall|g: &GraphInfo| #[trigger] call_requires(predicate, (g,)),
    {
        let entry = &graphs_cache.entries[i];
        if predicate(&entry.1) {
            proof {
                assert(graphs_cache.entries@[i as int].1 == entry.1);
            }
            return Option::Some(i);
        }
    }
    Option::None
}

} // verus!
