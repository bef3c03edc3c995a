//! The per-addon schema store: compiles every declared message of a
//! manifest into name-indexed tables, one per message kind and direction.
//! A store is built once from a manifest and read thereafter.

use vstd::prelude::*;

use crate::attr::{
    first_index, map_get_s, kv_index_of, props_deep_clone, strings_clone, AttrV,
    PropertyAttribute, ValueType,
};
use crate::manifest::{
    Manifest, ManifestApi, ManifestApiMsg, ManifestApiProperty, MsgDirection, MsgType, MsgV,
    PropertyV,
};
use crate::schema::{MsgSchemaV, TenMsgSchema, TenSchema};

verus! {

/// The compiled form of an optional declared property shape: an object
/// schema carrying exactly the declared attributes and required names.
pub open spec fn compiled_schema(p: Option<PropertyV>) -> AttrV {
    AttrV {
        kind: ValueType::Object,
        items: Option::None,
        properties: match p {
            Option::Some(pv) => pv.properties,
            Option::None => Option::None,
        },
        required: match p {
            Option::Some(pv) => pv.required,
            Option::None => Option::None,
        },
    }
}

/// The compiled schemas of one declared message: the payload shape always,
/// the reply shape when one is declared.
pub open spec fn compiled_msg_schema(m: MsgV) -> MsgSchemaV {
    MsgSchemaV {
        msg: Option::Some(compiled_schema(m.property)),
        result: match m.result {
            Option::Some(r) => Option::Some(compiled_schema(r.property)),
            Option::None => Option::None,
        },
    }
}

/// Compile an optional property shape into an object schema.
pub fn create_c_schema_from_properties_and_required(
    property: &Option<ManifestApiProperty>,
) -> (r: TenSchema)
    ensures
        r.deep_view() == compiled_schema(
            match property {
                Option::Some(p) => Option::Some(p.deep_view()),
                Option::None => Option::None,
            },
        ),
{
    match property {
        Option::Some(p) => {
            let properties = match &p.properties {
                Option::Some(m) => Option::Some(props_deep_clone(m)),
                Option::None => Option::None,
            };
            let required = match &p.required {
                Option::Some(rq) => Option::Some(strings_clone(rq)),
                Option::None => Option::None,
            };
            TenSchema {
                attr: PropertyAttribute {
                    prop_type: ValueType::Object,
                    items: Option::None,
                    properties,
                    required,
                },
            }
        },
        Option::None => TenSchema {
            attr: PropertyAttribute {
                prop_type: ValueType::Object,
                items: Option::None,
                properties: Option::None,
                required: Option::None,
            },
        },
    }
}

/// Compile one declared message.  The payload schema always exists — an
/// undeclared shape compiles to an empty object schema — so the answer is
/// always a schema pair.
pub fn create_c_schema_from_manifest_api(manifest_msg: &ManifestApiMsg) -> (r: Option<
    TenMsgSchema,
>)
    ensures
        r matches Option::Some(s) && s.deep_view() == compiled_msg_schema(
            manifest_msg.deep_view(),
        ),
{
    let result = match &manifest_msg.result {
        Option::Some(mr) => Option::Some(create_c_schema_from_properties_and_required(
            &mr.property,
        )),
        Option::None => Option::None,
    };
    let msg = create_c_schema_from_properties_and_required(&manifest_msg.property);
    Option::Some(TenMsgSchema { msg: Option::Some(msg), result })
}

/// A failure while building a store.
#[derive(Debug)]
pub enum StoreError {
    /// Two declared messages of one kind and direction share a name.
    DuplicateSchema { name: String },
}

impl StoreError {
    /// A short description for error reports.
    pub fn message(&self) -> String {
        match self {
            StoreError::DuplicateSchema { name } => "duplicated schema definition for cmd "
                .to_owned().concat(name.as_str()),
        }
    }
}

/// Folding a declared message list into a name-indexed table: each message
/// compiles and is added under its name; a name already present is a
/// duplicate declaration and fails.
pub open spec fn parse_msgs_spec(
    msgs: Seq<MsgV>,
    map0: Seq<(Seq<char>, MsgSchemaV)>,
) -> Result<Seq<(Seq<char>, MsgSchemaV)>, Seq<char>>
    decreases msgs.len(),
{
    if msgs.len() == 0 {
        Result::Ok(map0)
    } else {
        let m = msgs[0];
        if first_index(map0, m.name) >= 0 {
            Result::Err(m.name)
        } else {
            parse_msgs_spec(msgs.drop_first(), map0.push((m.name, compiled_msg_schema(m))))
        }
    }
}

/// Compile a declared message list into `target_map`.  Fails on a name
/// already present, leaving the table partially extended; callers discard
/// the whole store on failure.
pub fn parse_msgs_schema_from_manifest(
    manifest_msgs: &Vec<ManifestApiMsg>,
    target_map: &mut Vec<(String, TenMsgSchema)>,
) -> (r: Result<(), StoreError>)
    ensures
        match r {
            Result::Ok(()) => parse_msgs_spec(manifest_msgs.deep_view(), old(target_map).deep_view())
                == Result::Ok::<_, Seq<char>>(final(target_map).deep_view()),
            Result::Err(e) => parse_msgs_spec(manifest_msgs.deep_view(), old(target_map).deep_view())
                is Err,
        },
{
    let n = manifest_msgs.len();
    let ghost msgsv = manifest_msgs.deep_view();
    proof {
        assert(msgsv.skip(0) =~= msgsv);
    }
    for i in 0..n
        invariant
            n == manifest_msgs@.len(),
            msgsv == manifest_msgs.deep_view(),
            msgsv.len() == n,
            parse_msgs_spec(msgsv, old(target_map).deep_view()) == parse_msgs_spec(
                msgsv.skip(i as int),
                target_map.deep_view(),
            ),
        decreases n - i,
    {
        let ghost rest = msgsv.skip(i as int);
        proof {
            assert(rest[0] == msgsv[i as int]);
            assert(msgsv[i as int] == manifest_msgs@[i as int].deep_view());
            assert(rest.drop_first() =~= msgsv.skip(i as int + 1));
        }
        let manifest_msg = &manifest_msgs[i];
        let msg_schema = create_c_schema_from_manifest_api(manifest_msg);
        match msg_schema {
            Option::Some(schema) => {
                match kv_index_of(target_map, &manifest_msg.name) {
                    Option::Some(_) => {
                        return Result::Err(StoreError::DuplicateSchema {
                            name: manifest_msg.name.clone(),
                        });
                    },
                    Option::None => {},
                }
                let ghost before = target_map@;
                target_map.push((manifest_msg.name.clone(), schema));
                proof {
                    assert forall|k: int| 0 <= k < target_map@.len() implies target_map.deep_view()[k]
                        == seq_push_view(before, rest[0])[k] by {
                        assert(target_map.deep_view()[k] == target_map@[k].deep_view());
                        if k < before.len() {
                            assert(target_map@[k] == before[k]);
                        }
                    }
                    assert(target_map.deep_view() =~= seq_push_view(before, rest[0]));
                }
            },
            Option::None => {},
        }
    }
    proof {
        assert(msgsv.skip(n as int) =~= Seq::<MsgV>::empty());
    }
    Result::Ok(())
}

/// The table after one message is added, as the fold step sees it.
pub open spec fn seq_push_view(
    before: Seq<(String, TenMsgSchema)>,
    m: MsgV,
) -> Seq<(Seq<char>, MsgSchemaV)> {
    Seq::new(before.len(), |k: int| before[k].deep_view()).push((m.name, compiled_msg_schema(m)))
}

/// One addon's compiled schemas: the addon-level property schema and eight
/// name-indexed tables, one per message kind and direction.
#[derive(Debug)]
pub struct SchemaStore {
    /// Schema for the addon's own property block.
    pub property: Option<TenSchema>,
    /// Command schemas for incoming commands.
    pub cmd_in: Vec<(String, TenMsgSchema)>,
    /// Command schemas for outgoing commands.
    pub cmd_out: Vec<(String, TenMsgSchema)>,
    /// Data schemas for incoming data.
    pub data_in: Vec<(String, TenMsgSchema)>,
    /// Data schemas for outgoing data.
    pub data_out: Vec<(String, TenMsgSchema)>,
    /// Schemas for incoming video frames.
    pub video_frame_in: Vec<(String, TenMsgSchema)>,
    /// Schemas for outgoing video frames.
    pub video_frame_out: Vec<(String, TenMsgSchema)>,
    /// Schemas for incoming audio frames.
    pub audio_frame_in: Vec<(String, TenMsgSchema)>,
    /// Schemas for outgoing audio frames.
    pub audio_frame_out: Vec<(String, TenMsgSchema)>,
}

impl Default for SchemaStore {
    /// An empty store: no property schema and eight empty tables.
    fn default() -> (r: SchemaStore)
        ensures
            r.property is None,
            r.cmd_in@ == Seq::<(String, TenMsgSchema)>::empty(),
            r.cmd_out@ == Seq::<(String, TenMsgSchema)>::empty(),
            r.data_in@ == Seq::<(String, TenMsgSchema)>::empty(),
            r.data_out@ == Seq::<(String, TenMsgSchema)>::empty(),
            r.video_frame_in@ == Seq::<(String, TenMsgSchema)>::empty(),
            r.video_frame_out@ == Seq::<(String, TenMsgSchema)>::empty(),
            r.audio_frame_in@ == Seq::<(String, TenMsgSchema)>::empty(),
            r.audio_frame_out@ == Seq::<(String, TenMsgSchema)>::empty(),
    {
        SchemaStore {
            property: Option::None,
            cmd_in: Vec::new(),
            cmd_out: Vec::new(),
            data_in: Vec::new(),
            data_out: Vec::new(),
            video_frame_in: Vec::new(),
            video_frame_out: Vec::new(),
            audio_frame_in: Vec::new(),
            audio_frame_out: Vec::new(),
        }
    }
}

/// The fold of one optional declared list, starting from an empty table.
pub open spec fn parsed_table(list: Option<Seq<MsgV>>) -> Result<
    Seq<(Seq<char>, MsgSchemaV)>,
    Seq<char>,
> {
    match list {
        Option::None => Result::Ok(Seq::empty()),
        Option::Some(l) => parse_msgs_spec(l, Seq::empty()),
    }
}

pub open spec fn opt_msgs_view(list: &Option<Vec<ManifestApiMsg>>) -> Option<Seq<MsgV>> {
    match list {
        Option::Some(v) => Option::Some(v.deep_view()),
        Option::None => Option::None,
    }
}

/// Every declared list of the API compiles without a duplicate name.
pub open spec fn store_parse_ok(api: &ManifestApi) -> bool {
    &&& parsed_table(opt_msgs_view(&api.cmd_in)) is Ok
    &&& parsed_table(opt_msgs_view(&api.cmd_out)) is Ok
    &&& parsed_table(opt_msgs_view(&api.data_in)) is Ok
    &&& parsed_table(opt_msgs_view(&api.data_out)) is Ok
    &&& parsed_table(opt_msgs_view(&api.video_frame_in)) is Ok
    &&& parsed_table(opt_msgs_view(&api.video_frame_out)) is Ok
    &&& parsed_table(opt_msgs_view(&api.audio_frame_in)) is Ok
    &&& parsed_table(opt_msgs_view(&api.audio_frame_out)) is Ok
}

/// The fully parsed store matches the API field for field.
pub open spec fn store_matches_api(store: SchemaStore, api: &ManifestApi) -> bool {
    &&& (match api.property {
        Option::Some(p) => store.property matches Option::Some(s) && s.deep_view()
            == compiled_schema(Option::Some(p.deep_view())),
        Option::None => store.property is None,
    })
    &&& Result::Ok::<_, Seq<char>>(store.cmd_in.deep_view()) == parsed_table(
        opt_msgs_view(&api.cmd_in),
    )
    &&& Result::Ok::<_, Seq<char>>(store.cmd_out.deep_view()) == parsed_table(
        opt_msgs_view(&api.cmd_out),
    )
    &&& Result::Ok::<_, Seq<char>>(store.data_in.deep_view()) == parsed_table(
        opt_msgs_view(&api.data_in),
    )
    &&& Result::Ok::<_, Seq<char>>(store.data_out.deep_view()) == parsed_table(
        opt_msgs_view(&api.data_out),
    )
    &&& Result::Ok::<_, Seq<char>>(store.video_frame_in.deep_view()) == parsed_table(
        opt_msgs_view(&api.video_frame_in),
    )
    &&& Result::Ok::<_, Seq<char>>(store.video_frame_out.deep_view()) == parsed_table(
        opt_msgs_view(&api.video_frame_out),
    )
    &&& Result::Ok::<_, Seq<char>>(store.audio_frame_in.deep_view()) == parsed_table(
        opt_msgs_view(&api.audio_frame_in),
    )
    &&& Result::Ok::<_, Seq<char>>(store.audio_frame_out.deep_view()) == parsed_table(
        opt_msgs_view(&api.audio_frame_out),
    )
}

impl SchemaStore {
    /// Build the store for a manifest.  An addon without a declared API has
    /// no store; a duplicate message name fails the whole build.
    pub fn from_manifest(manifest: &Manifest) -> (r: Result<Option<SchemaStore>, StoreError>)
        ensures
            match r {
                Result::Ok(opt) => match &manifest.api {
                    Option::Some(api) => opt matches Option::Some(store) && store_parse_ok(api)
                        && store_matches_api(store, api),
                    Option::None => opt is None,
                },
                Result::Err(_) => manifest.api matches Option::Some(api) && !store_parse_ok(&api),
            },
    {
        match &manifest.api {
            Option::None => Result::Ok(Option::None),
            Option::Some(api) => {
                let mut schema_store = SchemaStore::default();
                match schema_store.parse_schemas_from_manifest(api) {
                    Result::Ok(()) => Result::Ok(Option::Some(schema_store)),
                    Result::Err(e) => Result::Err(e),
                }
            },
        }
    }

    /// Compile every declared list of `manifest_api` into this store's
    /// tables, and the addon-level property schema when one is declared.
    /// The store must be empty; on failure it is partially filled and is
    /// discarded by the caller.
    pub fn parse_schemas_from_manifest(&mut self, manifest_api: &ManifestApi) -> (r: Result<
        (),
        StoreError,
    >)
        requires
            old(self).property is None,
            old(self).cmd_in@.len() == 0,
            old(self).cmd_out@.len() == 0,
            old(self).data_in@.len() == 0,
            old(self).data_out@.len() == 0,
            old(self).video_frame_in@.len() == 0,
            old(self).video_frame_out@.len() == 0,
            old(self).audio_frame_in@.len() == 0,
            old(self).audio_frame_out@.len() == 0,
        ensures
            match r {
                Result::Ok(()) => store_parse_ok(manifest_api) && store_matches_api(
                    *final(self),
                    manifest_api,
                ),
                Result::Err(_) => !store_parse_ok(manifest_api),
            },
    {
        proof {
            assert(old(self).cmd_in.deep_view() =~= Seq::<(Seq<char>, MsgSchemaV)>::empty());
            assert(old(self).cmd_out.deep_view() =~= Seq::<(Seq<char>, MsgSchemaV)>::empty());
            assert(old(self).data_in.deep_view() =~= Seq::<(Seq<char>, MsgSchemaV)>::empty());
            assert(old(self).data_out.deep_view() =~= Seq::<(Seq<char>, MsgSchemaV)>::empty());
            assert(old(self).video_frame_in.deep_view() =~= Seq::<
                (Seq<char>, MsgSchemaV),
            >::empty());
            assert(old(self).video_frame_out.deep_view() =~= Seq::<
                (Seq<char>, MsgSchemaV),
            >::empty());
            assert(old(self).audio_frame_in.deep_view() =~= Seq::<
                (Seq<char>, MsgSchemaV),
            >::empty());
            assert(old(self).audio_frame_out.deep_view() =~= Seq::<
                (Seq<char>, MsgSchemaV),
            >::empty());
        }
        match &manifest_api.property {
            Option::Some(_) => {
                self.property = Option::Some(
                    create_c_schema_from_properties_and_required(&manifest_api.property),
                );
            },
            Option::None => {},
        }
        if let Option::Some(cmd_in_schema) = &manifest_api.cmd_in {
            match parse_msgs_schema_from_manifest(cmd_in_schema, &mut self.cmd_in) {
                Result::Ok(()) => {},
                Result::Err(e) => {
                    return Result::Err(e);
                },
            }
        }
        if let Option::Some(cmd_out_schema) = &manifest_api.cmd_out {
            match parse_msgs_schema_from_manifest(cmd_out_schema, &mut self.cmd_out) {
                Result::Ok(()) => {},
                Result::Err(e) => {
                    return Result::Err(e);
                },
            }
        }
        if let Option::Some(data_in_schema) = &manifest_api.data_in {
            match parse_msgs_schema_from_manifest(data_in_schema, &mut self.data_in) {
                Result::Ok(()) => {},
                Result::Err(e) => {
                    return Result::Err(e);
                },
            }
        }
        if let Option::Some(data_out_schema) = &manifest_api.data_out {
            match parse_msgs_schema_from_manifest(data_out_schema, &mut self.data_out) {
                Result::Ok(()) => {},
                Result::Err(e) => {
                    return Result::Err(e);
                },
            }
        }
        if let Option::Some(video_frame_in_schema) = &manifest_api.video_frame_in {
            match parse_msgs_schema_from_manifest(video_frame_in_schema, &mut self.video_frame_in) {
                Result::Ok(()) => {},
                Result::Err(e) => {
                    return Result::Err(e);
                },
            }
        }
        if let Option::Some(video_frame_out_schema) = &manifest_api.video_frame_out {
            match parse_msgs_schema_from_manifest(
                video_frame_out_schema,
                &mut self.video_frame_out,
            ) {
                Result::Ok(()) => {},
                Result::Err(e) => {
                    return Result::Err(e);
                },
            }
        }
        if let Option::Some(audio_frame_in_schema) = &manifest_api.audio_frame_in {
            match parse_msgs_schema_from_manifest(audio_frame_in_schema, &mut self.audio_frame_in) {
                Result::Ok(()) => {},
                Result::Err(e) => {
                    return Result::Err(e);
                },
            }
        }
        if let Option::Some(audio_frame_out_schema) = &manifest_api.audio_frame_out {
            match parse_msgs_schema_from_manifest(
                audio_frame_out_schema,
                &mut self.audio_frame_out,
            ) {
                Result::Ok(()) => {},
                Result::Err(e) => {
                    return Result::Err(e);
                },
            }
        }
        Result::Ok(())
    }
}

/// One addon of the package cache: its manifest and its compiled store.
pub struct PkgInfo {
    pub manifest: Manifest,
    pub schema_store: Option<SchemaStore>,
}

/// The package cache: every addon the graph's extensions may refer to,
/// already loaded and compiled.  The validator only reads it.
pub struct PkgsCache {
    pub pkgs: Vec<PkgInfo>,
}

/// First cached addon with the given name, if any.
pub open spec fn find_pkg(pkgs: Seq<PkgInfo>, addon: Seq<char>) -> Option<PkgInfo>
    decreases pkgs.len(),
{
    if pkgs.len() == 0 {
        Option::None
    } else if pkgs[0].manifest.name@ == addon {
        Option::Some(pkgs[0])
    } else {
        find_pkg(pkgs.drop_first(), addon)
    }
}

proof fn lemma_find_pkg(pkgs: Seq<PkgInfo>, addon: Seq<char>)
    ensures
        match find_pkg(pkgs, addon) {
            Option::Some(p) => exists|i: int|
                {
                    &&& 0 <= i < pkgs.len()
                    &&& #[trigger] pkgs[i] == p
                    &&& pkgs[i].manifest.name@ == addon
                    &&& forall|j: int| 0 <= j < i ==> #[trigger] pkgs[j].manifest.name@ != addon
                },
            Option::None => forall|j: int|
                0 <= j < pkgs.len() ==> #[trigger] pkgs[j].manifest.name@ != addon,
        },
    decreases pkgs.len(),
{
    if pkgs.len() > 0 && pkgs[0].manifest.name@ != addon {
        lemma_find_pkg(pkgs.drop_first(), addon);
        let t = pkgs.drop_first();
        match find_pkg(t, addon) {
            Option::Some(p) => {
                let i = choose|i: int|
                    {
                        &&& 0 <= i < t.len()
                        &&& #[trigger] t[i] == p
                        &&& t[i].manifest.name@ == addon
                        &&& forall|j: int| 0 <= j < i ==> #[trigger] t[j].manifest.name@ != addon
                    };
                assert(pkgs[i + 1] == t[i]);
                assert forall|j: int| 0 <= j < i + 1 implies #[trigger] pkgs[j].manifest.name@
                    != addon by {
                    if j >= 1 {
                        assert(t[j - 1] == pkgs[j]);
                    }
                }
            },
            Option::None => {
                assert forall|j: int| 0 <= j < pkgs.len() implies #[trigger] pkgs[j].manifest.name@
                    != addon by {
                    if j >= 1 {
                        assert(t[j - 1] == pkgs[j]);
                    }
                }
            },
        }
    }
}

/// Look an addon up in the cache by name.
pub fn get_pkg_info_for_extension_addon<'a>(
    pkgs_cache: &'a PkgsCache,
    extension_addon: &String,
) -> (r: Option<&'a PkgInfo>)
    ensures
        match r {
            Option::Some(p) => find_pkg(pkgs_cache.pkgs@, extension_addon@) == Option::Some(*p),
            Option::None => find_pkg(pkgs_cache.pkgs@, extension_addon@) is None,
        },
{
    let n = pkgs_cache.pkgs.len();
    for i in 0..n
        invariant
            n == pkgs_cache.pkgs@.len(),
            forall|j: int| 0 <= j < i ==> #[trigger] pkgs_cache.pkgs@[j].manifest.name@
                != extension_addon@,
    {
        if pkgs_cache.pkgs[i].manifest.name == *extension_addon {
            proof {
                lemma_find_pkg(pkgs_cache.pkgs@, extension_addon@);
                match find_pkg(pkgs_cache.pkgs@, extension_addon@) {
                    Option::Some(p) => {
                        let w = choose|w: int|
                            {
                                &&& 0 <= w < pkgs_cache.pkgs@.len()
                                &&& #[trigger] pkgs_cache.pkgs@[w] == p
                                &&& pkgs_cache.pkgs@[w].manifest.name@ == extension_addon@
                                &&& forall|j: int|
                                    0 <= j < w ==> #[trigger] pkgs_cache.pkgs@[j].manifest.name@
                                        != extension_addon@
                            };
                        if w < i as int {
                            assert(false);
                        }
                        if w > i as int {
                            assert(false);
                        }
                        assert(pkgs_cache.pkgs@[i as int] == p);
                    },
                    Option::None => {
                        assert(false);
                    },
                }
            }
            return Option::Some(&pkgs_cache.pkgs[i]);
        }
    }
    proof {
        lemma_find_pkg(pkgs_cache.pkgs@, extension_addon@);
        match find_pkg(pkgs_cache.pkgs@, extension_addon@) {
            Option::Some(p) => {
                let w = choose|w: int|
                    {
                        &&& 0 <= w < pkgs_cache.pkgs@.len()
                        &&& #[trigger] pkgs_cache.pkgs@[w] == p
                        &&& pkgs_cache.pkgs@[w].manifest.name@ == extension_addon@
                    };
                assert(false);
            },
            Option::None => {},
        }
    }
    Option::None
}

/// The table of `store` for one message kind and direction.
pub open spec fn store_table(
    store: SchemaStore,
    msg_type: MsgType,
    direction: MsgDirection,
) -> Seq<(Seq<char>, MsgSchemaV)> {
    match msg_type {
        MsgType::Cmd => match direction {
            MsgDirection::In => store.cmd_in.deep_view(),
            MsgDirection::Out => store.cmd_out.deep_view(),
        },
        MsgType::Data => match direction {
            MsgDirection::In => store.data_in.deep_view(),
            MsgDirection::Out => store.data_out.deep_view(),
        },
        MsgType::AudioFrame => match direction {
            MsgDirection::In => store.audio_frame_in.deep_view(),
            MsgDirection::Out => store.audio_frame_out.deep_view(),
        },
        MsgType::VideoFrame => match direction {
            MsgDirection::In => store.video_frame_in.deep_view(),
            MsgDirection::Out => store.video_frame_out.deep_view(),
        },
    }
}

/// Look up the compiled schema pair of one message in an addon's store.
/// An addon without a store — no declared API — answers `None`.
pub fn find_c_msg_schema_from_pkg_info<'a>(
    extension_pkg_info: &'a PkgInfo,
    msg_type: &MsgType,
    msg_name: &str,
    direction: &MsgDirection,
) -> (r: Option<&'a TenMsgSchema>)
    ensures
        match &extension_pkg_info.schema_store {
            Option::None => r is None,
            Option::Some(store) => match r {
                Option::Some(s) => map_get_s(store_table(*store, *msg_type, *direction), msg_name@)
                    == Option::Some(s.deep_view()),
                Option::None => map_get_s(store_table(*store, *msg_type, *direction), msg_name@)
                    is None,
            },
        },
{
    let schema_store = match &extension_pkg_info.schema_store {
        Option::Some(s) => s,
        Option::None => {
            return Option::None;
        },
    };
    let name = msg_name.to_owned();
    let table: &Vec<(String, TenMsgSchema)> = match msg_type {
        MsgType::Cmd => match direction {
            MsgDirection::In => &schema_store.cmd_in,
            MsgDirection::Out => &schema_store.cmd_out,
        },
        MsgType::Data => match direction {
            MsgDirection::In => &schema_store.data_in,
            MsgDirection::Out => &schema_store.data_out,
        },
        MsgType::AudioFrame => match direction {
            MsgDirection::In => &schema_store.audio_frame_in,
            MsgDirection::Out => &schema_store.audio_frame_out,
        },
        MsgType::VideoFrame => match direction {
            MsgDirection::In => &schema_store.video_frame_in,
            MsgDirection::Out => &schema_store.video_frame_out,
        },
    };
    crate::attr::kv_get(table, &name)
}

} // verus!
