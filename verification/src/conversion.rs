//! The conversion rule engine: an ordered rule list synthesizes a
//! destination schema from a source schema.  A FixedValue rule injects a
//! scalar whose kind is inferred from the value's form; a FromOriginal rule
//! copies an attribute subtree from the source; a FixedValue rule at the
//! reserved path `ten.name` renames the message and contributes nothing.

use vstd::prelude::*;

use crate::attr::{
    attr_deep_clone, first_index, map_remove_s, map_set_s, kv_push, kv_remove, AttrV,
    PropertyAttribute, ValueType,
};
use crate::manifest::{
    cmd_result_deep_clone, CmdResultV, ManifestApi, ManifestApiCmdResult, ManifestApiMsg,
    ManifestApiProperty, MsgDirection, MsgType, MsgV, PropertyV,
};
use crate::store::{find_pkg, PkgInfo, PkgsCache};
use crate::navigate::{
    nav_write, navigate_property_path, navigate_property_path_mut, read_result, OpV, WriteOp,
};
use crate::path::{find_char, path_parse};

verus! {

/// The scalar forms a FixedValue rule can carry, as the engine reads them:
/// only the form matters — a float's kind is Float64 whatever its value —
/// except that a rename rule reads the characters of a `Str`.
pub enum RuleValue {
    /// An integer that fits a signed 64-bit word.
    Int(i64),
    /// A non-negative integer too large for a signed 64-bit word.
    Uint(u64),
    /// A floating-point number; its value plays no role here.
    Float,
    Bool(bool),
    Str(String),
    Null,
    /// A structured object value; not a scalar.
    Object,
    /// A structured array value; not a scalar.
    Array,
}

/// Model of a rule value.
pub ghost enum RuleValueV {
    Int(i64),
    Uint(u64),
    Float,
    Bool(bool),
    Str(Seq<char>),
    Null,
    Object,
    Array,
}

impl DeepView for RuleValue {
    type V = RuleValueV;

    open spec fn deep_view(&self) -> RuleValueV {
        match self {
            RuleValue::Int(i) => RuleValueV::Int(*i),
            RuleValue::Uint(u) => RuleValueV::Uint(*u),
            RuleValue::Float => RuleValueV::Float,
            RuleValue::Bool(b) => RuleValueV::Bool(*b),
            RuleValue::Str(s) => RuleValueV::Str(s@),
            RuleValue::Null => RuleValueV::Null,
            RuleValue::Object => RuleValueV::Object,
            RuleValue::Array => RuleValueV::Array,
        }
    }
}

/// How one rule produces its attribute.
#[derive(Clone, Copy, PartialEq, Eq, Structural, Debug)]
pub enum MsgConversionMode {
    /// Inject a fixed scalar value.
    FixedValue,
    /// Copy an attribute from the source schema.
    FromOriginal,
}

/// One conversion rule.
pub struct MsgConversionRule {
    /// Destination path the rule writes to.
    pub path: String,
    pub conversion_mode: MsgConversionMode,
    /// The injected value; required for FixedValue.
    pub value: Option<RuleValue>,
    /// The source path read; required for FromOriginal.
    pub original_path: Option<String>,
}

/// Model of one rule.
#[verifier::ext_equal]
pub ghost struct RuleV {
    pub path: Seq<char>,
    pub mode: MsgConversionMode,
    pub value: Option<RuleValueV>,
    pub original_path: Option<Seq<char>>,
}

impl DeepView for MsgConversionRule {
    type V = RuleV;

    open spec fn deep_view(&self) -> RuleV {
        RuleV {
            path: self.path@,
            mode: self.conversion_mode,
            value: match &self.value {
                Option::Some(v) => Option::Some(v.deep_view()),
                Option::None => Option::None,
            },
            original_path: match &self.original_path {
                Option::Some(p) => Option::Some(p@),
                Option::None => Option::None,
            },
        }
    }
}

/// An ordered rule list with its keep-original baseline flag.
pub struct MsgConversionRules {
    pub rules: Vec<MsgConversionRule>,
    pub keep_original: Option<bool>,
}

/// A message-direction conversion declaration.
pub struct MsgConversion {
    pub rules: MsgConversionRules,
}

/// The conversion attached to one graph edge: one optional rule set for the
/// message payload and one for the command result.
pub struct MsgAndResultConversion {
    pub msg: Option<MsgConversion>,
    pub result: Option<MsgConversion>,
}

/// Why a rule list was rejected.
#[derive(Clone, Copy, PartialEq, Eq, Structural, Debug)]
pub enum RuleErrorKind {
    /// A FixedValue rule without a value.
    MissingValue,
    /// A FromOriginal rule without an original path.
    MissingOriginalPath,
    /// A FixedValue rule whose value is not a scalar.
    UnsupportedValue,
    /// The destination path cannot be parsed or conflicts with the shape
    /// already present.
    BadPath,
}

/// A rejected rule list: the offending rule's position and what was wrong.
#[derive(Clone, Copy, PartialEq, Eq, Structural, Debug)]
pub struct RuleError {
    pub index: usize,
    pub kind: RuleErrorKind,
}

impl RuleError {
    /// A short description for error reports.
    pub fn message(&self) -> String {
        match self.kind {
            RuleErrorKind::MissingValue => "fixed value rule has no value".to_owned(),
            RuleErrorKind::MissingOriginalPath => "from-original rule has no original path"
                .to_owned(),
            RuleErrorKind::UnsupportedValue => "unsupported value type in fixed value rule"
                .to_owned(),
            RuleErrorKind::BadPath => "failed to navigate destination path".to_owned(),
        }
    }
}

/// The attribute kind a FixedValue scalar injects, inferred from the
/// value's runtime form; `None` for the non-scalar forms, which are
/// rejected.
pub open spec fn fixed_value_kind(v: RuleValueV) -> Option<ValueType> {
    match v {
        RuleValueV::Int(i) => Option::Some(
            if i >= 0 {
                ValueType::Uint64
            } else {
                ValueType::Int64
            },
        ),
        RuleValueV::Uint(_) => Option::Some(ValueType::Uint64),
        RuleValueV::Float => Option::Some(ValueType::Float64),
        RuleValueV::Bool(_) => Option::Some(ValueType::Bool),
        RuleValueV::Str(_) => Option::Some(ValueType::Str),
        RuleValueV::Null => Option::None,
        RuleValueV::Object => Option::None,
        RuleValueV::Array => Option::None,
    }
}

/// A path with a dot or a bracket addresses a nested node through the
/// write navigator; a bare name is handled directly at top level.
pub open spec fn is_complex_path(p: Seq<char>) -> bool {
    find_char(p, '.') >= 0 || find_char(p, '[') >= 0
}

/// The required list after a name is appended — unconditionally, so a name
/// may appear twice.
pub open spec fn req_appended(dreq: Option<Seq<Seq<char>>>, name: Seq<char>) -> Option<
    Seq<Seq<char>>,
> {
    Option::Some(
        (match dreq {
            Option::Some(r) => r,
            Option::None => Seq::empty(),
        }).push(name),
    )
}

/// A freshly injected scalar attribute: bare kind, no shape.
pub open spec fn scalar_attr(k: ValueType) -> AttrV {
    AttrV { kind: k, items: Option::None, properties: Option::None, required: Option::None }
}

/// What one rule does to the destination tree and required list, given the
/// source map and required list it reads from.
pub open spec fn apply_rule(
    rule: RuleV,
    sp: Option<Seq<(Seq<char>, AttrV)>>,
    sreq: Option<Seq<Seq<char>>>,
    dp: Seq<(Seq<char>, AttrV)>,
    dreq: Option<Seq<Seq<char>>>,
) -> Result<(Seq<(Seq<char>, AttrV)>, Option<Seq<Seq<char>>>), RuleErrorKind> {
    match rule.mode {
        MsgConversionMode::FixedValue => match rule.value {
            Option::None => Result::Err(RuleErrorKind::MissingValue),
            Option::Some(v) => match fixed_value_kind(v) {
                Option::None => Result::Err(RuleErrorKind::UnsupportedValue),
                Option::Some(k) => {
                    if is_complex_path(rule.path) {
                        match path_parse(rule.path) {
                            Option::None => Result::Err(RuleErrorKind::BadPath),
                            Option::Some(segs) => match nav_write(dp, segs, OpV::SetKind(k)) {
                                Option::None => Result::Err(RuleErrorKind::BadPath),
                                Option::Some(dp2) => Result::Ok((dp2, dreq)),
                            },
                        }
                    } else {
                        Result::Ok(
                            (
                                map_remove_s(dp, rule.path).push((rule.path, scalar_attr(k))),
                                req_appended(dreq, rule.path),
                            ),
                        )
                    }
                },
            },
        },
        MsgConversionMode::FromOriginal => match rule.original_path {
            Option::None => Result::Err(RuleErrorKind::MissingOriginalPath),
            Option::Some(orig) => match read_result(sp, sreq, orig) {
                Option::None => Result::Ok((dp, dreq)),
                Option::Some((src_attr, is_required)) => {
                    if is_complex_path(rule.path) {
                        match path_parse(rule.path) {
                            Option::None => Result::Err(RuleErrorKind::BadPath),
                            Option::Some(segs) => match nav_write(
                                dp,
                                segs,
                                OpV::SetAttr(src_attr),
                            ) {
                                Option::None => Result::Err(RuleErrorKind::BadPath),
                                Option::Some(dp2) => Result::Ok((dp2, dreq)),
                            },
                        }
                    } else {
                        Result::Ok(
                            (
                                map_remove_s(dp, rule.path).push((rule.path, src_attr)),
                                if is_required == Option::Some(true) {
                                    req_appended(dreq, rule.path)
                                } else {
                                    dreq
                                },
                            ),
                        )
                    }
                },
            },
        },
    }
}

/// Folding a whole rule list, in order, from rule `i` on, skipping the
/// resolved rename rule.  The first failing rule aborts with its position.
pub open spec fn convert_rules_spec(
    rules: Seq<RuleV>,
    skip: Option<int>,
    sp: Option<Seq<(Seq<char>, AttrV)>>,
    sreq: Option<Seq<Seq<char>>>,
    dp: Seq<(Seq<char>, AttrV)>,
    dreq: Option<Seq<Seq<char>>>,
    i: int,
) -> Result<(Seq<(Seq<char>, AttrV)>, Option<Seq<Seq<char>>>), RuleError>
    decreases rules.len() - i,
    when 0 <= i
{
    if i >= rules.len() {
        Result::Ok((dp, dreq))
    } else if skip == Option::Some(i) {
        convert_rules_spec(rules, skip, sp, sreq, dp, dreq, i + 1)
    } else {
        match apply_rule(rules[i], sp, sreq, dp, dreq) {
            Result::Err(kind) => Result::Err(RuleError { index: i as usize, kind }),
            Result::Ok((dp2, dreq2)) => convert_rules_spec(rules, skip, sp, sreq, dp2, dreq2, i + 1),
        }
    }
}

/// No two entries of the map share a name — true of every tree the engine
/// builds, since a write replaces an existing entry in place of adding a
/// second one.
pub open spec fn distinct_names(m: Seq<(Seq<char>, AttrV)>) -> bool {
    forall|i: int, j: int| 0 <= i < j < m.len() ==> m[i].0 != m[j].0
}

/// Idempotence: applying one FixedValue rule twice to the same destination
/// tree yields an identical final tree.  (The required-name list may list
/// the rule's name twice; the attribute tree is unchanged by the second
/// application.)
pub proof fn lemma_fixed_value_idempotent(
    rule: RuleV,
    sp: Option<Seq<(Seq<char>, AttrV)>>,
    sreq: Option<Seq<Seq<char>>>,
    dp: Seq<(Seq<char>, AttrV)>,
    dreq: Option<Seq<Seq<char>>>,
)
    requires
        rule.mode == MsgConversionMode::FixedValue,
        distinct_names(dp),
        apply_rule(rule, sp, sreq, dp, dreq) is Ok,
    ensures
        ({
            let s1 = apply_rule(rule, sp, sreq, dp, dreq)->Ok_0;
            let second = apply_rule(rule, sp, sreq, s1.0, s1.1);
            second is Ok && second->Ok_0.0 == s1.0
        }),
{
    let v = rule.value->0;
    let k = fixed_value_kind(v)->0;
    let s1 = apply_rule(rule, sp, sreq, dp, dreq)->Ok_0;
    if is_complex_path(rule.path) {
        let segs = path_parse(rule.path)->0;
        assert(segs.len() >= 1);
        crate::navigate::lemma_write_kind_idempotent(dp, segs, k);
    } else {
        let p = rule.path;
        crate::attr::lemma_first_index(dp, p);
        let fi = first_index(dp, p);
        let rest = map_remove_s(dp, p);
        assert forall|j: int| 0 <= j < rest.len() implies #[trigger] rest[j].0 != p by {
            if fi >= 0 {
                if j < fi {
                    assert(rest[j] == dp[j]);
                } else {
                    assert(rest[j] == dp[j + 1]);
                }
            }
        }
        crate::attr::lemma_first_index(rest, p);
        if first_index(rest, p) >= 0 {
            assert(false);
        }
        let dp2 = rest.push((p, scalar_attr(k)));
        assert(s1.0 == dp2);
        crate::navigate::lemma_set_then_index(rest, p, scalar_attr(k));
        assert(map_set_s(rest, p, scalar_attr(k)) == dp2);
        assert(first_index(dp2, p) == rest.len());
        assert(map_remove_s(dp2, p) =~= rest);
    }
}

pub open spec fn opt_req_view(r: &Option<Vec<String>>) -> Option<Seq<Seq<char>>> {
    match r {
        Option::Some(v) => Option::Some(v.deep_view()),
        Option::None => Option::None,
    }
}

pub open spec fn opt_props_view(m: Option<&Vec<(String, PropertyAttribute)>>) -> Option<
    Seq<(Seq<char>, AttrV)>,
> {
    match m {
        Option::Some(v) => Option::Some(v.deep_view()),
        Option::None => Option::None,
    }
}

/// Append a name to the required list, creating the list when absent.
fn req_append(req: &mut Option<Vec<String>>, name: &String)
    ensures
        opt_req_view(final(req)) == req_appended(opt_req_view(old(req)), name@),
{
    if req.is_none() {
        *req = Option::Some(Vec::new());
        proof {
            assert(req->0.deep_view() =~= Seq::<Seq<char>>::empty());
        }
    }
    match req {
        Option::Some(v) => {
            let ghost before = v.deep_view();
            v.push(name.clone());
            proof {
                assert(v.deep_view() =~= before.push(name@));
            }
        },
        Option::None => {},
    }
}

/// Apply the rule list in order to the destination map and required list,
/// skipping the resolved rename rule at `ten_name_rule_index`.  On failure
/// the destination is partially rewritten; the synthesized schema that
/// holds it is discarded.
pub fn convert_rules_to_schema_properties(
    conversion_rules: &Vec<MsgConversionRule>,
    ten_name_rule_index: Option<usize>,
    src_schema_properties: Option<&Vec<(String, PropertyAttribute)>>,
    src_schema_required: Option<&Vec<String>>,
    dest_schema_properties: &mut Vec<(String, PropertyAttribute)>,
    dest_schema_required: &mut Option<Vec<String>>,
) -> (r: Result<(), RuleError>)
    ensures
        ({
            let full = convert_rules_spec(
                conversion_rules.deep_view(),
                match ten_name_rule_index {
                    Option::Some(s) => Option::Some(s as int),
                    Option::None => Option::None,
                },
                opt_props_view(src_schema_properties),
                match src_schema_required {
                    Option::Some(v) => Option::Some(v.deep_view()),
                    Option::None => Option::None,
                },
                old(dest_schema_properties).deep_view(),
                opt_req_view(old(dest_schema_required)),
                0,
            );
            match r {
                Result::Ok(()) => full == Result::Ok::<_, RuleError>(
                    (
                        final(dest_schema_properties).deep_view(),
                        opt_req_view(final(dest_schema_required)),
                    ),
                ),
                Result::Err(e) => full == Result::Err::<
                    (Seq<(Seq<char>, AttrV)>, Option<Seq<Seq<char>>>),
                    _,
                >(e),
            }
        }),
{
    let ghost rulesv = conversion_rules.deep_view();
    let ghost skipv: Option<int> = match ten_name_rule_index {
        Option::Some(s) => Option::Some(s as int),
        Option::None => Option::None,
    };
    let ghost spv = opt_props_view(src_schema_properties);
    let ghost sreqv: Option<Seq<Seq<char>>> = match src_schema_required {
        Option::Some(v) => Option::Some(v.deep_view()),
        Option::None => Option::None,
    };
    let ghost dp0 = dest_schema_properties.deep_view();
    let ghost dreq0 = opt_req_view(dest_schema_required);
    let n = conversion_rules.len();
    for index in 0..n
        invariant
            n == conversion_rules@.len(),
            rulesv == conversion_rules.deep_view(),
            rulesv.len() == n,
            spv == opt_props_view(src_schema_properties),
            sreqv == (match src_schema_required {
                Option::Some(v) => Option::Some(v.deep_view()),
                Option::None => Option::None,
            }),
            skipv == (match ten_name_rule_index {
                Option::Some(s) => Option::Some(s as int),
                Option::None => Option::None,
            }),
            dp0 == old(dest_schema_properties).deep_view(),
            dreq0 == opt_req_view(old(dest_schema_required)),
            convert_rules_spec(rulesv, skipv, spv, sreqv, dp0, dreq0, 0) == convert_rules_spec(
                rulesv,
                skipv,
                spv,
                sreqv,
                dest_schema_properties.deep_view(),
                opt_req_view(dest_schema_required),
                index as int,
            ),
        decreases n - index,
    {
        let skip_this = match ten_name_rule_index {
            Option::Some(s) => s == index,
            Option::None => false,
        };
        if !skip_this {
            let rule = &conversion_rules[index];
            proof {
                assert(rulesv[index as int] == conversion_rules@[index as int].deep_view());
            }
            match rule.conversion_mode {
                MsgConversionMode::FixedValue => {
                    let prop_type: ValueType = match &rule.value {
                        Option::None => {
                            return Result::Err(RuleError {
                                index,
                                kind: RuleErrorKind::MissingValue,
                            });
                        },
                        Option::Some(v) => match v {
                            RuleValue::Int(x) => {
                                if *x >= 0 {
                                    ValueType::Uint64
                                } else {
                                    ValueType::Int64
                                }
                            },
                            RuleValue::Uint(_) => ValueType::Uint64,
                            RuleValue::Float => ValueType::Float64,
                            RuleValue::Bool(_) => ValueType::Bool,
                            RuleValue::Str(_) => ValueType::Str,
                            RuleValue::Null | RuleValue::Object | RuleValue::Array => {
                                return Result::Err(RuleError {
                                    index,
                                    kind: RuleErrorKind::UnsupportedValue,
                                });
                            },
                        },
                    };
                    let complex = {
                        let has_dot = crate::path::find_char_in(rule.path.as_str(), '.');
                        let has_bracket = crate::path::find_char_in(rule.path.as_str(), '[');
                        has_dot.is_some() || has_bracket.is_some()
                    };
                    if complex {
                        match navigate_property_path_mut(
                            dest_schema_properties,
                            rule.path.as_str(),
                            WriteOp::SetKind(prop_type),
                        ) {
                            Result::Ok(()) => {},
                            Result::Err(_) => {
                                return Result::Err(RuleError {
                                    index,
                                    kind: RuleErrorKind::BadPath,
                                });
                            },
                        }
                    } else {
                        kv_remove(dest_schema_properties, &rule.path);
                        req_append(dest_schema_required, &rule.path);
                        kv_push(
                            dest_schema_properties,
                            &rule.path,
                            PropertyAttribute {
                                prop_type,
                                items: Option::None,
                                properties: Option::None,
                                required: Option::None,
                            },
                        );
                    }
                },
                MsgConversionMode::FromOriginal => {
                    let original_path = match &rule.original_path {
                        Option::None => {
                            return Result::Err(RuleError {
                                index,
                                kind: RuleErrorKind::MissingOriginalPath,
                            });
                        },
                        Option::Some(p) => p,
                    };
                    match navigate_property_path(
                        src_schema_properties,
                        src_schema_required,
                        original_path.as_str(),
                    ) {
                        Option::None => {},
                        Option::Some((src_prop, is_required)) => {
                            let cloned = attr_deep_clone(src_prop);
                            let complex = {
                                let has_dot = crate::path::find_char_in(rule.path.as_str(), '.');
                                let has_bracket = crate::path::find_char_in(
                                    rule.path.as_str(),
                                    '[',
                                );
                                has_dot.is_some() || has_bracket.is_some()
                            };
                            if complex {
                                match navigate_property_path_mut(
                                    dest_schema_properties,
                                    rule.path.as_str(),
                                    WriteOp::SetAttr(cloned),
                                ) {
                                    Result::Ok(()) => {},
                                    Result::Err(_) => {
                                        return Result::Err(RuleError {
                                            index,
                                            kind: RuleErrorKind::BadPath,
                                        });
                                    },
                                }
                            } else {
                                kv_remove(dest_schema_properties, &rule.path);
                                kv_push(dest_schema_properties, &rule.path, cloned);
                                let add_required = match is_required {
                                    Option::Some(true) => true,
                                    _ => false,
                                };
                                if add_required {
                                    req_append(dest_schema_required, &rule.path);
                                }
                            }
                        },
                    }
                },
            }
        }
    }
    Result::Ok(())
}

/// The declared list of one kind and direction in an API.
pub open spec fn list_for(api: ManifestApi, dir: MsgDirection, ty: MsgType) -> Option<
    Vec<ManifestApiMsg>,
> {
    match dir {
        MsgDirection::Out => match ty {
            MsgType::Cmd => api.cmd_out,
            MsgType::Data => api.data_out,
            MsgType::AudioFrame => api.audio_frame_out,
            MsgType::VideoFrame => api.video_frame_out,
        },
        MsgDirection::In => match ty {
            MsgType::Cmd => api.cmd_in,
            MsgType::Data => api.data_in,
            MsgType::AudioFrame => api.audio_frame_in,
            MsgType::VideoFrame => api.video_frame_in,
        },
    }
}

/// Index of the first declared message with the given name, or -1.
pub open spec fn msg_index(list: Seq<ManifestApiMsg>, name: Seq<char>) -> int
    decreases list.len(),
{
    if list.len() == 0 {
        -1
    } else if list[0].name@ == name {
        0
    } else {
        let r = msg_index(list.drop_first(), name);
        if r < 0 {
            -1
        } else {
            r + 1
        }
    }
}

proof fn lemma_msg_index(list: Seq<ManifestApiMsg>, name: Seq<char>)
    ensures
        msg_index(list, name) >= 0 ==> {
            &&& msg_index(list, name) < list.len()
            &&& list[msg_index(list, name)].name@ == name
            &&& forall|j: int| 0 <= j < msg_index(list, name) ==> #[trigger] list[j].name@ != name
        },
        msg_index(list, name) == -1 ==> forall|j: int|
            0 <= j < list.len() ==> #[trigger] list[j].name@ != name,
        msg_index(list, name) >= 0 || msg_index(list, name) == -1,
    decreases list.len(),
{
    if list.len() > 0 && list[0].name@ != name {
        lemma_msg_index(list.drop_first(), name);
        let t = list.drop_first();
        let r = msg_index(t, name);
        if r >= 0 {
            assert(list[r + 1] == t[r]);
            assert forall|j: int| 0 <= j < r + 1 implies #[trigger] list[j].name@ != name by {
                if j >= 1 {
                    assert(list[j] == t[j - 1]);
                }
            }
        } else {
            assert forall|j: int| 0 <= j < list.len() implies #[trigger] list[j].name@ != name by {
                if j >= 1 {
                    assert(list[j] == t[j - 1]);
                }
            }
        }
    }
}

/// The declared message a schema lookup answers: the named entry of the
/// named addon's list for that kind and direction, if every link exists.
pub open spec fn msg_schema_lookup(
    pkgs: Seq<PkgInfo>,
    addon: Seq<char>,
    dir: MsgDirection,
    ty: MsgType,
    name: Seq<char>,
) -> Option<ManifestApiMsg> {
    match find_pkg(pkgs, addon) {
        Option::None => Option::None,
        Option::Some(pkg) => match pkg.manifest.api {
            Option::None => Option::None,
            Option::Some(api) => match list_for(api, dir, ty) {
                Option::None => Option::None,
                Option::Some(l) => {
                    let i = msg_index(l@, name);
                    if i < 0 {
                        Option::None
                    } else {
                        Option::Some(l@[i])
                    }
                },
            },
        },
    }
}

/// Find the declared schema of one message in the cache: the addon's
/// flattened API, the list for the direction and kind, the entry with the
/// message's name.  A missing addon or an addon without an API is no
/// error: there is simply no schema.
pub fn get_msg_schema<'a>(
    pkgs_cache: &'a PkgsCache,
    extension_addon: &String,
    msg_direction: &MsgDirection,
    msg_type: &MsgType,
    msg_name: &str,
) -> (r: Option<&'a ManifestApiMsg>)
    ensures
        match r {
            Option::Some(m) => msg_schema_lookup(
                pkgs_cache.pkgs@,
                extension_addon@,
                *msg_direction,
                *msg_type,
                msg_name@,
            ) == Option::Some(*m),
            Option::None => msg_schema_lookup(
                pkgs_cache.pkgs@,
                extension_addon@,
                *msg_direction,
                *msg_type,
                msg_name@,
            ) is None,
        },
{
    let pkg = match crate::store::get_pkg_info_for_extension_addon(pkgs_cache, extension_addon) {
        Option::Some(p) => p,
        Option::None => {
            return Option::None;
        },
    };
    let api = match &pkg.manifest.api {
        Option::Some(api) => api,
        Option::None => {
            return Option::None;
        },
    };
    let list = match msg_direction {
        MsgDirection::Out => match msg_type {
            MsgType::Cmd => &api.cmd_out,
            MsgType::Data => &api.data_out,
            MsgType::AudioFrame => &api.audio_frame_out,
            MsgType::VideoFrame => &api.video_frame_out,
        },
        MsgDirection::In => match msg_type {
            MsgType::Cmd => &api.cmd_in,
            MsgType::Data => &api.data_in,
            MsgType::AudioFrame => &api.audio_frame_in,
            MsgType::VideoFrame => &api.video_frame_in,
        },
    };
    let list = match list {
        Option::Some(l) => l,
        Option::None => {
            return Option::None;
        },
    };
    let ghost lookup = msg_schema_lookup(
        pkgs_cache.pkgs@,
        extension_addon@,
        *msg_direction,
        *msg_type,
        msg_name@,
    );
    proof {
        assert(lookup == ({
            let mi = msg_index(list@, msg_name@);
            if mi < 0 {
                Option::None
            } else {
                Option::Some(list@[mi])
            }
        }));
    }
    let name = msg_name.to_owned();
    let n = list.len();
    for i in 0..n
        invariant
            n == list@.len(),
            forall|j: int| 0 <= j < i ==> #[trigger] list@[j].name@ != name@,
            name@ == msg_name@,
            lookup == msg_schema_lookup(
                pkgs_cache.pkgs@,
                extension_addon@,
                *msg_direction,
                *msg_type,
                msg_name@,
            ),
            lookup == ({
                let mi = msg_index(list@, msg_name@);
                if mi < 0 {
                    Option::None
                } else {
                    Option::Some(list@[mi])
                }
            }),
    {
        if list[i].name == name {
            proof {
                lemma_msg_index(list@, name@);
                let mi = msg_index(list@, name@);
                if mi == -1 {
                    assert(false);
                }
                if mi < i as int {
                    assert(false);
                }
                if mi > i as int {
                    assert(false);
                }
            }
            return Option::Some(&list[i]);
        }
    }
    proof {
        lemma_msg_index(list@, name@);
        if msg_index(list@, name@) >= 0 {
            assert(false);
        }
    }
    Option::None
}

/// A rename rule: a FixedValue rule with a string value at the reserved
/// path `ten.name`.
pub open spec fn is_rename_rule(r: RuleV) -> bool {
    &&& r.path == "ten.name"@
    &&& r.mode == MsgConversionMode::FixedValue
    &&& r.value matches Option::Some(RuleValueV::Str(_))
}

/// Index of the first rename rule at or after `i`, or -1.
pub open spec fn rename_index(rules: Seq<RuleV>, i: int) -> int
    decreases rules.len() - i,
    when 0 <= i
{
    if i >= rules.len() {
        -1
    } else if is_rename_rule(rules[i]) {
        i
    } else {
        rename_index(rules, i + 1)
    }
}

proof fn lemma_rename_index(rules: Seq<RuleV>, i: int)
    requires
        0 <= i <= rules.len(),
    ensures
        rename_index(rules, i) >= 0 ==> {
            &&& i <= rename_index(rules, i) < rules.len()
            &&& is_rename_rule(rules[rename_index(rules, i)])
            &&& forall|j: int|
                i <= j < rename_index(rules, i) ==> !is_rename_rule(#[trigger] rules[j])
        },
        rename_index(rules, i) == -1 ==> forall|j: int|
            i <= j < rules.len() ==> !is_rename_rule(#[trigger] rules[j]),
        rename_index(rules, i) >= 0 || rename_index(rules, i) == -1,
    decreases rules.len() - i,
{
    if i < rules.len() && !is_rename_rule(rules[i]) {
        lemma_rename_index(rules, i + 1);
    }
}

/// Resolve the destination message name: the first FixedValue rule with a
/// string value at the reserved path `ten.name` renames the message, and
/// its position is excluded from rule application; otherwise the source
/// name stands.
pub fn msg_conversion_get_dest_msg_name(
    src_msg_name: &str,
    msg_conversion: &MsgAndResultConversion,
) -> (r: (String, Option<usize>))
    ensures
        ({
            match &msg_conversion.msg {
                Option::None => r.0@ == src_msg_name@ && r.1 is None,
                Option::Some(mc) => {
                    let rv = mc.rules.rules.deep_view();
                    let ri = rename_index(rv, 0);
                    if ri < 0 {
                        r.0@ == src_msg_name@ && r.1 is None
                    } else {
                        &&& 0 <= ri < rv.len()
                        &&& r.1 == Option::Some(ri as usize)
                        &&& rv[ri].value matches Option::Some(RuleValueV::Str(s)) && r.0@ == s
                    }
                },
            }
        }),
{
    let mc = match &msg_conversion.msg {
        Option::Some(mc) => mc,
        Option::None => {
            return (src_msg_name.to_owned(), Option::None);
        },
    };
    let ghost rv = mc.rules.rules.deep_view();
    let ten_name_path = "ten.name".to_owned();
    let n = mc.rules.rules.len();
    for index in 0..n
        invariant
            n == mc.rules.rules@.len(),
            rv == mc.rules.rules.deep_view(),
            rv.len() == n,
            ten_name_path@ == "ten.name"@,
            msg_conversion.msg == Option::Some(*mc),
            forall|j: int| 0 <= j < index ==> !is_rename_rule(#[trigger] rv[j]),
    {
        let rule = &mc.rules.rules[index];
        proof {
            assert(rv[index as int] == mc.rules.rules@[index as int].deep_view());
        }
        if rule.conversion_mode == MsgConversionMode::FixedValue && rule.path == ten_name_path {
            match &rule.value {
                Option::Some(RuleValue::Str(s)) => {
                    proof {
                        lemma_rename_index(rv, 0);
                        let ri = rename_index(rv, 0);
                        assert(is_rename_rule(rv[index as int]));
                        if ri == -1 {
                            assert(false);
                        }
                        if ri < index as int {
                            assert(false);
                        }
                        if ri > index as int {
                            assert(!is_rename_rule(rv[index as int]));
                            assert(false);
                        }
                    }
                    return (s.clone(), Option::Some(index));
                },
                _ => {},
            }
        }
    }
    proof {
        lemma_rename_index(rv, 0);
        if rename_index(rv, 0) >= 0 {
            assert(false);
        }
    }
    (src_msg_name.to_owned(), Option::None)
}

/// The property map of a declared message, if every link exists.
pub open spec fn src_props_of(src: Option<MsgV>) -> Option<Seq<(Seq<char>, AttrV)>> {
    match src {
        Option::Some(m) => match m.property {
            Option::Some(p) => p.properties,
            Option::None => Option::None,
        },
        Option::None => Option::None,
    }
}

/// The required list of a declared message, if every link exists.
pub open spec fn src_req_of(src: Option<MsgV>) -> Option<Seq<Seq<char>>> {
    match src {
        Option::Some(m) => match m.property {
            Option::Some(p) => p.required,
            Option::None => Option::None,
        },
        Option::None => Option::None,
    }
}

/// The property map of a declared message's result, if every link exists.
pub open spec fn result_props_of(m: Option<MsgV>) -> Option<Seq<(Seq<char>, AttrV)>> {
    match m {
        Option::Some(mm) => match mm.result {
            Option::Some(r) => match r.property {
                Option::Some(p) => p.properties,
                Option::None => Option::None,
            },
            Option::None => Option::None,
        },
        Option::None => Option::None,
    }
}

/// The required list of a declared message's result, if every link exists.
pub open spec fn result_req_of(m: Option<MsgV>) -> Option<Seq<Seq<char>>> {
    match m {
        Option::Some(mm) => match mm.result {
            Option::Some(r) => match r.property {
                Option::Some(p) => p.required,
                Option::None => Option::None,
            },
            Option::None => Option::None,
        },
        Option::None => Option::None,
    }
}

/// The synthesized message schema: seeded empty — or from the source when
/// `keep` holds — then rewritten by the rules, skipping the rename rule.
/// The synthesized message carries the destination name, always has a
/// property map, and keeps the source's declared result when seeded from
/// it.
pub open spec fn synth_msg(
    src: Option<MsgV>,
    rules: Seq<RuleV>,
    keep: bool,
    skip: Option<int>,
    dest_name: Seq<char>,
) -> Result<MsgV, RuleError> {
    let seedp = if keep {
        match src_props_of(src) {
            Option::Some(m) => m,
            Option::None => Seq::empty(),
        }
    } else {
        Seq::empty()
    };
    let seedr = if keep {
        src_req_of(src)
    } else {
        Option::None
    };
    match convert_rules_spec(rules, skip, src_props_of(src), src_req_of(src), seedp, seedr, 0) {
        Result::Err(e) => Result::Err(e),
        Result::Ok(st) => Result::Ok(
            MsgV {
                name: dest_name,
                property: Option::Some(
                    PropertyV { properties: Option::Some(st.0), required: st.1 },
                ),
                result: if keep {
                    match src {
                        Option::Some(m) => m.result,
                        Option::None => Option::None,
                    }
                } else {
                    Option::None
                },
            },
        ),
    }
}

/// The synthesized result schema.  The roles invert: the seed — under
/// `keep` — and the required list come from the sender's declared result,
/// while FromOriginal lookups resolve against the receiver's declared
/// input result, because a command's result flows backward along the edge.
pub open spec fn synth_result(
    src: Option<MsgV>,
    dest: Option<MsgV>,
    rules: Seq<RuleV>,
    keep: bool,
) -> Result<CmdResultV, RuleError> {
    let seedp = if keep {
        match result_props_of(src) {
            Option::Some(m) => m,
            Option::None => Seq::empty(),
        }
    } else {
        Seq::empty()
    };
    let seedr = if keep {
        result_req_of(src)
    } else {
        Option::None
    };
    match convert_rules_spec(
        rules,
        Option::None,
        result_props_of(dest),
        result_req_of(src),
        seedp,
        seedr,
        0,
    ) {
        Result::Err(e) => Result::Err(e),
        Result::Ok(st) => Result::Ok(
            CmdResultV {
                property: Option::Some(
                    PropertyV { properties: Option::Some(st.0), required: st.1 },
                ),
            },
        ),
    }
}

/// `keep_original` read as the engine does: only an explicit `true` seeds
/// the synthesis from the source.
pub open spec fn keeps_original(mc: &MsgConversion) -> bool {
    mc.rules.keep_original == Option::Some(true)
}

/// Synthesize the effective destination message and result schemas for one
/// edge: resolve the source's declared schema — and, for the result
/// direction, the destination's — then run each declared rule set.  A
/// direction without a rule set synthesizes nothing and the raw schema
/// stands.
pub fn msg_conversion_get_final_target_schema(
    pkgs_cache: &PkgsCache,
    src_extension_addon: &String,
    dest_extension_addon: &String,
    msg_type: &MsgType,
    src_msg_name: &str,
    dest_msg_name: &str,
    ten_name_rule_index: Option<usize>,
    msg_conversion: &MsgAndResultConversion,
) -> (r: Result<(Option<ManifestApiMsg>, Option<ManifestApiCmdResult>), RuleError>)
    ensures
        ({
            let src_v = match msg_schema_lookup(
                pkgs_cache.pkgs@,
                src_extension_addon@,
                MsgDirection::Out,
                *msg_type,
                src_msg_name@,
            ) {
                Option::Some(m) => Option::Some(m.deep_view()),
                Option::None => Option::None,
            };
            let dest_v = match msg_schema_lookup(
                pkgs_cache.pkgs@,
                dest_extension_addon@,
                MsgDirection::In,
                *msg_type,
                dest_msg_name@,
            ) {
                Option::Some(m) => Option::Some(m.deep_view()),
                Option::None => Option::None,
            };
            let skipv = match ten_name_rule_index {
                Option::Some(s) => Option::Some(s as int),
                Option::None => Option::None,
            };
            match r {
                Result::Ok(pair) => {
                    &&& match &msg_conversion.msg {
                        Option::None => pair.0 is None,
                        Option::Some(mc) => {
                            &&& synth_msg(
                                src_v,
                                mc.rules.rules.deep_view(),
                                keeps_original(mc),
                                skipv,
                                dest_msg_name@,
                            ) matches Result::Ok(mv)
                            &&& pair.0 matches Option::Some(m) && m.deep_view() == mv
                        },
                    }
                    &&& match &msg_conversion.result {
                        Option::None => pair.1 is None,
                        Option::Some(rc) => {
                            &&& synth_result(
                                src_v,
                                dest_v,
                                rc.rules.rules.deep_view(),
                                keeps_original(rc),
                            ) matches Result::Ok(rv)
                            &&& pair.1 matches Option::Some(x) && x.deep_view() == rv
                        },
                    }
                },
                Result::Err(e) => {
                    let msg_failed = msg_conversion.msg matches Option::Some(mc) && synth_msg(
                        src_v,
                        mc.rules.rules.deep_view(),
                        keeps_original(&mc),
                        skipv,
                        dest_msg_name@,
                    ) is Err;
                    if msg_failed {
                        msg_conversion.msg matches Option::Some(mc) && synth_msg(
                            src_v,
                            mc.rules.rules.deep_view(),
                            keeps_original(&mc),
                            skipv,
                            dest_msg_name@,
                        ) == Result::Err::<MsgV, _>(e)
                    } else {
                        msg_conversion.result matches Option::Some(rc) && synth_result(
                            src_v,
                            dest_v,
                            rc.rules.rules.deep_view(),
                            keeps_original(&rc),
                        ) == Result::Err::<CmdResultV, _>(e)
                    }
                },
            }
        }),
{
    let src_msg_schema = get_msg_schema(
        pkgs_cache,
        src_extension_addon,
        &MsgDirection::Out,
        msg_type,
        src_msg_name,
    );
    let ghost src_v = match src_msg_schema {
        Option::Some(m) => Option::Some(m.deep_view()),
        Option::None => Option::None,
    };
    let mut converted_schema: Option<ManifestApiMsg> = Option::None;
    match &msg_conversion.msg {
        Option::Some(mc) => {
            let keep = match mc.rules.keep_original {
                Option::Some(true) => true,
                _ => false,
            };
            let mut props: Vec<(String, PropertyAttribute)> = Vec::new();
            let mut req: Option<Vec<String>> = Option::None;
            let mut result_field: Option<ManifestApiCmdResult> = Option::None;
            if keep {
                match src_msg_schema {
                    Option::Some(sm) => {
                        match &sm.property {
                            Option::Some(p) => {
                                match &p.properties {
                                    Option::Some(m) => {
                                        props = crate::attr::props_deep_clone(m);
                                        proof {
                                            crate::attr::lemma_props_view_is_deep(props);
                                            crate::attr::lemma_props_view_is_deep(*m);
                                        }
                                    },
                                    Option::None => {},
                                }
                                match &p.required {
                                    Option::Some(v) => {
                                        req = Option::Some(crate::attr::strings_clone(v));
                                    },
                                    Option::None => {},
                                }
                            },
                            Option::None => {},
                        }
                        match &sm.result {
                            Option::Some(rs) => {
                                result_field = Option::Some(cmd_result_deep_clone(rs));
                            },
                            Option::None => {},
                        }
                    },
                    Option::None => {},
                }
            }
            proof {
                assert(props.deep_view() =~= (if keep {
                    match src_props_of(src_v) {
                        Option::Some(m) => m,
                        Option::None => Seq::<(Seq<char>, AttrV)>::empty(),
                    }
                } else {
                    Seq::<(Seq<char>, AttrV)>::empty()
                }));
                assert(opt_req_view(&req) == (if keep {
                    src_req_of(src_v)
                } else {
                    Option::None::<Seq<Seq<char>>>
                }));
            }
            let src_props: Option<&Vec<(String, PropertyAttribute)>> = match src_msg_schema {
                Option::Some(sm) => match &sm.property {
                    Option::Some(p) => match &p.properties {
                        Option::Some(m) => Option::Some(m),
                        Option::None => Option::None,
                    },
                    Option::None => Option::None,
                },
                Option::None => Option::None,
            };
            let src_req: Option<&Vec<String>> = match src_msg_schema {
                Option::Some(sm) => match &sm.property {
                    Option::Some(p) => match &p.required {
                        Option::Some(v) => Option::Some(v),
                        Option::None => Option::None,
                    },
                    Option::None => Option::None,
                },
                Option::None => Option::None,
            };
            proof {
                if let Option::Some(m) = src_props {
                    crate::attr::lemma_props_view_is_deep(*m);
                }
                assert(opt_props_view(src_props) == src_props_of(src_v));
                assert((match src_req {
                    Option::Some(v) => Option::Some(v.deep_view()),
                    Option::None => Option::None::<Seq<Seq<char>>>,
                }) == src_req_of(src_v));
            }
            match convert_rules_to_schema_properties(
                &mc.rules.rules,
                ten_name_rule_index,
                src_props,
                src_req,
                &mut props,
                &mut req,
            ) {
                Result::Ok(()) => {},
                Result::Err(e) => {
                    return Result::Err(e);
                },
            }
            let synthesized = ManifestApiMsg {
                name: dest_msg_name.to_owned(),
                property: Option::Some(
                    ManifestApiProperty { properties: Option::Some(props), required: req },
                ),
                result: result_field,
            };
            proof {
                crate::attr::lemma_props_view_is_deep(
                    synthesized.property->0.properties->0,
                );
            }
            converted_schema = Option::Some(synthesized);
        },
        Option::None => {},
    }
    let mut converted_result_schema: Option<ManifestApiCmdResult> = Option::None;
    match &msg_conversion.result {
        Option::Some(rc) => {
            let keep = match rc.rules.keep_original {
                Option::Some(true) => true,
                _ => false,
            };
            let mut props: Vec<(String, PropertyAttribute)> = Vec::new();
            let mut req: Option<Vec<String>> = Option::None;
            if keep {
                match src_msg_schema {
                    Option::Some(sm) => match &sm.result {
                        Option::Some(rs) => match &rs.property {
                            Option::Some(p) => {
                                match &p.properties {
                                    Option::Some(m) => {
                                        props = crate::attr::props_deep_clone(m);
                                        proof {
                                            crate::attr::lemma_props_view_is_deep(props);
                                            crate::attr::lemma_props_view_is_deep(*m);
                                        }
                                    },
                                    Option::None => {},
                                }
                                match &p.required {
                                    Option::Some(v) => {
                                        req = Option::Some(crate::attr::strings_clone(v));
                                    },
                                    Option::None => {},
                                }
                            },
                            Option::None => {},
                        },
                        Option::None => {},
                    },
                    Option::None => {},
                }
            }
            proof {
                assert(props.deep_view() =~= (if keep {
                    match result_props_of(src_v) {
                        Option::Some(m) => m,
                        Option::None => Seq::<(Seq<char>, AttrV)>::empty(),
                    }
                } else {
                    Seq::<(Seq<char>, AttrV)>::empty()
                }));
                assert(opt_req_view(&req) == (if keep {
                    result_req_of(src_v)
                } else {
                    Option::None::<Seq<Seq<char>>>
                }));
            }
            let dest_msg_schema = get_msg_schema(
                pkgs_cache,
                dest_extension_addon,
                &MsgDirection::In,
                msg_type,
                dest_msg_name,
            );
            let ghost dest_v = match dest_msg_schema {
                Option::Some(m) => Option::Some(m.deep_view()),
                Option::None => Option::None,
            };
            let dest_properties: Option<&Vec<(String, PropertyAttribute)>> = match dest_msg_schema {
                Option::Some(dm) => match &dm.result {
                    Option::Some(rs) => match &rs.property {
                        Option::Some(p) => match &p.properties {
                            Option::Some(m) => Option::Some(m),
                            Option::None => Option::None,
                        },
                        Option::None => Option::None,
                    },
                    Option::None => Option::None,
                },
                Option::None => Option::None,
            };
            let src_result_required: Option<&Vec<String>> = match src_msg_schema {
                Option::Some(sm) => match &sm.result {
                    Option::Some(rs) => match &rs.property {
                        Option::Some(p) => match &p.required {
                            Option::Some(v) => Option::Some(v),
                            Option::None => Option::None,
                        },
                        Option::None => Option::None,
                    },
                    Option::None => Option::None,
                },
                Option::None => Option::None,
            };
            proof {
                if let Option::Some(m) = dest_properties {
                    crate::attr::lemma_props_view_is_deep(*m);
                }
                assert(opt_props_view(dest_properties) == result_props_of(dest_v));
                assert((match src_result_required {
                    Option::Some(v) => Option::Some(v.deep_view()),
                    Option::None => Option::None::<Seq<Seq<char>>>,
                }) == result_req_of(src_v));
            }
            match convert_rules_to_schema_properties(
                &rc.rules.rules,
                Option::None,
                dest_properties,
                src_result_required,
                &mut props,
                &mut req,
            ) {
                Result::Ok(()) => {},
                Result::Err(e) => {
                    return Result::Err(e);
                },
            }
            let synthesized = ManifestApiCmdResult {
                property: Option::Some(
                    ManifestApiProperty { properties: Option::Some(props), required: req },
                ),
            };
            proof {
                crate::attr::lemma_props_view_is_deep(
                    synthesized.property->0.properties->0,
                );
            }
            converted_result_schema = Option::Some(synthesized);
        },
        Option::None => {},
    }
    Result::Ok((converted_schema, converted_result_schema))
}

} // verus!
