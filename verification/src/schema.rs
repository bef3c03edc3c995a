//! Compiled schemas and the structural compatibility checker.  A compiled
//! schema is an object shape: named attributes plus a required-name list.
//! Compatibility is directional: every name the consumer requires must be
//! produced with a type whose values the consumer can accept — equal kinds,
//! or a numeric widening that loses no precision.

use vstd::prelude::*;

use crate::attr::{first_index, kv_get, AttrV, PropertyAttribute, ValueType};
use crate::attr::lemma_first_index;

verus! {

/// Does every value of kind `s` fit kind `t` without loss?  Equal kinds
/// always; a narrower integer fits a wider one of the same signedness; an
/// unsigned integer fits a strictly wider signed one; a 32-bit float fits a
/// 64-bit one.  Composite kinds are handled structurally, not here.
pub open spec fn kind_subtype(s: ValueType, t: ValueType) -> bool {
    ||| s == t
    ||| match s {
        ValueType::Int8 => t == ValueType::Int16 || t == ValueType::Int32 || t
            == ValueType::Int64,
        ValueType::Int16 => t == ValueType::Int32 || t == ValueType::Int64,
        ValueType::Int32 => t == ValueType::Int64,
        ValueType::Uint8 => t == ValueType::Uint16 || t == ValueType::Uint32 || t
            == ValueType::Uint64 || t == ValueType::Int16 || t == ValueType::Int32 || t
            == ValueType::Int64,
        ValueType::Uint16 => t == ValueType::Uint32 || t == ValueType::Uint64 || t
            == ValueType::Int32 || t == ValueType::Int64,
        ValueType::Uint32 => t == ValueType::Uint64 || t == ValueType::Int64,
        ValueType::Float32 => t == ValueType::Float64,
        _ => false,
    }
}

/// Structural compatibility of a produced attribute `s` with a consumed
/// attribute `t`.  For objects, every name `t` requires must exist in `s`
/// with a compatible type — `s` may produce extra, unrequired names; for
/// arrays, the item templates are compared recursively; for scalars, the
/// produced kind must fit the consumed kind.
pub open spec fn attr_compatible(s: AttrV, t: AttrV) -> bool
    decreases t, 0int,
{
    if t.kind == ValueType::Object {
        &&& s.kind == ValueType::Object
        &&& req_names_ok(
            s.properties,
            t.properties,
            match t.required {
                Option::Some(r) => r,
                Option::None => Seq::empty(),
            },
        )
    } else if t.kind == ValueType::Array {
        &&& s.kind == ValueType::Array
        &&& match t.items {
            Option::None => true,
            Option::Some(tb) => match s.items {
                Option::None => false,
                Option::Some(sb) => attr_compatible(*sb, *tb),
            },
        }
    } else {
        kind_subtype(s.kind, t.kind)
    }
}

/// Every name in `req` exists in the produced map `sp` and, where the
/// consumed map `tp` declares a shape for it, is compatible with it.
pub open spec fn req_names_ok(
    sp: Option<Seq<(Seq<char>, AttrV)>>,
    tp: Option<Seq<(Seq<char>, AttrV)>>,
    req: Seq<Seq<char>>,
) -> bool
    decreases tp, req.len(),
    when true
    via req_names_ok_dec
{
    if req.len() == 0 {
        true
    } else {
        let name = req[0];
        let head_ok = match sp {
            Option::None => false,
            Option::Some(sm) => {
                let sfi = first_index(sm, name);
                if sfi < 0 {
                    false
                } else {
                    match tp {
                        Option::None => true,
                        Option::Some(tm) => {
                            let tfi = first_index(tm, name);
                            if tfi < 0 {
                                true
                            } else {
                                attr_compatible(sm[sfi].1, tm[tfi].1)
                            }
                        },
                    }
                }
            },
        };
        head_ok && req_names_ok(sp, tp, req.drop_first())
    }
}

#[via_fn]
proof fn req_names_ok_dec(
    sp: Option<Seq<(Seq<char>, AttrV)>>,
    tp: Option<Seq<(Seq<char>, AttrV)>>,
    req: Seq<Seq<char>>,
) {
    if req.len() > 0 {
        match tp {
            Option::Some(tm) => {
                lemma_first_index(tm, req[0]);
            },
            Option::None => {},
        }
    }
}

fn kind_subtype_check(s: ValueType, t: ValueType) -> (r: bool)
    ensures
        r == kind_subtype(s, t),
{
    if s == t {
        return true;
    }
    match s {
        ValueType::Int8 => t == ValueType::Int16 || t == ValueType::Int32 || t == ValueType::Int64,
        ValueType::Int16 => t == ValueType::Int32 || t == ValueType::Int64,
        ValueType::Int32 => t == ValueType::Int64,
        ValueType::Uint8 => t == ValueType::Uint16 || t == ValueType::Uint32 || t
            == ValueType::Uint64 || t == ValueType::Int16 || t == ValueType::Int32 || t
            == ValueType::Int64,
        ValueType::Uint16 => t == ValueType::Uint32 || t == ValueType::Uint64 || t
            == ValueType::Int32 || t == ValueType::Int64,
        ValueType::Uint32 => t == ValueType::Uint64 || t == ValueType::Int64,
        ValueType::Float32 => t == ValueType::Float64,
        _ => false,
    }
}

/// Decide `attr_compatible` on two attribute trees.
pub fn attrs_compatible(s: &PropertyAttribute, t: &PropertyAttribute) -> (r: bool)
    ensures
        r == attr_compatible(s.deep_view(), t.deep_view()),
    decreases *t, 0int,
{
    let ghost sv = s.deep_view();
    let ghost tv = t.deep_view();
    if t.prop_type == ValueType::Object {
        if s.prop_type != ValueType::Object {
            return false;
        }
        let ghost treqv = match tv.required {
            Option::Some(r) => r,
            Option::None => Seq::<Seq<char>>::empty(),
        };
        let ghost spv = sv.properties;
        let ghost tpv = tv.properties;
        match &t.required {
            Option::None => {
                assert(req_names_ok(spv, tpv, treqv));
                true
            },
            Option::Some(req) => {
                proof {
                    assert(treqv == req.deep_view());
                    if let Option::Some(m) = &s.properties {
                        crate::attr::lemma_props_view_is_deep(*m);
                    }
                    if let Option::Some(m) = &t.properties {
                        crate::attr::lemma_props_view_is_deep(*m);
                    }
                }
                let nreq = req.len();
                proof {
                    assert(treqv.skip(0) =~= treqv);
                }
                for k in 0..nreq
                    invariant
                        nreq == req@.len(),
                        treqv == req.deep_view(),
                        tv.required == Option::Some(treqv),
                        treqv.len() == nreq,
                        spv == s.deep_view().properties,
                        tpv == t.deep_view().properties,
                        sv == s.deep_view(),
                        tv == t.deep_view(),
                        s.prop_type == ValueType::Object,
                        t.prop_type == ValueType::Object,
                        tv.kind == ValueType::Object,
                        sv.kind == ValueType::Object,
                        req_names_ok(spv, tpv, treqv) == req_names_ok(spv, tpv, treqv.skip(k as int)),
                        (match &s.properties {
                            Option::Some(m) => spv == Option::Some(m.deep_view()),
                            Option::None => spv is None,
                        }),
                        (match &t.properties {
                            Option::Some(m) => tpv == Option::Some(m.deep_view()),
                            Option::None => tpv is None,
                        }),
                    decreases nreq - k,
                {
                    let ghost rest = treqv.skip(k as int);
                    proof {
                        assert(rest[0] == treqv[k as int]);
                        assert(treqv[k as int] == req@[k as int]@);
                        assert(rest.drop_first() =~= treqv.skip(k as int + 1));
                    }
                    let name = &req[k];
                    let head_ok: bool = match &s.properties {
                        Option::None => false,
                        Option::Some(sm) => {
                            match kv_get(sm, name) {
                                Option::None => false,
                                Option::Some(s_child) => {
                                    match &t.properties {
                                        Option::None => true,
                                        Option::Some(tm) => {
                                            match kv_get(tm, name) {
                                                Option::None => true,
                                                Option::Some(t_child) => {
                                                    proof {
                                                        let tmv = tm.deep_view();
                                                        lemma_first_index(tmv, name@);
                                                        assert(tm@[first_index(tmv, name@)].1
                                                            == *t_child);
                                                        assert(decreases_to!(*t =>
                                                            tm@[first_index(tmv, name@)].1));
                                                    }
                                                    attrs_compatible(s_child, t_child)
                                                },
                                            }
                                        },
                                    }
                                },
                            }
                        },
                    };
                    if !head_ok {
                        proof {
                            assert(!req_names_ok(spv, tpv, rest));
                            assert(attr_compatible(sv, tv) == (sv.kind == ValueType::Object
                                && req_names_ok(spv, tpv, treqv)));
                            assert(!attr_compatible(sv, tv));
                        }
                        return false;
                    }
                    proof {
                        assert(req_names_ok(spv, tpv, rest) == req_names_ok(
                            spv,
                            tpv,
                            rest.drop_first(),
                        ));
                    }
                }
                proof {
                    assert(treqv.skip(nreq as int) =~= Seq::<Seq<char>>::empty());
                }
                true
            },
        }
    } else if t.prop_type == ValueType::Array {
        if s.prop_type != ValueType::Array {
            return false;
        }
        match &t.items {
            Option::None => true,
            Option::Some(tb) => match &s.items {
                Option::None => false,
                Option::Some(sb) => attrs_compatible(&**sb, &**tb),
            },
        }
    } else {
        kind_subtype_check(s.prop_type, t.prop_type)
    }
}

/// One produced name satisfies one required name: it exists in the produced
/// map and, where the consumed map types it, compatibly so.
pub open spec fn req_name_ok(
    sp: Option<Seq<(Seq<char>, AttrV)>>,
    tp: Option<Seq<(Seq<char>, AttrV)>>,
    name: Seq<char>,
) -> bool {
    match sp {
        Option::None => false,
        Option::Some(sm) => {
            let sfi = first_index(sm, name);
            if sfi < 0 {
                false
            } else {
                match tp {
                    Option::None => true,
                    Option::Some(tm) => {
                        let tfi = first_index(tm, name);
                        if tfi < 0 {
                            true
                        } else {
                            attr_compatible(sm[sfi].1, tm[tfi].1)
                        }
                    },
                }
            }
        },
    }
}

/// The required-name check holds exactly when every single required name is
/// produced with a compatible type.
pub proof fn lemma_req_names_ok_iff_each(
    sp: Option<Seq<(Seq<char>, AttrV)>>,
    tp: Option<Seq<(Seq<char>, AttrV)>>,
    req: Seq<Seq<char>>,
)
    ensures
        req_names_ok(sp, tp, req) <==> forall|i: int|
            0 <= i < req.len() ==> req_name_ok(sp, tp, #[trigger] req[i]),
    decreases req.len(),
{
    if req.len() > 0 {
        lemma_req_names_ok_iff_each(sp, tp, req.drop_first());
        if req_names_ok(sp, tp, req) {
            assert forall|i: int| 0 <= i < req.len() implies req_name_ok(sp, tp, req[i]) by {
                if i > 0 {
                    assert(req.drop_first()[i - 1] == req[i]);
                }
            }
        } else {
            if req_name_ok(sp, tp, req[0]) {
                assert(!req_names_ok(sp, tp, req.drop_first()));
                let i = choose|i: int|
                    0 <= i < req.drop_first().len() && !req_name_ok(
                        sp,
                        tp,
                        #[trigger] req.drop_first()[i],
                    );
                assert(req[i + 1] == req.drop_first()[i]);
                assert(!req_name_ok(sp, tp, req[i + 1]));
            }
        }
    }
}

/// A compiled schema: an object shape — named attributes plus the list of
/// names a conforming message must carry.
#[derive(Debug)]
pub struct TenSchema {
    pub attr: PropertyAttribute,
}

impl DeepView for TenSchema {
    type V = AttrV;

    open spec fn deep_view(&self) -> AttrV {
        self.attr.deep_view()
    }
}

/// The compiled message and reply schemas of one declared message.
#[derive(Debug)]
pub struct TenMsgSchema {
    /// Schema for the message payload.
    pub msg: Option<TenSchema>,
    /// Schema for the command's reply.
    pub result: Option<TenSchema>,
}

/// Model of a compiled message schema pair.
#[verifier::ext_equal]
pub ghost struct MsgSchemaV {
    pub msg: Option<AttrV>,
    pub result: Option<AttrV>,
}

impl DeepView for TenMsgSchema {
    type V = MsgSchemaV;

    open spec fn deep_view(&self) -> MsgSchemaV {
        MsgSchemaV {
            msg: match self.msg {
                Option::Some(s) => Option::Some(s.deep_view()),
                Option::None => Option::None,
            },
            result: match self.result {
                Option::Some(s) => Option::Some(s.deep_view()),
                Option::None => Option::None,
            },
        }
    }
}

/// Why a compatibility check failed.
#[derive(Clone, Copy, PartialEq, Eq, Structural, Debug)]
pub enum SchemaError {
    /// The consuming side declares no schema and the caller did not allow
    /// that.
    TargetUndefined,
    /// The producing side declares no schema and the caller did not allow
    /// that.
    SourceUndefined,
    /// The shapes conflict.
    Incompatible,
}

impl SchemaError {
    /// A short description for error reports.
    pub fn message(&self) -> String {
        match self {
            SchemaError::TargetUndefined => "target schema is undefined".to_owned(),
            SchemaError::SourceUndefined => "source schema is undefined".to_owned(),
            SchemaError::Incompatible => "schema incompatibility".to_owned(),
        }
    }
}

/// When a pair of optional schemas passes the check: a missing side passes
/// only where the caller opted into permissive absence.
pub open spec fn ten_compat_ok(
    s: Option<AttrV>,
    t: Option<AttrV>,
    none_source_ok: bool,
    none_target_ok: bool,
) -> bool {
    match t {
        Option::None => none_target_ok,
        Option::Some(tv) => match s {
            Option::None => none_source_ok,
            Option::Some(sv) => attr_compatible(sv, tv),
        },
    }
}

/// The error such a failed check reports.
pub open spec fn ten_compat_err(
    s: Option<AttrV>,
    t: Option<AttrV>,
) -> SchemaError {
    match t {
        Option::None => SchemaError::TargetUndefined,
        Option::Some(_) => match s {
            Option::None => SchemaError::SourceUndefined,
            Option::Some(_) => SchemaError::Incompatible,
        },
    }
}

/// Passes exactly when every name `target` requires exists in `source`
/// with a recursively compatible type; a missing operand passes only under
/// the matching permissive flag.
pub fn are_ten_schemas_compatible(
    source: Option<&TenSchema>,
    target: Option<&TenSchema>,
    none_source_is_not_error: bool,
    none_target_is_not_error: bool,
) -> (r: Result<(), SchemaError>)
    ensures
        ({
            let sv = match source {
                Option::Some(s) => Option::Some(s.deep_view()),
                Option::None => Option::None,
            };
            let tv = match target {
                Option::Some(t) => Option::Some(t.deep_view()),
                Option::None => Option::None,
            };
            match r {
                Result::Ok(()) => ten_compat_ok(
                    sv,
                    tv,
                    none_source_is_not_error,
                    none_target_is_not_error,
                ),
                Result::Err(e) => !ten_compat_ok(
                    sv,
                    tv,
                    none_source_is_not_error,
                    none_target_is_not_error,
                ) && e == ten_compat_err(sv, tv),
            }
        }),
{
    let t = match target {
        Option::Some(t) => t,
        Option::None => {
            if none_target_is_not_error {
                return Result::Ok(());
            } else {
                return Result::Err(SchemaError::TargetUndefined);
            }
        },
    };
    let s = match source {
        Option::Some(s) => s,
        Option::None => {
            if none_source_is_not_error {
                return Result::Ok(());
            } else {
                return Result::Err(SchemaError::SourceUndefined);
            }
        },
    };
    if attrs_compatible(&s.attr, &t.attr) {
        Result::Ok(())
    } else {
        Result::Err(SchemaError::Incompatible)
    }
}

/// When a pair of optional message schemas passes: the payload direction is
/// covariant and honors the caller's flags; the reply direction reverses —
/// a command's result flows backward — and is always permissive of absence.
pub open spec fn msg_compat_ok(
    s: Option<MsgSchemaV>,
    t: Option<MsgSchemaV>,
    none_source_ok: bool,
    none_target_ok: bool,
) -> bool {
    match t {
        Option::None => none_target_ok,
        Option::Some(tv) => match s {
            Option::None => none_source_ok,
            Option::Some(sv) => ten_compat_ok(sv.msg, tv.msg, none_source_ok, none_target_ok)
                && ten_compat_ok(tv.result, sv.result, true, true),
        },
    }
}

/// The error such a failed check reports: the payload direction is checked
/// first.
pub open spec fn msg_compat_err(
    s: Option<MsgSchemaV>,
    t: Option<MsgSchemaV>,
    none_source_ok: bool,
    none_target_ok: bool,
) -> SchemaError {
    match t {
        Option::None => SchemaError::TargetUndefined,
        Option::Some(tv) => match s {
            Option::None => SchemaError::SourceUndefined,
            Option::Some(sv) => if !ten_compat_ok(sv.msg, tv.msg, none_source_ok, none_target_ok) {
                ten_compat_err(sv.msg, tv.msg)
            } else {
                ten_compat_err(tv.result, sv.result)
            },
        },
    }
}

/// Combined check for one declared message: payload covariant under the
/// caller's flags, reply contravariant and always permissive.  So a target
/// whose payload accepts the source is still rejected when the source
/// cannot accept the target's reply.
pub fn are_msg_schemas_compatible(
    source: Option<&TenMsgSchema>,
    target: Option<&TenMsgSchema>,
    none_source_is_not_error: bool,
    none_target_is_not_error: bool,
) -> (r: Result<(), SchemaError>)
    ensures
        ({
            let sv = match source {
                Option::Some(s) => Option::Some(s.deep_view()),
                Option::None => Option::None,
            };
            let tv = match target {
                Option::Some(t) => Option::Some(t.deep_view()),
                Option::None => Option::None,
            };
            match r {
                Result::Ok(()) => msg_compat_ok(
                    sv,
                    tv,
                    none_source_is_not_error,
                    none_target_is_not_error,
                ),
                Result::Err(e) => !msg_compat_ok(
                    sv,
                    tv,
                    none_source_is_not_error,
                    none_target_is_not_error,
                ) && e == msg_compat_err(
                    sv,
                    tv,
                    none_source_is_not_error,
                    none_target_is_not_error,
                ),
            }
        }),
{
    let t = match target {
        Option::Some(t) => t,
        Option::None => {
            if none_target_is_not_error {
                return Result::Ok(());
            } else {
                return Result::Err(SchemaError::TargetUndefined);
            }
        },
    };
    let s = match source {
        Option::Some(s) => s,
        Option::None => {
            if none_source_is_not_error {
                return Result::Ok(());
            } else {
                return Result::Err(SchemaError::SourceUndefined);
            }
        },
    };
    match are_ten_schemas_compatible(
        s.msg.as_ref(),
        t.msg.as_ref(),
        none_source_is_not_error,
        none_target_is_not_error,
    ) {
        Result::Ok(()) => {},
        Result::Err(e) => {
            return Result::Err(e);
        },
    }
    // The reply flows from consumer back to producer, so the roles reverse,
    // and either side may simply not declare a reply contract.
    match are_ten_schemas_compatible(t.result.as_ref(), s.result.as_ref(), true, true) {
        Result::Ok(()) => Result::Ok(()),
        Result::Err(e) => Result::Err(e),
    }
}

} // verus!
