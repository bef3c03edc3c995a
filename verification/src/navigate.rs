//! The path navigator: resolves a parsed property path against an attribute
//! tree.  The read navigator never mutates and answers "not found" on any
//! miss; the write navigator materializes missing intermediate nodes on
//! demand and fails only when an existing node's kind conflicts with what a
//! segment demands.

use vstd::prelude::*;

use crate::attr::{
    first_index, map_get_s, map_set_s, props_view, seq_deep, kv_get, kv_index_of,
    lemma_first_index, lemma_seq_deep_remove, strings_contain, AttrV, PropertyAttribute,
    ValueType,
};
use crate::path::{parse_path, path_parse, PathSeg, SegV};

verus! {

/// What a write at the addressed node does: overwrite only its kind, or
/// replace the whole attribute.
pub enum WriteOp {
    SetKind(ValueType),
    SetAttr(PropertyAttribute),
}

/// Model of a write operation.
pub ghost enum OpV {
    SetKind(ValueType),
    SetAttr(AttrV),
}

impl DeepView for WriteOp {
    type V = OpV;

    open spec fn deep_view(&self) -> OpV {
        match self {
            WriteOp::SetKind(k) => OpV::SetKind(*k),
            WriteOp::SetAttr(a) => OpV::SetAttr(a.deep_view()),
        }
    }
}

pub open spec fn apply_op(a: AttrV, op: OpV) -> AttrV {
    match op {
        OpV::SetKind(k) => AttrV { kind: k, ..a },
        OpV::SetAttr(n) => n,
    }
}

/// Placeholder for a missing final node: an empty Array or Object.
pub open spec fn leaf_default(indexed: bool) -> AttrV {
    AttrV {
        kind: if indexed {
            ValueType::Array
        } else {
            ValueType::Object
        },
        items: Option::None,
        properties: Option::None,
        required: Option::None,
    }
}

/// Placeholder for a missing intermediate node: as `leaf_default`, but with
/// an empty child map ready to be navigated into.
pub open spec fn interior_default(indexed: bool) -> AttrV {
    AttrV {
        kind: if indexed {
            ValueType::Array
        } else {
            ValueType::Object
        },
        items: Option::None,
        properties: Option::Some(Seq::empty()),
        required: Option::None,
    }
}

/// Placeholder item template of an Array addressed at the final segment.
pub open spec fn item_leaf_default() -> AttrV {
    AttrV {
        kind: ValueType::Object,
        items: Option::None,
        properties: Option::None,
        required: Option::None,
    }
}

/// Placeholder item template of an Array navigated through.
pub open spec fn item_interior_default() -> AttrV {
    AttrV {
        kind: ValueType::Object,
        items: Option::None,
        properties: Option::Some(Seq::empty()),
        required: Option::None,
    }
}

/// Read navigation: the attribute found at `segs` under `props`, if any.
/// At an indexed final segment the Array's single item template is the
/// answer.  Any missing name or kind mismatch answers `None`.
pub open spec fn nav_read(props: Seq<(Seq<char>, AttrV)>, segs: Seq<SegV>) -> Option<AttrV>
    decreases segs.len(),
{
    if segs.len() == 0 {
        Option::None
    } else {
        match map_get_s(props, segs[0].name) {
            Option::None => Option::None,
            Option::Some(a) => {
                if segs.len() == 1 {
                    if segs[0].indexed {
                        match a.items {
                            Option::Some(b) => {
                                if a.kind == ValueType::Array {
                                    Option::Some(*b)
                                } else {
                                    Option::None
                                }
                            },
                            Option::None => Option::None,
                        }
                    } else {
                        Option::Some(a)
                    }
                } else {
                    if segs[0].indexed {
                        match a.items {
                            Option::Some(b) => {
                                if a.kind == ValueType::Array {
                                    match b.properties {
                                        Option::Some(inner) => nav_read(inner, segs.drop_first()),
                                        Option::None => Option::None,
                                    }
                                } else {
                                    Option::None
                                }
                            },
                            Option::None => Option::None,
                        }
                    } else {
                        if a.kind == ValueType::Object {
                            match a.properties {
                                Option::Some(inner) => nav_read(inner, segs.drop_first()),
                                Option::None => Option::None,
                            }
                        } else {
                            Option::None
                        }
                    }
                }
            },
        }
    }
}

/// Required-ness reported by the read navigator: `None` for an indexed
/// final segment; otherwise membership in the originating map's required
/// list, which is only consulted when the walk never left that map.
pub open spec fn req_flag(segs: Seq<SegV>, req: Option<Seq<Seq<char>>>) -> Option<bool>
    recommends
        segs.len() >= 1,
{
    if segs.last().indexed {
        Option::None
    } else if segs.len() == 1 {
        Option::Some(
            match req {
                Option::Some(r) => r.contains(segs[0].name),
                Option::None => false,
            },
        )
    } else {
        Option::Some(false)
    }
}

/// The read navigator's whole answer for a path string.
pub open spec fn read_result(
    props: Option<Seq<(Seq<char>, AttrV)>>,
    req: Option<Seq<Seq<char>>>,
    path: Seq<char>,
) -> Option<(AttrV, Option<bool>)> {
    match props {
        Option::None => Option::None,
        Option::Some(p) => match path_parse(path) {
            Option::None => Option::None,
            Option::Some(segs) => match nav_read(p, segs) {
                Option::None => Option::None,
                Option::Some(a) => Option::Some((a, req_flag(segs, req))),
            },
        },
    }
}

/// Write navigation: the transformed map, or `None` on a kind conflict.
/// Missing nodes are materialized: a bare missing name becomes an Object
/// (an Array when indexed), a missing item template an Object; intermediate
/// placeholders carry an empty child map, a final placeholder none.
pub open spec fn nav_write(props: Seq<(Seq<char>, AttrV)>, segs: Seq<SegV>, op: OpV) -> Option<
    Seq<(Seq<char>, AttrV)>,
>
    decreases segs.len(),
{
    if segs.len() == 0 {
        Option::None
    } else {
        let name = segs[0].name;
        let idx = segs[0].indexed;
        let cur = map_get_s(props, name);
        if segs.len() == 1 {
            let base = match cur {
                Option::Some(a) => a,
                Option::None => leaf_default(idx),
            };
            if idx {
                if base.kind != ValueType::Array {
                    Option::None
                } else {
                    let item = match base.items {
                        Option::Some(b) => *b,
                        Option::None => item_leaf_default(),
                    };
                    Option::Some(
                        map_set_s(
                            props,
                            name,
                            AttrV { items: Option::Some(Box::new(apply_op(item, op))), ..base },
                        ),
                    )
                }
            } else {
                Option::Some(map_set_s(props, name, apply_op(base, op)))
            }
        } else {
            let base = match cur {
                Option::Some(a) => a,
                Option::None => interior_default(idx),
            };
            if idx {
                if base.kind != ValueType::Array {
                    Option::None
                } else {
                    let item = match base.items {
                        Option::Some(b) => *b,
                        Option::None => item_interior_default(),
                    };
                    let inner = match item.properties {
                        Option::Some(p) => p,
                        Option::None => Seq::empty(),
                    };
                    match nav_write(inner, segs.drop_first(), op) {
                        Option::None => Option::None,
                        Option::Some(inner2) => Option::Some(
                            map_set_s(
                                props,
                                name,
                                AttrV {
                                    items: Option::Some(
                                        Box::new(
                                            AttrV { properties: Option::Some(inner2), ..item },
                                        ),
                                    ),
                                    ..base
                                },
                            ),
                        ),
                    }
                }
            } else {
                if base.kind != ValueType::Object {
                    Option::None
                } else {
                    let inner = match base.properties {
                        Option::Some(p) => p,
                        Option::None => Seq::empty(),
                    };
                    match nav_write(inner, segs.drop_first(), op) {
                        Option::None => Option::None,
                        Option::Some(inner2) => Option::Some(
                            map_set_s(
                                props,
                                name,
                                AttrV { properties: Option::Some(inner2), ..base },
                            ),
                        ),
                    }
                }
            }
        }
    }
}

/// Read navigator over parsed segments, from segment `i` on.
fn nav_read_rec<'a>(
    props: &'a Vec<(String, PropertyAttribute)>,
    segs: &Vec<PathSeg>,
    i: usize,
) -> (r: Option<&'a PropertyAttribute>)
    requires
        i < segs@.len(),
    ensures
        match r {
            Option::Some(a) => nav_read(props.deep_view(), segs.deep_view().skip(i as int))
                == Option::Some(a.deep_view()),
            Option::None => nav_read(props.deep_view(), segs.deep_view().skip(i as int))
                == Option::None::<AttrV>,
        },
    decreases segs@.len() - i,
{
    let ghost segv = segs.deep_view().skip(i as int);
    proof {
        assert(segv[0] == segs.deep_view()[i as int]);
        assert(segs.deep_view()[i as int] == segs@[i as int].deep_view());
    }
    let n = segs.len();
    let seg = &segs[i];
    let found = kv_get(props, &seg.name);
    match found {
        Option::None => {
            assert(nav_read(props.deep_view(), segv) == Option::None::<AttrV>);
            Option::None
        },
        Option::Some(a) => {
            proof {
                assert(map_get_s(props.deep_view(), segv[0].name) == Option::Some(a.deep_view()));
            }
            if i + 1 == n {
                proof {
                    assert(segv.len() == 1);
                }
                if seg.indexed {
                    if a.prop_type != ValueType::Array {
                        assert(a.deep_view().kind != ValueType::Array);
                        assert(nav_read(props.deep_view(), segv) == Option::None::<AttrV>);
                        return Option::None;
                    }
                    match &a.items {
                        Option::Some(b) => {
                            proof {
                                assert(a.deep_view().items == Option::Some(
                                    Box::new((**b).deep_view()),
                                ));
                                assert(nav_read(props.deep_view(), segv) == Option::Some(
                                    (**b).deep_view(),
                                ));
                            }
                            Option::Some(&**b)
                        },
                        Option::None => {
                            assert(a.deep_view().items is None);
                            assert(nav_read(props.deep_view(), segv) == Option::None::<AttrV>);
                            Option::None
                        },
                    }
                } else {
                    assert(nav_read(props.deep_view(), segv) == Option::Some(a.deep_view()));
                    Option::Some(a)
                }
            } else {
                proof {
                    assert(segv.drop_first() =~= segs.deep_view().skip(i as int + 1));
                }
                if seg.indexed {
                    if a.prop_type != ValueType::Array {
                        assert(nav_read(props.deep_view(), segv) == Option::None::<AttrV>);
                        return Option::None;
                    }
                    match &a.items {
                        Option::Some(b) => match &b.properties {
                            Option::Some(inner) => {
                                proof {
                                    crate::attr::lemma_props_view_is_deep(*inner);
                                    assert(a.deep_view().items == Option::Some(
                                        Box::new((**b).deep_view()),
                                    ));
                                    assert((**b).deep_view().properties == Option::Some(
                                        inner.deep_view(),
                                    ));
                                    assert(nav_read(props.deep_view(), segv) == nav_read(
                                        inner.deep_view(),
                                        segv.drop_first(),
                                    ));
                                }
                                let r = nav_read_rec(inner, segs, i + 1);
                                proof {
                                    match r {
                                        Option::Some(x) => {
                                            assert(nav_read(props.deep_view(), segv)
                                                == Option::Some(x.deep_view()));
                                        },
                                        Option::None => {
                                            assert(nav_read(props.deep_view(), segv)
                                                == Option::None::<AttrV>);
                                        },
                                    }
                                }
                                r
                            },
                            Option::None => {
                                proof {
                                    assert(a.deep_view().items == Option::Some(
                                        Box::new((**b).deep_view()),
                                    ));
                                    assert((**b).deep_view().properties is None);
                                    assert(nav_read(props.deep_view(), segv)
                                        == Option::None::<AttrV>);
                                }
                                Option::None
                            },
                        },
                        Option::None => {
                            proof {
                                assert(a.deep_view().items is None);
                                assert(nav_read(props.deep_view(), segv) == Option::None::<AttrV>);
                            }
                            Option::None
                        },
                    }
                } else {
                    if a.prop_type != ValueType::Object {
                        assert(nav_read(props.deep_view(), segv) == Option::None::<AttrV>);
                        return Option::None;
                    }
                    match &a.properties {
                        Option::Some(inner) => {
                            proof {
                                crate::attr::lemma_props_view_is_deep(*inner);
                                assert(a.deep_view().properties == Option::Some(inner.deep_view()));
                                assert(nav_read(props.deep_view(), segv) == nav_read(
                                    inner.deep_view(),
                                    segv.drop_first(),
                                ));
                            }
                            let r = nav_read_rec(inner, segs, i + 1);
                            proof {
                                match r {
                                    Option::Some(x) => {
                                        assert(nav_read(props.deep_view(), segv) == Option::Some(
                                            x.deep_view(),
                                        ));
                                    },
                                    Option::None => {
                                        assert(nav_read(props.deep_view(), segv)
                                            == Option::None::<AttrV>);
                                    },
                                }
                            }
                            r
                        },
                        Option::None => {
                            proof {
                                assert(a.deep_view().properties is None);
                                assert(nav_read(props.deep_view(), segv) == Option::None::<AttrV>);
                            }
                            Option::None
                        },
                    }
                }
            }
        },
    }
}

proof fn lemma_remove_insert<T>(s: Seq<T>, j: int, x: T)
    requires
        0 <= j < s.len(),
    ensures
        s.remove(j).insert(j, x) == s.update(j, x),
{
    assert(s.remove(j).insert(j, x) =~= s.update(j, x));
}

proof fn lemma_push_remove_last<T>(s: Seq<T>, x: T)
    ensures
        s.push(x).remove(s.len() as int) == s,
{
    assert(s.push(x).remove(s.len() as int) =~= s);
}

proof fn lemma_insert_at_len<T>(s: Seq<T>, x: T)
    ensures
        s.insert(s.len() as int, x) == s.push(x),
{
    assert(s.insert(s.len() as int, x) =~= s.push(x));
}

fn apply_op_owned(a: PropertyAttribute, op: WriteOp) -> (r: PropertyAttribute)
    ensures
        r.deep_view() == apply_op(a.deep_view(), op.deep_view()),
{
    match op {
        WriteOp::SetKind(k) => PropertyAttribute { prop_type: k, ..a },
        WriteOp::SetAttr(b) => b,
    }
}

/// Write navigator over parsed segments, from segment `i` on.  On success
/// the map has been rewritten exactly as `nav_write` describes; on a kind
/// conflict the map is left in an unspecified intermediate state, which the
/// callers discard.
fn navigate_write_rec(
    props: &mut Vec<(String, PropertyAttribute)>,
    segs: &Vec<PathSeg>,
    i: usize,
    op: WriteOp,
) -> (ok: bool)
    requires
        i < segs@.len(),
    ensures
        ok ==> nav_write(old(props).deep_view(), segs.deep_view().skip(i as int), op.deep_view())
            == Option::Some(final(props).deep_view()),
        !ok ==> nav_write(old(props).deep_view(), segs.deep_view().skip(i as int), op.deep_view())
            == Option::None::<Seq<(Seq<char>, AttrV)>>,
    decreases segs@.len() - i,
{
    let ghost dv0 = props.deep_view();
    let ghost segv = segs.deep_view().skip(i as int);
    let ghost opv = op.deep_view();
    proof {
        assert(segv[0] == segs.deep_view()[i as int]);
        assert(segs.deep_view()[i as int] == segs@[i as int].deep_view());
        assert(dv0 =~= seq_deep(props@));
    }
    let n = segs.len();
    let seg = &segs[i];
    let last = i + 1 == n;
    proof {
        assert(last == (segv.len() == 1));
        lemma_first_index(dv0, seg.name@);
    }
    // The node the spec works on: the existing entry, or the placeholder
    // materialized for a missing name.
    let ghost base = match map_get_s(dv0, segv[0].name) {
        Option::Some(a) => a,
        Option::None => if segv.len() == 1 {
            leaf_default(segv[0].indexed)
        } else {
            interior_default(segv[0].indexed)
        },
    };
    let ghost absent = map_get_s(dv0, segv[0].name) is None;
    let j = match kv_index_of(props, &seg.name) {
        Option::Some(j) => j,
        Option::None => {
            let fresh = PropertyAttribute {
                prop_type: if seg.indexed {
                    ValueType::Array
                } else {
                    ValueType::Object
                },
                items: Option::None,
                properties: if last {
                    Option::None
                } else {
                    Option::Some(Vec::new())
                },
                required: Option::None,
            };
            proof {
                if !last {
                    let v = fresh.properties->0;
                    assert(v@ =~= Seq::<(String, PropertyAttribute)>::empty());
                    assert(props_view(v@) =~= Seq::<(Seq<char>, AttrV)>::empty());
                }
                assert(fresh.deep_view() =~~= base);
            }
            let j = props.len();
            let ghost sh0 = props@;
            props.push((seg.name.clone(), fresh));
            proof {
                assert forall|k: int| 0 <= k < props@.len() implies props.deep_view()[k]
                    == dv0.push((segv[0].name, base))[k] by {
                    assert(props.deep_view()[k] == props@[k].deep_view());
                    if k < sh0.len() {
                        assert(props@[k] == sh0[k]);
                        assert(dv0[k] == sh0[k].deep_view());
                    }
                }
                assert(props.deep_view() =~= dv0.push((segv[0].name, base)));
            }
            j
        },
    };
    let ghost dv1 = props.deep_view();
    proof {
        assert(dv1 =~= seq_deep(props@));
        assert(j < props@.len());
        if absent {
            assert(j as int == dv0.len());
            assert(dv1 == dv0.push((segv[0].name, base)));
        } else {
            assert(dv1 == dv0);
            assert(j as int == first_index(dv0, segv[0].name));
            assert(dv0[j as int].1 == base);
            assert(dv0[j as int].0 == segv[0].name);
        }
        assert(dv1[j as int] == props@[j as int].deep_view());
        assert(props@[j as int].1.deep_view() == base);
        assert(props@[j as int].0@ == segv[0].name);
    }
    // An existing node must agree with what the segment demands.
    if seg.indexed {
        if props[j].1.prop_type != ValueType::Array {
            proof {
                assert(base.kind != ValueType::Array);
            }
            return false;
        }
        proof {
            assert(base.kind == ValueType::Array);
        }
    } else {
        if !last && props[j].1.prop_type != ValueType::Object {
            proof {
                assert(base.kind != ValueType::Object);
            }
            return false;
        }
    }
    let ghost sh1 = props@;
    let (nm, a) = props.remove(j);
    let ghost dv2 = props.deep_view();
    proof {
        lemma_seq_deep_remove(sh1, j as int);
        assert(seq_deep(sh1) =~= dv1);
        assert(dv2 =~= seq_deep(props@));
        assert(dv2 == dv1.remove(j as int));
        assert(nm@ == segv[0].name);
        assert(a.deep_view() == base);
    }
    let ghost av = a.deep_view();
    let PropertyAttribute { prop_type, items, properties, required } = a;
    let a2: PropertyAttribute;
    if last {
        if seg.indexed {
            let item = match items {
                Option::Some(bx) => *bx,
                Option::None => PropertyAttribute {
                    prop_type: ValueType::Object,
                    items: Option::None,
                    properties: Option::None,
                    required: Option::None,
                },
            };
            proof {
                match base.items {
                    Option::Some(b) => {
                        assert(item.deep_view() == *b);
                    },
                    Option::None => {
                        assert(item.deep_view() == item_leaf_default());
                    },
                }
            }
            let item2 = apply_op_owned(item, op);
            a2 = PropertyAttribute {
                prop_type,
                items: Option::Some(Box::new(item2)),
                properties,
                required,
            };
            proof {
                let itemv = match base.items {
                    Option::Some(b) => *b,
                    Option::None => item_leaf_default(),
                };
                assert(a2.deep_view() == AttrV {
                    items: Option::Some(Box::new(apply_op(itemv, opv))),
                    ..base
                });
            }
        } else {
            let back = PropertyAttribute { prop_type, items, properties, required };
            proof {
                assert(back.deep_view() == base);
            }
            a2 = apply_op_owned(back, op);
            proof {
                assert(a2.deep_view() == apply_op(base, opv));
            }
        }
    } else {
        proof {
            assert(segv.drop_first() =~= segs.deep_view().skip(i as int + 1));
        }
        if seg.indexed {
            let ghost itemv = match base.items {
                Option::Some(b) => *b,
                Option::None => item_interior_default(),
            };
            let item = match items {
                Option::Some(bx) => {
                    proof {
                        assert((*bx).deep_view() == itemv);
                    }
                    *bx
                },
                Option::None => {
                    let fresh_item = PropertyAttribute {
                        prop_type: ValueType::Object,
                        items: Option::None,
                        properties: Option::Some(Vec::new()),
                        required: Option::None,
                    };
                    proof {
                        let v = fresh_item.properties->0;
                        assert(v@ =~= Seq::<(String, PropertyAttribute)>::empty());
                        assert(props_view(v@) =~= Seq::<(Seq<char>, AttrV)>::empty());
                        assert(fresh_item.deep_view() =~~= itemv);
                    }
                    fresh_item
                },
            };
            proof {
                assert(item.deep_view() == itemv);
            }
            let PropertyAttribute {
                prop_type: ipt,
                items: iit,
                properties: ipr,
                required: irq,
            } = item;
            let mut inner: Vec<(String, PropertyAttribute)> = match ipr {
                Option::Some(v) => v,
                Option::None => Vec::new(),
            };
            let ghost innerv = match itemv.properties {
                Option::Some(p) => p,
                Option::None => Seq::<(Seq<char>, AttrV)>::empty(),
            };
            proof {
                match &itemv.properties {
                    Option::Some(_) => {
                        crate::attr::lemma_props_view_is_deep(inner);
                    },
                    Option::None => {
                        assert(inner.deep_view() =~= innerv);
                    },
                }
                assert(inner.deep_view() == innerv);
            }
            let r_ok = navigate_write_rec(&mut inner, segs, i + 1, op);
            if !r_ok {
                proof {
                    assert(nav_write(innerv, segv.drop_first(), opv)
                        == Option::None::<Seq<(Seq<char>, AttrV)>>);
                    assert(nav_write(dv0, segv, opv) == Option::None::<
                        Seq<(Seq<char>, AttrV)>,
                    >);
                }
                return false;
            }
            let ghost inner2 = inner.deep_view();
            proof {
                crate::attr::lemma_props_view_is_deep(inner);
                assert(nav_write(innerv, segv.drop_first(), opv) == Option::Some(inner2));
            }
            let item2 = PropertyAttribute {
                prop_type: ipt,
                items: iit,
                properties: Option::Some(inner),
                required: irq,
            };
            proof {
                assert(item2.deep_view() == AttrV { properties: Option::Some(inner2), ..itemv });
            }
            a2 = PropertyAttribute {
                prop_type,
                items: Option::Some(Box::new(item2)),
                properties,
                required,
            };
            proof {
                assert(a2.deep_view() == AttrV {
                    items: Option::Some(
                        Box::new(AttrV { properties: Option::Some(inner2), ..itemv }),
                    ),
                    ..base
                });
            }
        } else {
            let mut inner: Vec<(String, PropertyAttribute)> = match properties {
                Option::Some(v) => v,
                Option::None => Vec::new(),
            };
            let ghost innerv = match base.properties {
                Option::Some(p) => p,
                Option::None => Seq::<(Seq<char>, AttrV)>::empty(),
            };
            proof {
                match &base.properties {
                    Option::Some(_) => {
                        crate::attr::lemma_props_view_is_deep(inner);
                    },
                    Option::None => {
                        assert(inner.deep_view() =~= innerv);
                    },
                }
                assert(inner.deep_view() == innerv);
            }
            let r_ok = navigate_write_rec(&mut inner, segs, i + 1, op);
            if !r_ok {
                proof {
                    assert(nav_write(innerv, segv.drop_first(), opv)
                        == Option::None::<Seq<(Seq<char>, AttrV)>>);
                    assert(nav_write(dv0, segv, opv) == Option::None::<
                        Seq<(Seq<char>, AttrV)>,
                    >);
                }
                return false;
            }
            let ghost inner2 = inner.deep_view();
            proof {
                crate::attr::lemma_props_view_is_deep(inner);
                assert(nav_write(innerv, segv.drop_first(), opv) == Option::Some(inner2));
            }
            a2 = PropertyAttribute {
                prop_type,
                items,
                properties: Option::Some(inner),
                required,
            };
            proof {
                assert(a2.deep_view() == AttrV { properties: Option::Some(inner2), ..base });
            }
        }
    }
    let ghost a2v = a2.deep_view();
    let ghost sh2 = props@;
    proof {
        assert((nm, a2).deep_view() == (segv[0].name, a2v));
    }
    props.insert(j, (nm, a2));
    proof {
        assert forall|k: int| 0 <= k < props@.len() implies props.deep_view()[k] == dv2.insert(
            j as int,
            (segv[0].name, a2v),
        )[k] by {
            assert(props.deep_view()[k] == props@[k].deep_view());
            if k < j {
                assert(props@[k] == sh2[k]);
                assert(dv2[k] == sh2[k].deep_view());
            } else if k > j {
                assert(props@[k] == sh2[k - 1]);
                assert(dv2[k - 1] == sh2[k - 1].deep_view());
            }
        }
        assert(props.deep_view() =~= dv2.insert(j as int, (segv[0].name, a2v)));
        if absent {
            lemma_push_remove_last(dv0, (segv[0].name, base));
            assert(dv2 == dv0);
            lemma_insert_at_len(dv0, (segv[0].name, a2v));
            assert(props.deep_view() == dv0.push((segv[0].name, a2v)));
            assert(map_set_s(dv0, segv[0].name, a2v) == props.deep_view());
        } else {
            lemma_remove_insert(dv0, j as int, (segv[0].name, a2v));
            assert(props.deep_view() == dv0.update(j as int, (segv[0].name, a2v)));
            assert(map_set_s(dv0, segv[0].name, a2v) == props.deep_view());
        }
        assert(nav_write(dv0, segv, opv) == Option::Some(map_set_s(dv0, segv[0].name, a2v)));
    }
    true
}

/// After `map_set_s`, the set name is found, at its old position or at the
/// end, and carries the new value.
pub proof fn lemma_set_then_index<T>(m: Seq<(Seq<char>, T)>, name: Seq<char>, v: T)
    ensures
        first_index(map_set_s(m, name, v), name) == if first_index(m, name) < 0 {
            m.len() as int
        } else {
            first_index(m, name)
        },
        map_get_s(map_set_s(m, name, v), name) == Option::Some(v),
    decreases m.len(),
{
    let fi = first_index(m, name);
    let m2 = map_set_s(m, name, v);
    lemma_first_index(m, name);
    if m.len() == 0 {
        assert(m2 =~= m.push((name, v)));
        assert(m2[0].0 == name);
    } else if m[0].0 == name {
        assert(m2 == m.update(0, (name, v)));
        assert(m2[0].0 == name);
    } else {
        let t = m.drop_first();
        lemma_set_then_index(t, name, v);
        let ft = first_index(t, name);
        let t2 = map_set_s(t, name, v);
        if fi < 0 {
            assert(ft < 0);
            assert(m2 == m.push((name, v)));
            assert(m2[0] == m[0]);
            assert(m2.drop_first() =~= t.push((name, v)));
            assert(m2.drop_first() == t2);
            assert(first_index(m2, name) == 1 + first_index(t2, name));
            assert(first_index(m2, name) == m.len());
            assert(m2[first_index(m2, name)] == t2[first_index(t2, name)]);
        } else {
            assert(ft == fi - 1);
            assert(m2 == m.update(fi, (name, v)));
            assert(m2[0] == m[0]);
            assert(m2.drop_first() =~= t.update(fi - 1, (name, v)));
            assert(m2.drop_first() == t2);
            assert(first_index(m2, name) == 1 + first_index(t2, name));
            assert(m2[first_index(m2, name)] == t2[first_index(t2, name)]);
        }
    }
}

/// Round trip: an attribute successfully written by the write navigator is
/// exactly what an immediate read of the same path answers.
pub proof fn lemma_write_then_read(props: Seq<(Seq<char>, AttrV)>, segs: Seq<SegV>, a: AttrV)
    requires
        segs.len() >= 1,
        nav_write(props, segs, OpV::SetAttr(a)) is Some,
    ensures
        nav_read(nav_write(props, segs, OpV::SetAttr(a))->0, segs) == Option::Some(a),
    decreases segs.len(),
{
    let name = segs[0].name;
    let idx = segs[0].indexed;
    let cur = map_get_s(props, name);
    let opv = OpV::SetAttr(a);
    if segs.len() == 1 {
        let base = match cur {
            Option::Some(b) => b,
            Option::None => leaf_default(idx),
        };
        if idx {
            let item = match base.items {
                Option::Some(b) => *b,
                Option::None => item_leaf_default(),
            };
            let newa = AttrV { items: Option::Some(Box::new(a)), ..base };
            lemma_set_then_index(props, name, newa);
            assert(nav_write(props, segs, opv) == Option::Some(map_set_s(props, name, newa)));
            assert(base.kind == ValueType::Array);
        } else {
            lemma_set_then_index(props, name, a);
        }
    } else {
        let base = match cur {
            Option::Some(b) => b,
            Option::None => interior_default(idx),
        };
        if idx {
            let item = match base.items {
                Option::Some(b) => *b,
                Option::None => item_interior_default(),
            };
            let inner = match item.properties {
                Option::Some(p) => p,
                Option::None => Seq::<(Seq<char>, AttrV)>::empty(),
            };
            let inner2 = nav_write(inner, segs.drop_first(), opv)->0;
            lemma_write_then_read(inner, segs.drop_first(), a);
            let newa = AttrV {
                items: Option::Some(Box::new(AttrV { properties: Option::Some(inner2), ..item })),
                ..base
            };
            lemma_set_then_index(props, name, newa);
            assert(base.kind == ValueType::Array);
        } else {
            let inner = match base.properties {
                Option::Some(p) => p,
                Option::None => Seq::<(Seq<char>, AttrV)>::empty(),
            };
            let inner2 = nav_write(inner, segs.drop_first(), opv)->0;
            lemma_write_then_read(inner, segs.drop_first(), a);
            let newa = AttrV { properties: Option::Some(inner2), ..base };
            lemma_set_then_index(props, name, newa);
            assert(base.kind == ValueType::Object);
        }
    }
}

/// Round trip over a path string: when the write navigator succeeds in
/// placing an attribute at a path, an immediate read of the same path
/// answers that identical attribute.
pub proof fn lemma_path_write_then_read(
    props: Seq<(Seq<char>, AttrV)>,
    path: Seq<char>,
    a: AttrV,
    req: Option<Seq<Seq<char>>>,
)
    requires
        path_parse(path) matches Option::Some(segs) && nav_write(props, segs, OpV::SetAttr(a))
            is Some,
    ensures
        ({
            let segs = path_parse(path)->0;
            let written = nav_write(props, segs, OpV::SetAttr(a))->0;
            read_result(Option::Some(written), req, path) matches Option::Some(p) && p.0 == a
        }),
{
    let segs = path_parse(path)->0;
    assert(segs.len() >= 1);
    lemma_write_then_read(props, segs, a);
}

/// Writing the same kind at the same path twice changes nothing the second
/// time: the second write succeeds and leaves the tree of the first.
pub proof fn lemma_write_kind_idempotent(
    props: Seq<(Seq<char>, AttrV)>,
    segs: Seq<SegV>,
    k: ValueType,
)
    requires
        segs.len() >= 1,
        nav_write(props, segs, OpV::SetKind(k)) is Some,
    ensures
        nav_write(nav_write(props, segs, OpV::SetKind(k))->0, segs, OpV::SetKind(k)) == nav_write(
            props,
            segs,
            OpV::SetKind(k),
        ),
    decreases segs.len(),
{
    let name = segs[0].name;
    let idx = segs[0].indexed;
    let cur = map_get_s(props, name);
    let opv = OpV::SetKind(k);
    let m2 = nav_write(props, segs, opv)->0;
    if segs.len() == 1 {
        let base = match cur {
            Option::Some(b) => b,
            Option::None => leaf_default(idx),
        };
        if idx {
            let item = match base.items {
                Option::Some(b) => *b,
                Option::None => item_leaf_default(),
            };
            let newa = AttrV { items: Option::Some(Box::new(apply_op(item, opv))), ..base };
            lemma_set_then_index(props, name, newa);
            lemma_first_index(m2, name);
            assert(base.kind == ValueType::Array);
            assert(map_get_s(m2, name) == Option::Some(newa));
            let newa2 = AttrV {
                items: Option::Some(Box::new(apply_op(apply_op(item, opv), opv))),
                ..newa
            };
            assert(newa2 =~~= newa);
            assert(nav_write(m2, segs, opv) == Option::Some(map_set_s(m2, name, newa2)));
            let fi2 = first_index(m2, name);
            assert(m2[fi2] == (name, newa2));
            assert(map_set_s(m2, name, newa2) =~= m2);
        } else {
            let newa = apply_op(base, opv);
            lemma_set_then_index(props, name, newa);
            lemma_first_index(m2, name);
            assert(map_get_s(m2, name) == Option::Some(newa));
            let newa2 = apply_op(newa, opv);
            assert(newa2 =~~= newa);
            let fi2 = first_index(m2, name);
            assert(m2[fi2] == (name, newa2));
            assert(map_set_s(m2, name, newa2) =~= m2);
        }
    } else {
        let base = match cur {
            Option::Some(b) => b,
            Option::None => interior_default(idx),
        };
        if idx {
            let item = match base.items {
                Option::Some(b) => *b,
                Option::None => item_interior_default(),
            };
            let inner = match item.properties {
                Option::Some(p) => p,
                Option::None => Seq::<(Seq<char>, AttrV)>::empty(),
            };
            let inner2 = nav_write(inner, segs.drop_first(), opv)->0;
            lemma_write_kind_idempotent(inner, segs.drop_first(), k);
            let item2 = AttrV { properties: Option::Some(inner2), ..item };
            let newa = AttrV { items: Option::Some(Box::new(item2)), ..base };
            lemma_set_then_index(props, name, newa);
            lemma_first_index(m2, name);
            assert(base.kind == ValueType::Array);
            assert(map_get_s(m2, name) == Option::Some(newa));
            let item2b = AttrV { properties: Option::Some(inner2), ..item2 };
            assert(item2b =~~= item2);
            let newa2 = AttrV { items: Option::Some(Box::new(item2b)), ..newa };
            assert(newa2 =~~= newa);
            let fi2 = first_index(m2, name);
            assert(m2[fi2] == (name, newa2));
            assert(map_set_s(m2, name, newa2) =~= m2);
        } else {
            let inner = match base.properties {
                Option::Some(p) => p,
                Option::None => Seq::<(Seq<char>, AttrV)>::empty(),
            };
            let inner2 = nav_write(inner, segs.drop_first(), opv)->0;
            lemma_write_kind_idempotent(inner, segs.drop_first(), k);
            let newa = AttrV { properties: Option::Some(inner2), ..base };
            lemma_set_then_index(props, name, newa);
            lemma_first_index(m2, name);
            assert(base.kind == ValueType::Object);
            assert(map_get_s(m2, name) == Option::Some(newa));
            let newa2 = AttrV { properties: Option::Some(inner2), ..newa };
            assert(newa2 =~~= newa);
            let fi2 = first_index(m2, name);
            assert(m2[fi2] == (name, newa2));
            assert(map_set_s(m2, name, newa2) =~= m2);
        }
    }
}

/// A failed write navigation: a path that does not parse, or a segment
/// whose kind expectation conflicts with an existing node.
#[derive(Debug)]
pub enum PathError {
    InvalidPath,
    KindConflict,
}

impl PathError {
    /// A short description for error reports.
    pub fn message(&self) -> String {
        match self {
            PathError::InvalidPath => "invalid property path".to_owned(),
            PathError::KindConflict => "property kind conflicts with path".to_owned(),
        }
    }
}

/// Resolve `path` against `properties`, materializing missing nodes, and
/// perform `op` at the addressed node — on the Array item template when the
/// final segment is indexed.  On failure the map's intermediate state is
/// unspecified; callers treat the whole tree as scratch.
pub fn navigate_property_path_mut(
    properties: &mut Vec<(String, PropertyAttribute)>,
    path: &str,
    op: WriteOp,
) -> (r: Result<(), PathError>)
    ensures
        match r {
            Result::Ok(()) => path_parse(path@) matches Option::Some(segs) && nav_write(
                old(properties).deep_view(),
                segs,
                op.deep_view(),
            ) == Option::Some(final(properties).deep_view()),
            Result::Err(PathError::InvalidPath) => path_parse(path@) is None && *final(properties)
                == *old(properties),
            Result::Err(PathError::KindConflict) => path_parse(path@) matches Option::Some(segs)
                && nav_write(old(properties).deep_view(), segs, op.deep_view()) == Option::None::<
                Seq<(Seq<char>, AttrV)>,
            >,
        },
{
    let segs = match parse_path(path) {
        Option::Some(s) => s,
        Option::None => {
            return Result::Err(PathError::InvalidPath);
        },
    };
    proof {
        assert(segs.deep_view().skip(0) =~= segs.deep_view());
    }
    if navigate_write_rec(properties, &segs, 0, op) {
        Result::Ok(())
    } else {
        Result::Err(PathError::KindConflict)
    }
}

/// Resolve `path` against a property map without mutating it.  Answers the
/// found attribute — for an indexed final segment, the Array's item
/// template — paired with whether the name is required: `None` for an
/// indexed final segment, membership in `required` for a single-segment
/// path, and `false` once the walk has descended.
pub fn navigate_property_path<'a>(
    properties: Option<&'a Vec<(String, PropertyAttribute)>>,
    required: Option<&Vec<String>>,
    path: &str,
) -> (r: Option<(&'a PropertyAttribute, Option<bool>)>)
    ensures
        match r {
            Option::Some(p) => read_result(
                match properties {
                    Option::Some(m) => Option::Some(m.deep_view()),
                    Option::None => Option::None,
                },
                match required {
                    Option::Some(q) => Option::Some(q.deep_view()),
                    Option::None => Option::None,
                },
                path@,
            ) == Option::Some((p.0.deep_view(), p.1)),
            Option::None => read_result(
                match properties {
                    Option::Some(m) => Option::Some(m.deep_view()),
                    Option::None => Option::None,
                },
                match required {
                    Option::Some(q) => Option::Some(q.deep_view()),
                    Option::None => Option::None,
                },
                path@,
            ) == Option::None::<(AttrV, Option<bool>)>,
        },
{
    let props = match properties {
        Option::Some(m) => m,
        Option::None => {
            return Option::None;
        },
    };
    let segs = match parse_path(path) {
        Option::Some(s) => s,
        Option::None => {
            return Option::None;
        },
    };
    proof {
        assert(segs.deep_view().skip(0) =~= segs.deep_view());
    }
    match nav_read_rec(props, &segs, 0) {
        Option::None => Option::None,
        Option::Some(a) => {
            let nsegs = segs.len();
            let flag: Option<bool> = if segs[nsegs - 1].indexed {
                Option::None
            } else if nsegs == 1 {
                match required {
                    Option::Some(rq) => Option::Some(strings_contain(rq, &segs[0].name)),
                    Option::None => Option::Some(false),
                }
            } else {
                Option::Some(false)
            };
            proof {
                assert(segs.deep_view().last() == segs@[nsegs - 1].deep_view());
                assert(segs.deep_view()[0] == segs@[0].deep_view());
            }
            Option::Some((a, flag))
        },
    }
}

} // verus!
