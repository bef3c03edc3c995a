//! The attribute model: a tagged tree describing one property of a message
//! payload.  Scalar kinds carry no shape; an Object node carries a
//! name-to-attribute map and an optional required-name list; an Array node
//! carries a single item template shared by every element.

use vstd::prelude::*;

verus! {

/// The kind tag of a property attribute.
#[derive(Clone, Copy, PartialEq, Eq, Structural, Debug)]
pub enum ValueType {
    Bool,
    Int8,
    Int16,
    Int32,
    Int64,
    Uint8,
    Uint16,
    Uint32,
    Uint64,
    Float32,
    Float64,
    Str,
    Buf,
    Ptr,
    Array,
    Object,
}

/// Mathematical model of an attribute tree: the same shape as
/// `PropertyAttribute`, with names as character sequences and maps as
/// sequences of (name, attribute) entries.
#[verifier::ext_equal]
pub ghost struct AttrV {
    pub kind: ValueType,
    pub items: Option<Box<AttrV>>,
    pub properties: Option<Seq<(Seq<char>, AttrV)>>,
    pub required: Option<Seq<Seq<char>>>,
}

/// One node of an attribute tree.  `items` is meaningful for Array nodes,
/// `properties` and `required` for Object nodes; a node's fields beyond its
/// kind are kept even when the kind is overwritten, mirroring how schema
/// synthesis patches a node's kind without discarding shape already
/// materialized under it.
#[derive(Debug)]
pub struct PropertyAttribute {
    pub prop_type: ValueType,
    pub items: Option<Box<PropertyAttribute>>,
    pub properties: Option<Vec<(String, PropertyAttribute)>>,
    pub required: Option<Vec<String>>,
}

pub open spec fn attr_view(a: PropertyAttribute) -> AttrV
    decreases a,
{
    AttrV {
        kind: a.prop_type,
        items: match a.items {
            Option::Some(b) => Option::Some(Box::new(attr_view(*b))),
            Option::None => Option::None,
        },
        properties: match a.properties {
            Option::Some(v) => Option::Some(props_view(v@)),
            Option::None => Option::None,
        },
        required: match a.required {
            Option::Some(r) => Option::Some(r.deep_view()),
            Option::None => Option::None,
        },
    }
}

pub open spec fn props_view(m: Seq<(String, PropertyAttribute)>) -> Seq<(Seq<char>, AttrV)>
    decreases m,
{
    if m.len() == 0 {
        Seq::empty()
    } else {
        props_view(m.drop_last()).push((m.last().0@, attr_view(m.last().1)))
    }
}

impl DeepView for PropertyAttribute {
    type V = AttrV;

    open spec fn deep_view(&self) -> AttrV {
        attr_view(*self)
    }
}

/// The view of a name-keyed entry vector is the element-wise view.
pub proof fn lemma_props_view(m: Seq<(String, PropertyAttribute)>)
    ensures
        props_view(m).len() == m.len(),
        forall|i: int|
            0 <= i < m.len() ==> #[trigger] props_view(m)[i] == (m[i].0@, attr_view(m[i].1)),
    decreases m,
{
    if m.len() > 0 {
        lemma_props_view(m.drop_last());
    }
}

/// Index of the first entry named `name`, or -1 when there is none.
pub open spec fn first_index<T>(m: Seq<(Seq<char>, T)>, name: Seq<char>) -> int
    decreases m,
{
    if m.len() == 0 {
        -1
    } else if m[0].0 == name {
        0
    } else {
        let r = first_index(m.drop_first(), name);
        if r < 0 {
            -1
        } else {
            r + 1
        }
    }
}

pub open spec fn map_get_s<T>(m: Seq<(Seq<char>, T)>, name: Seq<char>) -> Option<T> {
    let i = first_index(m, name);
    if i < 0 {
        Option::None
    } else {
        Option::Some(m[i].1)
    }
}

/// Replace the first entry named `name` in place, or append a new one.
pub open spec fn map_set_s<T>(m: Seq<(Seq<char>, T)>, name: Seq<char>, v: T) -> Seq<
    (Seq<char>, T),
> {
    let i = first_index(m, name);
    if i < 0 {
        m.push((name, v))
    } else {
        m.update(i, (name, v))
    }
}

/// Drop the first entry named `name`, if any.
pub open spec fn map_remove_s<T>(m: Seq<(Seq<char>, T)>, name: Seq<char>) -> Seq<(Seq<char>, T)> {
    let i = first_index(m, name);
    if i < 0 {
        m
    } else {
        m.remove(i)
    }
}

pub proof fn lemma_first_index<T>(m: Seq<(Seq<char>, T)>, name: Seq<char>)
    ensures
        first_index(m, name) >= 0 ==> {
            &&& first_index(m, name) < m.len()
            &&& m[first_index(m, name)].0 == name
            &&& forall|j: int| 0 <= j < first_index(m, name) ==> #[trigger] m[j].0 != name
        },
        first_index(m, name) == -1 ==> forall|j: int| 0 <= j < m.len() ==> #[trigger] m[j].0 != name,
        first_index(m, name) >= 0 || first_index(m, name) == -1,
    decreases m,
{
    if m.len() > 0 && m[0].0 != name {
        lemma_first_index(m.drop_first(), name);
        let t = m.drop_first();
        let r = first_index(t, name);
        if r >= 0 {
            assert(m[r + 1] == t[r]);
            assert forall|j: int| 0 <= j < r + 1 implies #[trigger] m[j].0 != name by {
                if j >= 1 {
                    assert(m[j] == t[j - 1]);
                }
            }
        } else {
            assert forall|j: int| 0 <= j < m.len() implies #[trigger] m[j].0 != name by {
                if j >= 1 {
                    assert(m[j] == t[j - 1]);
                }
            }
        }
    }
}

/// Find the position of the first entry named `name`.
pub fn kv_index_of<T: DeepView>(m: &Vec<(String, T)>, name: &String) -> (r: Option<usize>)
    ensures
        match r {
            Option::Some(i) => 0 <= i < m@.len() && first_index(m.deep_view(), name@) == i as int,
            Option::None => first_index(m.deep_view(), name@) == -1,
        },
{
    let n = m.len();
    for i in 0..n
        invariant
            n == m@.len(),
            forall|j: int| 0 <= j < i ==> #[trigger] m@[j].0@ != name@,
    {
        if m[i].0 == *name {
            proof {
                let dv = m.deep_view();
                lemma_first_index(dv, name@);
                let fi = first_index(dv, name@);
                assert(dv[i as int] == m@[i as int].deep_view());
                assert(dv[i as int].0 == name@);
                if fi == -1 {
                    assert(false);
                }
                if fi < i as int {
                    assert(dv[fi] == m@[fi].deep_view());
                    assert(m@[fi].0@ != name@);
                    assert(false);
                }
                if fi > i as int {
                    assert(false);
                }
            }
            return Option::Some(i);
        }
    }
    proof {
        let dv = m.deep_view();
        lemma_first_index(dv, name@);
        let fi = first_index(dv, name@);
        if fi >= 0 {
            assert(dv[fi] == m@[fi].deep_view());
            assert(m@[fi].0@ != name@);
            assert(false);
        }
    }
    Option::None
}

/// Element-wise view of a sequence of viewable values; `v.deep_view()` for a
/// `Vec` is exactly `seq_deep(v@)`.
pub open spec fn seq_deep<T: DeepView>(s: Seq<T>) -> Seq<T::V> {
    Seq::new(s.len(), |i: int| s[i].deep_view())
}

pub proof fn lemma_seq_deep_remove<T: DeepView>(s: Seq<T>, i: int)
    requires
        0 <= i < s.len(),
    ensures
        seq_deep(s.remove(i)) == seq_deep(s).remove(i),
{
    assert(seq_deep(s.remove(i)) =~= seq_deep(s).remove(i));
}

/// Borrow the attribute of the first entry named `name`.
pub fn kv_get<'a, T: DeepView>(m: &'a Vec<(String, T)>, name: &String) -> (r: Option<&'a T>)
    ensures
        match r {
            Option::Some(v) => {
                &&& map_get_s(m.deep_view(), name@) == Option::Some(v.deep_view())
                &&& 0 <= first_index(m.deep_view(), name@) < m@.len()
                &&& *v == m@[first_index(m.deep_view(), name@)].1
            },
            Option::None => map_get_s(m.deep_view(), name@) == Option::None::<T::V>,
        },
{
    match kv_index_of(m, name) {
        Option::Some(i) => {
            proof {
                assert(m.deep_view()[i as int] == m@[i as int].deep_view());
            }
            Option::Some(&m[i].1)
        },
        Option::None => Option::None,
    }
}

/// Append an entry under `name`.
pub fn kv_push<T: DeepView>(m: &mut Vec<(String, T)>, name: &String, v: T)
    ensures
        final(m).deep_view() == old(m).deep_view().push((name@, v.deep_view())),
        final(m)@.len() == old(m)@.len() + 1,
{
    let ghost before = m@;
    let ghost pushedv = (name@, v.deep_view());
    m.push((name.clone(), v));
    proof {
        assert forall|k: int| 0 <= k < m@.len() implies m.deep_view()[k] == old(
            m,
        ).deep_view().push(pushedv)[k] by {
            assert(m.deep_view()[k] == m@[k].deep_view());
            if k < before.len() {
                assert(m@[k] == before[k]);
                assert(old(m).deep_view()[k] == before[k].deep_view());
            }
        }
        assert(m.deep_view() =~= old(m).deep_view().push(pushedv));
    }
}

/// Drop the first entry named `name`, if any.
pub fn kv_remove<T: DeepView>(m: &mut Vec<(String, T)>, name: &String)
    ensures
        final(m).deep_view() == map_remove_s(old(m).deep_view(), name@),
{
    match kv_index_of(m, name) {
        Option::Some(i) => {
            let ghost before = m@;
            m.remove(i);
            proof {
                assert forall|k: int| 0 <= k < m@.len() implies m.deep_view()[k] == old(
                    m,
                ).deep_view().remove(i as int)[k] by {
                    assert(m.deep_view()[k] == m@[k].deep_view());
                    if k < i {
                        assert(m@[k] == before[k]);
                        assert(old(m).deep_view()[k] == before[k].deep_view());
                    } else {
                        assert(m@[k] == before[k + 1]);
                        assert(old(m).deep_view()[k + 1] == before[k + 1].deep_view());
                    }
                }
                assert(m.deep_view() =~= old(m).deep_view().remove(i as int));
            }
        },
        Option::None => {},
    }
}

/// True when `name` occurs in the list.
pub fn strings_contain(v: &Vec<String>, name: &String) -> (r: bool)
    ensures
        r == v.deep_view().contains(name@),
{
    let n = v.len();
    for i in 0..n
        invariant
            n == v@.len(),
            forall|j: int| 0 <= j < i ==> #[trigger] v@[j]@ != name@,
    {
        if v[i] == *name {
            proof {
                assert(v.deep_view()[i as int] == name@);
            }
            return true;
        }
    }
    proof {
        let dv = v.deep_view();
        if dv.contains(name@) {
            let k = choose|k: int| 0 <= k < dv.len() && dv[k] == name@;
            assert(dv[k] == v@[k].deep_view());
            assert(false);
        }
    }
    false
}

/// Copy a list of names.
pub fn strings_clone(v: &Vec<String>) -> (r: Vec<String>)
    ensures
        r@ == v@,
{
    let n = v.len();
    let mut r: Vec<String> = Vec::new();
    for i in 0..n
        invariant
            n == v@.len(),
            r@ =~= v@.subrange(0, i as int),
    {
        r.push(v[i].clone());
    }
    proof {
        assert(r@ =~= v@);
    }
    r
}

/// Structure-preserving copy of an attribute tree.
pub fn attr_deep_clone(a: &PropertyAttribute) -> (r: PropertyAttribute)
    ensures
        r.deep_view() == a.deep_view(),
    decreases *a,
{
    let items = match &a.items {
        Option::Some(b) => Option::Some(Box::new(attr_deep_clone(&**b))),
        Option::None => Option::None,
    };
    let properties = match &a.properties {
        Option::Some(v) => Option::Some(props_deep_clone(v)),
        Option::None => Option::None,
    };
    let required = match &a.required {
        Option::Some(rq) => Option::Some(strings_clone(rq)),
        Option::None => Option::None,
    };
    let r = PropertyAttribute { prop_type: a.prop_type, items, properties, required };
    proof {
        match &a.properties {
            Option::Some(v) => {
                assert(props_view(r.properties->0@) == props_view(v@));
            },
            Option::None => {},
        }
    }
    r
}

pub fn props_deep_clone(v: &Vec<(String, PropertyAttribute)>) -> (r: Vec<(String, PropertyAttribute)>)
    ensures
        props_view(r@) == props_view(v@),
    decreases v@,
{
    let n = v.len();
    let mut r: Vec<(String, PropertyAttribute)> = Vec::new();
    for i in 0..n
        invariant
            n == v@.len(),
            r@.len() == i,
            props_view(r@) =~= props_view(v@.subrange(0, i as int)),
        decreases n - i,
    {
        let ghost r0 = r@;
        let e = &v[i];
        proof {
            assert(decreases_to!(v@ => v@[i as int]));
        }
        let cloned = attr_deep_clone(&e.1);
        r.push((e.0.clone(), cloned));
        proof {
            lemma_props_view(r@);
            lemma_props_view(r0);
            lemma_props_view(v@.subrange(0, i as int + 1));
            lemma_props_view(v@.subrange(0, i as int));
            assert forall|k: int| 0 <= k < i + 1 implies props_view(r@)[k] == props_view(
                v@.subrange(0, i as int + 1),
            )[k] by {
                if k < i {
                    assert(props_view(r0)[k] == props_view(v@.subrange(0, i as int))[k]);
                    assert(v@.subrange(0, i as int)[k] == v@.subrange(0, i as int + 1)[k]);
                    assert(r@[k] == r0[k]);
                } else {
                    assert(v@.subrange(0, i as int + 1)[k] == v@[i as int]);
                }
            }
            assert(props_view(r@) =~= props_view(v@.subrange(0, i as int + 1)));
        }
    }
    proof {
        assert(v@.subrange(0, n as int) =~= v@);
    }
    r
}

/// Bridge between the two ways of viewing an entry vector: the recursive
/// `props_view` of its elements and the library `deep_view`.
pub proof fn lemma_props_view_is_deep(v: Vec<(String, PropertyAttribute)>)
    ensures
        props_view(v@) == v.deep_view(),
{
    lemma_props_view(v@);
    assert forall|i: int| 0 <= i < v@.len() implies props_view(v@)[i] == v.deep_view()[i] by {
        assert(v.deep_view()[i] == v@[i].deep_view());
    }
    assert(props_view(v@) =~= v.deep_view());
}

} // verus!
