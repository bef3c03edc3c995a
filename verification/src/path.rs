//! Property-path syntax: segments separated by `.`, each segment a name
//! optionally suffixed with one bracketed non-negative integer index, as in
//! `a.b[0].c`.  The index is checked for syntax only; an attribute tree
//! stores a single shared item template per array, so an index never selects
//! a distinct element.

use vstd::prelude::*;

verus! {

/// One parsed path segment.  `indexed` records whether the segment carried
/// a bracketed index.
pub struct PathSeg {
    pub name: String,
    pub indexed: bool,
}

/// Mathematical model of a parsed segment.
pub ghost struct SegV {
    pub name: Seq<char>,
    pub indexed: bool,
}

impl DeepView for PathSeg {
    type V = SegV;

    open spec fn deep_view(&self) -> SegV {
        SegV { name: self.name@, indexed: self.indexed }
    }
}

pub open spec fn is_digit(c: char) -> bool {
    48 <= c as u32 <= 57
}

/// Index of the first occurrence of `c` in `s`, or -1 when there is none.
pub open spec fn find_char(s: Seq<char>, c: char) -> int
    decreases s,
{
    if s.len() == 0 {
        -1
    } else if s[0] == c {
        0
    } else {
        let r = find_char(s.drop_first(), c);
        if r < 0 {
            -1
        } else {
            r + 1
        }
    }
}

pub proof fn lemma_find_char(s: Seq<char>, c: char)
    ensures
        find_char(s, c) >= 0 ==> {
            &&& find_char(s, c) < s.len()
            &&& s[find_char(s, c)] == c
            &&& forall|j: int| 0 <= j < find_char(s, c) ==> s[j] != c
        },
        find_char(s, c) == -1 ==> forall|j: int| 0 <= j < s.len() ==> s[j] != c,
        find_char(s, c) >= 0 || find_char(s, c) == -1,
    decreases s,
{
    if s.len() > 0 && s[0] != c {
        lemma_find_char(s.drop_first(), c);
        let t = s.drop_first();
        let r = find_char(t, c);
        if r >= 0 {
            assert(s[r + 1] == t[r]);
            assert forall|j: int| 0 <= j < r + 1 implies s[j] != c by {
                if j >= 1 {
                    assert(s[j] == t[j - 1]);
                }
            }
        } else {
            assert forall|j: int| 0 <= j < s.len() implies s[j] != c by {
                if j >= 1 {
                    assert(s[j] == t[j - 1]);
                }
            }
        }
    }
}

/// Parse of one segment: everything before the first `[` is the name; an
/// index suffix must be a non-empty run of digits closed by `]` at the end
/// of the segment.  A segment without `[` is a bare name.
pub open spec fn seg_parse(s: Seq<char>) -> Option<SegV> {
    let b = find_char(s, '[');
    if b < 0 {
        Option::Some(SegV { name: s, indexed: false })
    } else {
        let rest = s.skip(b + 1);
        if rest.len() >= 2 && rest.last() == ']' && (forall|j: int|
            0 <= j < rest.len() - 1 ==> is_digit(rest[j])) {
            Option::Some(SegV { name: s.take(b), indexed: true })
        } else {
            Option::None
        }
    }
}

/// Parse of a whole path: split on `.`, parse each piece as a segment.
/// An empty path parses as one segment with an empty name.
pub open spec fn path_parse(s: Seq<char>) -> Option<Seq<SegV>>
    decreases s.len(),
    when true
    via path_parse_decreases
{
    let d = find_char(s, '.');
    if d < 0 {
        match seg_parse(s) {
            Option::Some(g) => Option::Some(seq![g]),
            Option::None => Option::None,
        }
    } else {
        match seg_parse(s.take(d)) {
            Option::Some(g) => match path_parse(s.skip(d + 1)) {
                Option::Some(rest) => Option::Some(seq![g] + rest),
                Option::None => Option::None,
            },
            Option::None => Option::None,
        }
    }
}

#[via_fn]
proof fn path_parse_decreases(s: Seq<char>) {
    lemma_find_char(s, '.');
}

/// Find the first occurrence of `c` in `s`.
pub fn find_char_in(s: &str, c: char) -> (r: Option<usize>)
    ensures
        match r {
            Option::Some(i) => find_char(s@, c) == i as int,
            Option::None => find_char(s@, c) == -1,
        },
{
    proof {
        lemma_find_char(s@, c);
    }
    let n = s.unicode_len();
    for i in 0..n
        invariant
            n == s@.len(),
            forall|j: int| 0 <= j < i ==> s@[j] != c,
            find_char(s@, c) >= 0 ==> find_char(s@, c) < s@.len() && s@[find_char(s@, c)] == c,
            find_char(s@, c) == -1 ==> forall|j: int| 0 <= j < s@.len() ==> s@[j] != c,
            forall|j: int| 0 <= j < find_char(s@, c) ==> s@[j] != c,
    {
        if s.get_char(i) == c {
            return Option::Some(i);
        }
    }
    Option::None
}

/// Parse one segment of a path.
fn parse_seg(s: &str) -> (r: Option<PathSeg>)
    ensures
        match r {
            Option::Some(g) => seg_parse(s@) == Option::Some(g.deep_view()),
            Option::None => seg_parse(s@) == Option::None::<SegV>,
        },
{
    let n = s.unicode_len();
    match find_char_in(s, '[') {
        Option::None => Option::Some(PathSeg { name: s.to_owned(), indexed: false }),
        Option::Some(b) => {
            proof {
                lemma_find_char(s@, '[');
            }
            let ghost rest = s@.skip(b + 1);
            proof {
                assert(rest.len() == s@.len() - b - 1);
                assert forall|k: int| 0 <= k < rest.len() implies rest[k] == s@[k + b + 1] by {}
            }
            // The suffix after `[` must be one or more digits closed by `]`.
            if n - b < 3 {
                proof {
                    assert(rest.len() < 2);
                }
                return Option::None;
            }
            if s.get_char(n - 1) != ']' {
                proof {
                    assert(rest.last() == s@[n - 1]);
                }
                return Option::None;
            }
            let mut j = b + 1;
            while j < n - 1
                invariant
                    b + 1 <= j <= n - 1,
                    b + 3 <= n == s@.len(),
                    find_char(s@, '[') == b,
                    rest == s@.skip(b + 1),
                    rest.last() == ']',
                    forall|k: int| b + 1 <= k < j ==> is_digit(s@[k]),
                decreases n - 1 - j,
            {
                let c = s.get_char(j);
                let u = c as u32;
                if u < 48 || u > 57 {
                    proof {
                        assert(rest[j - b - 1] == s@[j as int]);
                        assert(!is_digit(rest[j - b - 1]));
                        assert(0 <= j - b - 1 < rest.len() - 1);
                    }
                    return Option::None;
                }
                j += 1;
            }
            let name = s.substring_char(0, b).to_owned();
            proof {
                assert(rest.last() == s@[n - 1]);
                assert forall|k: int| 0 <= k < rest.len() - 1 implies is_digit(rest[k]) by {
                    assert(rest[k] == s@[k + b + 1]);
                }
                assert(name@ == s@.take(b as int));
            }
            Option::Some(PathSeg { name, indexed: true })
        },
    }
}

/// Parse a whole path string into its segments; `None` on an index suffix
/// that is not a non-empty digit run closed by `]`.
pub fn parse_path(path: &str) -> (r: Option<Vec<PathSeg>>)
    ensures
        match r {
            Option::Some(v) => path_parse(path@) == Option::Some(v.deep_view()) && v@.len() >= 1,
            Option::None => path_parse(path@) == Option::None::<Seq<SegV>>,
        },
    decreases path@.len(),
{
    match find_char_in(path, '.') {
        Option::None => {
            match parse_seg(path) {
                Option::Some(g) => {
                    let mut v: Vec<PathSeg> = Vec::new();
                    v.push(g);
                    proof {
                        assert(v.deep_view() =~= seq![g.deep_view()]);
                    }
                    Option::Some(v)
                },
                Option::None => Option::None,
            }
        },
        Option::Some(d) => {
            proof {
                lemma_find_char(path@, '.');
            }
            let n = path.unicode_len();
            let head = path.substring_char(0, d);
            let tail = path.substring_char(d + 1, n);
            match parse_seg(head) {
                Option::Some(g) => {
                    match parse_path(tail) {
                        Option::Some(mut rest) => {
                            let ghost r0 = rest.deep_view();
                            let ghost rs0 = rest@;
                            let mut v: Vec<PathSeg> = Vec::new();
                            v.push(g);
                            v.append(&mut rest);
                            proof {
                                assert(v@ =~= seq![g].add(rs0));
                                assert(v.deep_view() =~= seq![g.deep_view()] + r0);
                            }
                            Option::Some(v)
                        },
                        Option::None => Option::None,
                    }
                },
                Option::None => Option::None,
            }
        },
    }
}

} // verus!
