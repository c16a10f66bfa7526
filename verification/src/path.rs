//! Paths as text: joining, splitting into components, and comparing the
//! way `std::path::Path` does on Unix.
use vstd::prelude::*;

use crate::text::chars_of;

verus! {

// ------------------------------------------------------------------
// Joining
// ------------------------------------------------------------------

/// `base` joined with `part` (`Path::join` on Unix): an absolute `part`
/// replaces `base`; otherwise a `'/'` separates them unless `base` is empty
/// or already ends with one.
pub open spec fn join_text(base: Seq<char>, part: Seq<char>) -> Seq<char> {
    if part.len() > 0 && part[0] == '/' {
        part
    } else if base.len() > 0 && base.last() != '/' {
        base + seq!['/'] + part
    } else {
        base + part
    }
}

/// Joins `part` to `base` (see `join_text`).
pub fn join(base: &str, part: &str) -> (r: String)
    ensures
        r@ == join_text(base@, part@),
{
    let b = chars_of(base);
    let p = chars_of(part);
    if p.len() > 0 && p[0] == '/' {
        return String::from_str(part);
    }
    let mut r = String::from_str(base);
    if b.len() > 0 && b[b.len() - 1] != '/' {
        r.append("/");
        proof {
            reveal_strlit("/");
        }
    }
    r.append(part);
    r
}

// ------------------------------------------------------------------
// Components
// ------------------------------------------------------------------

/// The kinds of path components, in the order `std::path::Component`
/// compares them.
pub const ROOT_DIR: u8 = 1;

pub const CUR_DIR: u8 = 2;

pub const PARENT_DIR: u8 = 3;

pub const NORMAL: u8 = 4;

/// A component: its kind, and its text when it is a normal one.
pub type ComponentText = (u8, Seq<char>);

/// The index of the first `'/'` at or after `i`, or `s.len()`.
pub open spec fn segment_end(s: Seq<char>, i: int) -> int
    decreases s.len() - i,
{
    if i < 0 || i >= s.len() {
        s.len() as int
    } else if s[i] == '/' {
        i
    } else {
        segment_end(s, i + 1)
    }
}

pub proof fn lemma_segment_end(s: Seq<char>, i: int)
    requires
        0 <= i <= s.len(),
    ensures
        i <= segment_end(s, i) <= s.len(),
        forall|k: int| i <= k < segment_end(s, i) ==> s[k] != '/',
    decreases s.len() - i,
{
    if i < s.len() && s[i] != '/' {
        lemma_segment_end(s, i + 1);
    }
}

/// The component a segment between separators makes, if any: empty
/// segments and `"."` make none.
pub open spec fn segment_components(seg: Seq<char>) -> Seq<ComponentText> {
    if seg.len() == 0 || seg == seq!['.'] {
        seq![]
    } else if seg == seq!['.', '.'] {
        seq![(PARENT_DIR, Seq::<char>::empty())]
    } else {
        seq![(NORMAL, seg)]
    }
}

/// The components of the segments of `s` from index `i` on.
pub open spec fn components_from(s: Seq<char>, i: int) -> Seq<ComponentText>
    decreases s.len() + 1 - i,
    via components_from_decreases
{
    if i < 0 || i >= s.len() {
        seq![]
    } else {
        let e = segment_end(s, i);
        segment_components(s.subrange(i, e)) + components_from(s, e + 1)
    }
}

#[via_fn]
proof fn components_from_decreases(s: Seq<char>, i: int) {
    if 0 <= i < s.len() {
        lemma_segment_end(s, i);
    }
}

/// The components of the path `s` (`Path::components` on Unix): a root
/// for a leading `'/'`, a current directory for a leading `"."`, then one
/// component per segment that is neither empty nor `"."`.
pub open spec fn components(s: Seq<char>) -> Seq<ComponentText> {
    if s.len() > 0 && s[0] == '/' {
        seq![(ROOT_DIR, Seq::<char>::empty())] + components_from(s, 1)
    } else if s.len() > 0 && s[0] == '.' && (s.len() == 1 || s[1] == '/') {
        seq![(CUR_DIR, Seq::<char>::empty())] + components_from(s, 1)
    } else {
        components_from(s, 0)
    }
}

/// Two paths are equal when their components are (`Path`'s `==`).
pub open spec fn same_path(a: Seq<char>, b: Seq<char>) -> bool {
    components(a) == components(b)
}

/// A component found in a path's characters: its kind and where its text
/// lies.
pub struct ComponentSpan {
    pub kind: u8,
    pub start: usize,
    pub end: usize,
}

/// The component text that a span stands for in `v`.
pub open spec fn span_text(v: Seq<char>, c: ComponentSpan) -> ComponentText {
    (
        c.kind,
        if c.kind == NORMAL {
            v.subrange(c.start as int, c.end as int)
        } else {
            Seq::<char>::empty()
        },
    )
}

/// The component texts of a list of spans.
pub open spec fn spans_text(v: Seq<char>, cs: Seq<ComponentSpan>) -> Seq<ComponentText> {
    cs.map_values(|c: ComponentSpan| span_text(v, c))
}

/// A span is well placed in `v`.
pub open spec fn span_in(v: Seq<char>, c: ComponentSpan) -> bool {
    c.start <= c.end <= v.len()
}

/// Appends the components that the segment `v[i..e]` makes.
fn push_segment(v: &Vec<char>, i: usize, e: usize, out: &mut Vec<ComponentSpan>)
    requires
        i <= e <= v.len(),
        forall|k: int| 0 <= k < old(out)@.len() ==> span_in(v@, #[trigger] old(out)@[k]),
    ensures
        spans_text(v@, final(out)@) == spans_text(v@, old(out)@) + segment_components(
            v@.subrange(i as int, e as int),
        ),
        forall|k: int| 0 <= k < final(out)@.len() ==> span_in(v@, #[trigger] final(out)@[k]),
{
    let ghost seg = v@.subrange(i as int, e as int);
    let ghost before = out@;
    if e == i || (e - i == 1 && v[i] == '.') {
        proof {
            if e - i == 1 {
                assert(seg =~= seq!['.']);
            }
        }
        assert(spans_text(v@, out@) =~= spans_text(v@, before) + segment_components(seg));
    } else if e - i == 2 && v[i] == '.' && v[i + 1] == '.' {
        assert(seg =~= seq!['.', '.']);
        out.push(ComponentSpan { kind: 3, start: i, end: e });
        assert(spans_text(v@, out@) =~= spans_text(v@, before) + segment_components(seg));
    } else {
        assert(seg.len() != 0);
        assert(seg != seq!['.']) by {
            if seg.len() == 1 {
                assert(seg[0] == v@[i as int]);
            }
        }
        assert(seg != seq!['.', '.']) by {
            if seg.len() == 2 {
                assert(seg[0] == v@[i as int]);
                assert(seg[1] == v@[i + 1]);
            }
        }
        out.push(ComponentSpan { kind: 4, start: i, end: e });
        assert(spans_text(v@, out@) =~= spans_text(v@, before) + segment_components(seg));
    }
}

/// The components of the path whose characters `v` holds.
pub fn path_components(v: &Vec<char>) -> (r: Vec<ComponentSpan>)
    ensures
        spans_text(v@, r@) == components(v@),
        forall|k: int| 0 <= k < r@.len() ==> span_in(v@, #[trigger] r@[k]),
{
    let mut out: Vec<ComponentSpan> = Vec::new();
    let mut i: usize = 0;
    let ghost mut head: Seq<ComponentText> = seq![];
    if v.len() > 0 && v[0] == '/' {
        out.push(ComponentSpan { kind: 1, start: 0, end: 0 });
        i = 1;
        proof {
            head = seq![(ROOT_DIR, Seq::<char>::empty())];
        }
    } else if v.len() > 0 && v[0] == '.' && (v.len() == 1 || v[1] == '/') {
        out.push(ComponentSpan { kind: 2, start: 0, end: 0 });
        i = 1;
        proof {
            head = seq![(CUR_DIR, Seq::<char>::empty())];
        }
    }
    assert(spans_text(v@, out@) =~= head);
    assert(components(v@) == head + components_from(v@, i as int));
    while i < v.len()
        invariant
            i <= v.len(),
            components(v@) == spans_text(v@, out@) + components_from(v@, i as int),
            forall|k: int| 0 <= k < out@.len() ==> span_in(v@, #[trigger] out@[k]),
        decreases v.len() - i,
    {
        proof {
            lemma_segment_end(v@, i as int);
        }
        let mut e = i;
        while e < v.len() && v[e] != '/'
            invariant
                i <= e <= v.len(),
                segment_end(v@, i as int) == segment_end(v@, e as int),
            decreases v.len() - e,
        {
            e = e + 1;
        }
        let ghost before = spans_text(v@, out@);
        push_segment(v, i, e, &mut out);
        proof {
            let seg = segment_components(v@.subrange(i as int, e as int));
            assert(components_from(v@, i as int) == seg + components_from(v@, e + 1));
            assert(before + (seg + components_from(v@, e + 1)) =~= (before + seg)
                + components_from(v@, e + 1));
        }
        if e < v.len() {
            i = e + 1;
        } else {
            i = e;
            assert(components_from(v@, e + 1) == components_from(v@, e as int));
        }
    }
    assert(spans_text(v@, out@) + components_from(v@, i as int) =~= spans_text(v@, out@));
    out
}

/// Whether `v[a0..a1]` and `w[b0..b1]` hold the same characters.
fn ranges_equal(v: &Vec<char>, a0: usize, a1: usize, w: &Vec<char>, b0: usize, b1: usize) -> (r:
    bool)
    requires
        a0 <= a1 <= v.len(),
        b0 <= b1 <= w.len(),
    ensures
        r == (v@.subrange(a0 as int, a1 as int) == w@.subrange(b0 as int, b1 as int)),
{
    if a1 - a0 != b1 - b0 {
        assert(v@.subrange(a0 as int, a1 as int).len() != w@.subrange(b0 as int, b1 as int).len());
        return false;
    }
    let mut k: usize = 0;
    while k < a1 - a0
        invariant
            a0 <= a1 <= v.len(),
            b0 <= b1 <= w.len(),
            a1 - a0 == b1 - b0,
            k <= a1 - a0,
            forall|m: int|
                0 <= m < k ==> #[trigger] v@.subrange(a0 as int, a1 as int)[m] == w@.subrange(
                    b0 as int,
                    b1 as int,
                )[m],
        decreases a1 - a0 - k,
    {
        if v[a0 + k] != w[b0 + k] {
            assert(v@.subrange(a0 as int, a1 as int)[k as int] != w@.subrange(
                b0 as int,
                b1 as int,
            )[k as int]);
            return false;
        }
        k = k + 1;
    }
    assert(v@.subrange(a0 as int, a1 as int) =~= w@.subrange(b0 as int, b1 as int));
    true
}

/// Whether two components, found in `v` and `w`, are the same.
fn same_component(v: &Vec<char>, c: &ComponentSpan, w: &Vec<char>, d: &ComponentSpan) -> (r: bool)
    requires
        span_in(v@, *c),
        span_in(w@, *d),
    ensures
        r == (span_text(v@, *c) == span_text(w@, *d)),
{
    if c.kind != d.kind {
        return false;
    }
    if c.kind != NORMAL {
        return true;
    }
    ranges_equal(v, c.start, c.end, w, d.start, d.end)
}

/// Whether `a` and `b` name the same path (see `same_path`).
pub fn paths_equal(a: &str, b: &str) -> (r: bool)
    ensures
        r == same_path(a@, b@),
{
    let v = chars_of(a);
    let w = chars_of(b);
    let cs = path_components(&v);
    let ds = path_components(&w);
    assert(components(a@) == spans_text(v@, cs@));
    assert(components(b@) == spans_text(w@, ds@));
    if cs.len() != ds.len() {
        assert(spans_text(v@, cs@).len() != spans_text(w@, ds@).len());
        return false;
    }
    let mut k: usize = 0;
    while k < cs.len()
        invariant
            cs.len() == ds.len(),
            k <= cs.len(),
            components(a@) == spans_text(v@, cs@),
            components(b@) == spans_text(w@, ds@),
            forall|m: int| 0 <= m < cs@.len() ==> span_in(v@, #[trigger] cs@[m]),
            forall|m: int| 0 <= m < ds@.len() ==> span_in(w@, #[trigger] ds@[m]),
            forall|m: int|
                0 <= m < k ==> #[trigger] spans_text(v@, cs@)[m] == spans_text(w@, ds@)[m],
        decreases cs.len() - k,
    {
        if !same_component(&v, &cs[k], &w, &ds[k]) {
            assert(spans_text(v@, cs@)[k as int] == span_text(v@, cs@[k as int]));
            assert(spans_text(w@, ds@)[k as int] == span_text(w@, ds@[k as int]));
            assert(spans_text(v@, cs@)[k as int] != spans_text(w@, ds@)[k as int]);
            assert(spans_text(v@, cs@) != spans_text(w@, ds@));
            return false;
        }
        assert(spans_text(v@, cs@)[k as int] == span_text(v@, cs@[k as int]));
        assert(spans_text(w@, ds@)[k as int] == span_text(w@, ds@[k as int]));
        k = k + 1;
    }
    assert(spans_text(v@, cs@) =~= spans_text(w@, ds@));
    true
}

// ------------------------------------------------------------------
// Ordering
// ------------------------------------------------------------------

/// `a` comes before `b` character by character, a prefix first.
pub open spec fn text_less(a: Seq<char>, b: Seq<char>) -> bool
    decreases a.len(),
{
    if a.len() == 0 {
        b.len() > 0
    } else if b.len() == 0 {
        false
    } else if a[0] != b[0] {
        (a[0] as u32) < (b[0] as u32)
    } else {
        text_less(a.drop_first(), b.drop_first())
    }
}

/// Components are ordered by kind (root, current, parent, normal), normal
/// ones then by their text.
pub open spec fn component_less(x: ComponentText, y: ComponentText) -> bool {
    x.0 < y.0 || (x.0 == y.0 && text_less(x.1, y.1))
}

/// Component lists are ordered component by component, a prefix first.
pub open spec fn components_less(a: Seq<ComponentText>, b: Seq<ComponentText>) -> bool
    decreases a.len(),
{
    if a.len() == 0 {
        b.len() > 0
    } else if b.len() == 0 {
        false
    } else if a[0] != b[0] {
        component_less(a[0], b[0])
    } else {
        components_less(a.drop_first(), b.drop_first())
    }
}

/// `a` comes before `b` as `Path`'s ordering has it: by components.
pub open spec fn path_less(a: Seq<char>, b: Seq<char>) -> bool {
    components_less(components(a), components(b))
}

pub proof fn lemma_text_less_irreflexive(a: Seq<char>)
    ensures
        !text_less(a, a),
    decreases a.len(),
{
    if a.len() > 0 {
        lemma_text_less_irreflexive(a.drop_first());
    }
}

pub proof fn lemma_text_less_transitive(a: Seq<char>, b: Seq<char>, c: Seq<char>)
    requires
        text_less(a, b),
        text_less(b, c),
    ensures
        text_less(a, c),
    decreases a.len(),
{
    if a.len() > 0 && b.len() > 0 && c.len() > 0 && a[0] == b[0] && b[0] == c[0] {
        lemma_text_less_transitive(a.drop_first(), b.drop_first(), c.drop_first());
    }
}

pub proof fn lemma_component_less_irreflexive(x: ComponentText)
    ensures
        !component_less(x, x),
{
    lemma_text_less_irreflexive(x.1);
}

pub proof fn lemma_component_less_transitive(x: ComponentText, y: ComponentText, z: ComponentText)
    requires
        component_less(x, y),
        component_less(y, z),
    ensures
        component_less(x, z),
{
    if x.0 == y.0 && y.0 == z.0 {
        lemma_text_less_transitive(x.1, y.1, z.1);
    }
}

pub proof fn lemma_components_less_irreflexive(a: Seq<ComponentText>)
    ensures
        !components_less(a, a),
    decreases a.len(),
{
    if a.len() > 0 {
        lemma_components_less_irreflexive(a.drop_first());
    }
}

pub proof fn lemma_components_less_transitive(
    a: Seq<ComponentText>,
    b: Seq<ComponentText>,
    c: Seq<ComponentText>,
)
    requires
        components_less(a, b),
        components_less(b, c),
    ensures
        components_less(a, c),
    decreases a.len(),
{
    if a.len() > 0 && b.len() > 0 && c.len() > 0 {
        if a[0] != b[0] && b[0] != c[0] {
            lemma_component_less_transitive(a[0], b[0], c[0]);
            if a[0] == c[0] {
                lemma_component_less_irreflexive(a[0]);
            }
        } else if a[0] == b[0] && b[0] == c[0] {
            lemma_components_less_transitive(a.drop_first(), b.drop_first(), c.drop_first());
        }
    }
}

/// `Path`'s ordering never puts a path before itself.
pub proof fn lemma_path_less_irreflexive(a: Seq<char>)
    ensures
        !path_less(a, a),
{
    lemma_components_less_irreflexive(components(a));
}

/// `Path`'s ordering is transitive.
pub proof fn lemma_path_less_transitive(a: Seq<char>, b: Seq<char>, c: Seq<char>)
    requires
        path_less(a, b),
        path_less(b, c),
    ensures
        path_less(a, c),
{
    lemma_components_less_transitive(components(a), components(b), components(c));
}

pub proof fn lemma_text_less_total(a: Seq<char>, b: Seq<char>)
    requires
        a != b,
    ensures
        text_less(a, b) || text_less(b, a),
    decreases a.len(),
{
    if a.len() == 0 && b.len() == 0 {
        assert(a =~= b);
    } else if a.len() > 0 && b.len() > 0 && a[0] != b[0] {
        vstd::utf8::char_u32_cast(a[0], a[0] as u32);
        vstd::utf8::char_u32_cast(b[0], b[0] as u32);
    } else if a.len() > 0 && b.len() > 0 && a[0] == b[0] {
        if a.drop_first() == b.drop_first() {
            assert(a =~= seq![a[0]] + a.drop_first());
            assert(b =~= seq![b[0]] + b.drop_first());
        }
        lemma_text_less_total(a.drop_first(), b.drop_first());
    }
}

pub proof fn lemma_components_less_total(a: Seq<ComponentText>, b: Seq<ComponentText>)
    requires
        a != b,
    ensures
        components_less(a, b) || components_less(b, a),
    decreases a.len(),
{
    if a.len() == 0 && b.len() == 0 {
        assert(a =~= b);
    } else if a.len() > 0 && b.len() > 0 {
        if a[0] == b[0] {
            if a.drop_first() == b.drop_first() {
                assert(a =~= seq![a[0]] + a.drop_first());
                assert(b =~= seq![b[0]] + b.drop_first());
            }
            lemma_components_less_total(a.drop_first(), b.drop_first());
        } else if a[0].0 == b[0].0 {
            lemma_text_less_total(a[0].1, b[0].1);
        }
    }
}

/// `Path`'s ordering puts one of any two paths with different components
/// before the other.
pub proof fn lemma_path_less_total(a: Seq<char>, b: Seq<char>)
    requires
        components(a) != components(b),
    ensures
        path_less(a, b) || path_less(b, a),
{
    lemma_components_less_total(components(a), components(b));
}

/// Whether `v[a0..a1]` comes before `w[b0..b1]` (see `text_less`).
fn range_less(v: &Vec<char>, a0: usize, a1: usize, w: &Vec<char>, b0: usize, b1: usize) -> (r:
    bool)
    requires
        a0 <= a1 <= v.len(),
        b0 <= b1 <= w.len(),
    ensures
        r == text_less(v@.subrange(a0 as int, a1 as int), w@.subrange(b0 as int, b1 as int)),
{
    let ghost a = v@.subrange(a0 as int, a1 as int);
    let ghost b = w@.subrange(b0 as int, b1 as int);
    let mut k: usize = 0;
    assert(a.skip(0) =~= a);
    assert(b.skip(0) =~= b);
    loop
        invariant
            a0 <= a1 <= v.len(),
            b0 <= b1 <= w.len(),
            a == v@.subrange(a0 as int, a1 as int),
            b == w@.subrange(b0 as int, b1 as int),
            k <= a.len(),
            k <= b.len(),
            text_less(a, b) == text_less(a.skip(k as int), b.skip(k as int)),
        decreases a.len() - k,
    {
        if k == a1 - a0 {
            return k < b1 - b0;
        }
        if k == b1 - b0 {
            return false;
        }
        let x = v[a0 + k];
        let y = w[b0 + k];
        assert(a.skip(k as int)[0] == x);
        assert(b.skip(k as int)[0] == y);
        if x != y {
            return (x as u32) < (y as u32);
        }
        assert(a.skip(k as int).drop_first() =~= a.skip(k + 1));
        assert(b.skip(k as int).drop_first() =~= b.skip(k + 1));
        k = k + 1;
    }
}

/// Whether the component `c` of `v` comes before the component `d` of `w`.
fn span_less(v: &Vec<char>, c: &ComponentSpan, w: &Vec<char>, d: &ComponentSpan) -> (r: bool)
    requires
        span_in(v@, *c),
        span_in(w@, *d),
    ensures
        r == component_less(span_text(v@, *c), span_text(w@, *d)),
{
    if c.kind != d.kind {
        return c.kind < d.kind;
    }
    if c.kind != NORMAL {
        proof {
            lemma_text_less_irreflexive(Seq::<char>::empty());
        }
        return false;
    }
    range_less(v, c.start, c.end, w, d.start, d.end)
}

/// Whether the path `a` comes before the path `b` (see `path_less`).
pub fn path_precedes(a: &str, b: &str) -> (r: bool)
    ensures
        r == path_less(a@, b@),
{
    let v = chars_of(a);
    let w = chars_of(b);
    let cs = path_components(&v);
    let ds = path_components(&w);
    let ghost x = spans_text(v@, cs@);
    let ghost y = spans_text(w@, ds@);
    let mut k: usize = 0;
    assert(x.skip(0) =~= x);
    assert(y.skip(0) =~= y);
    loop
        invariant
            x == spans_text(v@, cs@),
            y == spans_text(w@, ds@),
            x == components(a@),
            y == components(b@),
            forall|m: int| 0 <= m < cs@.len() ==> span_in(v@, #[trigger] cs@[m]),
            forall|m: int| 0 <= m < ds@.len() ==> span_in(w@, #[trigger] ds@[m]),
            k <= cs.len(),
            k <= ds.len(),
            components_less(x, y) == components_less(x.skip(k as int), y.skip(k as int)),
        decreases cs.len() - k,
    {
        if k == cs.len() {
            return k < ds.len();
        }
        if k == ds.len() {
            return false;
        }
        assert(x.skip(k as int)[0] == span_text(v@, cs@[k as int]));
        assert(y.skip(k as int)[0] == span_text(w@, ds@[k as int]));
        if !same_component(&v, &cs[k], &w, &ds[k]) {
            return span_less(&v, &cs[k], &w, &ds[k]);
        }
        assert(x.skip(k as int).drop_first() =~= x.skip(k + 1));
        assert(y.skip(k as int).drop_first() =~= y.skip(k + 1));
        k = k + 1;
    }
}

} // verus!
