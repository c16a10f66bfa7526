//! Facts about how `str::lines` splits texts that are joined together.
use vstd::prelude::*;

use crate::text::{lemma_line_end, line_end, lines, lines_from, strip_cr};


verus! {

/// No `'\r'` stands right before a `'\n'` in `s`.
pub open spec fn no_crlf(s: Seq<char>) -> bool {
    forall|k: int| 0 < k < s.len() && #[trigger] s[k] == '\n' ==> s[k - 1] != '\r'
}

/// `s` holds no `'\n'`.
pub open spec fn single_line(s: Seq<char>) -> bool {
    forall|k: int| 0 <= k < s.len() ==> #[trigger] s[k] != '\n'
}

/// Scanning for the end of a line in a tail of `s` is scanning in `s`.
proof fn lemma_line_end_shift(s: Seq<char>, off: int, j: int)
    requires
        0 <= off <= s.len(),
        0 <= j,
    ensures
        line_end(s, off + j) == off + line_end(s.skip(off), j),
    decreases s.len() - off - j,
{
    let t = s.skip(off);
    if j < t.len() {
        assert(s[off + j] == t[j]);
        if t[j] != '\n' {
            lemma_line_end_shift(s, off, j + 1);
        }
    }
}

/// The lines of a tail of `s` are the lines of `s` from where it starts.
proof fn lemma_lines_shift(s: Seq<char>, off: int, j: int)
    requires
        0 <= off <= s.len(),
        0 <= j,
    ensures
        lines_from(s, off + j) == lines_from(s.skip(off), j),
    decreases s.len() - off - j,
{
    let t = s.skip(off);
    if j < t.len() {
        lemma_line_end_shift(s, off, j);
        lemma_line_end(t, j);
        let e = line_end(t, j);
        assert(s.subrange(off + j, off + e) =~= t.subrange(j, e));
        if e < t.len() {
            lemma_lines_shift(s, off, e + 1);
            assert(lines_from(s, off + j) == seq![strip_cr(s.subrange(off + j, off + e))]
                + lines_from(s, off + e + 1));
            assert(lines_from(t, j) == seq![strip_cr(t.subrange(j, e))] + lines_from(t, e + 1));
        } else {
            assert(lines_from(s, off + j) == seq![s.subrange(off + j, off + e)] + lines_from(
                s,
                off + e + 1,
            ));
            assert(lines_from(t, j) == seq![t.subrange(j, e)] + lines_from(t, e + 1));
            assert(lines_from(s, off + e + 1) == Seq::<Seq<char>>::empty());
            assert(lines_from(t, e + 1) == Seq::<Seq<char>>::empty());
        }
    } else {
        assert(lines_from(s, off + j) == Seq::<Seq<char>>::empty());
    }
}

/// Within a prefix that ends with `'\n'`, lines end where they end in the
/// whole text.
proof fn lemma_line_end_prefix(s: Seq<char>, n: int, i: int)
    requires
        1 <= n <= s.len(),
        s[n - 1] == '\n',
        0 <= i < n,
    ensures
        line_end(s, i) == line_end(s.take(n), i),
        line_end(s, i) < n,
    decreases n - i,
{
    let u = s.take(n);
    assert(u[i] == s[i]);
    if s[i] != '\n' {
        lemma_line_end_prefix(s, n, i + 1);
    }
}

proof fn lemma_lines_prefix(s: Seq<char>, n: int, i: int)
    requires
        1 <= n <= s.len(),
        s[n - 1] == '\n',
        0 <= i <= n,
    ensures
        lines_from(s, i) == lines_from(s.take(n), i) + lines_from(s, n),
    decreases n - i,
{
    let u = s.take(n);
    if i == n {
        assert(lines_from(u, i) == Seq::<Seq<char>>::empty());
        assert(lines_from(s, i) =~= lines_from(u, i) + lines_from(s, n));
    } else {
        lemma_line_end_prefix(s, n, i);
        lemma_line_end(s, i);
        let e = line_end(s, i);
        assert(s.subrange(i, e) =~= u.subrange(i, e));
        lemma_lines_prefix(s, n, e + 1);
        let l = strip_cr(s.subrange(i, e));
        assert(lines_from(s, i) == seq![l] + lines_from(s, e + 1));
        assert(lines_from(u, i) == seq![l] + lines_from(u, e + 1));
        assert(lines_from(s, i) =~= lines_from(u, i) + lines_from(s, n));
    }
}

/// Lines split at a line end: the lines of `u + w`, where `u` ends with
/// `'\n'`, are those of `u` then those of `w`.
pub proof fn lemma_lines_concat(u: Seq<char>, w: Seq<char>)
    requires
        u.len() > 0,
        u.last() == '\n',
    ensures
        lines(u + w) == lines(u) + lines(w),
{
    let s = u + w;
    let n = u.len() as int;
    assert(s.take(n) =~= u);
    assert(s[n - 1] == '\n');
    lemma_lines_prefix(s, n, 0);
    assert(s.skip(n) =~= w);
    lemma_lines_shift(s, n, 0);
}

proof fn lemma_line_end_single(s: Seq<char>, n: int, i: int)
    requires
        0 <= i <= n <= s.len(),
        forall|k: int| 0 <= k < n ==> #[trigger] s[k] != '\n',
        n == s.len() || s[n] == '\n',
    ensures
        line_end(s, i) == n,
    decreases n - i,
{
    if i < n {
        lemma_line_end_single(s, n, i + 1);
    }
}

/// A text of one line ended by `'\n'` has that one line.
pub proof fn lemma_lines_of_ended_line(y: Seq<char>)
    requires
        single_line(y),
    ensures
        lines(y + seq!['\n']) == seq![strip_cr(y)],
{
    let s = y + seq!['\n'];
    assert forall|k: int| 0 <= k < y.len() implies #[trigger] s[k] != '\n' by {
        assert(s[k] == y[k]);
    }
    lemma_line_end_single(s, y.len() as int, 0);
    assert(s.subrange(0, y.len() as int) =~= y);
    assert(lines_from(s, y.len() + 1int) == Seq::<Seq<char>>::empty());
    assert(lines(s) =~= seq![strip_cr(y)]);
}

/// A non-empty text with no `'\n'` is one line.
pub proof fn lemma_lines_of_single_line(y: Seq<char>)
    requires
        y.len() > 0,
        single_line(y),
    ensures
        lines(y) == seq![y],
{
    lemma_line_end_single(y, y.len() as int, 0);
    assert(y.subrange(0, y.len() as int) =~= y);
    assert(lines_from(y, y.len() + 1int) == Seq::<Seq<char>>::empty());
    assert(lines(y) =~= seq![y]);
}

proof fn lemma_line_end_newline(s: Seq<char>, i: int)
    requires
        0 <= i <= s.len(),
    ensures
        line_end(s + seq!['\n'], i) == line_end(s, i),
    decreases s.len() - i,
{
    let t = s + seq!['\n'];
    if i < s.len() {
        assert(t[i] == s[i]);
        if s[i] != '\n' {
            lemma_line_end_newline(s, i + 1);
        }
    } else {
        assert(t[i] == '\n');
    }
}

proof fn lemma_lines_newline_from(s: Seq<char>, i: int)
    requires
        0 <= i < s.len(),
        s.last() != '\n',
        s.last() != '\r',
    ensures
        lines_from(s + seq!['\n'], i) == lines_from(s, i),
    decreases s.len() - i,
{
    let t = s + seq!['\n'];
    lemma_line_end_newline(s, i);
    lemma_line_end(s, i);
    let e = line_end(s, i);
    assert(t.subrange(i, e) =~= s.subrange(i, e));
    if e < s.len() {
        assert(e + 1 < s.len());
        lemma_lines_newline_from(s, e + 1);
        assert(lines_from(t, i) == seq![strip_cr(t.subrange(i, e))] + lines_from(t, e + 1));
        assert(lines_from(s, i) == seq![strip_cr(s.subrange(i, e))] + lines_from(s, e + 1));
    } else {
        assert(s.subrange(i, e).last() == s.last());
        assert(strip_cr(s.subrange(i, e)) == s.subrange(i, e));
        assert(lines_from(t, e + 1) == Seq::<Seq<char>>::empty());
        assert(lines_from(s, e + 1) == Seq::<Seq<char>>::empty());
        assert(lines_from(t, i) == seq![strip_cr(t.subrange(i, e))] + lines_from(t, e + 1));
        assert(lines_from(s, i) == seq![s.subrange(i, e)] + lines_from(s, e + 1));
    }
}

/// A final `'\n'` after a last line that does not end in `'\r'` adds no line.
pub proof fn lemma_lines_newline(s: Seq<char>)
    requires
        s.len() > 0,
        s.last() != '\n',
        s.last() != '\r',
    ensures
        lines(s + seq!['\n']) == lines(s),
{
    lemma_lines_newline_from(s, 0);
}

/// The lines `ls`, each followed by `'\n'`.
pub open spec fn join_lines(ls: Seq<Seq<char>>) -> Seq<char>
    decreases ls.len(),
{
    if ls.len() == 0 {
        seq![]
    } else {
        join_lines(ls.drop_last()) + ls.last() + seq!['\n']
    }
}

/// `l` is a line as `str::lines` gives one back after a `'\n'`: it holds no
/// `'\n'` and does not end with `'\r'`.
pub open spec fn plain_line(l: Seq<char>) -> bool {
    single_line(l) && (l.len() == 0 || l.last() != '\r')
}

pub proof fn lemma_join_concat(a: Seq<Seq<char>>, b: Seq<Seq<char>>)
    ensures
        join_lines(a + b) == join_lines(a) + join_lines(b),
    decreases b.len(),
{
    if b.len() == 0 {
        assert(a + b =~= a);
        assert(join_lines(a) + join_lines(b) =~= join_lines(a));
    } else {
        assert((a + b).drop_last() =~= a + b.drop_last());
        lemma_join_concat(a, b.drop_last());
        assert(join_lines(a + b) =~= join_lines(a) + join_lines(b));
    }
}

/// Splitting joined lines gives them back.
pub proof fn lemma_lines_of_join(ls: Seq<Seq<char>>)
    requires
        forall|k: int| 0 <= k < ls.len() ==> plain_line(#[trigger] ls[k]),
    ensures
        lines(join_lines(ls)) == ls,
    decreases ls.len(),
{
    if ls.len() > 0 {
        let a = ls.drop_last();
        let l = ls.last();
        assert(plain_line(ls[ls.len() - 1]));
        assert forall|k: int| 0 <= k < a.len() implies plain_line(#[trigger] a[k]) by {
            assert(a[k] == ls[k]);
        }
        lemma_lines_of_join(a);
        lemma_lines_of_ended_line(l);
        assert(strip_cr(l) == l);
        if a.len() == 0 {
            assert(join_lines(a) == Seq::<char>::empty());
            assert(join_lines(ls) =~= l + seq!['\n']);
            assert(ls =~= seq![l]);
        } else {
            let j = join_lines(a);
            assert(j.last() == '\n');
            assert(join_lines(ls) =~= j + (l + seq!['\n']));
            lemma_lines_concat(j, l + seq!['\n']);
            assert(ls =~= a + seq![l]);
        }
    }
}

proof fn lemma_join_lines_from(s: Seq<char>, i: int)
    requires
        0 <= i <= s.len(),
        no_crlf(s),
        s.len() == 0 || s.last() == '\n',
    ensures
        join_lines(lines_from(s, i)) == s.skip(i),
    decreases s.len() - i,
{
    if i == s.len() {
        assert(lines_from(s, i) == Seq::<Seq<char>>::empty());
        assert(s.skip(i) =~= Seq::<char>::empty());
    } else {
        lemma_line_end(s, i);
        let e = line_end(s, i);
        assert(e < s.len());
        let l = strip_cr(s.subrange(i, e));
        if e > i {
            assert(s[e - 1] != '\r');
            assert(s.subrange(i, e).last() == s[e - 1]);
        }
        assert(l == s.subrange(i, e));
        lemma_join_lines_from(s, e + 1);
        assert(lines_from(s, i) == seq![l] + lines_from(s, e + 1));
        lemma_join_concat(seq![l], lines_from(s, e + 1));
        assert(seq![l].drop_last() =~= Seq::<Seq<char>>::empty());
        assert(join_lines(Seq::<Seq<char>>::empty()) == Seq::<char>::empty());
        assert(join_lines(seq![l]) =~= l + seq!['\n']);
        assert(s.skip(i) =~= s.subrange(i, e) + seq!['\n'] + s.skip(e + 1));
    }
}

/// Joining the lines of a text that ends with `'\n'`, and holds no
/// `"\r\n"`, gives the text back.
pub proof fn lemma_join_of_lines(s: Seq<char>)
    requires
        no_crlf(s),
        s.len() == 0 || s.last() == '\n',
    ensures
        join_lines(lines(s)) == s,
{
    lemma_join_lines_from(s, 0);
    assert(s.skip(0) =~= s);
}

proof fn lemma_lines_from_single(s: Seq<char>, i: int)
    requires
        0 <= i,
    ensures
        forall|k: int|
            0 <= k < lines_from(s, i).len() ==> single_line(#[trigger] lines_from(s, i)[k]),
    decreases s.len() - i,
{
    if i < s.len() {
        lemma_line_end(s, i);
        let e = line_end(s, i);
        let piece = s.subrange(i, e);
        assert(single_line(piece)) by {
            assert forall|k: int| 0 <= k < piece.len() implies #[trigger] piece[k] != '\n' by {
                assert(piece[k] == s[i + k]);
            }
        }
        let l = if e < s.len() {
            strip_cr(piece)
        } else {
            piece
        };
        assert(single_line(l)) by {
            if l != piece {
                assert forall|k: int| 0 <= k < l.len() implies #[trigger] l[k] != '\n' by {
                    assert(l[k] == piece[k]);
                }
            }
        }
        let rest = lines_from(s, e + 1);
        if e < s.len() {
            lemma_lines_from_single(s, e + 1);
        } else {
            assert(rest == Seq::<Seq<char>>::empty());
        }
        assert(lines_from(s, i) == seq![l] + rest);
        assert forall|k: int|
            0 <= k < lines_from(s, i).len() implies single_line(#[trigger] lines_from(s, i)[k]) by {
            if k > 0 {
                assert(lines_from(s, i)[k] == rest[k - 1]);
            }
        }
    }
}

/// No line that `str::lines` gives holds a `'\n'`.
pub proof fn lemma_lines_single(s: Seq<char>)
    ensures
        forall|k: int| 0 <= k < lines(s).len() ==> single_line(#[trigger] lines(s)[k]),
{
    lemma_lines_from_single(s, 0);
}

/// Splitting joined lines gives them back, each without the `'\r'` that
/// ended it, if one did.
pub proof fn lemma_lines_of_join_any(ls: Seq<Seq<char>>)
    requires
        forall|k: int| 0 <= k < ls.len() ==> single_line(#[trigger] ls[k]),
    ensures
        lines(join_lines(ls)).len() == ls.len(),
        forall|k: int| 0 <= k < ls.len() ==> #[trigger] lines(join_lines(ls))[k] == strip_cr(ls[k]),
    decreases ls.len(),
{
    if ls.len() > 0 {
        let a = ls.drop_last();
        let l = ls.last();
        assert(single_line(ls[ls.len() - 1]));
        assert forall|k: int| 0 <= k < a.len() implies single_line(#[trigger] a[k]) by {
            assert(a[k] == ls[k]);
        }
        lemma_lines_of_join_any(a);
        lemma_lines_of_ended_line(l);
        if a.len() == 0 {
            assert(join_lines(a) == Seq::<char>::empty());
            assert(join_lines(ls) =~= l + seq!['\n']);
        } else {
            let j = join_lines(a);
            assert(j.last() == '\n');
            assert(join_lines(ls) =~= j + (l + seq!['\n']));
            lemma_lines_concat(j, l + seq!['\n']);
        }
        assert forall|k: int| 0 <= k < ls.len() implies #[trigger] lines(join_lines(ls))[k]
            == strip_cr(ls[k]) by {
            if k < a.len() {
                assert(ls[k] == a[k]);
            }
        }
    }
}

} // verus!
