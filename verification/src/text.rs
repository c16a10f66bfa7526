use vstd::prelude::*;

verus! {

// ------------------------------------------------------------------
// Characters
// ------------------------------------------------------------------

/// The characters of `s`, in order.
pub fn chars_of(s: &str) -> (v: Vec<char>)
    ensures
        v@ == s@,
{
    let mut v: Vec<char> = Vec::new();
    for c in it: s.chars()
        invariant
            v@ == it.seq().take(it.index() as int),
            it.seq() == s@,
    {
        v.push(c);
    }
    v
}

/// Unicode `White_Space`, the property that `char::is_whitespace` tests
/// and that `str::trim` and its relatives strip.
pub open spec fn is_white(c: char) -> bool {
    ||| ('\t' <= c && c <= '\r')
    ||| c == ' '
    ||| c == '\u{85}'
    ||| c == '\u{A0}'
    ||| c == '\u{1680}'
    ||| ('\u{2000}' <= c && c <= '\u{200A}')
    ||| c == '\u{2028}'
    ||| c == '\u{2029}'
    ||| c == '\u{202F}'
    ||| c == '\u{205F}'
    ||| c == '\u{3000}'
}

pub fn is_white_char(c: char) -> (b: bool)
    ensures
        b == is_white(c),
{
    ('\t' <= c && c <= '\r') || c == ' ' || c == '\u{85}' || c == '\u{A0}' || c == '\u{1680}'
        || ('\u{2000}' <= c && c <= '\u{200A}') || c == '\u{2028}' || c == '\u{2029}' || c
        == '\u{202F}' || c == '\u{205F}' || c == '\u{3000}'
}

// ------------------------------------------------------------------
// Trimming
// ------------------------------------------------------------------

/// `s` without its leading whitespace (`str::trim_start`).
pub open spec fn trim_start(s: Seq<char>) -> Seq<char>
    decreases s.len(),
{
    if s.len() > 0 && is_white(s[0]) {
        trim_start(s.drop_first())
    } else {
        s
    }
}

/// `s` without its trailing whitespace (`str::trim_end`).
pub open spec fn trim_end(s: Seq<char>) -> Seq<char>
    decreases s.len(),
{
    if s.len() > 0 && is_white(s.last()) {
        trim_end(s.drop_last())
    } else {
        s
    }
}

/// `s` without leading and trailing whitespace (`str::trim`).
pub open spec fn trim(s: Seq<char>) -> Seq<char> {
    trim_end(trim_start(s))
}

pub proof fn lemma_trim_start_at(s: Seq<char>, i: int)
    requires
        0 <= i <= s.len(),
        forall|k: int| 0 <= k < i ==> is_white(#[trigger] s[k]),
        i == s.len() || !is_white(s[i]),
    ensures
        trim_start(s) == s.skip(i),
    decreases i,
{
    if i == 0 {
        assert(s.skip(0) =~= s);
    } else {
        let t = s.drop_first();
        assert forall|k: int| 0 <= k < i - 1 implies is_white(#[trigger] t[k]) by {
            assert(t[k] == s[k + 1]);
        }
        lemma_trim_start_at(t, i - 1);
        assert(t.skip(i - 1) =~= s.skip(i));
    }
}

pub proof fn lemma_trim_start_len(s: Seq<char>)
    ensures
        trim_start(s).len() <= s.len(),
        trim_start(s).len() == s.len() ==> trim_start(s) == s,
    decreases s.len(),
{
    if s.len() > 0 && is_white(s[0]) {
        lemma_trim_start_len(s.drop_first());
    }
}

pub proof fn lemma_trim_end_len(s: Seq<char>)
    ensures
        trim_end(s).len() <= s.len(),
        trim_end(s).len() == s.len() ==> trim_end(s) == s,
    decreases s.len(),
{
    if s.len() > 0 && is_white(s.last()) {
        lemma_trim_end_len(s.drop_last());
    }
}

/// A text that trimming leaves as it is neither starts nor ends with
/// whitespace.
pub proof fn lemma_trimmed_ends(p: Seq<char>)
    requires
        trim(p) == p,
        p.len() > 0,
    ensures
        !is_white(p[0]),
        !is_white(p.last()),
{
    lemma_trim_start_len(p);
    lemma_trim_end_len(trim_start(p));
    assert(trim_start(p) == p);
    if is_white(p[0]) {
        lemma_trim_start_len(p.drop_first());
    }
    if is_white(p.last()) {
        lemma_trim_end_len(p.drop_last());
    }
}

proof fn lemma_trim_start_append(y: Seq<char>, z: Seq<char>)
    ensures
        trim_start(y).len() > 0 ==> trim_start(y + z) == trim_start(y) + z,
        trim_start(y).len() == 0 ==> trim_start(y + z) == trim_start(z),
    decreases y.len(),
{
    if y.len() == 0 {
        assert(y + z =~= z);
    } else if is_white(y[0]) {
        assert((y + z).drop_first() =~= y.drop_first() + z);
        assert((y + z)[0] == y[0]);
        lemma_trim_start_append(y.drop_first(), z);
    } else {
        assert((y + z)[0] == y[0]);
    }
}

/// Whitespace at the end does not change what a text trims to.
pub proof fn lemma_trim_drop_white(s: Seq<char>)
    requires
        s.len() > 0,
        is_white(s.last()),
    ensures
        trim(s.drop_last()) == trim(s),
{
    let y = s.drop_last();
    let w = seq![s.last()];
    assert(s =~= y + w);
    lemma_trim_start_append(y, w);
    if trim_start(y).len() > 0 {
        let x = trim_start(y);
        assert((x + w).drop_last() =~= x);
        assert((x + w).last() == s.last());
    } else {
        assert(w.drop_first() =~= Seq::<char>::empty());
        assert(trim_start(w) == trim_start(Seq::<char>::empty()));
        assert(trim_start(y) =~= Seq::<char>::empty());
    }
}

/// Dropping the `'\r'` before a line end does not change what the line
/// trims to.
pub proof fn lemma_trim_strip_cr(l: Seq<char>)
    ensures
        trim(strip_cr(l)) == trim(l),
{
    if l.len() > 0 && l.last() == '\r' {
        lemma_trim_drop_white(l);
    }
}

/// Leading spaces do not change what a text trims to.
pub proof fn lemma_trim_indented(p: Seq<char>)
    ensures
        trim(seq![' ', ' '] + p) == trim(p),
{
    let s = seq![' ', ' '] + p;
    assert(s.drop_first() =~= seq![' '] + p);
    assert((seq![' '] + p).drop_first() =~= p);
    assert(trim_start(s) == trim_start(seq![' '] + p));
    assert(trim_start(seq![' '] + p) == trim_start(p));
}

pub proof fn lemma_trim_end_at(s: Seq<char>, j: int)
    requires
        0 <= j <= s.len(),
        forall|k: int| j <= k < s.len() ==> is_white(#[trigger] s[k]),
        j == 0 || !is_white(s[j - 1]),
    ensures
        trim_end(s) == s.take(j),
    decreases s.len() - j,
{
    if j == s.len() {
        assert(s.take(j) =~= s);
    } else {
        let t = s.drop_last();
        assert forall|k: int| j <= k < t.len() implies is_white(#[trigger] t[k]) by {
            assert(t[k] == s[k]);
        }
        lemma_trim_end_at(t, j);
        assert(t.take(j) =~= s.take(j));
    }
}

/// The first index in `from..to` at which `v` holds no whitespace, or `to`.
pub fn skip_white_forward(v: &Vec<char>, from: usize, to: usize) -> (i: usize)
    requires
        from <= to <= v.len(),
    ensures
        from <= i <= to,
        forall|k: int| from <= k < i ==> is_white(#[trigger] v@[k]),
        i == to || !is_white(v@[i as int]),
{
    let mut i = from;
    while i < to && is_white_char(v[i])
        invariant
            from <= i <= to <= v.len(),
            forall|k: int| from <= k < i ==> is_white(#[trigger] v@[k]),
        decreases to - i,
    {
        i = i + 1;
    }
    i
}

/// The last index `j` in `from..=to` such that `v[j..to]` is all whitespace.
pub fn skip_white_backward(v: &Vec<char>, from: usize, to: usize) -> (j: usize)
    requires
        from <= to <= v.len(),
    ensures
        from <= j <= to,
        forall|k: int| j <= k < to ==> is_white(#[trigger] v@[k]),
        j == from || !is_white(v@[j - 1]),
{
    let mut j = to;
    while j > from && is_white_char(v[j - 1])
        invariant
            from <= j <= to <= v.len(),
            forall|k: int| j <= k < to ==> is_white(#[trigger] v@[k]),
        decreases j - from,
    {
        j = j - 1;
    }
    j
}

/// The bounds of `trim(v[from..to])` within `v`.
pub fn trim_bounds(v: &Vec<char>, from: usize, to: usize) -> (r: (usize, usize))
    requires
        from <= to <= v.len(),
    ensures
        from <= r.0 <= r.1 <= to,
        v@.subrange(r.0 as int, r.1 as int) == trim(v@.subrange(from as int, to as int)),
        v@.subrange(r.0 as int, to as int) == trim_start(v@.subrange(from as int, to as int)),
{
    let ghost s = v@.subrange(from as int, to as int);
    let i = skip_white_forward(v, from, to);
    proof {
        assert forall|k: int| 0 <= k < i - from implies is_white(#[trigger] s[k]) by {
            assert(s[k] == v@[from + k]);
        }
        lemma_trim_start_at(s, i - from);
        assert(s.skip(i - from) =~= v@.subrange(i as int, to as int));
    }
    let j = skip_white_backward(v, i, to);
    proof {
        let t = v@.subrange(i as int, to as int);
        assert forall|k: int| j - i <= k < t.len() implies is_white(#[trigger] t[k]) by {
            assert(t[k] == v@[i + k]);
        }
        if j > i {
            assert(t[j - i - 1] == v@[j - 1]);
        }
        lemma_trim_end_at(t, j - i);
        assert(t.take(j - i) =~= v@.subrange(i as int, j as int));
    }
    (i, j)
}

// ------------------------------------------------------------------
// Comparing and searching
// ------------------------------------------------------------------

/// Whether `v[from..to]` holds exactly the characters of `w`.
pub fn range_equals(v: &Vec<char>, from: usize, to: usize, w: &Vec<char>) -> (b: bool)
    requires
        from <= to <= v.len(),
    ensures
        b == (v@.subrange(from as int, to as int) == w@),
{
    if to - from != w.len() {
        return false;
    }
    let mut k: usize = 0;
    while k < w.len()
        invariant
            from <= to <= v.len(),
            to - from == w.len(),
            k <= w.len(),
            forall|m: int| 0 <= m < k ==> v@[from + m] == w@[m],
        decreases w.len() - k,
    {
        if v[from + k] != w[k] {
            assert(v@.subrange(from as int, to as int)[k as int] != w@[k as int]);
            return false;
        }
        k = k + 1;
    }
    assert(v@.subrange(from as int, to as int) =~= w@);
    true
}

/// Whether `a` and `b` hold the same text.
pub fn text_equal(a: &str, b: &str) -> (r: bool)
    ensures
        r == (a@ == b@),
{
    let v = chars_of(a);
    let w = chars_of(b);
    assert(v@.subrange(0, v@.len() as int) =~= v@);
    range_equals(&v, 0, v.len(), &w)
}

/// Whether `v` holds the character `c`.
pub fn holds_char(v: &Vec<char>, from: usize, to: usize, c: char) -> (r: bool)
    requires
        from <= to <= v.len(),
    ensures
        r == v@.subrange(from as int, to as int).contains(c),
{
    let mut i = from;
    while i < to
        invariant
            from <= i <= to <= v.len(),
            forall|k: int| from <= k < i ==> v@[k] != c,
        decreases to - i,
    {
        if v[i] == c {
            assert(v@.subrange(from as int, to as int)[i - from] == c);
            return true;
        }
        i = i + 1;
    }
    proof {
        if v@.subrange(from as int, to as int).contains(c) {
            let k = choose|k: int|
                0 <= k < to - from && v@.subrange(from as int, to as int)[k] == c;
            assert(v@[from + k] == c);
        }
    }
    false
}

/// `pat` stands in `s` at index `i`.
pub open spec fn occurs_at(s: Seq<char>, pat: Seq<char>, i: int) -> bool {
    0 <= i && i + pat.len() <= s.len() && s.subrange(i, i + pat.len()) == pat
}

/// `s` begins with `pat` (`str::starts_with`).
pub open spec fn starts_with(s: Seq<char>, pat: Seq<char>) -> bool {
    occurs_at(s, pat, 0)
}

/// The first index at or after `from` at which `pat` stands in `s`.
pub open spec fn first_occurrence_from(s: Seq<char>, pat: Seq<char>, from: int) -> Option<int>
    decreases s.len() + 1 - from,
{
    if from < 0 || from + pat.len() > s.len() {
        None
    } else if occurs_at(s, pat, from) {
        Some(from)
    } else {
        first_occurrence_from(s, pat, from + 1)
    }
}

/// The first index at which `pat` stands in `s` (`str::find`).
pub open spec fn first_occurrence(s: Seq<char>, pat: Seq<char>) -> Option<int> {
    first_occurrence_from(s, pat, 0)
}

/// `pat` stands somewhere in `s` (`str::contains`).
pub open spec fn contains_seq(s: Seq<char>, pat: Seq<char>) -> bool {
    first_occurrence(s, pat) is Some
}

pub proof fn lemma_first_occurrence_from(s: Seq<char>, pat: Seq<char>, from: int)
    requires
        0 <= from,
    ensures
        match first_occurrence_from(s, pat, from) {
            Some(i) => from <= i && occurs_at(s, pat, i) && forall|k: int|
                from <= k < i ==> !occurs_at(s, pat, k),
            None => forall|k: int| from <= k ==> !occurs_at(s, pat, k),
        },
    decreases s.len() + 1 - from,
{
    if from + pat.len() > s.len() {
    } else if occurs_at(s, pat, from) {
    } else {
        lemma_first_occurrence_from(s, pat, from + 1);
    }
}

/// Finds the first occurrence of `pat` in `s` at or after `from`.
pub fn find_from(s: &Vec<char>, pat: &Vec<char>, from: usize) -> (r: Option<usize>)
    requires
        from <= s.len(),
    ensures
        match r {
            Some(i) => first_occurrence_from(s@, pat@, from as int) == Some(i as int),
            None => first_occurrence_from(s@, pat@, from as int) is None,
        },
{
    let mut i = from;
    if pat.len() > s.len() {
        proof {
            lemma_first_occurrence_from(s@, pat@, from as int);
        }
        return None;
    }
    let last = s.len() - pat.len();
    while i <= last
        invariant
            from <= i,
            last == s.len() - pat.len(),
            pat.len() <= s.len(),
            first_occurrence_from(s@, pat@, from as int) == first_occurrence_from(
                s@,
                pat@,
                i as int,
            ),
        decreases last + 1 - i,
    {
        if range_equals(s, i, i + pat.len(), pat) {
            return Some(i);
        }
        if i == last {
            assert(first_occurrence_from(s@, pat@, i + 1) is None);
            return None;
        }
        i = i + 1;
    }
    None
}

/// The last index at which `s` holds `c` (`str::rfind` with a character).
pub open spec fn last_index_of(s: Seq<char>, c: char) -> Option<int>
    decreases s.len(),
{
    if s.len() == 0 {
        None
    } else if s.last() == c {
        Some(s.len() - 1)
    } else {
        last_index_of(s.drop_last(), c)
    }
}

pub fn rfind_char(s: &Vec<char>, c: char) -> (r: Option<usize>)
    ensures
        match r {
            Some(i) => last_index_of(s@, c) == Some(i as int),
            None => last_index_of(s@, c) is None,
        },
{
    let mut j = s.len();
    assert(s@.take(j as int) =~= s@);
    while j > 0
        invariant
            j <= s.len(),
            last_index_of(s@, c) == last_index_of(s@.take(j as int), c),
        decreases j,
    {
        assert(s@.take(j as int).drop_last() =~= s@.take(j - 1));
        if s[j - 1] == c {
            return Some(j - 1);
        }
        j = j - 1;
    }
    None
}

// ------------------------------------------------------------------
// Lines
// ------------------------------------------------------------------

/// The index of the first `'\n'` at or after `i`, or `s.len()` when there is none.
pub open spec fn line_end(s: Seq<char>, i: int) -> int
    decreases s.len() - i,
{
    if i < 0 || i >= s.len() {
        s.len() as int
    } else if s[i] == '\n' {
        i
    } else {
        line_end(s, i + 1)
    }
}

pub proof fn lemma_line_end(s: Seq<char>, i: int)
    requires
        0 <= i <= s.len(),
    ensures
        i <= line_end(s, i) <= s.len(),
        forall|k: int| i <= k < line_end(s, i) ==> s[k] != '\n',
        line_end(s, i) < s.len() ==> s[line_end(s, i)] == '\n',
    decreases s.len() - i,
{
    if i < s.len() && s[i] != '\n' {
        lemma_line_end(s, i + 1);
    }
}

/// A line without the `'\r'` that ends a `"\r\n"` terminator.
pub open spec fn strip_cr(l: Seq<char>) -> Seq<char> {
    if l.len() > 0 && l.last() == '\r' {
        l.drop_last()
    } else {
        l
    }
}

/// The lines of `s` from index `i` on, as `str::lines` yields them.
pub open spec fn lines_from(s: Seq<char>, i: int) -> Seq<Seq<char>>
    decreases s.len() + 1 - i,
    via lines_from_decreases
{
    if i < 0 || i >= s.len() {
        seq![]
    } else {
        let e = line_end(s, i);
        let line = if e < s.len() {
            strip_cr(s.subrange(i, e))
        } else {
            s.subrange(i, e)
        };
        seq![line] + lines_from(s, e + 1)
    }
}

#[via_fn]
proof fn lines_from_decreases(s: Seq<char>, i: int) {
    if 0 <= i < s.len() {
        lemma_line_end(s, i);
    }
}

/// The lines of `s`, as `str::lines` yields them: split at `'\n'`, a `'\r'`
/// before the `'\n'` dropped, and no empty line after a final terminator.
pub open spec fn lines(s: Seq<char>) -> Seq<Seq<char>> {
    lines_from(s, 0)
}

/// The end of the line that starts at `start`.
pub fn find_line_end(v: &Vec<char>, start: usize) -> (e: usize)
    requires
        start <= v.len(),
    ensures
        e == line_end(v@, start as int),
        start <= e <= v.len(),
{
    proof {
        lemma_line_end(v@, start as int);
    }
    let mut e = start;
    while e < v.len() && v[e] != '\n'
        invariant
            start <= e <= v.len(),
            line_end(v@, start as int) == line_end(v@, e as int),
        decreases v.len() - e,
    {
        e = e + 1;
    }
    e
}

/// The end of the line content that starts at `start` and ends at `e`
/// (see `find_line_end`): one less when a `"\r\n"` terminates it.
pub fn line_content_end(v: &Vec<char>, start: usize, e: usize) -> (c: usize)
    requires
        start <= e <= v.len(),
    ensures
        start <= c <= e,
        v@.subrange(start as int, c as int) == (if e < v.len() {
            strip_cr(v@.subrange(start as int, e as int))
        } else {
            v@.subrange(start as int, e as int)
        }),
{
    if e < v.len() && e > start && v[e - 1] == '\r' {
        assert(v@.subrange(start as int, e as int).drop_last() =~= v@.subrange(
            start as int,
            e - 1,
        ));
        e - 1
    } else {
        e
    }
}

/// `s` without its trailing `'\n'` characters (`str::trim_end_matches('\n')`).
pub open spec fn trim_trailing_newlines(s: Seq<char>) -> Seq<char>
    decreases s.len(),
{
    if s.len() > 0 && s.last() == '\n' {
        trim_trailing_newlines(s.drop_last())
    } else {
        s
    }
}

// ------------------------------------------------------------------
// Building strings
// ------------------------------------------------------------------

/// Appends `v[from..to]`, taken from `s` whose characters `v` holds, to `out`.
pub fn append_range(out: &mut String, s: &str, v: &Vec<char>, from: usize, to: usize)
    requires
        v@ == s@,
        from <= to <= v.len(),
    ensures
        final(out)@ == old(out)@ + s@.subrange(from as int, to as int),
{
    let piece = s.substring_char(from, to);
    out.append(piece);
}

/// The text of a boolean as `Display` writes it.
pub open spec fn bool_text(b: bool) -> Seq<char> {
    if b {
        "true"@
    } else {
        "false"@
    }
}

pub fn bool_string(b: bool) -> (s: &'static str)
    ensures
        s@ == bool_text(b),
{
    if b {
        "true"
    } else {
        "false"
    }
}

// ------------------------------------------------------------------
// Lists of strings
// ------------------------------------------------------------------

/// The texts of a list of strings.
pub open spec fn texts(v: Seq<String>) -> Seq<Seq<char>> {
    v.map_values(|s: String| s@)
}

/// Whether `names` holds the text whose characters `w` holds.
pub fn lists_text(names: &Vec<String>, w: &Vec<char>) -> (b: bool)
    ensures
        b == texts(names@).contains(w@),
{
    let ghost ts = texts(names@);
    let mut k: usize = 0;
    while k < names.len()
        invariant
            k <= names.len(),
            ts == texts(names@),
            forall|m: int| 0 <= m < k ==> ts[m] != w@,
        decreases names.len() - k,
    {
        let v = chars_of(names[k].as_str());
        assert(v@.subrange(0, v@.len() as int) =~= v@);
        if range_equals(&v, 0, v.len(), w) {
            assert(ts[k as int] == w@);
            return true;
        }
        k = k + 1;
    }
    proof {
        if ts.contains(w@) {
            let m = choose|m: int| 0 <= m < ts.len() && ts[m] == w@;
            assert(ts[m] != w@);
        }
    }
    false
}

// ------------------------------------------------------------------
// Numbers
// ------------------------------------------------------------------

/// The decimal digit `d`.
pub open spec fn digit_text(d: nat) -> Seq<char> {
    if d == 0 {
        "0"@
    } else if d == 1 {
        "1"@
    } else if d == 2 {
        "2"@
    } else if d == 3 {
        "3"@
    } else if d == 4 {
        "4"@
    } else if d == 5 {
        "5"@
    } else if d == 6 {
        "6"@
    } else if d == 7 {
        "7"@
    } else if d == 8 {
        "8"@
    } else {
        "9"@
    }
}

/// `n` in decimal, as `Display` writes it.
pub open spec fn decimal_text(n: nat) -> Seq<char>
    decreases n,
{
    if n < 10 {
        digit_text(n)
    } else {
        decimal_text(n / 10) + digit_text(n % 10)
    }
}

fn digit_str(d: usize) -> (s: &'static str)
    requires
        d < 10,
    ensures
        s@ == digit_text(d as nat),
{
    if d == 0 {
        "0"
    } else if d == 1 {
        "1"
    } else if d == 2 {
        "2"
    } else if d == 3 {
        "3"
    } else if d == 4 {
        "4"
    } else if d == 5 {
        "5"
    } else if d == 6 {
        "6"
    } else if d == 7 {
        "7"
    } else if d == 8 {
        "8"
    } else {
        "9"
    }
}

/// Writes `n` in decimal.
pub fn decimal_string(n: usize) -> (s: String)
    ensures
        s@ == decimal_text(n as nat),
    decreases n,
{
    if n < 10 {
        String::from_str(digit_str(n))
    } else {
        let mut s = decimal_string(n / 10);
        s.append(digit_str(n % 10));
        s
    }
}

} // verus!
