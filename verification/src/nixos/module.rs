//! Edits of the Nix module texts that hold the package list and the
//! service settings.
use vstd::prelude::*;

use crate::lines::{
    join_lines, lemma_join_concat, lemma_join_of_lines, lemma_lines_concat, lemma_lines_newline,
    lemma_lines_of_join_any,
    lemma_lines_of_ended_line, lemma_lines_of_join, lemma_lines_of_single_line, lemma_lines_single,
    no_crlf, plain_line, single_line,
};
use crate::text::{
    append_range, is_white, lemma_trim_indented, lemma_trimmed_ends, strip_cr, line_end, occurs_at, bool_string, bool_text, chars_of, find_from, find_line_end, first_occurrence,
    last_index_of, lemma_first_occurrence_from, lemma_line_end, line_content_end, lines,
    lines_from, range_equals, rfind_char, starts_with, trim, trim_bounds, trim_start,
    trim_trailing_newlines, contains_seq, lemma_trim_strip_cr,
};

verus! {

/// The line that opens the package list of a module.
pub const PACKAGES_MARKER: &'static str = "environment.systemPackages = with pkgs; [";

/// An edit's outcome, as text.
pub open spec fn text_result(r: Result<String, String>) -> Result<Seq<char>, Seq<char>> {
    match r {
        Ok(s) => Ok(s@),
        Err(e) => Err(e@),
    }
}

// ------------------------------------------------------------------
// Adding a package
// ------------------------------------------------------------------

/// `content` with `package` inserted as a new line right after the first
/// package-list marker.
pub open spec fn added_package(content: Seq<char>, package: Seq<char>) -> Result<
    Seq<char>,
    Seq<char>,
> {
    match first_occurrence(content, PACKAGES_MARKER@) {
        None => Err("environment.systemPackages section not found"@),
        Some(p) => {
            let at = p + PACKAGES_MARKER@.len();
            Ok(content.take(at) + "\n  "@ + package + content.skip(at))
        },
    }
}

/// Inserts `package` into the package list of `content`.
///
/// The new line `"  <package>"` follows the first
/// `environment.systemPackages = with pkgs; [`; the rest of `content` is
/// kept as it is. Fails when `content` has no package list.
pub fn add_package_to_content(content: &str, package: &str) -> (r: Result<String, String>)
    ensures
        text_result(r) == added_package(content@, package@),
{
    let v = chars_of(content);
    let m = chars_of(PACKAGES_MARKER);
    proof {
        lemma_first_occurrence_from(v@, m@, 0);
    }
    match find_from(&v, &m, 0) {
        None => Err(String::from_str("environment.systemPackages section not found")),
        Some(p) => {
            assert(crate::text::occurs_at(v@, m@, p as int));
            let ml = m.len();
            let vl = v.len();
            assert(p + ml <= vl);
            let at = p + ml;
            let mut out = String::new();
            append_range(&mut out, content, &v, 0, at);
            out.append("\n  ");
            out.append(package);
            append_range(&mut out, content, &v, at, v.len());
            assert(v@.subrange(0, at as int) =~= v@.take(at as int));
            assert(v@.subrange(at as int, v@.len() as int) =~= v@.skip(at as int));
            Ok(out)
        },
    }
}

// ------------------------------------------------------------------
// Removing a package
// ------------------------------------------------------------------

/// Some line of `ls`, trimmed, is `package`.
pub open spec fn some_line_is(ls: Seq<Seq<char>>, package: Seq<char>) -> bool {
    exists|k: int| 0 <= k < ls.len() && #[trigger] trim(ls[k]) == package
}

/// The lines of `ls` that are not `package` once trimmed, each followed by `'\n'`.
pub open spec fn kept_lines_text(ls: Seq<Seq<char>>, package: Seq<char>) -> Seq<char>
    decreases ls.len(),
{
    if ls.len() == 0 {
        seq![]
    } else {
        let l = ls.last();
        kept_lines_text(ls.drop_last(), package) + if trim(l) == package {
            seq![]
        } else {
            l + "\n"@
        }
    }
}

/// `content` without the lines that, trimmed, are `package`.
///
/// The lines are rejoined with `'\n'`; when `content` does not end with
/// `'\n'`, the result keeps no trailing `'\n'` either. Fails when no line is
/// `package`.
pub open spec fn removed_package(content: Seq<char>, package: Seq<char>) -> Result<
    Seq<char>,
    Seq<char>,
> {
    let ls = lines(content);
    if !some_line_is(ls, package) {
        Err("package '"@ + package + "' not found"@)
    } else if content.len() > 0 && content.last() == '\n' {
        Ok(kept_lines_text(ls, package))
    } else {
        Ok(trim_trailing_newlines(kept_lines_text(ls, package)))
    }
}

proof fn lemma_trim_trailing_newlines_at(s: Seq<char>, j: int)
    requires
        0 <= j <= s.len(),
        forall|k: int| j <= k < s.len() ==> #[trigger] s[k] == '\n',
        j == 0 || s[j - 1] != '\n',
    ensures
        trim_trailing_newlines(s) == s.take(j),
    decreases s.len() - j,
{
    if j == s.len() {
        assert(s.take(j) =~= s);
    } else {
        let t = s.drop_last();
        assert forall|k: int| j <= k < t.len() implies #[trigger] t[k] == '\n' by {
            assert(t[k] == s[k]);
        }
        lemma_trim_trailing_newlines_at(t, j);
        assert(t.take(j) =~= s.take(j));
    }
}

/// `s` without its trailing `'\n'` characters.
fn without_trailing_newlines(s: String) -> (r: String)
    ensures
        r@ == trim_trailing_newlines(s@),
{
    let v = chars_of(s.as_str());
    let mut j = v.len();
    while j > 0 && v[j - 1] == '\n'
        invariant
            j <= v.len(),
            forall|k: int| j <= k < v.len() ==> #[trigger] v@[k] == '\n',
        decreases j,
    {
        j = j - 1;
    }
    proof {
        lemma_trim_trailing_newlines_at(v@, j as int);
        assert(v@.subrange(0, j as int) =~= v@.take(j as int));
    }
    String::from_str(s.as_str().substring_char(0, j))
}

/// The next line of `v` from `i`: its end, the end of its content, and the
/// index where the following line starts.
fn next_line(v: &Vec<char>, i: usize) -> (r: (usize, usize))
    requires
        i < v.len(),
    ensures
        i <= r.0 <= v.len(),
        r.1 <= v.len(),
        r.1 > i,
        lines_from(v@, i as int) == seq![v@.subrange(i as int, r.0 as int)] + lines_from(
            v@,
            r.1 as int,
        ),
{
    let e = find_line_end(v, i);
    let c = line_content_end(v, i, e);
    let next = if e < v.len() {
        e + 1
    } else {
        e
    };
    proof {
        lemma_line_end(v@, i as int);
        assert(lines_from(v@, (e + 1) as int) == lines_from(v@, next as int));
    }
    (c, next)
}

/// Removes every line that, trimmed, is `package`.
pub fn remove_package_from_content(content: &str, package: &str) -> (r: Result<String, String>)
    ensures
        text_result(r) == removed_package(content@, package@),
{
    let v = chars_of(content);
    let p = chars_of(package);
    let mut out = String::new();
    let mut found = false;
    let mut i: usize = 0;
    let ghost mut done: Seq<Seq<char>> = seq![];
    while i < v.len()
        invariant
            i <= v.len(),
            v@ == content@,
            p@ == package@,
            lines(v@) == done + lines_from(v@, i as int),
            out@ == kept_lines_text(done, p@),
            found == some_line_is(done, p@),
        decreases v.len() - i,
    {
        let (c, next) = next_line(&v, i);
        let (a, b) = trim_bounds(&v, i, c);
        let is_package = range_equals(&v, a, b, &p);
        let ghost line = v@.subrange(i as int, c as int);
        proof {
            assert(done.push(line).drop_last() =~= done);
            assert(done + lines_from(v@, i as int) =~= done.push(line) + lines_from(
                v@,
                next as int,
            ));
            assert(done.push(line)[done.len() as int] == line);
            if is_package {
                assert(some_line_is(done.push(line), p@));
            } else {
                assert(some_line_is(done.push(line), p@) == some_line_is(done, p@)) by {
                    if some_line_is(done.push(line), p@) {
                        let k = choose|k: int|
                            0 <= k < done.push(line).len() && #[trigger] trim(done.push(line)[k])
                                == p@;
                        assert(done[k] == done.push(line)[k]);
                    }
                    if some_line_is(done, p@) {
                        let k = choose|k: int| 0 <= k < done.len() && #[trigger] trim(done[k]) == p@;
                        assert(done[k] == done.push(line)[k]);
                    }
                }
            }
        }
        if is_package {
            found = true;
        } else {
            append_range(&mut out, content, &v, i, c);
            out.append("\n");
        }
        proof {
            done = done.push(line);
        }
        i = next;
    }
    assert(done + lines_from(v@, i as int) =~= done);
    if !found {
        let mut message = String::from_str("package '");
        message.append(package);
        message.append("' not found");
        return Err(message);
    }
    if v.len() > 0 && v[v.len() - 1] == '\n' {
        Ok(out)
    } else {
        Ok(without_trailing_newlines(out))
    }
}

// ------------------------------------------------------------------
// Service settings
// ------------------------------------------------------------------

/// The start of the line that sets whether `service` is enabled.
pub open spec fn service_prefix(service: Seq<char>) -> Seq<char> {
    "systemd.services."@ + service + ".enable = "@
}

/// The setting that enables (or disables) `service`.
pub open spec fn service_setting(service: Seq<char>, enabled: bool) -> Seq<char> {
    service_prefix(service) + bool_text(enabled) + ";"@
}

/// The line `l` holds a setting that starts with `prefix`.
pub open spec fn is_setting_line(l: Seq<char>, prefix: Seq<char>) -> bool {
    starts_with(trim_start(l), prefix)
}

/// Some line of `ls` holds a setting that starts with `prefix`.
pub open spec fn some_setting_line(ls: Seq<Seq<char>>, prefix: Seq<char>) -> bool {
    exists|k: int| 0 <= k < ls.len() && #[trigger] is_setting_line(ls[k], prefix)
}

/// The lines of `ls`, each followed by `'\n'`, with every setting line that
/// starts with `prefix` replaced by `"  " + setting`.
pub open spec fn rewritten_lines_text(
    ls: Seq<Seq<char>>,
    prefix: Seq<char>,
    setting: Seq<char>,
) -> Seq<char>
    decreases ls.len(),
{
    if ls.len() == 0 {
        seq![]
    } else {
        let l = ls.last();
        rewritten_lines_text(ls.drop_last(), prefix, setting) + if is_setting_line(l, prefix) {
            "  "@ + setting + "\n"@
        } else {
            l + "\n"@
        }
    }
}

/// `content` with `service` set to `enabled`.
///
/// Every line that already sets the service is replaced by the new setting,
/// and all lines are rejoined, each followed by `'\n'`. When no line sets
/// it, the setting is inserted, on a line of its own, before the last `'}'`.
/// Fails when there is neither such a line nor a `'}'`.
pub open spec fn service_set(content: Seq<char>, service: Seq<char>, enabled: bool) -> Result<
    Seq<char>,
    Seq<char>,
> {
    let ls = lines(content);
    let prefix = service_prefix(service);
    let setting = service_setting(service, enabled);
    if some_setting_line(ls, prefix) {
        Ok(rewritten_lines_text(ls, prefix, setting))
    } else {
        match last_index_of(content, '}') {
            None => Err("Nix module closing brace not found"@),
            Some(pos) => Ok(content.take(pos) + "  "@ + setting + "\n"@ + content.skip(pos)),
        }
    }
}

proof fn lemma_last_index_of(s: Seq<char>, c: char)
    ensures
        match last_index_of(s, c) {
            Some(i) => 0 <= i < s.len() && s[i] == c,
            None => true,
        },
    decreases s.len(),
{
    if s.len() > 0 && s.last() != c {
        lemma_last_index_of(s.drop_last(), c);
    }
}

/// Sets `service` to `enabled` in `content` (see `service_set`).
pub fn add_service_to_content(content: &str, service: &str, enabled: bool) -> (r: Result<
    String,
    String,
>)
    ensures
        text_result(r) == service_set(content@, service@, enabled),
{
    let mut prefix = String::from_str("systemd.services.");
    prefix.append(service);
    prefix.append(".enable = ");
    let mut setting = prefix.clone();
    setting.append(bool_string(enabled));
    setting.append(";");
    let pv = chars_of(prefix.as_str());
    let v = chars_of(content);
    let ghost pre = service_prefix(service@);
    let ghost set = service_setting(service@, enabled);
    assert(pv@ == pre);
    assert(setting@ == set);
    let mut out = String::new();
    let mut found = false;
    let mut i: usize = 0;
    let ghost mut done: Seq<Seq<char>> = seq![];
    while i < v.len()
        invariant
            i <= v.len(),
            v@ == content@,
            pv@ == pre,
            setting@ == set,
            lines(v@) == done + lines_from(v@, i as int),
            out@ == rewritten_lines_text(done, pre, set),
            found == some_setting_line(done, pre),
        decreases v.len() - i,
    {
        let (c, next) = next_line(&v, i);
        let (a, _b) = trim_bounds(&v, i, c);
        let ghost line = v@.subrange(i as int, c as int);
        let ghost t = trim_start(line);
        assert(t == v@.subrange(a as int, c as int));
        let is_setting = c - a >= pv.len() && range_equals(&v, a, a + pv.len(), &pv);
        proof {
            if c - a >= pv.len() {
                assert(t.subrange(0, pv@.len() as int) =~= v@.subrange(
                    a as int,
                    a + pv@.len(),
                ));
            }
            assert(is_setting == is_setting_line(line, pre));
            assert(done.push(line).drop_last() =~= done);
            assert(done + lines_from(v@, i as int) =~= done.push(line) + lines_from(
                v@,
                next as int,
            ));
            assert(done.push(line)[done.len() as int] == line);
            if is_setting {
                assert(some_setting_line(done.push(line), pre));
            } else {
                assert(some_setting_line(done.push(line), pre) == some_setting_line(done, pre))
                    by {
                    if some_setting_line(done.push(line), pre) {
                        let k = choose|k: int|
                            0 <= k < done.push(line).len() && #[trigger] is_setting_line(
                                done.push(line)[k],
                                pre,
                            );
                        assert(done[k] == done.push(line)[k]);
                    }
                    if some_setting_line(done, pre) {
                        let k = choose|k: int|
                            0 <= k < done.len() && #[trigger] is_setting_line(done[k], pre);
                        assert(done[k] == done.push(line)[k]);
                    }
                }
            }
        }
        if is_setting {
            out.append("  ");
            out.append(setting.as_str());
            out.append("\n");
            found = true;
        } else {
            append_range(&mut out, content, &v, i, c);
            out.append("\n");
        }
        proof {
            done = done.push(line);
        }
        i = next;
    }
    assert(done + lines_from(v@, i as int) =~= done);
    if found {
        return Ok(out);
    }
    proof {
        lemma_last_index_of(v@, '}');
    }
    match rfind_char(&v, '}') {
        None => Err(String::from_str("Nix module closing brace not found")),
        Some(pos) => {
            let mut result = String::new();
            append_range(&mut result, content, &v, 0, pos);
            result.append("  ");
            result.append(setting.as_str());
            result.append("\n");
            append_range(&mut result, content, &v, pos, v.len());
            assert(v@.subrange(0, pos as int) =~= v@.take(pos as int));
            assert(v@.subrange(pos as int, v@.len() as int) =~= v@.skip(pos as int));
            Ok(result)
        },
    }
}


// ------------------------------------------------------------------
// Removing what was added
// ------------------------------------------------------------------

/// The first package-list marker of `content` ends its line.
pub open spec fn marker_ends_line(content: Seq<char>) -> bool {
    match first_occurrence(content, PACKAGES_MARKER@) {
        Some(q) => {
            let at = q + PACKAGES_MARKER@.len();
            at == content.len() || content[at] == '\n'
        },
        None => false,
    }
}

proof fn lemma_kept_concat(a: Seq<Seq<char>>, b: Seq<Seq<char>>, package: Seq<char>)
    ensures
        kept_lines_text(a + b, package) == kept_lines_text(a, package) + kept_lines_text(
            b,
            package,
        ),
    decreases b.len(),
{
    if b.len() == 0 {
        assert(a + b =~= a);
        assert(kept_lines_text(a, package) + kept_lines_text(b, package) =~= kept_lines_text(
            a,
            package,
        ));
    } else {
        assert((a + b).drop_last() =~= a + b.drop_last());
        assert((a + b).last() == b.last());
        lemma_kept_concat(a, b.drop_last(), package);
        let piece = if trim(b.last()) == package {
            seq![]
        } else {
            b.last() + "\n"@
        };
        assert(kept_lines_text(a + b, package) =~= kept_lines_text(a, package) + (
        kept_lines_text(b.drop_last(), package) + piece));
    }
}

/// What follows the last line of `s` once it is rejoined: nothing when `s`
/// ends with `'\n'`, else a `'\n'`.
pub open spec fn final_newline(s: Seq<char>) -> Seq<char> {
    if s.len() > 0 && s.last() != '\n' {
        "\n"@
    } else {
        seq![]
    }
}

proof fn lemma_kept_all_lines(s: Seq<char>, i: int, package: Seq<char>)
    requires
        0 <= i < s.len(),
        no_crlf(s),
        !some_line_is(lines_from(s, i), package),
    ensures
        kept_lines_text(lines_from(s, i), package) == s.skip(i) + final_newline(s),
    decreases s.len() - i,
{
    reveal_strlit("\n");
    lemma_line_end(s, i);
    let e = line_end(s, i);
    let rest = lines_from(s, e + 1);
    let l = if e < s.len() {
        strip_cr(s.subrange(i, e))
    } else {
        s.subrange(i, e)
    };
    assert(lines_from(s, i) == seq![l] + rest);
    assert(lines_from(s, i)[0] == l);
    assert(trim(l) != package);
    lemma_kept_concat(seq![l], rest, package);
    assert(seq![l].drop_last() =~= Seq::<Seq<char>>::empty());
    assert(kept_lines_text(Seq::<Seq<char>>::empty(), package) == Seq::<char>::empty());
    assert(seq![l].last() == l);
    assert(kept_lines_text(seq![l], package) =~= l + "\n"@);
    if e < s.len() {
        if e > i {
            assert(s[e - 1] != '\r');
            assert(s.subrange(i, e).last() == s[e - 1]);
        }
        assert(l == s.subrange(i, e));
        if e + 1 < s.len() {
            assert forall|k: int| 0 <= k < rest.len() implies trim(#[trigger] rest[k])
                != package by {
                assert(lines_from(s, i)[k + 1] == rest[k]);
            }
            lemma_kept_all_lines(s, e + 1, package);
            assert(s.skip(i) =~= s.subrange(i, e) + "\n"@ + s.skip(e + 1));
        } else {
            assert(rest == Seq::<Seq<char>>::empty());
            assert(s.last() == '\n');
            assert(s.skip(i) =~= s.subrange(i, e) + "\n"@);
        }
    } else {
        assert(rest == Seq::<Seq<char>>::empty());
        assert(s[s.len() - 1] != '\n');
        assert(s.skip(i) =~= s.subrange(i, e));
    }
}

/// Removing a package right after adding it gives back the text it was
/// added to: when the package list's opening ends its line, no line of the
/// text already is the package, the package is a single line that trimming
/// leaves as it is, and no line of the text ends with `"\r\n"`.
pub proof fn law_remove_undoes_add(content: Seq<char>, package: Seq<char>)
    requires
        marker_ends_line(content),
        no_crlf(content),
        !some_line_is(lines(content), package),
        trim(package) == package,
        single_line(package),
    ensures
        added_package(content, package) matches Ok(t) && removed_package(t, package) == Ok::<
            Seq<char>,
            Seq<char>,
        >(content),
{
    reveal_strlit("\n  ");
    reveal_strlit("\n");
    let m = PACKAGES_MARKER@;
    lemma_first_occurrence_from(content, m, 0);
    let q = first_occurrence(content, m)->Some_0;
    let at = q + m.len();
    let added = content.take(at) + "\n  "@ + package + content.skip(at);
    assert(added_package(content, package) == Ok::<Seq<char>, Seq<char>>(added));
    let line = seq![' ', ' '] + package;
    assert forall|k: int| 0 <= k < line.len() implies #[trigger] line[k] != '\n' by {
        if k >= 2 {
            assert(line[k] == package[k - 2]);
        }
    }
    lemma_trim_indented(package);
    if package.len() > 0 {
        lemma_trimmed_ends(package);
        assert(line.last() == package.last());
    }
    assert(line.last() != '\r' && line.last() != '\n');
    assert(strip_cr(line) == line);
    reveal_strlit("environment.systemPackages = with pkgs; [");
    assert(content.len() > 0);
    if at < content.len() {
        let u1 = content.take(at + 1);
        let rest = content.skip(at + 1);
        let u2 = line + seq!['\n'];
        assert(content =~= u1 + rest);
        assert(added =~= u1 + (u2 + rest));
        lemma_lines_concat(u1, rest);
        lemma_lines_concat(u2, rest);
        lemma_lines_concat(u1, u2 + rest);
        lemma_lines_of_ended_line(line);
        assert(lines(added) =~= lines(u1) + seq![line] + lines(rest));
        lemma_kept_concat(lines(u1) + seq![line], lines(rest), package);
        lemma_kept_concat(lines(u1), seq![line], package);
        lemma_kept_concat(lines(u1), lines(rest), package);
        assert(seq![line].drop_last() =~= Seq::<Seq<char>>::empty());
        assert(kept_lines_text(Seq::<Seq<char>>::empty(), package) == Seq::<char>::empty());
        assert(seq![line].last() == line);
        assert(kept_lines_text(seq![line], package) =~= Seq::<char>::empty());
        assert(kept_lines_text(lines(added), package) =~= kept_lines_text(lines(content), package));
        assert(added.last() == content.last());
        assert(lines(added)[lines(u1).len() as int] == line);
    } else {
        assert(occurs_at(content, m, q));
        assert(content[at - 1] == content.subrange(q, at)[m.len() - 1]);
        assert(m[m.len() - 1] == '[');
        assert(content.last() == '[');
        let u1 = content + seq!['\n'];
        assert(added =~= u1 + line);
        lemma_lines_concat(u1, line);
        lemma_lines_newline(content);
        lemma_lines_of_single_line(line);
        assert(lines(added) =~= lines(content) + seq![line]);
        lemma_kept_concat(lines(content), seq![line], package);
        assert(seq![line].drop_last() =~= Seq::<Seq<char>>::empty());
        assert(kept_lines_text(Seq::<Seq<char>>::empty(), package) == Seq::<char>::empty());
        assert(seq![line].last() == line);
        assert(kept_lines_text(seq![line], package) =~= Seq::<char>::empty());
        assert(kept_lines_text(lines(added), package) =~= kept_lines_text(lines(content), package));
        assert(added.last() == line.last());
        assert(lines(added)[lines(content).len() as int] == line);
    }
    assert(some_line_is(lines(added), package));
    lemma_kept_all_lines(content, 0, package);
    assert(content.skip(0) =~= content);
    if content.last() != '\n' {
        let c = content + "\n"@;
        assert(c.drop_last() =~= content);
        assert(trim_trailing_newlines(c) == trim_trailing_newlines(content));
    }
}


// ------------------------------------------------------------------
// Setting a service twice
// ------------------------------------------------------------------

/// The line `l` as setting a service rewrites it.
pub open spec fn rewritten_line(l: Seq<char>, prefix: Seq<char>, setting: Seq<char>) -> Seq<char> {
    if is_setting_line(l, prefix) {
        "  "@ + setting
    } else {
        l
    }
}

/// Every line of `ls`, as setting a service rewrites it.
pub open spec fn rewritten_lines(ls: Seq<Seq<char>>, prefix: Seq<char>, setting: Seq<char>) -> Seq<
    Seq<char>,
> {
    Seq::new(ls.len(), |k: int| rewritten_line(ls[k], prefix, setting))
}

proof fn lemma_rewritten_text(ls: Seq<Seq<char>>, prefix: Seq<char>, setting: Seq<char>)
    ensures
        rewritten_lines_text(ls, prefix, setting) == join_lines(
            rewritten_lines(ls, prefix, setting),
        ),
    decreases ls.len(),
{
    reveal_strlit("\n");
    if ls.len() > 0 {
        lemma_rewritten_text(ls.drop_last(), prefix, setting);
        let r = rewritten_lines(ls, prefix, setting);
        assert(r.drop_last() =~= rewritten_lines(ls.drop_last(), prefix, setting));
        assert(r.last() == rewritten_line(ls.last(), prefix, setting));
        assert(rewritten_lines_text(ls, prefix, setting) =~= join_lines(r));
    }
}

/// The line that a setting is written as is itself a setting line.
proof fn lemma_setting_line(service: Seq<char>, enabled: bool)
    ensures
        is_setting_line("  "@ + service_setting(service, enabled), service_prefix(service)),
        (service_setting(service, enabled)).last() == ';',
{
    reveal_strlit("  ");
    reveal_strlit("systemd.services.");
    reveal_strlit(";");
    let setting = service_setting(service, enabled);
    let prefix = service_prefix(service);
    assert("  "@ + setting =~= seq![' ', ' '] + setting);
    assert((seq![' ', ' '] + setting).drop_first() =~= seq![' '] + setting);
    assert((seq![' '] + setting).drop_first() =~= setting);
    assert(setting[0] == 's');
    assert(!is_white(setting[0]));
    assert(trim_start(setting) == setting);
    assert(trim_start(seq![' '] + setting) == trim_start(setting));
    assert(trim_start(seq![' ', ' '] + setting) == trim_start(seq![' '] + setting));
    assert(trim_start("  "@ + setting) == setting);
    assert(setting.subrange(0, prefix.len() as int) =~= prefix);
}

/// The written setting is a plain line when the service name is one line.
proof fn lemma_setting_plain(service: Seq<char>, enabled: bool)
    requires
        single_line(service),
    ensures
        plain_line("  "@ + service_setting(service, enabled)),
{
    reveal_strlit("  ");
    reveal_strlit("systemd.services.");
    reveal_strlit(".enable = ");
    reveal_strlit("true");
    reveal_strlit("false");
    reveal_strlit(";");
    lemma_setting_line(service, enabled);
    let l = "  "@ + service_setting(service, enabled);
    let n = 2 + 17 + service.len();
    assert forall|k: int| 0 <= k < l.len() implies #[trigger] l[k] != '\n' by {
        if 19 <= k < n {
            assert(l[k] == service[k - 19]);
        }
    }
}

/// `'}'` stands at the start of the line it is on.
pub open spec fn brace_starts_line(content: Seq<char>) -> bool {
    match last_index_of(content, '}') {
        Some(pos) => pos == 0 || content[pos - 1] == '\n',
        None => false,
    }
}

/// Setting a service again overrides the first setting: setting it to
/// `first` and then to `second` gives what setting it to `second` gives
/// directly. This holds when the service name is one line and either the
/// text already set the service, with no other line ending in `'\r'`, or
/// the setting is inserted, the last `'}'` starting its line of a text that
/// ends with `'\n'` and holds no `"\r\n"`.
#[verifier::spinoff_prover]
proof fn lemma_last_setting_replaced(content: Seq<char>, service: Seq<char>, first: bool, second: bool)
    requires
        service_set(content, service, first) is Ok,
        single_line(service),
        some_setting_line(lines(content), service_prefix(service)) ==> forall|k: int|
            0 <= k < lines(content).len() && !is_setting_line(
                #[trigger] lines(content)[k],
                service_prefix(service),
            ) ==> lines(content)[k].len() == 0 || lines(content)[k].last() != '\r',
        !some_setting_line(lines(content), service_prefix(service)) ==> {
            &&& no_crlf(content)
            &&& content.len() > 0 && content.last() == '\n'
            &&& brace_starts_line(content)
        },
        some_setting_line(lines(content), service_prefix(service)),
    ensures
        service_set(content, service, first) matches Ok(t) && service_set(t, service, second)
            == service_set(content, service, second),
{
    reveal_strlit("\n");
    reveal_strlit("  ");
    let ls = lines(content);
    let prefix = service_prefix(service);
    let setting = service_setting(service, first);
    let setting2 = service_setting(service, second);
    let line = "  "@ + setting;
    let line2 = "  "@ + setting2;
    let t = service_set(content, service, first)->Ok_0;
    lemma_setting_line(service, first);
    lemma_setting_line(service, second);
    lemma_setting_plain(service, first);
    lemma_lines_single(content);
    let r = rewritten_lines(ls, prefix, setting);
    lemma_rewritten_text(ls, prefix, setting);
    assert forall|k: int| 0 <= k < r.len() implies plain_line(#[trigger] r[k]) by {
        if !is_setting_line(ls[k], prefix) {
            assert(single_line(ls[k]));
        }
    }
    lemma_lines_of_join(r);
    let k0 = choose|k: int| 0 <= k < ls.len() && #[trigger] is_setting_line(ls[k], prefix);
    assert(r[k0] == line);
    assert(some_setting_line(r, prefix));
    assert(rewritten_lines(r, prefix, setting2) =~= rewritten_lines(ls, prefix, setting2));
    lemma_rewritten_text(r, prefix, setting2);
    lemma_rewritten_text(ls, prefix, setting2);
}

#[verifier::spinoff_prover]
proof fn lemma_last_setting_inserted(content: Seq<char>, service: Seq<char>, first: bool, second: bool)
    requires
        service_set(content, service, first) is Ok,
        single_line(service),
        some_setting_line(lines(content), service_prefix(service)) ==> forall|k: int|
            0 <= k < lines(content).len() && !is_setting_line(
                #[trigger] lines(content)[k],
                service_prefix(service),
            ) ==> lines(content)[k].len() == 0 || lines(content)[k].last() != '\r',
        !some_setting_line(lines(content), service_prefix(service)) ==> {
            &&& no_crlf(content)
            &&& content.len() > 0 && content.last() == '\n'
            &&& brace_starts_line(content)
        },
        !some_setting_line(lines(content), service_prefix(service)),
    ensures
        service_set(content, service, first) matches Ok(t) && service_set(t, service, second)
            == service_set(content, service, second),
{
    reveal_strlit("\n");
    reveal_strlit("  ");
    let ls = lines(content);
    let prefix = service_prefix(service);
    let setting = service_setting(service, first);
    let setting2 = service_setting(service, second);
    let line = "  "@ + setting;
    let line2 = "  "@ + setting2;
    let t = service_set(content, service, first)->Ok_0;
    lemma_setting_line(service, first);
    lemma_setting_line(service, second);
    lemma_setting_plain(service, first);
    lemma_lines_single(content);
    lemma_last_index_of(content, '}');
    let pos = last_index_of(content, '}')->Some_0;
    let before = content.take(pos);
    let after = content.skip(pos);
    let u2 = line + seq!['\n'];
    let u3 = line2 + seq!['\n'];
    assert(t =~= before + u2 + after);
    lemma_lines_of_ended_line(line);
    assert(strip_cr(line) == line);
    assert(after.last() == '\n');
    assert(no_crlf(after)) by {
        assert forall|k: int| 0 < k < after.len() && #[trigger] after[k] == '\n' implies after[k
            - 1] != '\r' by {
            assert(after[k] == content[pos + k]);
            assert(after[k - 1] == content[pos + k - 1]);
        }
    }
    assert(no_crlf(before)) by {
        assert forall|k: int| 0 < k < before.len() && #[trigger] before[k] == '\n' implies before[k
            - 1] != '\r' by {
            assert(before[k] == content[k]);
        }
    }
    lemma_join_of_lines(after);
    lemma_lines_concat(u2, after);
    let tail = seq![line] + lines(after);
    assert(lines(u2 + after) == tail);
    let whole = lines(before) + tail;
    if pos > 0 {
        assert(before.last() == '\n');
        assert(content =~= before + after);
        lemma_lines_concat(before, after);
        assert(t =~= before + (u2 + after));
        lemma_lines_concat(before, u2 + after);
        lemma_join_of_lines(before);
    } else {
        assert(before =~= Seq::<char>::empty());
        assert(content =~= after);
        assert(t =~= u2 + after);
        assert(lines(before) == Seq::<Seq<char>>::empty());
        assert(join_lines(lines(before)) == Seq::<char>::empty());
    }
    assert(lines(t) =~= whole);
    assert(lines(content) =~= lines(before) + lines(after));
    let tail2 = seq![line2] + lines(after);
    let whole2 = lines(before) + tail2;
    let nb = lines(before).len() as int;
    assert forall|k: int| 0 <= k < whole.len() implies #[trigger] rewritten_line(
        whole[k],
        prefix,
        setting2,
    ) == whole2[k] by {
        if k < nb {
            assert(whole[k] == lines(content)[k]);
        } else if k > nb {
            assert(whole[k] == lines(content)[k - 1]);
        }
    }
    assert(rewritten_lines(whole, prefix, setting2) =~= whole2);
    assert(whole[nb] == line);
    assert(some_setting_line(whole, prefix));
    lemma_rewritten_text(whole, prefix, setting2);
    lemma_join_concat(lines(before), tail2);
    lemma_join_concat(seq![line2], lines(after));
    assert(seq![line2].drop_last() =~= Seq::<Seq<char>>::empty());
    assert(join_lines(Seq::<Seq<char>>::empty()) == Seq::<char>::empty());
    assert(join_lines(seq![line2]) =~= u3);
    assert(join_lines(whole2) =~= before + u3 + after);
    assert(content.take(pos) + "  "@ + setting2 + "\n"@ + content.skip(pos) =~= before + u3
        + after);
    }

pub proof fn law_last_setting_wins(content: Seq<char>, service: Seq<char>, first: bool, second: bool)
    requires
    service_set(content, service, first) is Ok,
    single_line(service),
    some_setting_line(lines(content), service_prefix(service)) ==> forall|k: int|
        0 <= k < lines(content).len() && !is_setting_line(
            #[trigger] lines(content)[k],
            service_prefix(service),
        ) ==> lines(content)[k].len() == 0 || lines(content)[k].last() != '\r',
    !some_setting_line(lines(content), service_prefix(service)) ==> {
        &&& no_crlf(content)
        &&& content.len() > 0 && content.last() == '\n'
        &&& brace_starts_line(content)
    },
    ensures
    service_set(content, service, first) matches Ok(t) && service_set(t, service, second)
        == service_set(content, service, second),
{
    if some_setting_line(lines(content), service_prefix(service)) {
    lemma_last_setting_replaced(content, service, first, second);
    } else {
    lemma_last_setting_inserted(content, service, first, second);
    }
}

/// Setting a service a second time, to the same value, changes nothing
/// (under the conditions of `law_last_setting_wins`).
pub proof fn law_setting_twice_changes_nothing(content: Seq<char>, service: Seq<char>, enabled: bool)
    requires
        service_set(content, service, enabled) is Ok,
        single_line(service),
        some_setting_line(lines(content), service_prefix(service)) ==> forall|k: int|
            0 <= k < lines(content).len() && !is_setting_line(
                #[trigger] lines(content)[k],
                service_prefix(service),
            ) ==> lines(content)[k].len() == 0 || lines(content)[k].last() != '\r',
        !some_setting_line(lines(content), service_prefix(service)) ==> {
            &&& no_crlf(content)
            &&& content.len() > 0 && content.last() == '\n'
            &&& brace_starts_line(content)
        },
    ensures
        service_set(content, service, enabled) matches Ok(t) && service_set(t, service, enabled)
            == Ok::<Seq<char>, Seq<char>>(t),
{
    law_last_setting_wins(content, service, enabled, enabled);
}


proof fn lemma_occurs_contains(s: Seq<char>, pat: Seq<char>, i: int)
    requires
        occurs_at(s, pat, i),
    ensures
        contains_seq(s, pat),
{
    lemma_first_occurrence_from(s, pat, 0);
}

/// Setting a service writes its setting: after setting `service` to
/// `enabled`, the text holds `systemd.services.<service>.enable = <true or
/// false>;`, with the value asked for.
pub proof fn law_setting_is_written(content: Seq<char>, service: Seq<char>, enabled: bool)
    ensures
        service_set(content, service, enabled) matches Ok(t) ==> contains_seq(
            t,
            "systemd.services."@ + service + ".enable = "@ + (if enabled {
                "true"@
            } else {
                "false"@
            }) + ";"@,
        ),
{
    reveal_strlit("  ");
    reveal_strlit("\n");
    let ls = lines(content);
    let prefix = service_prefix(service);
    let setting = service_setting(service, enabled);
    assert(setting =~= "systemd.services."@ + service + ".enable = "@ + (if enabled {
        "true"@
    } else {
        "false"@
    }) + ";"@);
    let line = "  "@ + setting;
    if service_set(content, service, enabled) is Ok {
        let t = service_set(content, service, enabled)->Ok_0;
        if some_setting_line(ls, prefix) {
            let k0 = choose|k: int| 0 <= k < ls.len() && #[trigger] is_setting_line(ls[k], prefix);
            let r = rewritten_lines(ls, prefix, setting);
            lemma_rewritten_text(ls, prefix, setting);
            assert(r[k0] == line);
            let a = r.take(k0);
            let b = r.skip(k0 + 1);
            assert(r =~= a + (seq![line] + b));
            lemma_join_concat(a, seq![line] + b);
            lemma_join_concat(seq![line], b);
            assert(seq![line].drop_last() =~= Seq::<Seq<char>>::empty());
            assert(join_lines(Seq::<Seq<char>>::empty()) == Seq::<char>::empty());
            assert(join_lines(seq![line]) =~= line + seq!['\n']);
            let at = join_lines(a).len() as int + 2;
            assert(t =~= join_lines(a) + (line + seq!['\n']) + join_lines(b));
            assert(t.subrange(at, at + setting.len()) =~= setting);
            lemma_occurs_contains(t, setting, at);
        } else {
            lemma_last_index_of(content, '}');
            let pos = last_index_of(content, '}')->Some_0;
            assert(t =~= content.take(pos) + "  "@ + setting + "\n"@ + content.skip(pos));
            assert(t.subrange(pos + 2, pos + 2 + setting.len()) =~= setting);
            lemma_occurs_contains(t, setting, pos + 2);
        }
    }
}


/// The lines of `ls` that are not `package` once trimmed, in order.
pub open spec fn keep_lines(ls: Seq<Seq<char>>, package: Seq<char>) -> Seq<Seq<char>>
    decreases ls.len(),
{
    if ls.len() == 0 {
        seq![]
    } else {
        keep_lines(ls.drop_last(), package) + if trim(ls.last()) == package {
            seq![]
        } else {
            seq![ls.last()]
        }
    }
}

proof fn lemma_kept_is_join(ls: Seq<Seq<char>>, package: Seq<char>)
    ensures
        kept_lines_text(ls, package) == join_lines(keep_lines(ls, package)),
        forall|k: int|
            0 <= k < keep_lines(ls, package).len() ==> trim(#[trigger] keep_lines(ls, package)[k])
                != package && ls.contains(keep_lines(ls, package)[k]),
    decreases ls.len(),
{
    reveal_strlit("\n");
    if ls.len() > 0 {
        let u = ls.drop_last();
        lemma_kept_is_join(u, package);
        let ku = keep_lines(u, package);
        let kl = keep_lines(ls, package);
        if trim(ls.last()) != package {
            assert(kl =~= ku.push(ls.last()));
            assert(kl.drop_last() =~= ku);
            assert(join_lines(kl) =~= join_lines(ku) + ls.last() + "\n"@);
        } else {
            assert(kl =~= ku);
            assert(kept_lines_text(ls, package) =~= kept_lines_text(u, package));
        }
        assert forall|k: int| 0 <= k < kl.len() implies trim(#[trigger] kl[k]) != package
            && ls.contains(kl[k]) by {
            if k < ku.len() {
                assert(kl[k] == ku[k]);
                assert(trim(ku[k]) != package && u.contains(ku[k]));
                let m = choose|m: int| 0 <= m < u.len() && u[m] == ku[k];
                assert(ls[m] == u[m]);
            } else {
                assert(kl[k] == ls.last());
                assert(ls[ls.len() - 1] == ls.last());
            }
        }
    }
}

proof fn lemma_lines_of_trimmed_join(ks: Seq<Seq<char>>)
    requires
        forall|k: int| 0 <= k < ks.len() ==> single_line(#[trigger] ks[k]),
    ensures
        forall|k: int|
            0 <= k < lines(trim_trailing_newlines(join_lines(ks))).len() ==> exists|i: int|
                0 <= i < ks.len() && #[trigger] trim(
                    lines(trim_trailing_newlines(join_lines(ks)))[k],
                ) == trim(ks[i]),
    decreases ks.len(),
{
    let t = trim_trailing_newlines(join_lines(ks));
    if ks.len() == 0 {
        assert(join_lines(ks) == Seq::<char>::empty());
        assert(lines(t) == Seq::<Seq<char>>::empty());
    } else {
        let a = ks.drop_last();
        let l = ks.last();
        let j = join_lines(a);
        assert(single_line(ks[ks.len() - 1]));
        assert forall|k: int| 0 <= k < a.len() implies single_line(#[trigger] a[k]) by {
            assert(a[k] == ks[k]);
        }
        assert(join_lines(ks) =~= (j + l) + seq!['\n']);
        assert((j + l + seq!['\n']).drop_last() =~= j + l);
        assert(t == trim_trailing_newlines(j + l));
        if l.len() == 0 {
            assert(j + l =~= j);
            lemma_lines_of_trimmed_join(a);
            assert forall|k: int| 0 <= k < lines(t).len() implies exists|i: int|
                0 <= i < ks.len() && #[trigger] trim(lines(t)[k]) == trim(ks[i]) by {
                let i = choose|i: int|
                    0 <= i < a.len() && #[trigger] trim(
                        lines(trim_trailing_newlines(join_lines(a)))[k],
                    ) == trim(a[i]);
                assert(ks[i] == a[i]);
            }
        } else {
            assert((j + l).last() == l.last());
            assert(l[l.len() - 1] != '\n');
            assert(t == j + l);
            if a.len() == 0 {
                assert(j == Seq::<char>::empty());
                assert(j + l =~= l);
                lemma_lines_of_single_line(l);
                assert forall|k: int| 0 <= k < lines(t).len() implies exists|i: int|
                    0 <= i < ks.len() && #[trigger] trim(lines(t)[k]) == trim(ks[i]) by {
                    assert(ks[ks.len() - 1] == l);
                }
            } else {
                assert(j.last() == '\n');
                lemma_lines_concat(j, l);
                lemma_lines_of_single_line(l);
                lemma_lines_of_join_any(a);
                assert forall|k: int| 0 <= k < lines(t).len() implies exists|i: int|
                    0 <= i < ks.len() && #[trigger] trim(lines(t)[k]) == trim(ks[i]) by {
                    if k < a.len() {
                        assert(lines(t)[k] == lines(j)[k]);
                        lemma_trim_strip_cr(a[k]);
                        assert(ks[k] == a[k]);
                    } else {
                        assert(lines(t)[k] == l);
                        assert(ks[ks.len() - 1] == l);
                    }
                }
            }
        }
    }
}

/// A removal leaves no line of the package: after removing `package`, no
/// line of the text, trimmed, is the package.
pub proof fn law_removed_package_gone(content: Seq<char>, package: Seq<char>)
    ensures
        removed_package(content, package) matches Ok(t) ==> !some_line_is(lines(t), package),
{
    let ls = lines(content);
    lemma_lines_single(content);
    lemma_kept_is_join(ls, package);
    let ks = keep_lines(ls, package);
    assert forall|k: int| 0 <= k < ks.len() implies single_line(#[trigger] ks[k]) by {
        assert(trim(ks[k]) != package && ls.contains(ks[k]));
        let m = choose|m: int| 0 <= m < ls.len() && ls[m] == ks[k];
    }
    if removed_package(content, package) is Ok {
        let t = removed_package(content, package)->Ok_0;
        if content.len() > 0 && content.last() == '\n' {
            assert(t == join_lines(ks));
            lemma_lines_of_join_any(ks);
            assert forall|k: int| 0 <= k < lines(t).len() implies #[trigger] trim(lines(t)[k])
                != package by {
                lemma_trim_strip_cr(ks[k]);
                assert(trim(ks[k]) != package && ls.contains(ks[k]));
            }
        } else {
            assert(t == trim_trailing_newlines(join_lines(ks)));
            lemma_lines_of_trimmed_join(ks);
            assert forall|k: int| 0 <= k < lines(t).len() implies #[trigger] trim(lines(t)[k])
                != package by {
                let i = choose|i: int| 0 <= i < ks.len() && #[trigger] trim(lines(t)[k]) == trim(ks[i]);
                assert(trim(ks[i]) != package && ls.contains(ks[i]));
            }
        }
    }
}

// ------------------------------------------------------------------
// Editing what was read
// ------------------------------------------------------------------

/// The outcome of editing a module file with `edit`, given what reading
/// it gave: the reading error, else the edit's outcome.
pub open spec fn after_read(
    read: Result<String, String>,
    edit: spec_fn(Seq<char>) -> Result<Seq<char>, Seq<char>>,
) -> Result<Seq<char>, Seq<char>> {
    match read {
        Err(e) => Err(e@),
        Ok(content) => edit(content@),
    }
}

/// The package list `read` (the text of `modules/pkgs.nix`, or why it could
/// not be read) with `package` added.
pub fn add_package(read: Result<String, String>, package: &str) -> (r: Result<String, String>)
    ensures
        text_result(r) == after_read(read, |c: Seq<char>| added_package(c, package@)),
{
    match read {
        Err(e) => Err(e),
        Ok(content) => add_package_to_content(content.as_str(), package),
    }
}

/// The package list `read` with `package` removed.
pub fn remove_package(read: Result<String, String>, package: &str) -> (r: Result<String, String>)
    ensures
        text_result(r) == after_read(read, |c: Seq<char>| removed_package(c, package@)),
{
    match read {
        Err(e) => Err(e),
        Ok(content) => remove_package_from_content(content.as_str(), package),
    }
}

/// The service settings `read` (the text of `modules/core.nix`, or why it
/// could not be read) with `service` enabled.
pub fn enable_service(read: Result<String, String>, service: &str) -> (r: Result<String, String>)
    ensures
        text_result(r) == after_read(read, |c: Seq<char>| service_set(c, service@, true)),
{
    match read {
        Err(e) => Err(e),
        Ok(content) => add_service_to_content(content.as_str(), service, true),
    }
}

/// The service settings `read` with `service` disabled.
pub fn disable_service(read: Result<String, String>, service: &str) -> (r: Result<String, String>)
    ensures
        text_result(r) == after_read(read, |c: Seq<char>| service_set(c, service@, false)),
{
    match read {
        Err(e) => Err(e),
        Ok(content) => add_service_to_content(content.as_str(), service, false),
    }
}

} // verus!
