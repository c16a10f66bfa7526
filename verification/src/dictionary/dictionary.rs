use vstd::prelude::*;

use super::data::{PACKAGES_JSON, SERVICES_JSON};
use crate::text::{chars_of, lists_text, texts};

verus! {

/// A canonical name with the names that stand for it.
pub struct AliasEntry {
    pub canonical: String,
    pub aliases: Vec<String>,
}

/// An entry as plain text: the canonical name and its aliases.
pub open spec fn entry_text(e: AliasEntry) -> (Seq<char>, Seq<Seq<char>>) {
    (e.canonical@, texts(e.aliases@))
}

/// A table of entries as plain text, in the table's order.
pub open spec fn table_text(es: Seq<AliasEntry>) -> Seq<(Seq<char>, Seq<Seq<char>>)> {
    es.map_values(|e: AliasEntry| entry_text(e))
}

/// The table as a map from canonical name to aliases.
pub open spec fn table_map(t: Seq<(Seq<char>, Seq<Seq<char>>)>) -> Map<Seq<char>, Seq<Seq<char>>>
    decreases t.len(),
{
    if t.len() == 0 {
        Map::empty()
    } else {
        table_map(t.drop_last()).insert(t.last().0, t.last().1)
    }
}

/// No canonical name occurs twice in the table.
pub open spec fn distinct_canonicals(t: Seq<(Seq<char>, Seq<Seq<char>>)>) -> bool {
    forall|i: int, j: int| 0 <= i < j < t.len() ==> #[trigger] t[i].0 != #[trigger] t[j].0
}

/// The canonical name of the first entry, in table order, that lists `input`.
pub open spec fn first_alias_match(t: Seq<(Seq<char>, Seq<Seq<char>>)>, input: Seq<char>) -> Option<
    Seq<char>,
>
    decreases t.len(),
{
    if t.len() == 0 {
        None
    } else if t[0].1.contains(input) {
        Some(t[0].0)
    } else {
        first_alias_match(t.drop_first(), input)
    }
}

/// The table as a map holds each entry, and only the entries' names.
pub proof fn lemma_table_map(t: Seq<(Seq<char>, Seq<Seq<char>>)>)
    requires
        distinct_canonicals(t),
    ensures
        forall|i: int|
            0 <= i < t.len() ==> #[trigger] table_map(t).contains_key(t[i].0) && table_map(t)[t[i].0]
                == t[i].1,
        forall|k: Seq<char>|
            #[trigger] table_map(t).contains_key(k) ==> exists|i: int|
                0 <= i < t.len() && t[i].0 == k,
    decreases t.len(),
{
    if t.len() > 0 {
        let u = t.drop_last();
        assert forall|i: int, j: int| 0 <= i < j < u.len() implies #[trigger] u[i].0 != #[trigger] u[j].0 by {
            assert(u[i] == t[i] && u[j] == t[j]);
        }
        lemma_table_map(u);
        assert forall|i: int| 0 <= i < t.len() implies #[trigger] table_map(t).contains_key(t[i].0)
            && table_map(t)[t[i].0] == t[i].1 by {
            assert(table_map(t) == table_map(u).insert(t.last().0, t.last().1));
            if i < t.len() - 1 {
                assert(u[i] == t[i]);
                assert(t[i].0 != t[t.len() - 1].0);
                assert(table_map(u).contains_key(u[i].0));
            }
        }
        assert forall|k: Seq<char>| #[trigger] table_map(t).contains_key(k) implies exists|i: int|
            0 <= i < t.len() && t[i].0 == k by {
            if k != t.last().0 {
                assert(table_map(u).contains_key(k));
                let i = choose|i: int| 0 <= i < u.len() && u[i].0 == k;
                assert(t[i] == u[i]);
            } else {
                assert(t[t.len() - 1].0 == k);
            }
        }
    }
}

/// `first_alias_match` finds the first entry that lists the name, and finds
/// nothing only when no entry lists it.
pub proof fn lemma_first_alias_match(t: Seq<(Seq<char>, Seq<Seq<char>>)>, x: Seq<char>)
    ensures
        match first_alias_match(t, x) {
            Some(c) => exists|i: int|
                0 <= i < t.len() && t[i].0 == c && #[trigger] t[i].1.contains(x) && forall|j: int|
                    0 <= j < i ==> !t[j].1.contains(x),
            None => forall|i: int| 0 <= i < t.len() ==> !#[trigger] t[i].1.contains(x),
        },
    decreases t.len(),
{
    if t.len() > 0 {
        let u = t.drop_first();
        lemma_first_alias_match(u, x);
        if t[0].1.contains(x) {
            assert(t[0].1.contains(x));
        } else {
            match first_alias_match(u, x) {
                Some(c) => {
                    let i = choose|i: int|
                        0 <= i < u.len() && u[i].0 == c && #[trigger] u[i].1.contains(x) && forall|
                            j: int,
                        | 0 <= j < i ==> !u[j].1.contains(x);
                    assert(t[i + 1] == u[i]);
                    assert forall|j: int| 0 <= j < i + 1 implies !t[j].1.contains(x) by {
                        if j > 0 {
                            assert(t[j] == u[j - 1]);
                        }
                    }
                    assert(t[i + 1].1.contains(x));
                },
                None => {
                    assert forall|i: int| 0 <= i < t.len() implies !#[trigger] t[i].1.contains(x) by {
                        if i > 0 {
                            assert(t[i] == u[i - 1]);
                        }
                    }
                },
            }
        }
    }
}

/// A name that the dictionary lists under exactly one canonical name
/// resolves to that name, whatever order the table is kept in.
pub proof fn law_alias_listed_once_resolves(
    t: Seq<(Seq<char>, Seq<Seq<char>>)>,
    x: Seq<char>,
    c: Seq<char>,
)
    requires
        distinct_canonicals(t),
        table_map(t).contains_key(c),
        table_map(t)[c].contains(x),
        forall|k: Seq<char>|
            #[trigger] table_map(t).contains_key(k) && table_map(t)[k].contains(x) ==> k == c,
    ensures
        first_alias_match(t, x) == Some(c),
{
    lemma_table_map(t);
    lemma_first_alias_match(t, x);
    let i = choose|i: int| 0 <= i < t.len() && t[i].0 == c;
    assert(table_map(t).contains_key(t[i].0));
    assert(t[i].1.contains(x));
    match first_alias_match(t, x) {
        Some(d) => {
            let j = choose|j: int|
                0 <= j < t.len() && t[j].0 == d && #[trigger] t[j].1.contains(x) && forall|m: int|
                    0 <= m < j ==> !t[m].1.contains(x);
            assert(table_map(t).contains_key(t[j].0));
        },
        None => {},
    }
}

/// A name that the dictionary lists under no canonical name resolves to
/// nothing.
pub proof fn law_unlisted_name_is_unknown(t: Seq<(Seq<char>, Seq<Seq<char>>)>, x: Seq<char>)
    requires
        distinct_canonicals(t),
        forall|k: Seq<char>| #[trigger] table_map(t).contains_key(k) ==> !table_map(t)[k].contains(x),
    ensures
        first_alias_match(t, x) is None,
{
    lemma_table_map(t);
    lemma_first_alias_match(t, x);
    if let Some(c) = first_alias_match(t, x) {
        let i = choose|i: int|
            0 <= i < t.len() && t[i].0 == c && #[trigger] t[i].1.contains(x) && forall|j: int|
                0 <= j < i ==> !t[j].1.contains(x);
        assert(table_map(t).contains_key(t[i].0));
    }
}

/// What `serde_json::from_str` makes of a JSON text read as an object that
/// maps names to lists of names: the map, or the error's message.
pub uninterp spec fn alias_table_json(json: Seq<char>) -> Result<
    Map<Seq<char>, Seq<Seq<char>>>,
    Seq<char>,
>;

/// Reads `json` with `serde_json::from_str` into a
/// `HashMap<String, Vec<String>>` and hands its entries out.
///
/// Trusted: the entries are those of the map that `serde_json` built, each
/// canonical name once (it is a map's key), in the map's iteration order,
/// which the contract leaves open; on failure the text is the error's
/// `Display`.
#[verifier::external_body]
fn parse_alias_table(json: &str) -> (r: Result<Vec<AliasEntry>, String>)
    ensures
        match r {
            Ok(es) => alias_table_json(json@) == Ok::<_, Seq<char>>(table_map(table_text(es@)))
                && distinct_canonicals(table_text(es@)),
            Err(e) => alias_table_json(json@) == Err::<Map<Seq<char>, Seq<Seq<char>>>, _>(e@),
        },
{
    match serde_json::from_str::<std::collections::HashMap<String, Vec<String>>>(json) {
        Ok(m) => Ok(
            m.into_iter().map(|(canonical, aliases)| AliasEntry { canonical, aliases }).collect(),
        ),
        Err(e) => Err(e.to_string()),
    }
}

/// The package and service dictionaries.
pub struct Dictionary {
    packages: Vec<AliasEntry>,
    services: Vec<AliasEntry>,
}

impl Dictionary {
    /// The package table, in its order.
    pub closed spec fn package_table(self) -> Seq<(Seq<char>, Seq<Seq<char>>)> {
        table_text(self.packages@)
    }

    /// The service table, in its order.
    pub closed spec fn service_table(self) -> Seq<(Seq<char>, Seq<Seq<char>>)> {
        table_text(self.services@)
    }

    /// No canonical name occurs twice in either table.
    pub open spec fn well_formed(self) -> bool {
        &&& distinct_canonicals(self.package_table())
        &&& distinct_canonicals(self.service_table())
    }

    /// Reads the package and service dictionaries.
    ///
    /// Fails, with `serde_json`'s message, when either text is not a map
    /// from names to lists of names; the package text is read first.
    pub fn load() -> (r: Result<Self, String>)
        ensures
            match alias_table_json(PACKAGES_JSON@) {
                Err(e) => r matches Err(m) && m@ == e,
                Ok(p) => match alias_table_json(SERVICES_JSON@) {
                    Err(e) => r matches Err(m) && m@ == e,
                    Ok(s) => r matches Ok(d) && d.well_formed() && table_map(d.package_table()) == p
                        && table_map(d.service_table()) == s,
                },
            },
    {
        let packages = match parse_alias_table(PACKAGES_JSON) {
            Ok(t) => t,
            Err(e) => return Err(e),
        };
        let services = match parse_alias_table(SERVICES_JSON) {
            Ok(t) => t,
            Err(e) => return Err(e),
        };
        Ok(Dictionary { packages, services })
    }

    /// The canonical package name that `input` stands for.
    pub fn resolve_package(&self, input: &str) -> (r: Option<&str>)
        ensures
            match r {
                Some(c) => first_alias_match(self.package_table(), input@) == Some(c@),
                None => first_alias_match(self.package_table(), input@) is None,
            },
    {
        resolve(&self.packages, input)
    }

    /// The canonical service name that `input` stands for.
    pub fn resolve_service(&self, input: &str) -> (r: Option<&str>)
        ensures
            match r {
                Some(c) => first_alias_match(self.service_table(), input@) == Some(c@),
                None => first_alias_match(self.service_table(), input@) is None,
            },
    {
        resolve(&self.services, input)
    }
}

/// The canonical name of the first entry of `table` that lists `input`.
fn resolve<'a>(table: &'a Vec<AliasEntry>, input: &str) -> (r: Option<&'a str>)
    ensures
        match r {
            Some(c) => first_alias_match(table_text(table@), input@) == Some(c@),
            None => first_alias_match(table_text(table@), input@) is None,
        },
{
    let w = chars_of(input);
    let ghost t = table_text(table@);
    let mut i: usize = 0;
    assert(t.skip(0) =~= t);
    while i < table.len()
        invariant
            i <= table.len(),
            w@ == input@,
            t == table_text(table@),
            first_alias_match(t, input@) == first_alias_match(t.skip(i as int), input@),
        decreases table.len() - i,
    {
        assert(t.skip(i as int)[0] == entry_text(table@[i as int]));
        assert(t.skip(i as int).drop_first() =~= t.skip(i + 1));
        if lists_text(&table[i].aliases, &w) {
            return Some(table[i].canonical.as_str());
        }
        i = i + 1;
    }
    None
}

} // verus!
