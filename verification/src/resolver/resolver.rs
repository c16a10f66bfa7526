use vstd::prelude::*;

use crate::command::{Action, Target};
use crate::dictionary::data::{PACKAGES_JSON, SERVICES_JSON};
use crate::dictionary::dictionary::{
    alias_table_json, first_alias_match, lemma_first_alias_match, lemma_table_map, table_map,
};
use crate::dictionary::Dictionary;

verus! {

/// The canonical name a target resolved to.
#[derive(Debug, Clone)]
pub struct ResolvedTarget {
    pub name: String,
}

/// The message for a target that no dictionary entry lists.
pub open spec fn unknown_target_message(raw: Seq<char>) -> Seq<char> {
    "unknown target: "@ + raw
}

/// The table an action resolves its target in: packages for package
/// actions, services for service actions.
pub open spec fn table_for(dictionary: Dictionary, action: Action) -> Seq<
    (Seq<char>, Seq<Seq<char>>),
> {
    if action.is_package_action() {
        dictionary.package_table()
    } else {
        dictionary.service_table()
    }
}

/// What resolving the target `raw` for `action` with the built-in
/// dictionaries comes to: the reading error when a dictionary cannot be
/// read; else a canonical name that lists `raw` in the table for `action`,
/// or, when none does, "unknown target: <raw>".
pub open spec fn resolution(action: Action, raw: Seq<char>, r: Result<ResolvedTarget, String>) -> bool {
    match alias_table_json(PACKAGES_JSON@) {
        Err(e) => r matches Err(m) && m@ == e,
        Ok(p) => match alias_table_json(SERVICES_JSON@) {
            Err(e) => r matches Err(m) && m@ == e,
            Ok(s) => {
                let m = if action.is_package_action() {
                    p
                } else {
                    s
                };
                let listed = exists|k: Seq<char>| #[trigger] m.contains_key(k) && m[k].contains(raw);
                match r {
                    Ok(t) => m.contains_key(t.name@) && m[t.name@].contains(raw),
                    Err(e) => !listed && e@ == unknown_target_message(raw),
                }
            },
        },
    }
}

pub struct Resolver;

impl Resolver {
    /// Resolves `target` in the table that `action` calls for.
    pub fn resolve_with(dictionary: &Dictionary, action: Action, target: Target) -> (r: Result<
        ResolvedTarget,
        String,
    >)
        ensures
            match first_alias_match(table_for(*dictionary, action), target.raw@) {
                Some(c) => r matches Ok(t) && t.name@ == c,
                None => r matches Err(e) && e@ == unknown_target_message(target.raw@),
            },
    {
        let found = match action {
            Action::InstallPackage | Action::RemovePackage => dictionary.resolve_package(
                target.raw.as_str(),
            ),
            Action::EnableService | Action::DisableService => dictionary.resolve_service(
                target.raw.as_str(),
            ),
        };
        match found {
            Some(name) => Ok(ResolvedTarget { name: String::from_str(name) }),
            None => {
                let mut message = String::from_str("unknown target: ");
                message.append(target.raw.as_str());
                Err(message)
            },
        }
    }

    /// Loads the dictionaries and resolves `target` in the one that
    /// `action` calls for.
    ///
    /// Fails with the reading error when a dictionary cannot be read, and
    /// with "unknown target: <target>" when no canonical name lists the
    /// target; otherwise the name is one that lists it.
    pub fn resolve(action: Action, target: Target) -> (r: Result<ResolvedTarget, String>)
        ensures
            resolution(action, target.raw@, r),
    {
        let dictionary = match Dictionary::load() {
            Ok(d) => d,
            Err(e) => return Err(e),
        };
        let ghost t = table_for(dictionary, action);
        let ghost raw = target.raw@;
        let r = Self::resolve_with(&dictionary, action, target);
        proof {
            lemma_table_map(t);
            lemma_first_alias_match(t, raw);
            let m = table_map(t);
            match first_alias_match(t, raw) {
                Some(c) => {
                    let i = choose|i: int|
                        0 <= i < t.len() && t[i].0 == c && #[trigger] t[i].1.contains(raw)
                            && forall|j: int| 0 <= j < i ==> !t[j].1.contains(raw);
                    assert(m.contains_key(t[i].0));
                },
                None => {
                    assert forall|k: Seq<char>| #[trigger] m.contains_key(k) implies !m[k].contains(
                        raw,
                    ) by {
                        let i = choose|i: int| 0 <= i < t.len() && t[i].0 == k;
                        assert(m.contains_key(t[i].0));
                        assert(!t[i].1.contains(raw));
                    }
                },
            }
        }
        r
    }
}

} // verus!
