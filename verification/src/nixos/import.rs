//! Importing the generated module from `flake.nix`.
use vstd::prelude::*;

use crate::text::{
    append_range, chars_of, contains_seq, find_from, first_occurrence, lemma_first_occurrence_from,
    occurs_at,
};

verus! {

/// The path by which `flake.nix` imports the generated module.
pub const GENERATED_MODULE: &'static str = "./modules/generated.nix";

/// The opening of the module list in `flake.nix`.
pub const MODULES_OPENING: &'static str = "modules = [";

/// The line put right after the opening of the module list.
pub const GENERATED_IMPORT_LINE: &'static str = "\n          ./modules/generated.nix";

/// What importing the generated module makes of the text of `flake.nix`
/// (whose path is `flake_file`): nothing to change when it already names
/// the module; else the import line put right after the first opening of
/// the module list; an error when there is none.
pub open spec fn generated_import(content: Seq<char>, flake_file: Seq<char>) -> Result<
    Option<Seq<char>>,
    Seq<char>,
> {
    if contains_seq(content, GENERATED_MODULE@) {
        Ok(None)
    } else {
        match first_occurrence(content, MODULES_OPENING@) {
            None => Err("modules section not found in "@ + flake_file),
            Some(p) => {
                let at = p + MODULES_OPENING@.len();
                Ok(Some(content.take(at) + GENERATED_IMPORT_LINE@ + content.skip(at)))
            },
        }
    }
}

/// The text of `flake.nix` with the generated module imported, or `None`
/// when it already is (see `generated_import`).
pub fn ensure_generated_module(flake_file: &str, content: &str) -> (r: Result<
    Option<String>,
    String,
>)
    ensures
        match r {
            Ok(None) => generated_import(content@, flake_file@) == Ok::<
                Option<Seq<char>>,
                Seq<char>,
            >(None),
            Ok(Some(t)) => generated_import(content@, flake_file@) == Ok::<
                Option<Seq<char>>,
                Seq<char>,
            >(Some(t@)),
            Err(e) => generated_import(content@, flake_file@) == Err::<
                Option<Seq<char>>,
                Seq<char>,
            >(e@),
        },
{
    let v = chars_of(content);
    let g = chars_of(GENERATED_MODULE);
    if find_from(&v, &g, 0).is_some() {
        return Ok(None);
    }
    let m = chars_of(MODULES_OPENING);
    match find_from(&v, &m, 0) {
        None => {
            let mut e = String::from_str("modules section not found in ");
            e.append(flake_file);
            Err(e)
        },
        Some(p) => {
            proof {
                lemma_first_occurrence_from(v@, m@, 0);
            }
            assert(occurs_at(v@, m@, p as int));
            let mlen = m.len();
            let vlen = v.len();
            assert(p + mlen <= vlen);
            let at = p + mlen;
            let mut out = String::new();
            append_range(&mut out, content, &v, 0, at);
            out.append(GENERATED_IMPORT_LINE);
            append_range(&mut out, content, &v, at, v.len());
            assert(content@.subrange(0, at as int) =~= content@.take(at as int));
            assert(content@.subrange(at as int, v@.len() as int) =~= content@.skip(at as int));
            Ok(Some(out))
        },
    }
}

} // verus!
