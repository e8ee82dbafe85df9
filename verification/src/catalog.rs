//! The upstream tag catalog and the alias resolver.
//!
//! The registry metadata client hands the engine the full catalog as a
//! sequence of entries, in upstream order. An alias designates a content
//! digest; the alias resolver maps the alias to the first concrete-looking
//! tag (digit-leading name) that carries the same digest. Catalog order is
//! upstream-defined, so first-encountered-in-catalog-order is the tie-break
//! when several tags share a digest.

use vstd::prelude::*;
use crate::errors::CaveError;
use crate::text::{is_digit, str_eq, is_digit_char};
use crate::version::{Alias, alias_name, spec_alias_name};

verus! {

/// One upstream catalog entry: a tag name, the content digest it points
/// at, and the time it was last pushed.
#[derive(Debug, Clone, PartialEq, Eq)]
pub struct TagEntry {
    pub name: String,
    pub digest: String,
    pub last_pushed: String,
}

/// A tag name that looks like a concrete version: it leads with a digit.
pub open spec fn concrete_looking(name: Seq<char>) -> bool {
    name.len() > 0 && is_digit(name[0])
}

/// The digest the alias carries in the catalog: the digest of the last
/// entry bearing the alias name, or `None` when the alias is absent.
pub open spec fn spec_alias_digest(catalog: Seq<TagEntry>, alias: Seq<char>) -> Option<Seq<char>>
    decreases catalog.len(),
{
    if catalog.len() == 0 {
        None
    } else if catalog.last().name@ == alias {
        Some(catalog.last().digest@)
    } else {
        spec_alias_digest(catalog.drop_last(), alias)
    }
}

/// The first concrete-looking tag whose digest equals `digest`, in catalog
/// order, or `None` when no tag matches.
pub open spec fn spec_first_match(catalog: Seq<TagEntry>, digest: Seq<char>) -> Option<Seq<char>>
    decreases catalog.len(),
{
    if catalog.len() == 0 {
        None
    } else if concrete_looking(catalog.first().name@) && catalog.first().digest@ == digest {
        Some(catalog.first().name@)
    } else {
        spec_first_match(catalog.drop_first(), digest)
    }
}

/// What resolving an alias against a catalog yields: `None` when the alias
/// is absent from the catalog; otherwise the first concrete-looking tag
/// sharing the alias's digest, or the empty name when no tag shares it.
pub open spec fn spec_resolve(catalog: Seq<TagEntry>, alias: Alias) -> Option<Seq<char>> {
    match spec_alias_digest(catalog, spec_alias_name(alias)) {
        None => None,
        Some(digest) => match spec_first_match(catalog, digest) {
            Some(name) => Some(name),
            None => Some(Seq::<char>::empty()),
        },
    }
}

/// The digest of the last catalog entry named `alias`, if any.
fn find_alias_digest(catalog: &Vec<TagEntry>, alias: Alias) -> (r: Option<String>)
    ensures
        match r {
            Some(d) => spec_alias_digest(catalog@, spec_alias_name(alias)) == Some(d@),
            None => spec_alias_digest(catalog@, spec_alias_name(alias)) is None,
        },
{
    let target = alias_name(alias);
    let mut found: Option<String> = None;
    let mut i: usize = 0;
    while i < catalog.len()
        invariant
            i <= catalog@.len(),
            match found {
                Some(d) => spec_alias_digest(catalog@.subrange(0, i as int), target@) == Some(d@),
                None => spec_alias_digest(catalog@.subrange(0, i as int), target@) is None,
            },
        decreases catalog@.len() - i,
    {
        proof {
            let pre = catalog@.subrange(0, i as int);
            let post = catalog@.subrange(0, i + 1);
            assert(post.drop_last() =~= pre);
            assert(post.last() == catalog@[i as int]);
        }
        if str_eq(catalog[i].name.as_str(), target) {
            found = Some(catalog[i].digest.clone());
        }
        i += 1;
    }
    proof {
        assert(catalog@.subrange(0, catalog@.len() as int) =~= catalog@);
    }
    found
}

/// The first concrete-looking catalog entry carrying `digest`, if any.
fn find_first_match(catalog: &Vec<TagEntry>, digest: &String) -> (r: Option<String>)
    ensures
        match r {
            Some(n) => spec_first_match(catalog@, digest@) == Some(n@),
            None => spec_first_match(catalog@, digest@) is None,
        },
{
    proof {
        assert(catalog@.subrange(0, catalog@.len() as int) =~= catalog@);
    }
    let mut i: usize = 0;
    while i < catalog.len()
        invariant
            i <= catalog@.len(),
            spec_first_match(catalog@, digest@) == spec_first_match(
                catalog@.subrange(i as int, catalog@.len() as int),
                digest@,
            ),
        decreases catalog@.len() - i,
    {
        proof {
            let rest = catalog@.subrange(i as int, catalog@.len() as int);
            assert(rest.first() == catalog@[i as int]);
            assert(rest.drop_first() =~= catalog@.subrange(i + 1, catalog@.len() as int));
        }
        let name = &catalog[i].name;
        let leading_digit = name.as_str().unicode_len() > 0 && is_digit_char(
            name.as_str().get_char(0),
        );
        if leading_digit && str_eq(catalog[i].digest.as_str(), digest.as_str()) {
            return Some(catalog[i].name.clone());
        }
        i += 1;
    }
    None
}

/// Resolves a floating alias to the concrete tag it currently designates.
///
/// The full catalog is scanned once for the alias's digest (the last entry
/// bearing the alias name wins) and once for the first concrete-looking
/// tag sharing that digest. An alias absent from the catalog fails with
/// `AliasUnresolved`; an alias whose digest no tag shares resolves to the
/// empty name.
pub fn resolve_alias(catalog: &Vec<TagEntry>, alias: Alias) -> (r: Result<String, CaveError>)
    ensures
        match r {
            Ok(v) => spec_resolve(catalog@, alias) == Some(v@),
            Err(e) => spec_resolve(catalog@, alias) is None && (
            e matches CaveError::AliasUnresolved(n) && n@ == spec_alias_name(alias)),
        },
{
    match find_alias_digest(catalog, alias) {
        Some(digest) => match find_first_match(catalog, &digest) {
            Some(name) => Ok(name),
            None => {
                proof {
                    reveal_strlit("");
                    assert(Seq::<char>::empty() =~= ""@);
                }
                Ok(String::from_str(""))
            },
        },
        None => Err(CaveError::AliasUnresolved(String::from_str(alias_name(alias)))),
    }
}

/// Resolves both aliases together against one catalog fetch, so the
/// listing flows pay for the catalog only once: each alias that is absent
/// or that no concrete-looking tag digest-matches comes back as the empty
/// name.
pub fn get_stable_and_testing(catalog: &Vec<TagEntry>) -> (r: (String, String))
    ensures
        match spec_resolve(catalog@, Alias::Stable) {
            Some(v) => r.0@ == v,
            None => r.0@ == Seq::<char>::empty(),
        },
        match spec_resolve(catalog@, Alias::Testing) {
            Some(v) => r.1@ == v,
            None => r.1@ == Seq::<char>::empty(),
        },
{
    proof {
        reveal_strlit("");
        assert(Seq::<char>::empty() =~= ""@);
    }
    let stable = match resolve_alias(catalog, Alias::Stable) {
        Ok(v) => v,
        Err(_) => String::from_str(""),
    };
    let testing = match resolve_alias(catalog, Alias::Testing) {
        Ok(v) => v,
        Err(_) => String::from_str(""),
    };
    (stable, testing)
}

/// The version a tag designates: an alias resolves through the catalog;
/// any other tag designates nothing and comes back as the empty name.
pub fn version_under_tag(tag: String, catalog: &Vec<TagEntry>) -> (r: Result<String, CaveError>)
    ensures
        match r {
            Ok(v) => {
                ||| tag@ == "stable"@ && spec_resolve(catalog@, Alias::Stable) == Some(v@)
                ||| tag@ == "testing"@ && spec_resolve(catalog@, Alias::Testing) == Some(v@)
                ||| tag@ != "stable"@ && tag@ != "testing"@ && v@ == Seq::<char>::empty()
            },
            Err(e) => {
                ||| tag@ == "stable"@ && spec_resolve(catalog@, Alias::Stable) is None && (
                e matches CaveError::AliasUnresolved(n) && n@ == "stable"@)
                ||| tag@ == "testing"@ && spec_resolve(catalog@, Alias::Testing) is None && (
                e matches CaveError::AliasUnresolved(n) && n@ == "testing"@)
            },
        },
{
    if str_eq(tag.as_str(), "stable") {
        resolve_alias(catalog, Alias::Stable)
    } else if str_eq(tag.as_str(), "testing") {
        resolve_alias(catalog, Alias::Testing)
    } else {
        proof {
            reveal_strlit("");
            assert(Seq::<char>::empty() =~= ""@);
        }
        Ok(String::from_str(""))
    }
}

/// Whether a version exists in the upstream catalog under exactly that tag
/// name.
pub fn exists_remotely(version: &str, catalog: &Vec<TagEntry>) -> (r: bool)
    ensures
        r == exists|k: int| 0 <= k < catalog@.len() && catalog@[k].name@ == version@,
{
    let mut i: usize = 0;
    while i < catalog.len()
        invariant
            i <= catalog@.len(),
            forall|k: int| 0 <= k < i ==> catalog@[k].name@ != version@,
        decreases catalog@.len() - i,
    {
        if str_eq(catalog[i].name.as_str(), version) {
            return true;
        }
        i += 1;
    }
    false
}

/// The metadata value of an optional field, with the upstream placeholder
/// for an absent one.
pub fn or_unknown(value: Option<String>) -> (r: String)
    ensures
        match value {
            Some(s) => r == s,
            None => r@ == "unknown"@,
        },
{
    match value {
        Some(s) => s,
        None => String::from_str("unknown"),
    }
}

/// The push date of the first catalog entry bearing `name`, if any.
pub open spec fn spec_first_date(catalog: Seq<TagEntry>, name: Seq<char>) -> Option<Seq<char>>
    decreases catalog.len(),
{
    if catalog.len() == 0 {
        None
    } else if catalog.first().name@ == name {
        Some(catalog.first().last_pushed@)
    } else {
        spec_first_date(catalog.drop_first(), name)
    }
}

/// The push date recorded for a tag: the first catalog entry bearing that
/// name wins.
pub fn lookup_date(catalog: &Vec<TagEntry>, name: &str) -> (r: Option<String>)
    ensures
        match r {
            Some(d) => spec_first_date(catalog@, name@) == Some(d@),
            None => spec_first_date(catalog@, name@) is None,
        },
{
    proof {
        assert(catalog@.subrange(0, catalog@.len() as int) =~= catalog@);
    }
    let mut i: usize = 0;
    while i < catalog.len()
        invariant
            i <= catalog@.len(),
            spec_first_date(catalog@, name@) == spec_first_date(
                catalog@.subrange(i as int, catalog@.len() as int),
                name@,
            ),
        decreases catalog@.len() - i,
    {
        proof {
            let rest = catalog@.subrange(i as int, catalog@.len() as int);
            assert(rest.first() == catalog@[i as int]);
            assert(rest.drop_first() =~= catalog@.subrange(i + 1, catalog@.len() as int));
        }
        if str_eq(catalog[i].name.as_str(), name) {
            return Some(catalog[i].last_pushed.clone());
        }
        i += 1;
    }
    None
}

/// Resolution is a pure function of the catalog and the alias: resolving
/// twice against an unchanged catalog yields the same concrete version.
pub proof fn lemma_resolution_idempotent(c1: Seq<TagEntry>, c2: Seq<TagEntry>, alias: Alias)
    requires
        c1 == c2,
    ensures
        spec_resolve(c1, alias) == spec_resolve(c2, alias),
{
}

} // verus!
