//! The local image list: parsing the runtime's tag listing into plain
//! version strings, and the local presence test.
//!
//! The runtime collaborator reports its images as one tag per line; the
//! engine keeps each line trimmed and drops the empty ones.

use vstd::prelude::*;
use crate::text::{
    spec_split,
    spec_trim,
    lemma_split_peel,
    find_char,
    trim,
    str_eq,
};

verus! {

/// The lines of a listing, each trimmed, the empty ones dropped.
pub open spec fn spec_clean_parts(parts: Seq<Seq<char>>) -> Seq<Seq<char>>
    decreases parts.len(),
{
    if parts.len() == 0 {
        Seq::<Seq<char>>::empty()
    } else {
        let t = spec_trim(parts.first());
        (if t.len() > 0 {
            seq![t]
        } else {
            Seq::<Seq<char>>::empty()
        }) + spec_clean_parts(parts.drop_first())
    }
}

/// The cleaned lines of a listing: split at every line break, trimmed,
/// empties dropped.
pub open spec fn spec_clean_lines(s: Seq<char>) -> Seq<Seq<char>> {
    spec_clean_parts(spec_split(s, '\n'))
}

/// The view of each collected line.
pub open spec fn views_of(v: Seq<String>) -> Seq<Seq<char>> {
    v.map_values(|x: String| x@)
}

/// Splits a listing into lines, trims each, and keeps the non-empty ones,
/// in order.
pub fn parse_image_lines(s: &str) -> (r: Vec<String>)
    requires
        s@.len() < usize::MAX,
    ensures
        views_of(r@) == spec_clean_lines(s@),
{
    let n = s.unicode_len();
    let mut out: Vec<String> = Vec::new();
    let mut start: usize = 0;
    proof {
        assert(s@.subrange(0, n as int) =~= s@);
        assert(views_of(out@) =~= Seq::<Seq<char>>::empty());
    }
    while start <= n
        invariant
            n == s@.len(),
            n < usize::MAX,
            start <= n + 1,
            start <= n ==> views_of(out@) + spec_clean_parts(
                spec_split(s@.subrange(start as int, n as int), '\n'),
            ) == spec_clean_lines(s@),
            start == n + 1 ==> views_of(out@) == spec_clean_lines(s@),
        decreases n + 1 - start,
    {
        let ghost rest = s@.subrange(start as int, n as int);
        let j = find_char(s, start, '\n');
        let part = s.substring_char(start, j);
        proof {
            assert(part@ =~= rest.subrange(0, j - start));
            assert(forall|k: int| 0 <= k < j - start ==> rest[k] != '\n');
            if j < n {
                assert(rest[j - start] == s@[j as int]);
            }
            lemma_split_peel(rest, '\n', j - start);
        }
        let t = trim(part);
        let keep = t.as_str().unicode_len() > 0;
        let ghost old_out = out@;
        if keep {
            out.push(t);
        }
        proof {
            if keep {
                assert(views_of(out@) =~= views_of(old_out).push(spec_trim(part@)));
            }
            let split_rest = spec_split(rest, '\n');
            if j == n {
                assert(split_rest == seq![rest]);
                assert(rest =~= part@);
                assert(split_rest.first() == rest);
                assert(split_rest.drop_first() =~= Seq::<Seq<char>>::empty());
                assert(spec_clean_parts(split_rest) == (if spec_trim(part@).len() > 0 {
                    seq![spec_trim(part@)]
                } else {
                    Seq::<Seq<char>>::empty()
                }) + spec_clean_parts(Seq::<Seq<char>>::empty()));
                assert(views_of(out@) =~= spec_clean_lines(s@));
            } else {
                let tail = rest.subrange(j - start + 1, rest.len() as int);
                assert(split_rest == seq![part@] + spec_split(tail, '\n'));
                assert(split_rest.first() == part@);
                assert(split_rest.drop_first() =~= spec_split(tail, '\n'));
                assert(tail =~= s@.subrange(j + 1, n as int));
                assert(views_of(out@) + spec_clean_parts(
                    spec_split(s@.subrange(j + 1, n as int), '\n'),
                ) =~= spec_clean_lines(s@));
            }
        }
        start = j + 1;
    }
    out
}

/// Whether a version is present in the reported local set.
pub fn exists_locally(versions: &Vec<String>, version: &str) -> (r: bool)
    ensures
        r == exists|k: int| 0 <= k < versions@.len() && versions@[k]@ == version@,
{
    let mut i: usize = 0;
    while i < versions.len()
        invariant
            i <= versions@.len(),
            forall|k: int| 0 <= k < i ==> versions@[k]@ != version@,
        decreases versions@.len() - i,
    {
        if str_eq(versions[i].as_str(), version) {
            return true;
        }
        i += 1;
    }
    false
}

/// The first non-empty trimmed line of a listing, if any: the image
/// identifier reported by the runtime.
pub fn first_nonempty_line(s: &str) -> (r: Option<String>)
    requires
        s@.len() < usize::MAX,
    ensures
        match r {
            Some(line) => spec_clean_lines(s@).len() > 0 && line@ == spec_clean_lines(s@).first(),
            None => spec_clean_lines(s@).len() == 0,
        },
{
    let mut lines = parse_image_lines(s);
    if lines.len() == 0 {
        None
    } else {
        let ghost lv = lines@;
        let line = lines.remove(0);
        proof {
            assert(views_of(lv)[0] == spec_clean_lines(s@).first());
        }
        Some(line)
    }
}

} // verus!
