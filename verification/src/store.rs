//! The persisted resolution record: its two shapes, its single-line text
//! encoding, and the project-over-user scope precedence.
//!
//! A record is stored as one line of text: either a bare version string
//! (`"22.0.1"`) or `"<alias>:<version>"` (`"stable:22.0.1"`). The line is
//! trimmed before decoding.

use vstd::prelude::*;
use crate::errors::CaveError;
use crate::text::{spec_trim, spec_starts_with, is_ws, trim, str_starts_with};
use crate::version::{Alias, VersionIdentifier, spec_alias_name};

verus! {

/// The persisted unit of state: a bare concrete version, or a pinned alias
/// together with the concrete version it resolved to at the time of last
/// write.
#[derive(Debug, Clone, PartialEq, Eq)]
pub enum ResolutionRecord {
    Bare(String),
    Pinned(Alias, String),
}

/// The single line of text that encodes a record.
pub open spec fn spec_encode_record(r: ResolutionRecord) -> Seq<char> {
    match r {
        ResolutionRecord::Bare(v) => v@,
        ResolutionRecord::Pinned(a, v) => spec_alias_name(a) + ":"@ + v@,
    }
}

/// The record a stored line decodes to, after trimming: a line starting
/// with `stable:` or `testing:` is a pinned alias with the rest of the line
/// as the stored version; any other line is a bare version.
pub open spec fn spec_decodes_to(line: Seq<char>, r: ResolutionRecord) -> bool {
    let t = spec_trim(line);
    if spec_starts_with(t, "stable:"@) {
        r matches ResolutionRecord::Pinned(a, v) && a == Alias::Stable && v@ == t.subrange(
            "stable:"@.len() as int,
            t.len() as int,
        )
    } else if spec_starts_with(t, "testing:"@) {
        r matches ResolutionRecord::Pinned(a, v) && a == Alias::Testing && v@ == t.subrange(
            "testing:"@.len() as int,
            t.len() as int,
        )
    } else {
        r matches ResolutionRecord::Bare(v) && v@ == t
    }
}

/// Encodes a record as the single line that is written to the scope file.
pub fn encode_record(r: &ResolutionRecord) -> (line: String)
    ensures
        line@ == spec_encode_record(*r),
{
    match r {
        ResolutionRecord::Bare(v) => v.clone(),
        ResolutionRecord::Pinned(a, v) => {
            let mut line = String::from_str(match a {
                Alias::Stable => "stable",
                Alias::Testing => "testing",
            });
            line.append(":");
            line.append(v.as_str());
            line
        },
    }
}

/// Decodes the stored line back into a record. The inverse of
/// [`encode_record`] on well-formed lines; a malformed version part is kept
/// as it stands rather than rejected, as the store is only ever written
/// with fully-formed records.
pub fn decode_record(line: &str) -> (r: ResolutionRecord)
    ensures
        spec_decodes_to(line@, r),
{
    let t = trim(line);
    let decoded: ResolutionRecord = if str_starts_with(t.as_str(), "stable:") {
        proof {
            reveal_strlit("stable:");
        }
        let rest = t.as_str().substring_char(7, t.as_str().unicode_len());
        ResolutionRecord::Pinned(Alias::Stable, rest.to_owned())
    } else if str_starts_with(t.as_str(), "testing:") {
        proof {
            reveal_strlit("testing:");
        }
        let rest = t.as_str().substring_char(8, t.as_str().unicode_len());
        ResolutionRecord::Pinned(Alias::Testing, rest.to_owned())
    } else {
        ResolutionRecord::Bare(t)
    };
    decoded
}

/// The record a resolution persists: a request that named the version
/// directly is stored bare; a request through an alias is stored pinned,
/// so that later reads retain the alias identity for reconciliation.
pub fn make_record(requested: &VersionIdentifier, resolved: String) -> (r: ResolutionRecord)
    ensures
        match requested {
            VersionIdentifier::Concrete(_) => r == ResolutionRecord::Bare(resolved),
            VersionIdentifier::Alias(a) => r == ResolutionRecord::Pinned(*a, resolved),
        },
{
    match requested {
        VersionIdentifier::Concrete(_) => ResolutionRecord::Bare(resolved),
        VersionIdentifier::Alias(a) => ResolutionRecord::Pinned(*a, resolved),
    }
}

/// Writing a record and reading it back yields the record unchanged: the
/// encoding round-trips for every record whose version carries no
/// surrounding whitespace and, in the bare shape, does not itself imitate
/// a pinned line.
pub proof fn lemma_record_round_trip(r: ResolutionRecord)
    requires
        match r {
            ResolutionRecord::Bare(v) => spec_trim(v@) == v@ && !spec_starts_with(v@, "stable:"@)
                && !spec_starts_with(v@, "testing:"@),
            ResolutionRecord::Pinned(_, v) => spec_trim(v@) == v@,
        },
    ensures
        spec_decodes_to(spec_encode_record(r), r),
{
    reveal_strlit("stable:");
    reveal_strlit("testing:");
    reveal_strlit("stable");
    reveal_strlit("testing");
    reveal_strlit(":");
    let line = spec_encode_record(r);
    match r {
        ResolutionRecord::Bare(v) => {
            if v@.len() > 0 {
                crate::text::lemma_trim_fixpoint_last(v@);
            }
            crate::text::lemma_trim_noop(v@);
        },
        ResolutionRecord::Pinned(a, v) => {
            let prefix = spec_alias_name(a) + ":"@;
            assert(line =~= prefix + v@);
            assert(!is_ws(line[0]));
            if v@.len() > 0 {
                crate::text::lemma_trim_fixpoint_last(v@);
                assert(line[line.len() - 1] == v@[v@.len() - 1]);
            } else {
                assert(line[line.len() - 1] == ':');
            }
            crate::text::lemma_trim_noop(line);
            match a {
                Alias::Stable => {
                    assert(line.subrange(0, 7) =~= "stable:"@);
                    assert(spec_starts_with(line, "stable:"@));
                    assert(line.subrange(7, line.len() as int) =~= v@);
                },
                Alias::Testing => {
                    assert(line.subrange(0, 8) =~= "testing:"@);
                    assert(spec_starts_with(line, "testing:"@));
                    if spec_starts_with(line, "stable:"@) {
                        assert(line.subrange(0, 7)[0] == 's');
                        assert(false);
                    }
                    assert(line.subrange(8, line.len() as int) =~= v@);
                },
            }
        },
    }
}

/// Scope precedence on reads: the project-scope record wins if present,
/// else the user-scope record; with neither, the lookup fails and the
/// message tells the user how to create one.
pub fn choose_scoped(project: Option<String>, user: Option<String>) -> (r: Result<
    String,
    CaveError,
>)
    ensures
        match r {
            Ok(line) => (project matches Some(p) && line == p) || (project is None && (
            user matches Some(u) && line == u)),
            Err(e) => project is None && user is None && (e matches CaveError::FileNotFound(m)
                && m@ == "No version found. Use `cave use <version>` or `cave pin <version>`."@),
        },
{
    match project {
        Some(p) => Ok(p),
        None => match user {
            Some(u) => Ok(u),
            None => Err(
                CaveError::FileNotFound(
                    String::from_str(
                        "No version found. Use `cave use <version>` or `cave pin <version>`.",
                    ),
                ),
            ),
        },
    }
}

} // verus!
