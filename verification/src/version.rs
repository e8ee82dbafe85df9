//! Version identifiers: concrete three-component versions, floating
//! aliases, and the request parser.
//!
//! A concrete version is written as three groups of one or two decimal
//! digits separated by dots. A request that is neither `stable`, `testing`
//! nor of that shape is rejected before any network or filesystem access.

use vstd::prelude::*;
use crate::text::{is_digit, digit_val, str_eq, is_digit_char, digit_of};
use crate::errors::CaveError;

verus! {

/// A fully specified three-component version, each component at most two
/// decimal digits in the source syntax.
#[derive(Clone, Copy, Debug, PartialEq, Eq, Structural, Hash)]
pub struct Version {
    pub major: u8,
    pub minor: u8,
    pub patch: u8,
}

impl Version {
    /// Each component is representable with one or two decimal digits.
    pub open spec fn well_formed(self) -> bool {
        self.major <= 99 && self.minor <= 99 && self.patch <= 99
    }

    /// Total order on versions: lexicographic by (major, minor, patch).
    pub open spec fn spec_lt(self, other: Version) -> bool {
        self.major < other.major
            || (self.major == other.major && self.minor < other.minor)
            || (self.major == other.major && self.minor == other.minor
                && self.patch < other.patch)
    }

    /// Strict lexicographic comparison by (major, minor, patch).
    pub fn lt(&self, other: &Version) -> (r: bool)
        ensures
            r == self.spec_lt(*other),
    {
        self.major < other.major
            || (self.major == other.major && self.minor < other.minor)
            || (self.major == other.major && self.minor == other.minor
                && self.patch < other.patch)
    }
}

/// A floating alias whose concrete target changes over time.
#[derive(Clone, Copy, Debug, PartialEq, Eq, Structural, Hash)]
pub enum Alias {
    Stable,
    Testing,
}

/// The catalog name of an alias.
pub open spec fn spec_alias_name(a: Alias) -> Seq<char> {
    match a {
        Alias::Stable => "stable"@,
        Alias::Testing => "testing"@,
    }
}

/// The catalog name of an alias, as a string slice.
pub fn alias_name(a: Alias) -> (r: &'static str)
    ensures
        r@ == spec_alias_name(a),
{
    match a {
        Alias::Stable => "stable",
        Alias::Testing => "testing",
    }
}

/// A classified version request: either a concrete version or an alias.
#[derive(Clone, Copy, Debug, PartialEq, Eq, Structural, Hash)]
pub enum VersionIdentifier {
    Concrete(Version),
    Alias(Alias),
}

/// Whether positions `i < j` are the two dot positions of a well-formed
/// concrete version string: three groups of one or two digits.
pub open spec fn splits_concrete(s: Seq<char>, i: int, j: int) -> bool {
    &&& 0 <= i < j < s.len()
    &&& s[i] == '.'
    &&& s[j] == '.'
    &&& group_ok(s.subrange(0, i))
    &&& group_ok(s.subrange(i + 1, j))
    &&& group_ok(s.subrange(j + 1, s.len() as int))
}

/// A group is one or two decimal digits.
pub open spec fn group_ok(g: Seq<char>) -> bool {
    (g.len() == 1 || g.len() == 2) && (forall|k: int| 0 <= k < g.len() ==> is_digit(g[k]))
}

/// The numeric value of a one- or two-digit group.
pub open spec fn group_val(g: Seq<char>) -> int
    recommends
        group_ok(g),
{
    if g.len() == 1 {
        digit_val(g[0])
    } else {
        digit_val(g[0]) * 10 + digit_val(g[1])
    }
}

/// Whether `s` fully matches the concrete version syntax
/// (three dot-separated groups of one or two decimal digits).
pub open spec fn is_concrete_syntax(s: Seq<char>) -> bool {
    exists|i: int, j: int| splits_concrete(s, i, j)
}

/// Whether `v` holds exactly the three group values of concrete version
/// string `s`. The split of a concrete version string is unique, so this
/// pins `v` down completely.
pub open spec fn concrete_value_of(s: Seq<char>, v: Version) -> bool {
    forall|i: int, j: int|
        splits_concrete(s, i, j) ==> v.major == group_val(s.subrange(0, i))
            && v.minor == group_val(s.subrange(i + 1, j))
            && v.patch == group_val(s.subrange(j + 1, s.len() as int))
}

/// In any split, the first dot stands where the scan found it: one or two
/// digits ahead of it, nothing else.
proof fn lemma_first_dot_forces(s: Seq<char>, i: int, p: int, q: int)
    requires
        splits_concrete(s, p, q),
        1 <= i <= 2,
        i < s.len(),
        s[i] == '.',
        forall|k: int| 0 <= k < i ==> is_digit(s[k]),
    ensures
        p == i,
{
    assert(s.subrange(0, p).len() == p);
    assert(p == 1 || p == 2);
    if p != i {
        if p == 1 && i == 2 {
            assert(is_digit(s[1]));
            assert(s[p] == '.');
        } else {
            assert(p == 2 && i == 1);
            assert(s.subrange(0, 2)[1] == s[1]);
            assert(is_digit(s[1]));
            assert(s[i] == '.');
        }
        assert(false);
    }
}

/// With the first dot fixed, the second dot stands where the scan found it.
proof fn lemma_second_dot_forces(s: Seq<char>, i: int, j: int, p: int, q: int)
    requires
        splits_concrete(s, p, q),
        p == i,
        i + 2 <= j <= i + 3,
        j < s.len(),
        s[j] == '.',
        forall|k: int| i + 1 <= k < j ==> is_digit(s[k]),
    ensures
        q == j,
{
    assert(s.subrange(i + 1, q).len() == q - i - 1);
    assert(q == i + 2 || q == i + 3);
    if q != j {
        if q == i + 2 && j == i + 3 {
            assert(is_digit(s[i + 2]));
            assert(s[q] == '.');
        } else {
            assert(q == i + 3 && j == i + 2);
            assert(s.subrange(i + 1, q)[1] == s[i + 2]);
            assert(is_digit(s[i + 2]));
            assert(s[j] == '.');
        }
        assert(false);
    }
}

/// Classifies a raw request string: `stable` and `testing` short-circuit to
/// the alias; anything else must fully match the three-group bounded-digit
/// pattern, or the request is rejected as `InvalidFormat`. Pure: no side
/// effects, no network or filesystem access.
pub fn parse_version(raw: &str) -> (r: Result<VersionIdentifier, CaveError>)
    ensures
        match r {
            Ok(VersionIdentifier::Alias(a)) => raw@ == spec_alias_name(a),
            Ok(VersionIdentifier::Concrete(v)) => {
                &&& is_concrete_syntax(raw@)
                &&& concrete_value_of(raw@, v)
                &&& v.well_formed()
            },
            Err(e) => {
                &&& e matches CaveError::InvalidFormat(s) && s@ == raw@
                &&& !is_concrete_syntax(raw@)
                &&& raw@ != "stable"@
                &&& raw@ != "testing"@
            },
        },
{
    if str_eq(raw, "stable") {
        return Ok(VersionIdentifier::Alias(Alias::Stable));
    }
    if str_eq(raw, "testing") {
        return Ok(VersionIdentifier::Alias(Alias::Testing));
    }
    match parse_concrete(raw) {
        Some(v) => Ok(VersionIdentifier::Concrete(v)),
        None => Err(CaveError::InvalidFormat(raw.to_owned())),
    }
}

/// Scans the three dot-separated groups in place: each group is one or two
/// digits, located by where its terminating dot (or the end of the string)
/// can stand; any other shape fails.
fn parse_concrete(raw: &str) -> (r: Option<Version>)
    ensures
        match r {
            Some(v) => is_concrete_syntax(raw@) && concrete_value_of(raw@, v)
                && v.well_formed(),
            None => !is_concrete_syntax(raw@),
        },
{
    let n = raw.unicode_len();
    if n < 5 || n > 8 {
        proof {
            assert forall|i: int, j: int| !splits_concrete(raw@, i, j) by {
                if splits_concrete(raw@, i, j) {
                    assert(raw@.subrange(0, i).len() == i);
                    assert(raw@.subrange(i + 1, j).len() == j - i - 1);
                    assert(raw@.subrange(j + 1, raw@.len() as int).len() == raw@.len() - j - 1);
                }
            }
        }
        return None;
    }
    // first group: one or two digits, then a dot at position i
    if !is_digit_char(raw.get_char(0)) {
        proof {
            assert forall|i: int, j: int| !splits_concrete(raw@, i, j) by {
                if splits_concrete(raw@, i, j) {
                    assert(raw@.subrange(0, i)[0] == raw@[0]);
                }
            }
        }
        return None;
    }
    let d0 = digit_of(raw.get_char(0));
    let (major, i): (u8, usize) = if raw.get_char(1) == '.' {
        (d0, 1)
    } else if is_digit_char(raw.get_char(1)) && raw.get_char(2) == '.' {
        (10 * d0 + digit_of(raw.get_char(1)), 2)
    } else {
        proof {
            assert forall|i: int, j: int| !splits_concrete(raw@, i, j) by {
                if splits_concrete(raw@, i, j) {
                    assert(i == 1 || i == 2);
                    if i == 2 {
                        assert(raw@.subrange(0, 2)[1] == raw@[1]);
                    }
                }
            }
        }
        return None;
    };
    proof {
        assert(group_ok(raw@.subrange(0, i as int)));
        assert(group_val(raw@.subrange(0, i as int)) == major);
    }
    // second group: starts at i + 1, ends with a dot at position j
    if !is_digit_char(raw.get_char(i + 1)) {
        proof {
            assert forall|p: int, q: int| !splits_concrete(raw@, p, q) by {
                if splits_concrete(raw@, p, q) {
                    lemma_first_dot_forces(raw@, i as int, p, q);
                    assert(raw@.subrange(p + 1, q)[0] == raw@[p + 1]);
                }
            }
        }
        return None;
    }
    let e0 = digit_of(raw.get_char(i + 1));
    let (minor, j): (u8, usize) = if raw.get_char(i + 2) == '.' {
        (e0, i + 2)
    } else if i + 3 < n && is_digit_char(raw.get_char(i + 2)) && raw.get_char(i + 3) == '.' {
        (10 * e0 + digit_of(raw.get_char(i + 2)), i + 3)
    } else {
        proof {
            assert forall|p: int, q: int| !splits_concrete(raw@, p, q) by {
                if splits_concrete(raw@, p, q) {
                    lemma_first_dot_forces(raw@, i as int, p, q);
                    assert(raw@.subrange(p + 1, q).len() == q - i - 1);
                    assert(q == i + 2 || q == i + 3);
                    if q == i + 3 {
                        assert(raw@.subrange(p + 1, q)[1] == raw@[p + 2]);
                    }
                }
            }
        }
        return None;
    };
    proof {
        assert(raw@.subrange(i + 1, j as int)[0] == raw@[i + 1]);
        if j == i + 3 {
            assert(raw@.subrange(i + 1, j as int)[1] == raw@[i + 2]);
        }
        assert(group_ok(raw@.subrange(i + 1, j as int)));
        assert(group_val(raw@.subrange(i + 1, j as int)) == minor);
    }
    // third group: from j + 1 to the end, one or two digits
    if j + 1 >= n {
        proof {
            assert forall|p: int, q: int| !splits_concrete(raw@, p, q) by {
                if splits_concrete(raw@, p, q) {
                    lemma_first_dot_forces(raw@, i as int, p, q);
                    lemma_second_dot_forces(raw@, i as int, j as int, p, q);
                    assert(raw@.subrange(q + 1, raw@.len() as int).len() >= 1);
                }
            }
        }
        return None;
    }
    if !is_digit_char(raw.get_char(j + 1)) {
        proof {
            assert forall|p: int, q: int| !splits_concrete(raw@, p, q) by {
                if splits_concrete(raw@, p, q) {
                    lemma_first_dot_forces(raw@, i as int, p, q);
                    lemma_second_dot_forces(raw@, i as int, j as int, p, q);
                    assert(raw@.subrange(q + 1, raw@.len() as int)[0] == raw@[q + 1]);
                }
            }
        }
        return None;
    }
    let f0 = digit_of(raw.get_char(j + 1));
    let patch: u8 = if j + 2 == n {
        f0
    } else if j + 3 == n && is_digit_char(raw.get_char(j + 2)) {
        10 * f0 + digit_of(raw.get_char(j + 2))
    } else {
        proof {
            assert forall|p: int, q: int| !splits_concrete(raw@, p, q) by {
                if splits_concrete(raw@, p, q) {
                    lemma_first_dot_forces(raw@, i as int, p, q);
                    lemma_second_dot_forces(raw@, i as int, j as int, p, q);
                    let g = raw@.subrange(q + 1, raw@.len() as int);
                    assert(g.len() == 1 || g.len() == 2);
                    if g.len() == 2 {
                        assert(g[1] == raw@[q + 2]);
                    }
                }
            }
        }
        return None;
    };
    let v = Version { major, minor, patch };
    proof {
        let glen = raw@.len() - j - 1;
        let g = raw@.subrange(j + 1, raw@.len() as int);
        assert(g[0] == raw@[j + 1]);
        if glen == 2 {
            assert(g[1] == raw@[j + 2]);
        }
        assert(group_ok(g));
        assert(group_val(g) == patch);
        assert(splits_concrete(raw@, i as int, j as int));
        assert forall|p: int, q: int|
            splits_concrete(raw@, p, q) implies v.major == group_val(raw@.subrange(0, p))
            && v.minor == group_val(raw@.subrange(p + 1, q))
            && v.patch == group_val(raw@.subrange(q + 1, raw@.len() as int)) by {
            lemma_first_dot_forces(raw@, i as int, p, q);
            lemma_second_dot_forces(raw@, i as int, j as int, p, q);
        }
    }
    Some(v)
}

} // verus!
