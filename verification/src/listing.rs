//! The listing flows' computations: numeric version ordering, prefix
//! filtering, labeling, and date shortening.
//!
//! Tags are ordered by their dot-separated numeric components, exactly as
//! the original listing does: each component that parses as a 32-bit
//! unsigned integer (an optional leading `+`, then digits) contributes to
//! the key, the others are skipped, and keys compare lexicographically.

use vstd::prelude::*;
use crate::text::{
    is_digit,
    digit_val,
    is_digit_char,
    digit_of,
    spec_split,
    lemma_split_peel,
    find_char,
    spec_starts_with,
    str_starts_with,
    str_eq,
    push_char,
};

verus! {

broadcast use {
    vstd::seq_lib::to_multiset_update,
    vstd::seq_lib::group_to_multiset_ensures,
    vstd::multiset::group_multiset_axioms,
};

/// The value of a digit string, most significant digit first.
pub open spec fn spec_digits_val(d: Seq<char>) -> int
    decreases d.len(),
{
    if d.len() == 0 {
        0
    } else {
        spec_digits_val(d.drop_last()) * 10 + digit_val(d.last())
    }
}

/// Whether every character is a decimal digit.
pub open spec fn all_digits(d: Seq<char>) -> bool {
    forall|k: int| 0 <= k < d.len() ==> is_digit(d[k])
}

/// The digit region of a numeric component: an optional leading `+` is
/// accepted, as the standard integer parser accepts it.
pub open spec fn spec_part_digits(p: Seq<char>) -> Seq<char> {
    if p.len() > 0 && p[0] == '+' {
        p.drop_first()
    } else {
        p
    }
}

/// The numeric value of one dot-separated component, when it parses as a
/// 32-bit unsigned integer; `None` when it is empty, holds a non-digit, or
/// overflows.
pub open spec fn spec_part_val(p: Seq<char>) -> Option<int> {
    let d = spec_part_digits(p);
    if d.len() > 0 && all_digits(d) && spec_digits_val(d) <= u32::MAX {
        Some(spec_digits_val(d))
    } else {
        None
    }
}

/// The key of a sequence of components: the values of those that parse,
/// in order.
pub open spec fn spec_keys_of(parts: Seq<Seq<char>>) -> Seq<int>
    decreases parts.len(),
{
    if parts.len() == 0 {
        Seq::<int>::empty()
    } else {
        (match spec_part_val(parts.first()) {
            Some(v) => seq![v],
            None => Seq::<int>::empty(),
        }) + spec_keys_of(parts.drop_first())
    }
}

/// The numeric sort key of a tag: its dot-separated components' values.
pub open spec fn spec_version_key(s: Seq<char>) -> Seq<int> {
    spec_keys_of(spec_split(s, '.'))
}

/// Lexicographic order on keys; a proper prefix sorts first.
pub open spec fn key_le(a: Seq<int>, b: Seq<int>) -> bool
    decreases a.len(),
{
    if a.len() == 0 {
        true
    } else if b.len() == 0 {
        false
    } else if a.first() < b.first() {
        true
    } else if a.first() > b.first() {
        false
    } else {
        key_le(a.drop_first(), b.drop_first())
    }
}

/// The key order is total.
pub proof fn lemma_key_le_total(a: Seq<int>, b: Seq<int>)
    ensures
        key_le(a, b) || key_le(b, a),
    decreases a.len(),
{
    if a.len() > 0 && b.len() > 0 && a.first() == b.first() {
        lemma_key_le_total(a.drop_first(), b.drop_first());
    }
}

/// The key order is transitive.
pub proof fn lemma_key_le_trans(a: Seq<int>, b: Seq<int>, c: Seq<int>)
    requires
        key_le(a, b),
        key_le(b, c),
    ensures
        key_le(a, c),
    decreases a.len(),
{
    if a.len() > 0 && b.len() > 0 && c.len() > 0 && a.first() == b.first() && b.first()
        == c.first() {
        lemma_key_le_trans(a.drop_first(), b.drop_first(), c.drop_first());
    }
}

/// The value of a digit string is never negative.
proof fn lemma_digits_val_nonneg(d: Seq<char>)
    requires
        all_digits(d),
    ensures
        spec_digits_val(d) >= 0,
    decreases d.len(),
{
    if d.len() > 0 {
        assert(all_digits(d.drop_last()));
        lemma_digits_val_nonneg(d.drop_last());
    }
}

/// Extending a digit string never shrinks its value.
proof fn lemma_digits_val_monotone(d: Seq<char>, m: int)
    requires
        all_digits(d),
        0 <= m <= d.len(),
    ensures
        spec_digits_val(d.subrange(0, m)) <= spec_digits_val(d),
    decreases d.len() - m,
{
    if m < d.len() {
        let p = d.subrange(0, m);
        let q = d.subrange(0, m + 1);
        assert(q.drop_last() =~= p);
        assert(all_digits(q));
        lemma_digits_val_nonneg(q.drop_last());
        assert(spec_digits_val(q) == spec_digits_val(p) * 10 + digit_val(q.last()));
        assert(spec_digits_val(p) <= spec_digits_val(q));
        lemma_digits_val_monotone(d, m + 1);
    } else {
        assert(d.subrange(0, m) =~= d);
    }
}

/// Parses one dot-separated component as a 32-bit unsigned integer.
fn eval_part(p: &str) -> (r: Option<u32>)
    ensures
        match r {
            Some(v) => spec_part_val(p@) == Some(v as int),
            None => spec_part_val(p@) is None,
        },
{
    let n = p.unicode_len();
    let start: usize = if n > 0 && p.get_char(0) == '+' {
        1
    } else {
        0
    };
    let ghost d = spec_part_digits(p@);
    proof {
        assert(d =~= p@.subrange(start as int, n as int));
    }
    if n == start {
        return None;
    }
    let mut acc: u64 = 0;
    let mut k = start;
    while k < n
        invariant
            n == p@.len(),
            start <= k <= n,
            d == spec_part_digits(p@),
            d =~= p@.subrange(start as int, n as int),
            acc <= u32::MAX,
            all_digits(d.subrange(0, k - start)),
            acc == spec_digits_val(d.subrange(0, k - start)),
        decreases n - k,
    {
        let c = p.get_char(k);
        proof {
            assert(d[k - start] == p@[k as int]);
        }
        if !is_digit_char(c) {
            proof {
                assert(!is_digit(d[k - start]));
                assert(!all_digits(d));
            }
            return None;
        }
        let dv = digit_of(c);
        proof {
            let pre = d.subrange(0, k - start);
            let post = d.subrange(0, k + 1 - start);
            assert(post.drop_last() =~= pre);
            assert(post.last() == d[k - start]);
        }
        acc = acc * 10 + (dv as u64);
        proof {
            assert(spec_digits_val(d.subrange(0, k + 1 - start)) == acc);
        }
        if acc > (u32::MAX as u64) {
            proof {
                if all_digits(d) {
                    lemma_digits_val_monotone(d, k + 1 - start);
                    assert(spec_digits_val(d) > u32::MAX);
                }
            }
            return None;
        }
        k += 1;
    }
    proof {
        assert(d.subrange(0, n - start) =~= d);
    }
    Some(acc as u32)
}

/// The views of collected key components.
pub open spec fn key_views(v: Seq<u32>) -> Seq<int> {
    v.map_values(|x: u32| x as int)
}

/// Computes the numeric sort key of a tag.
fn version_key(s: &str) -> (r: Vec<u32>)
    requires
        s@.len() < usize::MAX,
    ensures
        key_views(r@) == spec_version_key(s@),
{
    let n = s.unicode_len();
    let mut out: Vec<u32> = Vec::new();
    let mut start: usize = 0;
    proof {
        assert(s@.subrange(0, n as int) =~= s@);
        assert(key_views(out@) =~= Seq::<int>::empty());
    }
    while start <= n
        invariant
            n == s@.len(),
            n < usize::MAX,
            start <= n + 1,
            start <= n ==> key_views(out@) + spec_keys_of(
                spec_split(s@.subrange(start as int, n as int), '.'),
            ) == spec_version_key(s@),
            start == n + 1 ==> key_views(out@) == spec_version_key(s@),
        decreases n + 1 - start,
    {
        let ghost rest = s@.subrange(start as int, n as int);
        let j = find_char(s, start, '.');
        let part = s.substring_char(start, j);
        proof {
            assert(part@ =~= rest.subrange(0, j - start));
            assert(forall|k: int| 0 <= k < j - start ==> rest[k] != '.');
            if j < n {
                assert(rest[j - start] == s@[j as int]);
            }
            lemma_split_peel(rest, '.', j - start);
        }
        let val = eval_part(part);
        let ghost old_out = out@;
        match val {
            Some(v) => {
                out.push(v);
                proof {
                    assert(key_views(out@) =~= key_views(old_out).push(v as int));
                }
            },
            None => {},
        }
        proof {
            let split_rest = spec_split(rest, '.');
            assert(spec_keys_of(Seq::<Seq<char>>::empty()) == Seq::<int>::empty());
            if j == n {
                assert(split_rest == seq![rest]);
                assert(rest =~= part@);
                assert(split_rest.first() == part@);
                assert(split_rest.drop_first() =~= Seq::<Seq<char>>::empty());
                assert(spec_keys_of(split_rest) == (match spec_part_val(part@) {
                    Some(v0) => seq![v0],
                    None => Seq::<int>::empty(),
                }) + spec_keys_of(split_rest.drop_first()));
                match spec_part_val(part@) {
                    Some(v0) => {
                        assert(key_views(old_out).push(v0) =~= key_views(old_out) + seq![v0]);
                    },
                    None => {
                        assert(key_views(old_out) + Seq::<int>::empty() =~= key_views(old_out));
                    },
                }
                assert(key_views(out@) =~= spec_version_key(s@));
            } else {
                let tail = rest.subrange(j - start + 1, rest.len() as int);
                assert(split_rest == seq![part@] + spec_split(tail, '.'));
                assert(split_rest.first() == part@);
                assert(split_rest.drop_first() =~= spec_split(tail, '.'));
                assert(tail =~= s@.subrange(j + 1, n as int));
                assert(spec_keys_of(split_rest) == (match spec_part_val(part@) {
                    Some(v0) => seq![v0],
                    None => Seq::<int>::empty(),
                }) + spec_keys_of(spec_split(tail, '.')));
                match spec_part_val(part@) {
                    Some(v0) => {
                        assert(key_views(old_out).push(v0) =~= key_views(old_out) + seq![v0]);
                        assert((key_views(old_out) + seq![v0]) + spec_keys_of(spec_split(tail, '.'))
                            =~= key_views(old_out) + (seq![v0] + spec_keys_of(spec_split(tail, '.'))));
                    },
                    None => {
                        assert(key_views(old_out) + Seq::<int>::empty() =~= key_views(old_out));
                        assert(key_views(old_out) + (Seq::<int>::empty() + spec_keys_of(
                            spec_split(tail, '.'),
                        )) =~= key_views(old_out) + spec_keys_of(spec_split(tail, '.')));
                    },
                }
                assert(key_views(out@) + spec_keys_of(
                    spec_split(s@.subrange(j + 1, n as int), '.'),
                ) =~= spec_version_key(s@));
            }
        }
        start = j + 1;
    }
    out
}

/// Whether tag `a` sorts at or before tag `b` in the numeric version
/// order.
pub fn version_le(a: &str, b: &str) -> (r: bool)
    requires
        a@.len() < usize::MAX,
        b@.len() < usize::MAX,
    ensures
        r == key_le(spec_version_key(a@), spec_version_key(b@)),
{
    let ka = version_key(a);
    let kb = version_key(b);
    let ghost sa = spec_version_key(a@);
    let ghost sb = spec_version_key(b@);
    proof {
        assert(sa.subrange(0, sa.len() as int) =~= sa);
        assert(sb.subrange(0, sb.len() as int) =~= sb);
    }
    let mut i: usize = 0;
    while i < ka.len() && i < kb.len()
        invariant
            sa == spec_version_key(a@),
            sb == spec_version_key(b@),
            key_views(ka@) == sa,
            key_views(kb@) == sb,
            i <= ka@.len(),
            i <= kb@.len(),
            key_le(sa, sb) == key_le(
                sa.subrange(i as int, sa.len() as int),
                sb.subrange(i as int, sb.len() as int),
            ),
        decreases ka@.len() - i,
    {
        let x = ka[i];
        let y = kb[i];
        proof {
            let ta = sa.subrange(i as int, sa.len() as int);
            let tb = sb.subrange(i as int, sb.len() as int);
            assert(ta.first() == sa[i as int]);
            assert(tb.first() == sb[i as int]);
            assert(key_views(ka@)[i as int] == ka@[i as int] as int);
            assert(key_views(kb@)[i as int] == kb@[i as int] as int);
            assert(ta.drop_first() =~= sa.subrange(i + 1, sa.len() as int));
            assert(tb.drop_first() =~= sb.subrange(i + 1, sb.len() as int));
        }
        if x < y {
            return true;
        }
        if x > y {
            return false;
        }
        i += 1;
    }
    proof {
        let ta = sa.subrange(i as int, sa.len() as int);
        let tb = sb.subrange(i as int, sb.len() as int);
        if i == ka.len() {
            assert(ta.len() == 0);
        } else {
            assert(ta.len() > 0 && tb.len() == 0);
        }
    }
    i == ka.len()
}


/// Whether a tag list is sorted by the numeric version order.
pub open spec fn sorted_by_key(v: Seq<String>) -> bool {
    forall|p: int, q: int|
        0 <= p < q < v.len() ==> key_le(spec_version_key(v[p]@), spec_version_key(v[q]@))
}

/// Sorts tags by their numeric version keys (insertion sort, so ties keep
/// a deterministic order). The result holds exactly the input tags.
pub fn sort_versions(versions: Vec<String>) -> (r: Vec<String>)
    requires
        forall|k: int| 0 <= k < versions@.len() ==> versions@[k]@.len() < usize::MAX,
    ensures
        sorted_by_key(r@),
        r@.to_multiset() == versions@.to_multiset(),
        r@.len() == versions@.len(),
{
    let ghost orig = versions@;
    let mut arr = versions;
    if arr.len() <= 1 {
        return arr;
    }
    let mut i: usize = 1;
    while i < arr.len()
        invariant
            arr@.len() == orig.len(),
            arr@.len() > 1,
            1 <= i <= arr@.len(),
            arr@.to_multiset() == orig.to_multiset(),
            forall|k: int| 0 <= k < arr@.len() ==> arr@[k]@.len() < usize::MAX,
            forall|p: int, q: int|
                0 <= p < q < i ==> key_le(spec_version_key(arr@[p]@), spec_version_key(arr@[q]@)),
        decreases arr@.len() - i,
    {
        let mut j = i;
        loop
            invariant
                arr@.len() == orig.len(),
                arr@.len() > 1,
                0 <= j <= i < arr@.len(),
                arr@.to_multiset() == orig.to_multiset(),
                forall|k: int| 0 <= k < arr@.len() ==> arr@[k]@.len() < usize::MAX,
                forall|p: int, q: int|
                    0 <= p < q <= i && q != j ==> key_le(
                        spec_version_key(arr@[p]@),
                        spec_version_key(arr@[q]@),
                    ),
            ensures
                arr@.len() == orig.len(),
                arr@.len() > 1,
                0 <= j <= i < arr@.len(),
                arr@.to_multiset() == orig.to_multiset(),
                forall|k: int| 0 <= k < arr@.len() ==> arr@[k]@.len() < usize::MAX,
                forall|p: int, q: int|
                    0 <= p < q <= i && q != j ==> key_le(
                        spec_version_key(arr@[p]@),
                        spec_version_key(arr@[q]@),
                    ),
                j == 0 || key_le(spec_version_key(arr@[j - 1]@), spec_version_key(arr@[j as int]@)),
            decreases j,
        {
            if j == 0 {
                break;
            }
            if version_le(arr[j - 1].as_str(), arr[j].as_str()) {
                break;
            }
            proof {
                lemma_key_le_total(spec_version_key(arr@[j - 1]@), spec_version_key(arr@[j as int]@));
            }
            let ghost before = arr@;
            let x = arr[j - 1].clone();
            let y = arr[j].clone();
            arr.set(j - 1, y);
            arr.set(j, x);
            proof {
                let mid = before.update(j - 1, before[j as int]);
                assert(arr@ == mid.update(j as int, before[j - 1]));
                assert(mid[j as int] == before[j as int]);
                assert(mid.to_multiset() == before.to_multiset().insert(before[j as int]).remove(
                    before[j - 1],
                ));
                assert(arr@.to_multiset() == mid.to_multiset().insert(before[j - 1]).remove(
                    before[j as int],
                ));
                assert(arr@.to_multiset() =~= before.to_multiset());
            }
            j -= 1;
        }
        proof {
            assert forall|p: int, q: int|
                0 <= p < q <= i implies key_le(
                spec_version_key(arr@[p]@),
                spec_version_key(arr@[q]@),
            ) by {
                if q == j {
                    if p < j - 1 {
                        lemma_key_le_trans(
                            spec_version_key(arr@[p]@),
                            spec_version_key(arr@[j - 1]@),
                            spec_version_key(arr@[j as int]@),
                        );
                    }
                }
            }
        }
        i += 1;
    }
    arr
}


/// Whether the listing keeps a tag: it looks numeric (leads with a digit)
/// and starts with the requested prefix.
pub open spec fn spec_keep(tag: Seq<char>, prefix: Seq<char>) -> bool {
    tag.len() > 0 && is_digit(tag[0]) && spec_starts_with(tag, prefix)
}

/// Keeps the digit-leading tags that start with `prefix`, in order.
pub fn filter_versions(versions: &Vec<String>, prefix: &str) -> (r: Vec<String>)
    ensures
        r@ == versions@.filter(|v: String| spec_keep(v@, prefix@)),
{
    let ghost pred = |v: String| spec_keep(v@, prefix@);
    let mut out: Vec<String> = Vec::new();
    proof {
        reveal(Seq::filter);
        assert(versions@.subrange(0, 0) =~= Seq::<String>::empty());
        assert(out@ =~= versions@.subrange(0, 0).filter(pred));
    }
    let mut i: usize = 0;
    while i < versions.len()
        invariant
            i <= versions@.len(),
            pred == (|v: String| spec_keep(v@, prefix@)),
            out@ == versions@.subrange(0, i as int).filter(pred),
        decreases versions@.len() - i,
    {
        let tag = &versions[i];
        let keep = tag.as_str().unicode_len() > 0 && is_digit_char(tag.as_str().get_char(0))
            && str_starts_with(tag.as_str(), prefix);
        proof {
            reveal(Seq::filter);
            let pre = versions@.subrange(0, i as int);
            let post = versions@.subrange(0, i + 1);
            assert(post.drop_last() =~= pre);
            assert(post.last() == versions@[i as int]);
        }
        if keep {
            out.push(tag.clone());
        }
        i += 1;
    }
    proof {
        assert(versions@.subrange(0, versions@.len() as int) =~= versions@);
    }
    out
}

/// The alias label the remote listing prints beside a tag: `testing` when
/// the tag is the current testing version, else `stable` when it is the
/// current stable version, else nothing. When one tag carries both
/// aliases, `testing` wins, as in the original display.
pub fn tag_label(tag: &str, stable: &str, testing: &str) -> (r: String)
    ensures
        tag@ == testing@ ==> r@ == "testing"@,
        tag@ != testing@ && tag@ == stable@ ==> r@ == "stable"@,
        tag@ != testing@ && tag@ != stable@ ==> r@ == Seq::<char>::empty(),
{
    proof {
        reveal_strlit("");
    }
    if str_eq(tag, testing) {
        String::from_str("testing")
    } else if str_eq(tag, stable) {
        String::from_str("stable")
    } else {
        String::from_str("")
    }
}

/// The shortened display form of a push date: the first thirteen
/// characters with `T` replaced by a space and an `h` appended, or the
/// upstream placeholder when the date is shorter than that.
pub open spec fn spec_short_date(date: Seq<char>) -> Seq<char> {
    if date.len() >= 13 {
        date.subrange(0, 13).map_values(
            |c: char|
                if c == 'T' {
                    ' '
                } else {
                    c
                },
        ) + "h"@
    } else {
        "unknown"@
    }
}

/// Shortens a push date for display.
pub fn short_date(date: &str) -> (r: String)
    ensures
        r@ == spec_short_date(date@),
{
    let n = date.unicode_len();
    if n < 13 {
        return String::from_str("unknown");
    }
    let ghost f = |c: char|
        if c == 'T' {
            ' '
        } else {
            c
        };
    let mut out = String::new();
    proof {
        assert(out@ =~= date@.subrange(0, 0).map_values(f));
    }
    let mut k: usize = 0;
    while k < 13
        invariant
            n == date@.len(),
            n >= 13,
            k <= 13,
            f == (|c: char|
                if c == 'T' {
                    ' '
                } else {
                    c
                }),
            out@ == date@.subrange(0, k as int).map_values(f),
        decreases 13 - k,
    {
        let c = date.get_char(k);
        let mapped: char = if c == 'T' {
            ' '
        } else {
            c
        };
        push_char(&mut out, mapped);
        proof {
            let pre = date@.subrange(0, k as int);
            let post = date@.subrange(0, k + 1);
            assert(post.drop_last() =~= pre);
            assert(post.last() == date@[k as int]);
            assert(post.map_values(f) =~= pre.map_values(f).push(f(date@[k as int])));
        }
        k += 1;
    }
    out.append("h");
    out
}

} // verus!
