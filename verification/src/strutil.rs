//! Small executable string helpers with exact character-sequence contracts,
//! together with the few trusted bridges to `std` that the rest of the
//! library builds on.

use vstd::prelude::*;
use vstd::utf8::{encode_utf8, valid_utf8};
use vstd::multiset::Multiset;

verus! {

/// Relies on `std::string::String::push`: appends one character at the end.
#[verifier::external_body]
pub fn string_push(s: &mut String, c: char)
    ensures
        final(s)@ == old(s)@ + seq![c],
{
    s.push(c);
}

/// Relies on `std::time::SystemTime::now` and `duration_since(UNIX_EPOCH)`:
/// whole seconds since the Unix epoch, or 0 should the clock lie before it.
/// Nothing can be promised about the clock's value.
#[verifier::external_body]
pub fn get_timestamp() -> u64 {
    std::time::SystemTime::now()
        .duration_since(std::time::SystemTime::UNIX_EPOCH)
        .map(|d| d.as_secs())
        .unwrap_or(0)
}

/// Relies on `String::from_utf8`: succeeds exactly on valid UTF-8 and
/// returns its decoding.
#[verifier::external_body]
pub fn bytes_to_string(v: Vec<u8>) -> (r: Option<String>)
    ensures
        r matches Some(s) ==> encode_utf8(s@) == v@,
        r is Some <==> valid_utf8(v@),
{
    String::from_utf8(v).ok()
}

/// Byte-for-byte equality of two slices.
pub fn bytes_eq(a: &[u8], b: &[u8]) -> (r: bool)
    ensures
        r == (a@ == b@),
{
    let n = a.len();
    if n != b.len() {
        return false;
    }
    let mut i: usize = 0;
    while i < n
        invariant
            i <= n,
            n == a@.len() == b@.len(),
            forall|j: int| 0 <= j < i ==> a@[j] == b@[j],
        decreases n - i,
    {
        if a[i] != b[i] {
            return false;
        }
        i = i + 1;
    }
    assert(a@ =~= b@);
    true
}

/// Character-for-character equality of two string slices.
pub fn str_eq(a: &str, b: &str) -> (r: bool)
    ensures
        r == (a@ == b@),
{
    let s1: String = a.to_owned();
    let s2: String = b.to_owned();
    s1 == s2
}

/// `p` is a prefix of `s`.
pub open spec fn spec_starts_with(s: Seq<char>, p: Seq<char>) -> bool {
    p.len() <= s.len() && s.subrange(0, p.len() as int) == p
}

/// Whether the characters of `p` open the string `s`.
pub fn starts_with(s: &str, p: &str) -> (r: bool)
    ensures
        r == spec_starts_with(s@, p@),
{
    let n = p.unicode_len();
    if n > s.unicode_len() {
        return false;
    }
    let mut i: usize = 0;
    while i < n
        invariant
            i <= n,
            n == p@.len(),
            n <= s@.len(),
            forall|j: int| 0 <= j < i ==> s@[j] == p@[j],
        decreases n - i,
    {
        if s.get_char(i) != p.get_char(i) {
            assert(s@.subrange(0, n as int) != p@) by {
                assert(s@.subrange(0, n as int)[i as int] != p@[i as int]);
            }
            return false;
        }
        i = i + 1;
    }
    assert(s@.subrange(0, n as int) =~= p@);
    true
}


/// Left-to-right, non-overlapping replacement of every occurrence of `pat`
/// by `rep`. An empty pattern leaves the string as it stands.
pub open spec fn replace_chars(s: Seq<char>, pat: Seq<char>, rep: Seq<char>) -> Seq<char>
    decreases s.len(),
{
    if pat.len() == 0 || s.len() < pat.len() {
        s
    } else if s.take(pat.len() as int) == pat {
        rep + replace_chars(s.skip(pat.len() as int), pat, rep)
    } else {
        seq![s[0]] + replace_chars(s.skip(1), pat, rep)
    }
}

fn replace_from(s: &str, i: usize, pat: &str, rep: &str, out: &mut String)
    requires
        pat@.len() > 0,
        i <= s@.len(),
    ensures
        final(out)@ == old(out)@ + replace_chars(s@.skip(i as int), pat@, rep@),
    decreases s@.len() - i,
{
    let n = s.unicode_len();
    let m = pat.unicode_len();
    let ghost t = s@.skip(i as int);
    if n - i < m {
        let rest = s.substring_char(i, n);
        out.append(rest);
        assert(out@ =~= old(out)@ + replace_chars(t, pat@, rep@));
        return;
    }
    let mut k: usize = 0;
    let mut matched = true;
    while k < m
        invariant
            k <= m == pat@.len(),
            i <= s@.len(),
            m <= s@.len() - i,
            i + m <= n == s@.len(),
            t == s@.skip(i as int),
            matched == (forall|q: int| 0 <= q < k ==> t[q] == pat@[q]),
        decreases m - k,
    {
        if s.get_char(i + k) != pat.get_char(k) {
            assert(t[k as int] != pat@[k as int]);
            matched = false;
            k = m;
        } else {
            assert(t[k as int] == pat@[k as int]);
            k = k + 1;
        }
    }
    if matched {
        assert(t.take(m as int) =~= pat@);
        out.append(rep);
        replace_from(s, i + m, pat, rep, out);
        proof {
            assert(t.skip(m as int) =~= s@.skip(i + m));
            assert(out@ =~= old(out)@ + replace_chars(t, pat@, rep@));
        }
    } else {
        assert(t.take(m as int) != pat@) by {
            let q = choose|q: int| 0 <= q < m && t[q] != pat@[q];
            assert(t.take(m as int)[q] != pat@[q]);
        }
        string_push(out, s.get_char(i));
        replace_from(s, i + 1, pat, rep, out);
        proof {
            assert(t.skip(1) =~= s@.skip(i + 1));
            assert(out@ =~= old(out)@ + replace_chars(t, pat@, rep@));
        }
    }
}

/// Every occurrence of `pat` in `s` replaced by `rep`, left to right.
pub fn replace_all_str(s: &str, pat: &str, rep: &str) -> (r: String)
    requires
        pat@.len() > 0,
    ensures
        r@ == replace_chars(s@, pat@, rep@),
{
    let mut out = String::new();
    replace_from(s, 0, pat, rep, &mut out);
    assert(s@.skip(0) =~= s@);
    out
}

/// Ascending order.
pub open spec fn sorted_i32(s: Seq<i32>) -> bool {
    forall|i: int, j: int| 0 <= i < j < s.len() ==> s[i] <= s[j]
}

/// Sorts ascending by repeatedly moving a least remaining element over,
/// keeping exactly the same elements.
pub fn sort_i32(v: Vec<i32>) -> (r: Vec<i32>)
    ensures
        sorted_i32(r@),
        r@.to_multiset() == v@.to_multiset(),
{
    broadcast use vstd::seq_lib::group_to_multiset_ensures;

    let mut src = v;
    let mut r: Vec<i32> = Vec::new();
    while src.len() > 0
        invariant
            sorted_i32(r@),
            r@.to_multiset().add(src@.to_multiset()) == v@.to_multiset(),
            forall|a: int, b: int|
                0 <= a < r@.len() && 0 <= b < src@.len() ==> r@[a] <= src@[b],
        decreases src@.len(),
    {
        let n = src.len();
        let mut m: usize = 0;
        let mut k: usize = 1;
        while k < n
            invariant
                m < k <= n == src@.len(),
                forall|j: int| 0 <= j < k ==> src@[m as int] <= src@[j],
            decreases n - k,
        {
            if src[k] < src[m] {
                m = k;
            }
            k = k + 1;
        }
        let ghost old_r = r@;
        let ghost old_src = src@;
        let x = src.remove(m);
        r.push(x);
        proof {
            old_r.to_multiset_ensures();
            old_src.to_multiset_ensures();
            assert(old_src.contains(x)) by {
                assert(old_src[m as int] == x);
            }
            assert(r@ =~= old_r.push(x));
            assert(old_r.push(x).to_multiset() =~= old_r.to_multiset().insert(x));
            assert(src@ =~= old_src.remove(m as int));
            assert(old_src.remove(m as int).to_multiset() =~= old_src.to_multiset().remove(x));
            assert(r@.to_multiset() =~= old_r.to_multiset().insert(x));
            assert(src@.to_multiset() =~= old_src.to_multiset().remove(x));
            assert(r@.to_multiset().add(src@.to_multiset()) =~= old_r.to_multiset().add(
                old_src.to_multiset(),
            ));
            assert forall|a: int, b: int|
                0 <= a < r@.len() && 0 <= b < src@.len() implies r@[a] <= src@[b] by {
                if b < m {
                    assert(src@[b] == old_src[b]);
                } else {
                    assert(src@[b] == old_src[b + 1]);
                }
            }
            assert(sorted_i32(r@));
        }
    }
    proof {
        assert(src@.to_multiset() =~= Multiset::<i32>::empty());
        assert(r@.to_multiset() =~= v@.to_multiset());
    }
    r
}
} // verus!
