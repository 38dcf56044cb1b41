//! Verified helpers over byte sequences: comparison, search, slicing and
//! decimal rendering.

use vstd::prelude::*;

verus! {

/// `p` is a prefix of `a`.
pub open spec fn is_prefix(p: Seq<u8>, a: Seq<u8>) -> bool {
    p.len() <= a.len() && a.subrange(0, p.len() as int) == p
}

/// `s` is a suffix of `a`.
pub open spec fn is_suffix(s: Seq<u8>, a: Seq<u8>) -> bool {
    s.len() <= a.len() && a.subrange(a.len() - s.len(), a.len() as int) == s
}

/// `n` occurs in `h` starting at index `i`.
pub open spec fn matches_at(h: Seq<u8>, n: Seq<u8>, i: int) -> bool {
    0 <= i && i + n.len() <= h.len() && h.subrange(i, i + n.len()) == n
}

/// The first index at which `n` occurs in `h` at or after `i`.
pub open spec fn find_from(h: Seq<u8>, n: Seq<u8>, i: int) -> Option<int>
    decreases h.len() - i,
{
    if i < 0 || i + n.len() > h.len() {
        None
    } else if matches_at(h, n, i) {
        Some(i)
    } else if i + n.len() == h.len() {
        None
    } else {
        find_from(h, n, i + 1)
    }
}

/// The first index at which `n` occurs in `h`.
pub open spec fn find_first(h: Seq<u8>, n: Seq<u8>) -> Option<int> {
    find_from(h, n, 0)
}

/// A found index is a match, and no earlier index at or after the search
/// start is a match.
pub proof fn lemma_find_from_properties(h: Seq<u8>, n: Seq<u8>, i: int)
    requires
        0 <= i,
    ensures
        find_from(h, n, i) matches Some(j) ==> i <= j && matches_at(h, n, j) && (forall|k: int|
            i <= k < j ==> !matches_at(h, n, k)),
        find_from(h, n, i) is None ==> forall|k: int| i <= k ==> !matches_at(h, n, k),
    decreases h.len() - i,
{
    if i + n.len() > h.len() {
        assert(forall|k: int| i <= k ==> !matches_at(h, n, k));
    } else if matches_at(h, n, i) {
    } else if i + n.len() == h.len() {
        assert(forall|k: int| i <= k ==> !matches_at(h, n, k));
    } else {
        lemma_find_from_properties(h, n, i + 1);
    }
}

/// Compare two byte slices for equality.
pub fn bytes_eq(a: &[u8], b: &[u8]) -> (r: bool)
    ensures
        r == (a@ == b@),
{
    if a.len() != b.len() {
        return false;
    }
    let mut i: usize = 0;
    while i < a.len()
        invariant
            0 <= i <= a@.len(),
            a@.len() == b@.len(),
            forall|j: int| 0 <= j < i ==> a@[j] == b@[j],
        decreases a@.len() - i,
    {
        if a[i] != b[i] {
            return false;
        }
        i = i + 1;
    }
    proof {
        assert(a@ =~= b@);
    }
    true
}

/// Does `a` start with `p`?
pub fn starts_with(a: &[u8], p: &[u8]) -> (r: bool)
    ensures
        r == is_prefix(p@, a@),
{
    if p.len() > a.len() {
        return false;
    }
    let mut i: usize = 0;
    while i < p.len()
        invariant
            0 <= i <= p@.len() <= a@.len(),
            forall|j: int| 0 <= j < i ==> a@[j] == p@[j],
        decreases p@.len() - i,
    {
        if a[i] != p[i] {
            assert(a@.subrange(0, p@.len() as int)[i as int] != p@[i as int]);
            return false;
        }
        i = i + 1;
    }
    proof {
        assert(a@.subrange(0, p@.len() as int) =~= p@);
    }
    true
}

/// Does `a` end with `s`?
pub fn ends_with(a: &[u8], s: &[u8]) -> (r: bool)
    ensures
        r == is_suffix(s@, a@),
{
    if s.len() > a.len() {
        return false;
    }
    let alen: usize = a.len();
    let off: usize = alen - s.len();
    let mut i: usize = 0;
    while i < s.len()
        invariant
            0 <= i <= s@.len() <= a@.len(),
            alen == a@.len(),
            off == a@.len() - s@.len(),
            forall|j: int| 0 <= j < i ==> a@[off + j] == s@[j],
        decreases s@.len() - i,
    {
        if a[off + i] != s[i] {
            assert(a@.subrange(a@.len() - s@.len(), a@.len() as int)[i as int] != s@[i as int]);
            return false;
        }
        i = i + 1;
    }
    proof {
        assert(a@.subrange(a@.len() - s@.len(), a@.len() as int) =~= s@);
    }
    true
}

/// Whether `n` occurs in `h` at index `i`.
fn check_match_at(h: &[u8], n: &[u8], i: usize) -> (r: bool)
    requires
        i + n@.len() <= h@.len(),
    ensures
        r == matches_at(h@, n@, i as int),
{
    let hlen: usize = h.len();
    let mut j: usize = 0;
    while j < n.len()
        invariant
            0 <= j <= n@.len(),
            i + n@.len() <= h@.len(),
            hlen == h@.len(),
            forall|k: int| 0 <= k < j ==> h@[i + k] == n@[k],
        decreases n@.len() - j,
    {
        if h[i + j] != n[j] {
            assert(h@.subrange(i as int, i + n@.len())[j as int] != n@[j as int]);
            return false;
        }
        j = j + 1;
    }
    proof {
        assert(h@.subrange(i as int, i + n@.len()) =~= n@);
    }
    true
}

/// Find the first occurrence of `n` in `h` at or after `from`.
pub fn find_from_index(h: &[u8], n: &[u8], from: usize) -> (r: Option<usize>)
    ensures
        match r {
            Some(i) => find_from(h@, n@, from as int) == Some(i as int),
            None => find_from(h@, n@, from as int) is None,
        },
{
    let hlen: usize = h.len();
    if n.len() > hlen || from > hlen - n.len() {
        return None;
    }
    let last: usize = hlen - n.len();
    let mut i: usize = from;
    while i <= last
        invariant
            from <= i <= last + 1,
            hlen == h@.len(),
            last == h@.len() - n@.len(),
            n@.len() <= h@.len(),
            find_from(h@, n@, from as int) == find_from(h@, n@, i as int),
        decreases last + 1 - i,
    {
        if check_match_at(h, n, i) {
            return Some(i);
        }
        if i == last {
            return None;
        }
        i = i + 1;
    }
    None
}

/// Find the first occurrence of `n` in `h`.
pub fn find(h: &[u8], n: &[u8]) -> (r: Option<usize>)
    ensures
        match r {
            Some(i) => find_first(h@, n@) == Some(i as int),
            None => find_first(h@, n@) is None,
        },
{
    find_from_index(h, n, 0)
}

/// Append `src[from..to]` to `out`.
pub fn append_range(out: &mut Vec<u8>, src: &[u8], from: usize, to: usize)
    requires
        from <= to <= src@.len(),
    ensures
        final(out)@ == old(out)@ + src@.subrange(from as int, to as int),
{
    let mut i: usize = from;
    while i < to
        invariant
            from <= i <= to <= src@.len(),
            out@ == old(out)@ + src@.subrange(from as int, i as int),
            out@.len() == old(out)@.len() + (i - from),
        decreases to - i,
    {
        out.push(src[i]);
        proof {
            assert(out@ =~= old(out)@ + src@.subrange(from as int, i + 1));
        }
        i = i + 1;
    }
}

/// Append all of `src` to `out`.
pub fn append_all(out: &mut Vec<u8>, src: &[u8])
    ensures
        final(out)@ == old(out)@ + src@,
{
    append_range(out, src, 0, src.len());
    proof {
        assert(src@.subrange(0, src@.len() as int) =~= src@);
    }
}

/// The ASCII-lowercased form of one byte.
pub open spec fn lower_byte(b: u8) -> u8 {
    if 65 <= b <= 90 {
        (b + 32) as u8
    } else {
        b
    }
}

/// The ASCII-lowercased form of a byte sequence.
pub open spec fn lower_bytes(s: Seq<u8>) -> Seq<u8> {
    s.map_values(|b: u8| lower_byte(b))
}

/// Compare two byte slices ignoring ASCII case.
pub fn eq_ignore_ascii_case(a: &[u8], b: &[u8]) -> (r: bool)
    ensures
        r == (lower_bytes(a@) == lower_bytes(b@)),
{
    if a.len() != b.len() {
        proof {
            assert(lower_bytes(a@).len() != lower_bytes(b@).len());
        }
        return false;
    }
    let mut i: usize = 0;
    while i < a.len()
        invariant
            0 <= i <= a@.len(),
            a@.len() == b@.len(),
            forall|j: int| 0 <= j < i ==> lower_byte(a@[j]) == lower_byte(b@[j]),
        decreases a@.len() - i,
    {
        let x = a[i];
        let y = b[i];
        let lx: u8 = if 65 <= x && x <= 90 {
            x + 32
        } else {
            x
        };
        let ly: u8 = if 65 <= y && y <= 90 {
            y + 32
        } else {
            y
        };
        if lx != ly {
            proof {
                assert(lower_bytes(a@)[i as int] != lower_bytes(b@)[i as int]);
            }
            return false;
        }
        i = i + 1;
    }
    proof {
        assert(lower_bytes(a@) =~= lower_bytes(b@));
    }
    true
}

/// The decimal rendering of `n`, with a leading minus where it is
/// negative.
pub open spec fn dec_signed(n: int) -> Seq<u8> {
    if n >= 0 {
        dec_digits(n as nat)
    } else {
        seq![45u8] + dec_digits((-n) as nat)
    }
}

/// Append the decimal rendering of `n`, sign included, to `out`.
pub fn append_signed_decimal(out: &mut Vec<u8>, n: i32)
    ensures
        final(out)@ == old(out)@ + dec_signed(n as int),
{
    if n >= 0 {
        append_decimal(out, n as usize);
    } else {
        out.push(45);
        let magnitude: usize = (-(n as i64)) as usize;
        proof {
            assert(magnitude as int == -(n as int));
        }
        append_decimal(out, magnitude);
        proof {
            assert(out@ =~= old(out)@ + dec_signed(n as int));
        }
    }
}

/// ASCII-lowercase a byte sequence.
pub fn to_lower_ascii(v: &[u8]) -> (r: Vec<u8>)
    ensures
        r@ == lower_bytes(v@),
{
    let mut out: Vec<u8> = Vec::new();
    let mut i: usize = 0;
    while i < v.len()
        invariant
            0 <= i <= v@.len(),
            out@.len() == i,
            forall|j: int| 0 <= j < i ==> out@[j] == lower_byte(v@[j]),
        decreases v@.len() - i,
    {
        let b = v[i];
        if 65 <= b && b <= 90 {
            out.push(b + 32);
        } else {
            out.push(b);
        }
        i = i + 1;
    }
    proof {
        assert(out@ =~= lower_bytes(v@));
    }
    out
}

/// UTF-8 encoding distributes over concatenation.
pub proof fn lemma_encode_utf8_concat(a: Seq<char>, b: Seq<char>)
    ensures
        vstd::utf8::encode_utf8(a + b) == vstd::utf8::encode_utf8(a) + vstd::utf8::encode_utf8(b),
    decreases a.len(),
{
    if a.len() == 0 {
        assert(a + b =~= b);
        assert(vstd::utf8::encode_utf8(a) + vstd::utf8::encode_utf8(b) =~= vstd::utf8::encode_utf8(
            b,
        ));
    } else {
        assert((a + b).drop_first() =~= a.drop_first() + b);
        lemma_encode_utf8_concat(a.drop_first(), b);
        assert((a + b)[0] == a[0]);
        assert(vstd::utf8::encode_utf8(a + b) =~= vstd::utf8::encode_utf8(a)
            + vstd::utf8::encode_utf8(b));
    }
}

/// Relies on `String::from_utf8_lossy`: on valid UTF-8 input the result's
/// bytes are exactly the input bytes.
#[verifier::external_body]
pub(crate) fn bytes_to_string_lossy(v: &[u8]) -> (r: String)
    ensures
        vstd::utf8::valid_utf8(v@) ==> vstd::utf8::encode_utf8(r@) == v@,
{
    String::from_utf8_lossy(v).into_owned()
}

/// The decimal digits of `n`, most significant first.
pub open spec fn dec_digits(n: nat) -> Seq<u8>
    decreases n,
{
    if n < 10 {
        seq![(48 + n) as u8]
    } else {
        dec_digits(n / 10) + seq![(48 + n % 10) as u8]
    }
}

/// Append the decimal rendering of `n` to `out`.
pub fn append_decimal(out: &mut Vec<u8>, n: usize)
    ensures
        final(out)@ == old(out)@ + dec_digits(n as nat),
{
    let mut digits: Vec<u8> = Vec::new();
    // The digits collected so far, most significant first.
    let ghost mut collected: Seq<u8> = Seq::empty();
    let mut m: usize = n;
    // Collect the digits of `n`, least significant first.
    while m >= 10
        invariant
            dec_digits(n as nat) == dec_digits(m as nat) + collected,
            digits@.len() == collected.len(),
            forall|j: int| 0 <= j < digits@.len() ==> digits@[j] == collected[collected.len() - 1
                - j],
        decreases m,
    {
        let d: u8 = (m % 10) as u8;
        digits.push(48 + d);
        proof {
            assert(dec_digits(m as nat) == dec_digits((m as nat) / 10) + seq![(48 + d) as u8]);
            collected = seq![(48 + d) as u8] + collected;
            assert(dec_digits(n as nat) =~= dec_digits((m as nat) / 10) + collected);
        }
        m = m / 10;
    }
    let d: u8 = (m % 10) as u8;
    digits.push(48 + d);
    proof {
        assert(dec_digits(m as nat) =~= seq![(48 + d) as u8]);
        collected = seq![(48 + d) as u8] + collected;
        assert(dec_digits(n as nat) =~= collected);
    }
    let total: usize = digits.len();
    let mut i: usize = total;
    while i > 0
        invariant
            0 <= i <= total == digits@.len() == collected.len(),
            dec_digits(n as nat) == collected,
            forall|j: int| 0 <= j < digits@.len() ==> digits@[j] == collected[collected.len() - 1
                - j],
            out@ == old(out)@ + collected.subrange(0, total - i),
        decreases i,
    {
        i = i - 1;
        out.push(digits[i]);
        proof {
            assert(digits@[i as int] == collected[total - 1 - i]);
            assert(out@ =~= old(out)@ + collected.subrange(0, total - i));
        }
    }
    proof {
        assert(collected.subrange(0, total as int) =~= collected);
    }
}

} // verus!
