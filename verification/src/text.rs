//! Byte-level helpers for HTTP/1 message text: tokens, header-value
//! characters, case-insensitive comparison, trimming, decimal numbers.
use vstd::prelude::*;

verus! {

/// The bytes of an ASCII string, one byte per character.
pub open spec fn ascii(s: Seq<char>) -> Seq<u8> {
    Seq::new(s.len(), |i: int| s[i] as u8)
}

/// A `tchar` of RFC 7230: the bytes that may appear in a token.
pub open spec fn is_tchar(b: u8) -> bool {
    ||| 48 <= b <= 57
    ||| 65 <= b <= 90
    ||| 97 <= b <= 122
    ||| b == 33 || b == 35 || b == 36 || b == 37 || b == 38 || b == 39
    ||| b == 42 || b == 43 || b == 45 || b == 46 || b == 94 || b == 95
    ||| b == 96 || b == 124 || b == 126
}

pub open spec fn is_upper(b: u8) -> bool {
    65 <= b <= 90
}

pub open spec fn to_lower(b: u8) -> u8 {
    if is_upper(b) { (b + 32) as u8 } else { b }
}

pub open spec fn lower_seq(s: Seq<u8>) -> Seq<u8> {
    Seq::new(s.len(), |i: int| to_lower(s[i]))
}

/// A non-empty token of at most 65535 bytes, without upper-case letters:
/// the normal form of a header name.
pub open spec fn is_lower_token(s: Seq<u8>) -> bool {
    &&& 0 < s.len() <= 65535
    &&& forall|i: int| 0 <= i < s.len() ==> is_tchar(#[trigger] s[i]) && !is_upper(s[i])
}

/// A non-empty token (a request method).
pub open spec fn is_token(s: Seq<u8>) -> bool {
    &&& 0 < s.len()
    &&& forall|i: int| 0 <= i < s.len() ==> is_tchar(#[trigger] s[i])
}

/// A byte that a header value may hold: a visible byte, a space, a tab or
/// an obs-text byte, but not DEL or another control byte.
pub open spec fn is_value_byte(b: u8) -> bool {
    (b >= 32 && b != 127) || b == 9
}

pub open spec fn is_header_value(s: Seq<u8>) -> bool {
    forall|i: int| 0 <= i < s.len() ==> is_value_byte(#[trigger] s[i])
}

/// A byte of visible ASCII text (or a space or a tab).
pub open spec fn is_visible(b: u8) -> bool {
    (32 <= b && b < 127) || b == 9
}

pub open spec fn is_visible_text(s: Seq<u8>) -> bool {
    forall|i: int| 0 <= i < s.len() ==> is_visible(#[trigger] s[i])
}

pub open spec fn eq_ignore_case(a: Seq<u8>, b: Seq<u8>) -> bool {
    &&& a.len() == b.len()
    &&& forall|i: int| 0 <= i < a.len() ==> to_lower(#[trigger] a[i]) == to_lower(b[i])
}

pub open spec fn is_ows(b: u8) -> bool {
    b == 32 || b == 9
}

/// `s` with spaces and tabs removed from its start.
pub open spec fn trim_start(s: Seq<u8>) -> Seq<u8>
    decreases s.len(),
{
    if s.len() > 0 && is_ows(s[0]) {
        trim_start(s.drop_first())
    } else {
        s
    }
}

/// `s` with spaces and tabs removed from its end.
pub open spec fn trim_end(s: Seq<u8>) -> Seq<u8>
    decreases s.len(),
{
    if s.len() > 0 && is_ows(s.last()) {
        trim_end(s.drop_last())
    } else {
        s
    }
}

pub open spec fn trim(s: Seq<u8>) -> Seq<u8> {
    trim_end(trim_start(s))
}

/// The part of `s` after its last comma (all of `s` when it has none).
pub open spec fn after_last_comma(s: Seq<u8>) -> Seq<u8>
    decreases s.len(),
{
    if s.len() == 0 {
        s
    } else if s.last() == 44 {
        Seq::empty()
    } else {
        after_last_comma(s.drop_last()).push(s.last())
    }
}

pub open spec fn is_digit(b: u8) -> bool {
    48 <= b <= 57
}

/// The value of a string of decimal digits.
pub open spec fn decimal_value(s: Seq<u8>) -> nat
    decreases s.len(),
{
    if s.len() == 0 {
        0
    } else {
        decimal_value(s.drop_last()) * 10 + (s.last() - 48) as nat
    }
}

pub open spec fn all_digits(s: Seq<u8>) -> bool {
    forall|i: int| 0 <= i < s.len() ==> is_digit(#[trigger] s[i])
}

/// What `str::parse::<u64>` gives for `s`: an optional `+`, then at least
/// one decimal digit, with a value that fits in 64 bits.
pub open spec fn parse_u64(s: Seq<u8>) -> Option<u64> {
    let digits = if s.len() > 0 && s[0] == 43 { s.drop_first() } else { s };
    if digits.len() > 0 && all_digits(digits) && decimal_value(digits) <= u64::MAX {
        Some(decimal_value(digits) as u64)
    } else {
        None
    }
}

/// Appends `data` to the end of `dst`.
pub fn extend(dst: &mut Vec<u8>, data: &[u8])
    ensures
        final(dst)@ == old(dst)@ + data@,
{
    let ghost start = dst@;
    let mut i: usize = 0;
    while i < data.len()
        invariant
            i <= data@.len(),
            dst@ == start + data@.subrange(0, i as int),
        decreases data@.len() - i,
    {
        dst.push(data[i]);
        i = i + 1;
        assert(data@.subrange(0, i as int) == data@.subrange(0, (i - 1) as int).push(data@[i - 1]));
    }
    assert(data@.subrange(0, data@.len() as int) == data@);
}

/// The bytes of an ASCII string literal.
pub fn lit(s: &str) -> (r: &[u8])
    requires
        vstd::string::is_ascii(s),
    ensures
        r@ == ascii(s@),
{
    proof {
        vstd::string::is_ascii_spec_bytes(s);
    }
    let r = s.as_bytes();
    assert(r@ =~= ascii(s@));
    r
}

pub fn byte_to_lower(b: u8) -> (r: u8)
    ensures
        r == to_lower(b),
{
    if 65 <= b && b <= 90 {
        b + 32
    } else {
        b
    }
}

pub fn byte_is_tchar(b: u8) -> (r: bool)
    ensures
        r == is_tchar(b),
{
    (48 <= b && b <= 57) || (65 <= b && b <= 90) || (97 <= b && b <= 122) || b == 33 || b == 35
        || b == 36 || b == 37 || b == 38 || b == 39 || b == 42 || b == 43 || b == 45 || b == 46
        || b == 94 || b == 95 || b == 96 || b == 124 || b == 126
}

/// The ASCII lower-case form of `s`.
pub fn to_lower_bytes(s: &[u8]) -> (r: Vec<u8>)
    ensures
        r@ == lower_seq(s@),
{
    let mut r: Vec<u8> = Vec::new();
    let mut i: usize = 0;
    while i < s.len()
        invariant
            i <= s@.len(),
            r@ =~= lower_seq(s@.subrange(0, i as int)),
        decreases s@.len() - i,
    {
        let c = byte_to_lower(s[i]);
        r.push(c);
        i = i + 1;
    }
    assert(s@.subrange(0, s@.len() as int) == s@);
    r
}

/// Whether `s` is the normal form of a header name.
pub fn check_lower_token(s: &[u8]) -> (r: bool)
    ensures
        r == is_lower_token(s@),
{
    if s.len() == 0 || s.len() > 65535 {
        return false;
    }
    let mut i: usize = 0;
    while i < s.len()
        invariant
            i <= s@.len(),
            forall|j: int| 0 <= j < i ==> is_tchar(#[trigger] s@[j]) && !is_upper(s@[j]),
        decreases s@.len() - i,
    {
        let b = s[i];
        if !byte_is_tchar(b) || (65 <= b && b <= 90) {
            return false;
        }
        i = i + 1;
    }
    true
}

/// Whether every byte of `s` may stand in a header value.
pub fn check_header_value(s: &[u8]) -> (r: bool)
    ensures
        r == is_header_value(s@),
{
    let mut i: usize = 0;
    while i < s.len()
        invariant
            i <= s@.len(),
            forall|j: int| 0 <= j < i ==> is_value_byte(#[trigger] s@[j]),
        decreases s@.len() - i,
    {
        let b = s[i];
        if !((b >= 32 && b != 127) || b == 9) {
            return false;
        }
        i = i + 1;
    }
    true
}

/// Whether `s` is visible ASCII text, as `HeaderValue::to_str` requires.
pub fn check_visible_text(s: &[u8]) -> (r: bool)
    ensures
        r == is_visible_text(s@),
{
    let mut i: usize = 0;
    while i < s.len()
        invariant
            i <= s@.len(),
            forall|j: int| 0 <= j < i ==> is_visible(#[trigger] s@[j]),
        decreases s@.len() - i,
    {
        let b = s[i];
        if !((32 <= b && b < 127) || b == 9) {
            return false;
        }
        i = i + 1;
    }
    true
}

/// Byte-for-byte equality of two slices.
pub fn bytes_eq(a: &[u8], b: &[u8]) -> (r: bool)
    ensures
        r == (a@ == b@),
{
    if a.len() != b.len() {
        return false;
    }
    let mut i: usize = 0;
    while i < a.len()
        invariant
            a@.len() == b@.len(),
            i <= a@.len(),
            forall|j: int| 0 <= j < i ==> a@[j] == b@[j],
        decreases a@.len() - i,
    {
        if a[i] != b[i] {
            return false;
        }
        i = i + 1;
    }
    assert(a@ =~= b@);
    true
}


pub proof fn lemma_after_last_comma(s: Seq<u8>, k: int)
    requires
        0 <= k <= s.len(),
        k == 0 || s[k - 1] == 44,
        forall|i: int| k <= i < s.len() ==> s[i] != 44,
    ensures
        after_last_comma(s) == s.subrange(k, s.len() as int),
    decreases s.len(),
{
    if s.len() == 0 {
        assert(s.subrange(k, 0) =~= s);
    } else if k == s.len() {
        assert(s.subrange(k, k) =~= Seq::<u8>::empty());
    } else {
        lemma_after_last_comma(s.drop_last(), k);
        assert(s.drop_last().subrange(k, s.len() - 1).push(s.last()) =~= s.subrange(k, s.len() as int));
    }
}

/// The index where the part of `s` after its last comma begins.
pub fn after_last_comma_start(s: &[u8]) -> (r: usize)
    ensures
        r <= s@.len(),
        s@.subrange(r as int, s@.len() as int) == after_last_comma(s@),
{
    let mut k: usize = s.len();
    while k > 0 && s[k - 1] != 44
        invariant
            k <= s@.len(),
            forall|i: int| k <= i < s@.len() ==> s@[i] != 44,
        decreases k,
    {
        k = k - 1;
    }
    proof {
        lemma_after_last_comma(s@, k as int);
    }
    k
}

pub proof fn lemma_trim_start(s: Seq<u8>, k: int)
    requires
        0 <= k <= s.len(),
        forall|i: int| 0 <= i < k ==> is_ows(s[i]),
        k == s.len() || !is_ows(s[k]),
    ensures
        trim_start(s) == s.subrange(k, s.len() as int),
    decreases s.len(),
{
    if k == 0 {
        assert(s.subrange(0, s.len() as int) =~= s);
    } else {
        lemma_trim_start(s.drop_first(), k - 1);
        assert(s.drop_first().subrange(k - 1, s.len() - 1) =~= s.subrange(k, s.len() as int));
    }
}

pub proof fn lemma_trim_end(s: Seq<u8>, k: int)
    requires
        0 <= k <= s.len(),
        forall|i: int| k <= i < s.len() ==> is_ows(s[i]),
        k == 0 || !is_ows(s[k - 1]),
    ensures
        trim_end(s) == s.subrange(0, k),
    decreases s.len(),
{
    if k == s.len() {
        assert(s.subrange(0, k) =~= s);
    } else {
        lemma_trim_end(s.drop_last(), k);
        assert(s.drop_last().subrange(0, k) =~= s.subrange(0, k));
    }
}

/// The bounds of `s[start..end]` with spaces and tabs removed from both ends.
pub fn trim_bounds(s: &[u8], start: usize, end: usize) -> (r: (usize, usize))
    requires
        start <= end <= s@.len(),
    ensures
        start <= r.0 <= r.1 <= end,
        s@.subrange(r.0 as int, r.1 as int) == trim(s@.subrange(start as int, end as int)),
{
    let ghost t = s@.subrange(start as int, end as int);
    let mut a: usize = start;
    while a < end && (s[a] == 32 || s[a] == 9)
        invariant
            start <= a <= end <= s@.len(),
            forall|i: int| start <= i < a ==> is_ows(s@[i]),
        decreases end - a,
    {
        a = a + 1;
    }
    proof {
        lemma_trim_start(t, a - start);
        assert(t.subrange(a - start, t.len() as int) =~= s@.subrange(a as int, end as int));
    }
    let mut b: usize = end;
    while b > a && (s[b - 1] == 32 || s[b - 1] == 9)
        invariant
            start <= a <= b <= end <= s@.len(),
            forall|i: int| b <= i < end ==> is_ows(s@[i]),
        decreases b,
    {
        b = b - 1;
    }
    proof {
        let u = s@.subrange(a as int, end as int);
        lemma_trim_end(u, b - a);
        assert(u.subrange(0, b - a) =~= s@.subrange(a as int, b as int));
    }
    (a, b)
}

proof fn lemma_decimal_prefix(s: Seq<u8>, j: int)
    requires
        0 <= j <= s.len(),
        all_digits(s),
    ensures
        decimal_value(s.subrange(0, j)) <= decimal_value(s),
    decreases s.len(),
{
    if j < s.len() {
        lemma_decimal_prefix(s.drop_last(), j);
        assert(s.drop_last().subrange(0, j) =~= s.subrange(0, j));
        assert(decimal_value(s.drop_last()) <= decimal_value(s)) by (nonlinear_arith)
            requires
                decimal_value(s) == decimal_value(s.drop_last()) * 10 + (s.last() - 48) as nat,
        ;
    } else {
        assert(s.subrange(0, j) =~= s);
    }
}

/// `str::parse::<u64>` on the bytes `s[start..end]`.
pub fn parse_u64_range(s: &[u8], start: usize, end: usize) -> (r: Option<u64>)
    requires
        start <= end <= s@.len(),
    ensures
        r == parse_u64(s@.subrange(start as int, end as int)),
{
    let ghost t = s@.subrange(start as int, end as int);
    let mut i: usize = start;
    if i < end && s[i] == 43 {
        i = i + 1;
    }
    let ghost digits = s@.subrange(i as int, end as int);
    assert(digits =~= (if t.len() > 0 && t[0] == 43 { t.drop_first() } else { t }));
    if i == end {
        return None;
    }
    let first = i;
    let mut acc: u64 = 0;
    while i < end
        invariant
            start <= first <= i <= end <= s@.len(),
            digits == s@.subrange(first as int, end as int),
            t == s@.subrange(start as int, end as int),
            digits == (if t.len() > 0 && t[0] == 43 { t.drop_first() } else { t }),
            digits.len() > 0,
            forall|j: int| first <= j < i ==> is_digit(#[trigger] s@[j]),
            acc as nat == decimal_value(s@.subrange(first as int, i as int)),
        decreases end - i,
    {
        let b = s[i];
        if !(48 <= b && b <= 57) {
            assert(!is_digit(digits[i - first]));
            return None;
        }
        let ghost prefix = s@.subrange(first as int, (i + 1) as int);
        assert(prefix.drop_last() =~= s@.subrange(first as int, i as int));
        assert(prefix.last() == b);
        assert(decimal_value(prefix) == acc * 10 + (b - 48) as nat);
        let m = acc.checked_mul(10);
        match m {
            None => {
                proof {
                    if all_digits(digits) {
                        lemma_decimal_prefix(digits, (i + 1 - first) as int);
                        assert(digits.subrange(0, (i + 1 - first) as int) =~= prefix);
                    }
                }
                return None;
            },
            Some(m) => {
                let d = (b - 48) as u64;
                match m.checked_add(d) {
                    None => {
                        proof {
                            if all_digits(digits) {
                                lemma_decimal_prefix(digits, (i + 1 - first) as int);
                                assert(digits.subrange(0, (i + 1 - first) as int) =~= prefix);
                            }
                        }
                        return None;
                    },
                    Some(v) => {
                        acc = v;
                    },
                }
            },
        }
        i = i + 1;
    }
    assert(s@.subrange(first as int, i as int) =~= digits);
    Some(acc)
}

} // verus!
