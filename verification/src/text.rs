//! Character-level utilities: string comparison, suffix tests, URL
//! sanitization for audit records, decimal and hex rendering, and trusted
//! wrappers around the case-mapping functions of std.

use vstd::prelude::*;

verus! {

// ---------------------------------------------------------------------------
// Trusted wrappers around std string functions that vstd does not specify.
// ---------------------------------------------------------------------------

/// What `str::to_lowercase` returns; the result depends on the characters
/// of the input alone.
pub uninterp spec fn lower_of(s: Seq<char>) -> Seq<char>;

/// Relies on `str::to_lowercase`: Unicode lowercasing, a pure function of
/// the input string.
#[verifier::external_body]
pub fn lowercase(s: &str) -> (r: String)
    ensures
        r@ == lower_of(s@),
{
    s.to_lowercase()
}

/// What `str::to_uppercase` returns; the result depends on the characters
/// of the input alone.
pub uninterp spec fn upper_of(s: Seq<char>) -> Seq<char>;

/// Relies on `str::to_uppercase`: Unicode uppercasing, a pure function of
/// the input string.
#[verifier::external_body]
pub fn uppercase(s: &str) -> (r: String)
    ensures
        r@ == upper_of(s@),
{
    s.to_uppercase()
}

/// Relies on `String::push`: appends one character.
#[verifier::external_body]
pub fn push_char(s: &mut String, c: char)
    ensures
        final(s)@ == old(s)@.push(c),
{
    s.push(c)
}

// ---------------------------------------------------------------------------
// Comparison helpers.
// ---------------------------------------------------------------------------

/// Exact equality of two string slices, decided character by character.
pub fn str_eq(a: &str, b: &str) -> (r: bool)
    ensures
        r == (a@ == b@),
{
    let an = a.unicode_len();
    let bn = b.unicode_len();
    if an != bn {
        proof {
            assert(a@ != b@) by {
                if a@ == b@ {
                    assert(a@.len() == b@.len());
                }
            }
        }
        return false;
    }
    let mut i: usize = 0;
    while i < an
        invariant
            i <= an,
            an == a@.len(),
            an == b@.len(),
            forall|j: int| 0 <= j < i ==> a@[j] == b@[j],
        decreases an - i,
    {
        if a.get_char(i) != b.get_char(i) {
            return false;
        }
        i = i + 1;
    }
    proof {
        assert(a@ =~= b@);
    }
    true
}

/// True iff `t` is a suffix of `s`.
pub open spec fn is_suffix_of(t: Seq<char>, s: Seq<char>) -> bool {
    t.len() <= s.len() && s.skip(s.len() - t.len()) == t
}

/// Suffix test, character by character from the end.
pub fn str_ends_with(s: &str, t: &str) -> (r: bool)
    ensures
        r == is_suffix_of(t@, s@),
{
    let sn = s.unicode_len();
    let tn = t.unicode_len();
    if tn > sn {
        return false;
    }
    let off: usize = sn - tn;
    let mut i: usize = 0;
    while i < tn
        invariant
            i <= tn,
            sn == s@.len(),
            tn == t@.len(),
            off == sn - tn,
            forall|j: int| 0 <= j < i ==> s@[off + j] == t@[j],
        decreases tn - i,
    {
        if s.get_char(off + i) != t.get_char(i) {
            proof {
                assert(s@.skip(off as int)[i as int] == s@[off + i]);
            }
            return false;
        }
        i = i + 1;
    }
    proof {
        assert(s@.skip(off as int) =~= t@);
    }
    true
}

// ---------------------------------------------------------------------------
// URL sanitization: truncate at the first `?` or `#`.
// ---------------------------------------------------------------------------

/// A character that opens the query or fragment component of a URL.
pub open spec fn is_url_cut_char(c: char) -> bool {
    c == '?' || c == '#'
}

/// `r` is `s` truncated just before its first `?` or `#`.
pub open spec fn is_sanitized_of(r: Seq<char>, s: Seq<char>) -> bool {
    &&& r.len() <= s.len()
    &&& r == s.take(r.len() as int)
    &&& forall|i: int| 0 <= i < r.len() ==> !is_url_cut_char(s[i])
    &&& r.len() < s.len() ==> is_url_cut_char(s[r.len() as int])
}

/// The index of the first `?` or `#` in `s`, or its length when there is
/// none.
pub open spec fn cut_len(s: Seq<char>) -> int
    decreases s.len(),
{
    if s.len() == 0 {
        0
    } else if is_url_cut_char(s[0]) {
        0
    } else {
        1 + cut_len(s.skip(1))
    }
}

/// `s` truncated just before its first `?` or `#`.
pub open spec fn sanitize_spec(s: Seq<char>) -> Seq<char> {
    s.take(cut_len(s))
}

/// `cut_len` is the position whose prefix is free of `?` and `#` and which
/// itself carries one, unless the string ends first.
proof fn lemma_cut_len_at(s: Seq<char>, k: int)
    requires
        0 <= k <= s.len(),
        forall|j: int| 0 <= j < k ==> !is_url_cut_char(s[j]),
        k < s.len() ==> is_url_cut_char(s[k]),
    ensures
        cut_len(s) == k,
    decreases k,
{
    if k > 0 {
        lemma_cut_len_at(s.skip(1), k - 1);
    }
}

/// Bounds and characterization of `cut_len`.
proof fn lemma_cut_len_props(s: Seq<char>)
    ensures
        0 <= cut_len(s) <= s.len(),
        forall|j: int| 0 <= j < cut_len(s) ==> !is_url_cut_char(s[j]),
        cut_len(s) < s.len() ==> is_url_cut_char(s[cut_len(s)]),
    decreases s.len(),
{
    if s.len() > 0 && !is_url_cut_char(s[0]) {
        lemma_cut_len_props(s.skip(1));
        assert forall|j: int| 0 <= j < cut_len(s) implies !is_url_cut_char(s[j]) by {
            if j > 0 {
                assert(!is_url_cut_char(s.skip(1)[j - 1]));
            }
        }
    }
}

/// Sanitizing leaves no `?` or `#` behind, and sanitizing a sanitized
/// string returns it unchanged.
pub proof fn lemma_sanitize_idempotent(s: Seq<char>)
    ensures
        forall|i: int|
            0 <= i < sanitize_spec(s).len() ==> !is_url_cut_char(#[trigger] sanitize_spec(s)[i]),
        sanitize_spec(sanitize_spec(s)) == sanitize_spec(s),
{
    lemma_cut_len_props(s);
    let r = sanitize_spec(s);
    assert forall|i: int| 0 <= i < r.len() implies !is_url_cut_char(r[i]) by {
        assert(r[i] == s[i]);
    }
    lemma_cut_len_at(r, r.len() as int);
    assert(r.take(r.len() as int) =~= r);
}

/// Strips the query and fragment from a URL given as a plain string:
/// everything from the first `?` or `#` on is dropped.  The result never
/// contains `?` or `#`, so a second application returns it unchanged.
pub fn sanitize_url_string(raw: &str) -> (res: String)
    ensures
        is_sanitized_of(res@, raw@),
        res@ == sanitize_spec(raw@),
{
    let n = raw.unicode_len();
    let mut cut: usize = n;
    let mut i: usize = 0;
    while i < n
        invariant
            i <= n,
            n == raw@.len(),
            cut <= n,
            cut == n ==> forall|j: int| 0 <= j < i ==> !is_url_cut_char(raw@[j]),
            cut < n ==> is_url_cut_char(raw@[cut as int]) && forall|j: int|
                0 <= j < cut ==> !is_url_cut_char(raw@[j]),
        decreases n - i,
    {
        if cut == n {
            let c = raw.get_char(i);
            if c == '?' || c == '#' {
                cut = i;
            }
        }
        i = i + 1;
    }
    let prefix = raw.substring_char(0, cut);
    proof {
        assert(prefix@ =~= raw@.take(cut as int));
        lemma_cut_len_at(raw@, cut as int);
    }
    prefix.to_owned()
}

// ---------------------------------------------------------------------------
// Trailing-dot normalization for host names.
// ---------------------------------------------------------------------------

/// `s` with all trailing `.` characters removed.
pub open spec fn strip_trailing_dots(s: Seq<char>) -> Seq<char>
    decreases s.len(),
{
    if s.len() > 0 && s[s.len() - 1] == '.' {
        strip_trailing_dots(s.drop_last())
    } else {
        s
    }
}

/// Removes every trailing `.` from a host name, as DNS treats a fully
/// qualified name with a trailing dot as the same host.
pub fn strip_dots(s: &str) -> (r: String)
    ensures
        r@ == strip_trailing_dots(s@),
{
    let n = s.unicode_len();
    let mut k: usize = n;
    proof {
        assert(s@.take(n as int) =~= s@);
    }
    while k > 0 && s.get_char(k - 1) == '.'
        invariant
            k <= n,
            n == s@.len(),
            strip_trailing_dots(s@) == strip_trailing_dots(s@.take(k as int)),
        decreases k,
    {
        proof {
            assert(s@.take(k as int).drop_last() =~= s@.take(k - 1));
        }
        k = k - 1;
    }
    proof {
        assert(s@.take(n as int) =~= s@);
        if k > 0 {
            assert(s@.take(k as int)[k - 1] == s@[k - 1]);
        }
    }
    let prefix = s.substring_char(0, k);
    proof {
        assert(prefix@ =~= s@.take(k as int));
    }
    prefix.to_owned()
}

// ---------------------------------------------------------------------------
// Lexicographic order on character sequences.
// ---------------------------------------------------------------------------

/// Lexicographic "less than or equal" on character sequences, by code point.
pub open spec fn lex_le(a: Seq<char>, b: Seq<char>) -> bool
    decreases a.len(),
{
    if a.len() == 0 {
        true
    } else if b.len() == 0 {
        false
    } else if a[0] != b[0] {
        a[0] < b[0]
    } else {
        lex_le(a.skip(1), b.skip(1))
    }
}

/// Any two sequences are ordered one way or the other.
pub proof fn lemma_lex_le_total(a: Seq<char>, b: Seq<char>)
    ensures
        lex_le(a, b) || lex_le(b, a),
    decreases a.len(),
{
    if a.len() > 0 && b.len() > 0 && a[0] == b[0] {
        lemma_lex_le_total(a.skip(1), b.skip(1));
    }
}

/// Sequences ordered both ways are equal.
pub proof fn lemma_lex_le_antisymmetric(a: Seq<char>, b: Seq<char>)
    requires
        lex_le(a, b),
        lex_le(b, a),
    ensures
        a == b,
    decreases a.len(),
{
    if a.len() > 0 && b.len() > 0 && a[0] == b[0] {
        lemma_lex_le_antisymmetric(a.skip(1), b.skip(1));
        assert(a =~= seq![a[0]] + a.skip(1));
        assert(b =~= seq![b[0]] + b.skip(1));
    } else {
        assert(a.len() == 0 && b.len() == 0);
        assert(a =~= b);
    }
}

/// The order is transitive.
pub proof fn lemma_lex_le_transitive(a: Seq<char>, b: Seq<char>, c: Seq<char>)
    requires
        lex_le(a, b),
        lex_le(b, c),
    ensures
        lex_le(a, c),
    decreases a.len(),
{
    if a.len() > 0 && b.len() > 0 && c.len() > 0 && a[0] == b[0] && b[0] == c[0] {
        lemma_lex_le_transitive(a.skip(1), b.skip(1), c.skip(1));
    }
}

/// Dropping an equal first character from both sides keeps the order.
proof fn lemma_lex_le_step(a: Seq<char>, b: Seq<char>, k: int)
    requires
        0 <= k <= a.len(),
        k <= b.len(),
        forall|j: int| 0 <= j < k ==> a[j] == b[j],
    ensures
        lex_le(a, b) == lex_le(a.skip(k), b.skip(k)),
    decreases k,
{
    if k > 0 {
        assert(a.len() > 0 && b.len() > 0);
        assert(a[0] == b[0]);
        assert(lex_le(a, b) == lex_le(a.skip(1), b.skip(1)));
        lemma_lex_le_step(a.skip(1), b.skip(1), k - 1);
        assert(a.skip(1).skip(k - 1) =~= a.skip(k));
        assert(b.skip(1).skip(k - 1) =~= b.skip(k));
    } else {
        assert(a.skip(0) =~= a);
        assert(b.skip(0) =~= b);
    }
}

/// Decides `lex_le(a@, b@)` by scanning for the first difference.
pub fn str_lex_le(a: &str, b: &str) -> (r: bool)
    ensures
        r == lex_le(a@, b@),
{
    let an = a.unicode_len();
    let bn = b.unicode_len();
    let mut i: usize = 0;
    loop
        invariant
            i <= an,
            i <= bn,
            an == a@.len(),
            bn == b@.len(),
            forall|j: int| 0 <= j < i ==> a@[j] == b@[j],
        decreases an - i,
    {
        if i == an {
            proof {
                lemma_lex_le_step(a@, b@, i as int);
            }
            return true;
        }
        if i == bn {
            proof {
                lemma_lex_le_step(a@, b@, i as int);
            }
            return false;
        }
        let ca = a.get_char(i);
        let cb = b.get_char(i);
        if ca != cb {
            proof {
                lemma_lex_le_step(a@, b@, i as int);
                assert(a@.skip(i as int)[0] == a@[i as int]);
                assert(b@.skip(i as int)[0] == b@[i as int]);
            }
            return ca < cb;
        }
        i = i + 1;
    }
}

// ---------------------------------------------------------------------------
// Decimal numerals.
// ---------------------------------------------------------------------------

/// An ASCII decimal digit.
pub open spec fn is_dec_digit(c: char) -> bool {
    '0' <= c && c <= '9'
}

/// Numeric value of one decimal digit.
pub open spec fn dec_digit_val(c: char) -> nat {
    ((c as int) - ('0' as int)) as nat
}

/// Value of a sequence of decimal digits, most significant first.
pub open spec fn dec_value(s: Seq<char>) -> nat
    decreases s.len(),
{
    if s.len() == 0 {
        0
    } else {
        dec_value(s.drop_last()) * 10 + dec_digit_val(s.last())
    }
}

/// The digits of a decimal literal: an optional leading `+` is dropped.
pub open spec fn dec_digits_of(s: Seq<char>) -> Seq<char> {
    if s.len() > 0 && s[0] == '+' {
        s.skip(1)
    } else {
        s
    }
}

/// A well-formed unsigned decimal literal as `str::parse` accepts it for
/// unsigned integers: an optional `+`, then at least one digit.
pub open spec fn is_dec_literal(s: Seq<char>) -> bool {
    let d = dec_digits_of(s);
    d.len() > 0 && forall|i: int| 0 <= i < d.len() ==> is_dec_digit(d[i])
}

/// Extending a digit string can only keep or grow its value.
proof fn lemma_dec_value_prefix(s: Seq<char>, k: int)
    requires
        0 <= k <= s.len(),
    ensures
        dec_value(s.take(k)) <= dec_value(s),
    decreases s.len() - k,
{
    if k < s.len() {
        lemma_dec_value_prefix(s, k + 1);
        assert(s.take(k + 1).drop_last() =~= s.take(k));
        assert(dec_value(s.take(k + 1)) == dec_value(s.take(k)) * 10 + dec_digit_val(
            s.take(k + 1).last(),
        ));
    } else {
        assert(s.take(k) =~= s);
    }
}

/// Parses an unsigned decimal literal, as `str::parse::<u64>` does: an
/// optional leading `+`, then one or more digits; rejects anything else and
/// values that do not fit.
pub fn parse_dec_u64(s: &str) -> (r: Option<u64>)
    ensures
        match r {
            Some(v) => is_dec_literal(s@) && v == dec_value(dec_digits_of(s@)),
            None => !is_dec_literal(s@) || dec_value(dec_digits_of(s@)) > u64::MAX,
        },
{
    let n = s.unicode_len();
    let start: usize = if n > 0 && s.get_char(0) == '+' {
        1
    } else {
        0
    };
    let ghost d = dec_digits_of(s@);
    proof {
        assert(d =~= s@.skip(start as int));
    }
    if start == n {
        return None;
    }
    let mut v: u64 = 0;
    let mut i: usize = start;
    while i < n
        invariant
            start <= i <= n,
            n == s@.len(),
            start == 0 || (s@.len() > 0 && s@[0] == '+' && start == 1),
            d == dec_digits_of(s@),
            d =~= s@.skip(start as int),
            forall|j: int| 0 <= j < i - start ==> is_dec_digit(d[j]),
            v == dec_value(d.take(i - start)),
        decreases n - i,
    {
        let c = s.get_char(i);
        if !('0' <= c && c <= '9') {
            proof {
                assert(d[i - start] == s@[i as int]);
            }
            return None;
        }
        let digit: u64 = (c as u32 as u64) - ('0' as u32 as u64);
        let next = match v.checked_mul(10) {
            Some(m) => m.checked_add(digit),
            None => None,
        };
        proof {
            assert(d[i - start] == s@[i as int]);
            assert(d.take(i + 1 - start).drop_last() =~= d.take(i - start));
        }
        match next {
            Some(nv) => {
                v = nv;
            },
            None => {
                proof {
                    assert(dec_value(d.take(i + 1 - start)) > u64::MAX);
                    lemma_dec_value_prefix(d, i + 1 - start);
                }
                return None;
            },
        }
        i = i + 1;
    }
    proof {
        assert(d.take(n - start) =~= d);
    }
    Some(v)
}

/// The decimal digit characters for values zero through nine.
pub open spec fn dec_digit_char(d: nat) -> char {
    if d == 0 {
        '0'
    } else if d == 1 {
        '1'
    } else if d == 2 {
        '2'
    } else if d == 3 {
        '3'
    } else if d == 4 {
        '4'
    } else if d == 5 {
        '5'
    } else if d == 6 {
        '6'
    } else if d == 7 {
        '7'
    } else if d == 8 {
        '8'
    } else {
        '9'
    }
}

/// The canonical decimal numeral of `n`, without sign or leading zeros.
pub open spec fn dec_str_of(n: nat) -> Seq<char>
    decreases n,
{
    if n < 10 {
        seq![dec_digit_char(n)]
    } else {
        dec_str_of(n / 10).push(dec_digit_char(n % 10))
    }
}

/// Renders `n` in decimal.
pub fn u64_to_dec_string(n: u64) -> (r: String)
    ensures
        r@ == dec_str_of(n as nat),
    decreases n,
{
    let d: u64 = n % 10;
    let c: char = match d {
        0 => '0',
        1 => '1',
        2 => '2',
        3 => '3',
        4 => '4',
        5 => '5',
        6 => '6',
        7 => '7',
        8 => '8',
        _ => '9',
    };
    if n < 10 {
        let mut s = String::new();
        push_char(&mut s, c);
        proof {
            assert(s@ =~= seq![dec_digit_char(n as nat)]);
        }
        s
    } else {
        let mut s = u64_to_dec_string(n / 10);
        push_char(&mut s, c);
        s
    }
}

// ---------------------------------------------------------------------------
// Hexadecimal rendering.
// ---------------------------------------------------------------------------

/// The lowercase hex digit characters for values zero through fifteen.
pub open spec fn hex_digit_char(d: nat) -> char {
    if d < 10 {
        dec_digit_char(d)
    } else if d == 10 {
        'a'
    } else if d == 11 {
        'b'
    } else if d == 12 {
        'c'
    } else if d == 13 {
        'd'
    } else if d == 14 {
        'e'
    } else {
        'f'
    }
}

/// Lowercase hex rendering of a byte string, two digits per byte.
pub open spec fn hex_of(b: Seq<u8>) -> Seq<char>
    decreases b.len(),
{
    if b.len() == 0 {
        Seq::<char>::empty()
    } else {
        hex_of(b.drop_last()).push(hex_digit_char((b.last() / 16) as nat)).push(
            hex_digit_char((b.last() % 16) as nat),
        )
    }
}

/// One lowercase hex digit.
pub fn hex_digit(d: u8) -> (c: char)
    requires
        d < 16,
    ensures
        c == hex_digit_char(d as nat),
{
    match d {
        0 => '0',
        1 => '1',
        2 => '2',
        3 => '3',
        4 => '4',
        5 => '5',
        6 => '6',
        7 => '7',
        8 => '8',
        9 => '9',
        10 => 'a',
        11 => 'b',
        12 => 'c',
        13 => 'd',
        14 => 'e',
        _ => 'f',
    }
}

/// Renders a byte string as lowercase hex, as `{:x}` formatting of a digest
/// does.
pub fn bytes_to_hex(b: &Vec<u8>) -> (r: String)
    ensures
        r@ == hex_of(b@),
{
    let mut s = String::new();
    let mut i: usize = 0;
    while i < b.len()
        invariant
            i <= b@.len(),
            s@ == hex_of(b@.take(i as int)),
        decreases b@.len() - i,
    {
        let byte = b[i];
        push_char(&mut s, hex_digit(byte / 16));
        push_char(&mut s, hex_digit(byte % 16));
        proof {
            assert(b@.take(i + 1).drop_last() =~= b@.take(i as int));
            assert(b@.take(i + 1).last() == b@[i as int]);
        }
        i = i + 1;
    }
    proof {
        assert(b@.take(b@.len() as int) =~= b@);
    }
    s
}

// ---------------------------------------------------------------------------
// Substring search.
// ---------------------------------------------------------------------------

/// `p` occurs in `s` starting at position `i`.
pub open spec fn matches_at(s: Seq<char>, p: Seq<char>, i: int) -> bool {
    0 <= i && i + p.len() <= s.len() && s.subrange(i, i + p.len()) == p
}

/// `p` occurs somewhere in `s`.
pub open spec fn has_substring(s: Seq<char>, p: Seq<char>) -> bool {
    exists|i: int| matches_at(s, p, i)
}

/// Substring search by direct comparison at every position.
pub fn str_contains(s: &str, p: &str) -> (r: bool)
    ensures
        r == has_substring(s@, p@),
{
    let sn = s.unicode_len();
    let pn = p.unicode_len();
    if pn > sn {
        proof {
            assert(forall|i: int| !matches_at(s@, p@, i));
        }
        return false;
    }
    if pn == 0 {
        proof {
            assert(s@.subrange(0, 0) =~= p@);
            assert(matches_at(s@, p@, 0));
        }
        return true;
    }
    let bound: usize = sn - pn;
    let mut i: usize = 0;
    while i <= bound
        invariant
            0 <= i <= bound + 1,
            1 <= pn <= sn,
            bound == sn - pn,
            sn == s@.len(),
            pn == p@.len(),
            forall|k: int| 0 <= k < i ==> !matches_at(s@, p@, k),
        decreases bound + 1 - i,
    {
        let mut j: usize = 0;
        let mut hit = true;
        while j < pn
            invariant
                0 <= j <= pn,
                i + pn <= sn,
                sn == s@.len(),
                pn == p@.len(),
                hit ==> forall|t: int| 0 <= t < j ==> s@[i + t] == p@[t],
                !hit ==> !matches_at(s@, p@, i as int),
            decreases pn - j,
        {
            if hit {
                if s.get_char(i + j) != p.get_char(j) {
                    proof {
                        assert(s@.subrange(i as int, i + pn)[j as int] == s@[i + j]);
                    }
                    hit = false;
                }
            }
            j = j + 1;
        }
        if hit {
            proof {
                assert(s@.subrange(i as int, i + pn) =~= p@);
                assert(matches_at(s@, p@, i as int));
            }
            return true;
        }
        i = i + 1;
    }
    proof {
        assert forall|k: int| !matches_at(s@, p@, k) by {
            if 0 <= k <= bound {
                assert(!matches_at(s@, p@, k));
            }
        }
    }
    false
}

/// Sanitized strings contain no `?` and no `#`.
pub proof fn lemma_sanitized_has_no_cut_chars(r: Seq<char>, s: Seq<char>)
    requires
        is_sanitized_of(r, s),
    ensures
        forall|i: int| 0 <= i < r.len() ==> !is_url_cut_char(r[i]),
{
    assert forall|i: int| 0 <= i < r.len() implies !is_url_cut_char(r[i]) by {
        assert(r[i] == s.take(r.len() as int)[i]);
    }
}


} // verus!
