//! Runtime configuration.  The binary reads the environment and hands the
//! raw values in; parsing and defaulting happen here.

use vstd::prelude::*;
use crate::text::{dec_digits_of, dec_value, is_dec_literal, lower_of, lowercase, parse_dec_u64};

verus! {

// ---------------------------------------------------------------------------
// The domain allowlist setting: comma-separated entries, trimmed,
// lowercased, empties dropped.
// ---------------------------------------------------------------------------

/// ASCII whitespace, as trimmed from allowlist entries.
pub open spec fn is_space_char(c: char) -> bool {
    c == ' ' || c == '\t' || c == '\n' || c == '\r'
}

/// `s` with leading and trailing whitespace removed.
pub open spec fn trim_spaces(s: Seq<char>) -> Seq<char>
    decreases s.len(),
{
    if s.len() > 0 && is_space_char(s[0]) {
        trim_spaces(s.skip(1))
    } else if s.len() > 0 && is_space_char(s.last()) {
        trim_spaces(s.drop_last())
    } else {
        s
    }
}

/// The index of the first comma, or the length when there is none.
pub open spec fn first_comma(s: Seq<char>) -> int
    decreases s.len(),
{
    if s.len() == 0 {
        0
    } else if s[0] == ',' {
        0
    } else {
        1 + first_comma(s.skip(1))
    }
}

/// The comma-separated segments of `s`, in order; a string without commas
/// is one segment.
pub open spec fn split_commas(s: Seq<char>) -> Seq<Seq<char>>
    decreases s.len(),
{
    let i = first_comma(s);
    if 0 <= i && i < s.len() {
        seq![s.take(i)] + split_commas(s.skip(i + 1))
    } else {
        seq![s]
    }
}

/// Segments trimmed and lowercased, empty ones dropped.
pub open spec fn normalize_segments(parts: Seq<Seq<char>>) -> Seq<Seq<char>>
    decreases parts.len(),
{
    if parts.len() == 0 {
        Seq::<Seq<char>>::empty()
    } else {
        let d = lower_of(trim_spaces(parts[0]));
        (if d.len() > 0 {
            seq![d]
        } else {
            Seq::<Seq<char>>::empty()
        }) + normalize_segments(parts.skip(1))
    }
}

/// The allowlist a raw setting denotes.
pub open spec fn spec_domain_list(s: Seq<char>) -> Seq<Seq<char>> {
    normalize_segments(split_commas(s))
}

/// The views of a list of strings.
pub open spec fn string_views(s: Seq<String>) -> Seq<Seq<char>> {
    s.map_values(|x: String| x@)
}

/// `first_comma` is the position whose prefix is comma-free and which
/// carries a comma, unless the string ends first.
proof fn lemma_first_comma_at(s: Seq<char>, k: int)
    requires
        0 <= k <= s.len(),
        forall|j: int| 0 <= j < k ==> s[j] != ',',
        k < s.len() ==> s[k] == ',',
    ensures
        first_comma(s) == k,
    decreases k,
{
    if k > 0 {
        lemma_first_comma_at(s.skip(1), k - 1);
    }
}

/// All-whitespace strings trim to nothing.
proof fn lemma_trim_all_spaces(s: Seq<char>)
    requires
        forall|j: int| 0 <= j < s.len() ==> is_space_char(s[j]),
    ensures
        trim_spaces(s).len() == 0,
    decreases s.len(),
{
    if s.len() > 0 {
        lemma_trim_all_spaces(s.skip(1));
    }
}

/// Trimming cuts exactly to the first and last non-whitespace characters.
proof fn lemma_trim_at(s: Seq<char>, lo: int, hi: int)
    requires
        0 <= lo < hi <= s.len(),
        forall|j: int| 0 <= j < lo ==> is_space_char(s[j]),
        forall|j: int| hi <= j < s.len() ==> is_space_char(s[j]),
        !is_space_char(s[lo]),
        !is_space_char(s[hi - 1]),
    ensures
        trim_spaces(s) == s.subrange(lo, hi),
    decreases s.len(),
{
    if lo > 0 {
        assert(is_space_char(s[0]));
        lemma_trim_at(s.skip(1), lo - 1, hi - 1);
        assert(s.skip(1).subrange(lo - 1, hi - 1) =~= s.subrange(lo, hi));
    } else if hi < s.len() {
        assert(!is_space_char(s[0]));
        assert(is_space_char(s.last()));
        lemma_trim_at(s.drop_last(), lo, hi);
        assert(s.drop_last().subrange(lo, hi) =~= s.subrange(lo, hi));
    } else {
        assert(!is_space_char(s[0]));
        assert(!is_space_char(s.last()));
        assert(s.subrange(0, s.len() as int) =~= s);
    }
}

/// Trims ASCII whitespace from both ends.
pub fn trim_ascii(s: &str) -> (r: String)
    ensures
        r@ == trim_spaces(s@),
{
    let n = s.unicode_len();
    let mut lo: usize = n;
    let mut i: usize = 0;
    while i < n
        invariant
            i <= n,
            n == s@.len(),
            lo <= n,
            lo == n ==> forall|j: int| 0 <= j < i ==> is_space_char(s@[j]),
            lo < n ==> lo < i && !is_space_char(s@[lo as int]) && forall|j: int|
                0 <= j < lo ==> is_space_char(s@[j]),
        decreases n - i,
    {
        if lo == n {
            let c = s.get_char(i);
            if !(c == ' ' || c == '\t' || c == '\n' || c == '\r') {
                lo = i;
            }
        }
        i = i + 1;
    }
    if lo == n {
        proof {
            lemma_trim_all_spaces(s@);
        }
        let r = String::new();
        proof {
            assert(r@ =~= trim_spaces(s@));
        }
        return r;
    }
    let mut hi: usize = lo + 1;
    let mut t: usize = lo + 1;
    while t < n
        invariant
            lo < hi <= t <= n,
            n == s@.len(),
            !is_space_char(s@[hi - 1]),
            forall|j: int| hi <= j < t ==> is_space_char(s@[j]),
        decreases n - t,
    {
        let c = s.get_char(t);
        if !(c == ' ' || c == '\t' || c == '\n' || c == '\r') {
            hi = t + 1;
        }
        t = t + 1;
    }
    proof {
        lemma_trim_at(s@, lo as int, hi as int);
    }
    let sub = s.substring_char(lo, hi);
    sub.to_owned()
}

/// Splits a raw allowlist setting on commas, trims and lowercases each
/// entry, and drops the empty ones.
pub fn parse_domain_list(raw: &str) -> (r: Vec<String>)
    ensures
        string_views(r@) == spec_domain_list(raw@),
{
    let n = raw.unicode_len();
    let mut out: Vec<String> = Vec::new();
    let mut start: usize = 0;
    proof {
        assert(raw@.skip(0) =~= raw@);
        assert(string_views(out@) =~= Seq::<Seq<char>>::empty());
        assert(string_views(out@) + normalize_segments(split_commas(raw@)) =~= normalize_segments(
            split_commas(raw@),
        ));
    }
    loop
        invariant
            start <= n,
            n == raw@.len(),
            string_views(out@) + normalize_segments(split_commas(raw@.skip(start as int)))
                == spec_domain_list(raw@),
        decreases n - start,
    {
        let ghost rest = raw@.skip(start as int);
        let mut stop: usize = n;
        let mut j: usize = start;
        while j < n
            invariant
                start <= j <= n,
                n == raw@.len(),
                start <= stop <= n,
                stop == n ==> forall|t: int| start <= t < j ==> raw@[t] != ',',
                stop < n ==> raw@[stop as int] == ',' && forall|t: int|
                    start <= t < stop ==> raw@[t] != ',',
            decreases n - j,
        {
            if stop == n {
                if raw.get_char(j) == ',' {
                    stop = j;
                }
            }
            j = j + 1;
        }
        proof {
            assert forall|t: int| 0 <= t < stop - start implies rest[t] != ',' by {
                assert(rest[t] == raw@[start + t]);
            }
            if stop < n {
                assert(rest[stop - start] == raw@[stop as int]);
            }
            lemma_first_comma_at(rest, stop - start);
        }
        let seg = raw.substring_char(start, stop);
        proof {
            assert(seg@ =~= rest.take(stop - start));
        }
        let trimmed = trim_ascii(seg);
        let entry = lowercase(trimmed.as_str());
        let ghost pre = string_views(out@);
        let ghost d = lower_of(trim_spaces(seg@));
        let ghost d_part = if d.len() > 0 {
            seq![d]
        } else {
            Seq::<Seq<char>>::empty()
        };
        if entry.as_str().unicode_len() > 0 {
            out.push(entry);
            proof {
                assert(string_views(out@) =~= pre + d_part);
            }
        } else {
            proof {
                assert(string_views(out@) =~= pre + d_part);
            }
        }
        if stop < n {
            let ghost tail = rest.skip(stop - start + 1);
            let ghost parts = seq![rest.take(stop - start)] + split_commas(tail);
            proof {
                assert(split_commas(rest) == parts);
                assert(parts[0] == seg@);
                assert(parts.skip(1) =~= split_commas(tail));
                assert(normalize_segments(parts) == d_part + normalize_segments(parts.skip(1)));
                assert(tail =~= raw@.skip(stop + 1));
                assert((pre + d_part) + normalize_segments(split_commas(raw@.skip(stop + 1)))
                    =~= pre + (d_part + normalize_segments(split_commas(tail))));
            }
            start = stop + 1;
        } else {
            let ghost parts = seq![rest];
            proof {
                lemma_first_comma_at(rest, rest.len() as int);
                assert(split_commas(rest) == parts);
                assert(rest.take(stop - start) =~= rest);
                assert(parts[0] == seg@);
                assert(parts.skip(1) =~= Seq::<Seq<char>>::empty());
                assert(normalize_segments(parts) == d_part + normalize_segments(parts.skip(1)));
                assert(normalize_segments(Seq::<Seq<char>>::empty()) =~= Seq::<Seq<char>>::empty());
                assert(string_views(out@) =~= (pre + d_part) + normalize_segments(
                    Seq::<Seq<char>>::empty(),
                ));
            }
            return out;
        }
    }
}

/// Process-wide limits and paths, immutable after startup.
#[derive(Debug, Clone)]
pub struct PepConfig {
    pub allowed_domains: Vec<String>,
    pub max_request_bytes: usize,
    pub max_response_bytes: usize,
    pub max_redirects: u32,
    pub audit_log_path: String,
}

/// The value a numeric setting takes: the literal's value when it parses
/// and fits, the default otherwise.
pub open spec fn spec_env_number(raw: Option<Seq<char>>, max: nat, default: nat) -> nat {
    match raw {
        Some(s) => if is_dec_literal(s) && dec_value(dec_digits_of(s)) <= max {
            dec_value(dec_digits_of(s))
        } else {
            default
        },
        None => default,
    }
}

impl PepConfig {
    /// Builds the configuration from the raw environment values, applying
    /// each setting's default when it is absent or unparseable.
    pub fn from_env_values(
        domains: Option<String>,
        max_request: Option<String>,
        max_response: Option<String>,
        max_redirects: Option<String>,
        audit_log: Option<String>,
    ) -> (r: PepConfig)
        ensures
            string_views(r.allowed_domains@) == match domains {
                Some(s) => spec_domain_list(s@),
                None => Seq::<Seq<char>>::empty(),
            },
            r.max_request_bytes == spec_env_number(
                match max_request {
                    Some(s) => Some(s@),
                    None => None,
                },
                usize::MAX as nat,
                5242880,
            ),
            r.max_response_bytes == spec_env_number(
                match max_response {
                    Some(s) => Some(s@),
                    None => None,
                },
                usize::MAX as nat,
                10485760,
            ),
            r.max_redirects == spec_env_number(
                match max_redirects {
                    Some(s) => Some(s@),
                    None => None,
                },
                u32::MAX as nat,
                5,
            ),
            r.audit_log_path@ == match audit_log {
                Some(p) => p@,
                None => "audit.jsonl"@,
            },
    {
        let allowed_domains = match &domains {
            Some(s) => parse_domain_list(s.as_str()),
            None => Vec::new(),
        };
        proof {
            if domains is None {
                assert(string_views(allowed_domains@) =~= Seq::<Seq<char>>::empty());
            }
        }
        let max_request_bytes = env_usize(max_request.as_ref(), 5242880);
        let max_response_bytes = env_usize(max_response.as_ref(), 10485760);
        let max_redirects_v = env_u32(max_redirects.as_ref(), 5);
        let audit_log_path = match audit_log {
            Some(p) => p,
            None => "audit.jsonl".to_owned(),
        };
        PepConfig {
            allowed_domains,
            max_request_bytes,
            max_response_bytes,
            max_redirects: max_redirects_v,
            audit_log_path,
        }
    }
}

/// Parses one numeric setting with its default.
pub fn env_usize(raw: Option<&String>, default: usize) -> (r: usize)
    ensures
        r == spec_env_number(
            match raw {
                Some(s) => Some(s@),
                None => None,
            },
            usize::MAX as nat,
            default as nat,
        ),
{
    match raw {
        Some(s) => match parse_dec_u64(s.as_str()) {
            Some(v) => if v <= usize::MAX as u64 {
                v as usize
            } else {
                default
            },
            None => default,
        },
        None => default,
    }
}

/// Parses one 32-bit numeric setting with its default.
pub fn env_u32(raw: Option<&String>, default: u32) -> (r: u32)
    ensures
        r == spec_env_number(
            match raw {
                Some(s) => Some(s@),
                None => None,
            },
            u32::MAX as nat,
            default as nat,
        ),
{
    match raw {
        Some(s) => match parse_dec_u64(s.as_str()) {
            Some(v) => if v <= u32::MAX as u64 {
                v as u32
            } else {
                default
            },
            None => default,
        },
        None => default,
    }
}

} // verus!
