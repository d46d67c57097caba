//! The rule-engine policy evaluator.
//!
//! A policy bundle is a set of named files: rule files end in `.rego` and
//! are runtime policy unless their name contains `_test`; data files end
//! in `.json`.  Rule files are sorted by name, hashed in that order into
//! the bundle fingerprint, and registered with the engine; the caller
//! reads the directory and hands the files in.

use vstd::prelude::*;
use sha2::Digest;
use crate::policy::{Constraints, PolicyDecision, PolicyEvaluator, PolicyInput, new_decision_id};
use crate::text::{bytes_to_hex, has_substring, hex_of, is_suffix_of, lemma_lex_le_antisymmetric,
    lemma_lex_le_total, lemma_lex_le_transitive, lex_le, str_contains, str_ends_with, str_lex_le,
    str_eq};
use crate::types::PepError;

verus! {

// ---------------------------------------------------------------------------
// Trusted wrappers around the rule engine.
// ---------------------------------------------------------------------------

#[verifier::external_type_specification]
#[verifier::external_body]
pub struct ExEngine(regorus::Engine);

#[verifier::external_type_specification]
#[verifier::external_body]
pub struct ExValue(regorus::Value);

/// Whether this rule file is accepted by `regorus::Engine::add_policy` on
/// a freshly created engine: a function of the file's name and text alone,
/// since a fresh engine carries the default parser configuration and
/// length limits, and parsing one file does not depend on the files added
/// before it.
pub uninterp spec fn rego_parse_ok(name: Seq<char>, text: Seq<char>) -> bool;

/// Whether this sequence of data documents is accepted, in order, by
/// `regorus::Engine::add_data_json` starting from empty data: each must
/// parse as a JSON object and merge into the documents before it without
/// conflict, so acceptance is a function of the sequence alone.
pub uninterp spec fn data_docs_ok(datas: Seq<(Seq<char>, Seq<char>)>) -> bool;

/// Which stage of a bundle load failed, with the engine's message.
enum BundleLoadError {
    Rule { name: String, message: String },
    Data { name: String, message: String },
}

/// Relies on `regorus::Engine::{new, add_policy, add_data_json}`: builds a
/// fresh engine, registers every rule file, then every data document, in
/// the given order.  The whole load stands in one body because acceptance
/// depends on state the engine accumulates: `add_policy` reads the
/// engine's parser configuration and length limits (their defaults on a
/// fresh engine), and `add_data_json` fails exactly when a document
/// conflicts with the data merged before it.  On a fresh engine both
/// outcomes are functions of the two file lists, which the two names
/// capture.
#[verifier::external_body]
fn build_engine(rules: &Vec<PolicyFile>, datas: &Vec<PolicyFile>) -> (r: Result<
    regorus::Engine,
    BundleLoadError,
>)
    ensures
        r is Ok <==> ((forall|i: int|
            0 <= i < rules@.len() ==> rego_parse_ok(rules@[i].name@, rules@[i].content@))
            && data_docs_ok(file_views(datas@))),
{
    let mut engine = regorus::Engine::new();
    for f in rules {
        if let Err(e) = engine.add_policy(f.name.clone(), f.content.clone()) {
            return Err(BundleLoadError::Rule { name: f.name.clone(), message: e.to_string() });
        }
    }
    for f in datas {
        if let Err(e) = engine.add_data_json(&f.content) {
            return Err(BundleLoadError::Data { name: f.name.clone(), message: e.to_string() });
        }
    }
    Ok(engine)
}

/// Relies on `regorus::Engine::set_input_json`: parses a JSON document and
/// makes it the evaluation input.
#[verifier::external_body]
fn engine_set_input_json(engine: &mut regorus::Engine, input_json: &str) -> (r: Result<
    (),
    String,
>) {
    match engine.set_input_json(input_json) {
        Ok(()) => Ok(()),
        Err(e) => Err(e.to_string()),
    }
}

/// Relies on `regorus::Engine::eval_rule`: evaluates the rule at this
/// address against the registered policies, data and input.
#[verifier::external_body]
fn engine_eval_rule(engine: &mut regorus::Engine, rule: &str) -> (r: Result<regorus::Value, String>) {
    match engine.eval_rule(rule.to_string()) {
        Ok(v) => Ok(v),
        Err(e) => Err(e.to_string()),
    }
}

/// Relies on `regorus::Value`'s `Index` impl: the value under this key,
/// `Undefined` when there is none.
#[verifier::external_body]
fn value_field(v: &regorus::Value, key: &str) -> regorus::Value {
    v[key].clone()
}

/// Relies on `regorus::Value::Undefined` being its own variant.
#[verifier::external_body]
fn value_is_undefined(v: &regorus::Value) -> bool {
    *v == regorus::Value::Undefined
}

/// Relies on `regorus::Value::as_bool`: true exactly for the boolean
/// `true`.
#[verifier::external_body]
fn value_is_true(v: &regorus::Value) -> bool {
    match v.as_bool() {
        Ok(b) => *b,
        Err(_) => false,
    }
}

/// Relies on `regorus::Value::as_string`: the carried string, if the value
/// is one.
#[verifier::external_body]
fn value_as_string(v: &regorus::Value) -> Option<String> {
    match v.as_string() {
        Ok(s) => Some(s.as_ref().to_string()),
        Err(_) => None,
    }
}

/// Relies on `regorus::Value::as_i64`: the carried integer, if the value
/// is one.
#[verifier::external_body]
fn value_as_i64(v: &regorus::Value) -> Option<i64> {
    match v.as_i64() {
        Ok(n) => Some(n),
        Err(_) => None,
    }
}

/// What SHA-256 returns; a function of the input bytes alone.
pub uninterp spec fn sha256_of(data: Seq<u8>) -> Seq<u8>;

/// Relies on `sha2::Sha256::digest`: the 32-byte SHA-256 digest of the
/// input.
#[verifier::external_body]
fn sha256_bytes(data: &Vec<u8>) -> (r: Vec<u8>)
    ensures
        r@ == sha256_of(data@),
        r@.len() == 32,
{
    sha2::Sha256::digest(data.as_slice()).to_vec()
}

// ---------------------------------------------------------------------------
// Bundle files, selection and order.
// ---------------------------------------------------------------------------

/// One file of a policy bundle, by name and text content.
pub struct PolicyFile {
    pub name: String,
    pub content: String,
}

/// The name and content of a file, as plain sequences.
pub open spec fn file_pair(f: PolicyFile) -> (Seq<char>, Seq<char>) {
    (f.name@, f.content@)
}

/// The views of a list of files.
pub open spec fn file_views(s: Seq<PolicyFile>) -> Seq<(Seq<char>, Seq<char>)> {
    s.map_values(|f: PolicyFile| file_pair(f))
}

/// A runtime rule file: named `*.rego` with a nonempty stem, and not a
/// policy test (no `_test` in the name).
pub open spec fn is_rego_rule(name: Seq<char>) -> bool {
    &&& is_suffix_of(".rego"@, name)
    &&& name.len() > ".rego"@.len()
    &&& !has_substring(name, "_test"@)
}

/// A data file: named `*.json` with a nonempty stem.
pub open spec fn is_json_data(name: Seq<char>) -> bool {
    &&& is_suffix_of(".json"@, name)
    &&& name.len() > ".json"@.len()
}

/// The rule files of a bundle, in their given order.
pub open spec fn rego_filter(s: Seq<(Seq<char>, Seq<char>)>) -> Seq<(Seq<char>, Seq<char>)>
    decreases s.len(),
{
    if s.len() == 0 {
        s
    } else {
        rego_filter(s.drop_last()) + (if is_rego_rule(s.last().0) {
            seq![s.last()]
        } else {
            Seq::<(Seq<char>, Seq<char>)>::empty()
        })
    }
}

/// The data files of a bundle, in their given order.
pub open spec fn json_filter(s: Seq<(Seq<char>, Seq<char>)>) -> Seq<(Seq<char>, Seq<char>)>
    decreases s.len(),
{
    if s.len() == 0 {
        s
    } else {
        json_filter(s.drop_last()) + (if is_json_data(s.last().0) {
            seq![s.last()]
        } else {
            Seq::<(Seq<char>, Seq<char>)>::empty()
        })
    }
}

/// Order of bundle files: by name, ties broken by content.
pub open spec fn pair_le(a: (Seq<char>, Seq<char>), b: (Seq<char>, Seq<char>)) -> bool {
    if a.0 != b.0 {
        lex_le(a.0, b.0)
    } else {
        lex_le(a.1, b.1)
    }
}

/// Insertion into a sorted sequence, before the first element not below
/// `x`.
pub open spec fn insert_sorted(
    x: (Seq<char>, Seq<char>),
    s: Seq<(Seq<char>, Seq<char>)>,
) -> Seq<(Seq<char>, Seq<char>)>
    decreases s.len(),
{
    if s.len() == 0 {
        seq![x]
    } else if pair_le(x, s[0]) {
        seq![x] + s
    } else {
        seq![s[0]] + insert_sorted(x, s.skip(1))
    }
}

/// Insertion sort of bundle files.
pub open spec fn sort_pairs(s: Seq<(Seq<char>, Seq<char>)>) -> Seq<(Seq<char>, Seq<char>)>
    decreases s.len(),
{
    if s.len() == 0 {
        s
    } else {
        insert_sorted(s.last(), sort_pairs(s.drop_last()))
    }
}

/// The concatenated UTF-8 contents of the files, in order.
pub open spec fn concat_contents(s: Seq<(Seq<char>, Seq<char>)>) -> Seq<u8>
    decreases s.len(),
{
    if s.len() == 0 {
        Seq::<u8>::empty()
    } else {
        concat_contents(s.drop_last()) + vstd::utf8::encode_utf8(s.last().1)
    }
}

/// The bundle fingerprint: the lowercase hex SHA-256 of the rule files'
/// contents, concatenated in sorted order.
pub open spec fn spec_bundle_hash(files: Seq<(Seq<char>, Seq<char>)>) -> Seq<char> {
    hex_of(sha256_of(concat_contents(sort_pairs(rego_filter(files)))))
}

/// The bundle order is total.
proof fn lemma_pair_le_total(a: (Seq<char>, Seq<char>), b: (Seq<char>, Seq<char>))
    ensures
        pair_le(a, b) || pair_le(b, a),
{
    if a.0 == b.0 {
        lemma_lex_le_total(a.1, b.1);
    } else {
        lemma_lex_le_total(a.0, b.0);
    }
}

/// The bundle order is transitive.
proof fn lemma_pair_le_transitive(
    a: (Seq<char>, Seq<char>),
    b: (Seq<char>, Seq<char>),
    c: (Seq<char>, Seq<char>),
)
    requires
        pair_le(a, b),
        pair_le(b, c),
    ensures
        pair_le(a, c),
{
    if a.0 == b.0 && b.0 == c.0 {
        lemma_lex_le_transitive(a.1, b.1, c.1);
    } else if a.0 != b.0 && b.0 != c.0 {
        lemma_lex_le_transitive(a.0, b.0, c.0);
        if a.0 == c.0 {
            lemma_lex_le_antisymmetric(a.0, b.0);
        }
    }
}

/// Every element is at most every later one.
pub open spec fn pairs_sorted(s: Seq<(Seq<char>, Seq<char>)>) -> bool {
    forall|i: int, j: int| 0 <= i < j < s.len() ==> pair_le(s[i], s[j])
}

/// Inserting adds exactly one occurrence of the inserted file.
proof fn lemma_insert_sorted_multiset(x: (Seq<char>, Seq<char>), s: Seq<(Seq<char>, Seq<char>)>)
    ensures
        insert_sorted(x, s).to_multiset() =~= s.to_multiset().insert(x),
    decreases s.len(),
{
    broadcast use vstd::seq_lib::group_to_multiset_ensures;

    if s.len() == 0 {
        assert(seq![x] =~= Seq::<(Seq<char>, Seq<char>)>::empty().push(x));
    } else if pair_le(x, s[0]) {
        vstd::seq_lib::lemma_multiset_commutative(seq![x], s);
        assert(seq![x].to_multiset() =~= Seq::<(Seq<char>, Seq<char>)>::empty().push(
            x,
        ).to_multiset());
    } else {
        lemma_insert_sorted_multiset(x, s.skip(1));
        vstd::seq_lib::lemma_multiset_commutative(seq![s[0]], insert_sorted(x, s.skip(1)));
        vstd::seq_lib::lemma_multiset_commutative(seq![s[0]], s.skip(1));
        assert(seq![s[0]] + s.skip(1) =~= s);
        assert(seq![s[0]].to_multiset() =~= Seq::<(Seq<char>, Seq<char>)>::empty().push(
            s[0],
        ).to_multiset());
    }
}

/// Inserting into a sorted sequence keeps it sorted.
proof fn lemma_insert_sorted_sorted(x: (Seq<char>, Seq<char>), s: Seq<(Seq<char>, Seq<char>)>)
    requires
        pairs_sorted(s),
    ensures
        pairs_sorted(insert_sorted(x, s)),
    decreases s.len(),
{
    broadcast use vstd::seq_lib::group_to_multiset_ensures;

    let r = insert_sorted(x, s);
    if s.len() == 0 {
    } else if pair_le(x, s[0]) {
        assert forall|i: int, j: int| 0 <= i < j < r.len() implies pair_le(r[i], r[j]) by {
            if i == 0 {
                if j > 1 {
                    lemma_pair_le_transitive(x, s[0], s[j - 1]);
                }
            }
        }
    } else {
        assert(pairs_sorted(s.skip(1)));
        lemma_insert_sorted_sorted(x, s.skip(1));
        lemma_insert_sorted_multiset(x, s.skip(1));
        lemma_pair_le_total(x, s[0]);
        let inner = insert_sorted(x, s.skip(1));
        assert forall|i: int, j: int| 0 <= i < j < r.len() implies pair_le(r[i], r[j]) by {
            if i == 0 {
                assert(r[j] == inner[j - 1]);
                assert(inner.contains(inner[j - 1]));
                assert(inner.to_multiset().count(inner[j - 1]) > 0);
                if inner[j - 1] != x {
                    assert(s.skip(1).to_multiset().count(inner[j - 1]) > 0);
                    assert(s.skip(1).contains(inner[j - 1]));
                    let k = choose|k: int|
                        0 <= k < s.skip(1).len() && s.skip(1)[k] == inner[j - 1];
                    assert(pair_le(s[0], s[k + 1]));
                }
            }
        }
    }
}

/// The bundle sort returns the files in order, none lost and none added.
pub proof fn lemma_sort_pairs_correct(s: Seq<(Seq<char>, Seq<char>)>)
    ensures
        pairs_sorted(sort_pairs(s)),
        sort_pairs(s).to_multiset() =~= s.to_multiset(),
    decreases s.len(),
{
    broadcast use vstd::seq_lib::group_to_multiset_ensures;

    if s.len() > 0 {
        lemma_sort_pairs_correct(s.drop_last());
        lemma_insert_sorted_sorted(s.last(), sort_pairs(s.drop_last()));
        lemma_insert_sorted_multiset(s.last(), sort_pairs(s.drop_last()));
        assert(s =~= s.drop_last().push(s.last()));
    }
}

/// Two loads of the same directory yield identical fingerprints: bundles
/// whose files agree name for name and byte for byte hash alike, because
/// the fingerprint is a function of the files' names and contents alone.
pub proof fn lemma_bundle_hash_deterministic(a: Seq<PolicyFile>, b: Seq<PolicyFile>)
    requires
        file_views(a) == file_views(b),
    ensures
        spec_bundle_hash(file_views(a)) == spec_bundle_hash(file_views(b)),
{
}

// ---------------------------------------------------------------------------
// Exec selection and sorting.
// ---------------------------------------------------------------------------

/// Decides `is_rego_rule` for one file name.
fn is_rego_rule_name(name: &str) -> (r: bool)
    ensures
        r == is_rego_rule(name@),
{
    proof {
        reveal_strlit(".rego");
    }
    str_ends_with(name, ".rego") && name.unicode_len() > 5 && !str_contains(name, "_test")
}

/// Decides `is_json_data` for one file name.
fn is_json_data_name(name: &str) -> (r: bool)
    ensures
        r == is_json_data(name@),
{
    proof {
        reveal_strlit(".json");
    }
    str_ends_with(name, ".json") && name.unicode_len() > 5
}

/// Decides the bundle order for two files.
fn file_le(a: &PolicyFile, b: &PolicyFile) -> (r: bool)
    ensures
        r == pair_le(file_pair(*a), file_pair(*b)),
{
    if !str_eq(a.name.as_str(), b.name.as_str()) {
        str_lex_le(a.name.as_str(), b.name.as_str())
    } else {
        str_lex_le(a.content.as_str(), b.content.as_str())
    }
}

/// `insert_sorted` places `x` at the first position whose element is not
/// below it.
proof fn lemma_insert_sorted_at(
    x: (Seq<char>, Seq<char>),
    s: Seq<(Seq<char>, Seq<char>)>,
    j: int,
)
    requires
        0 <= j <= s.len(),
        forall|k: int| 0 <= k < j ==> !pair_le(x, s[k]),
        j < s.len() ==> pair_le(x, s[j]),
    ensures
        insert_sorted(x, s) == s.take(j) + seq![x] + s.skip(j),
    decreases j,
{
    if j == 0 {
        if s.len() == 0 {
            assert(insert_sorted(x, s) =~= s.take(0) + seq![x] + s.skip(0));
        } else {
            assert(insert_sorted(x, s) =~= s.take(0) + seq![x] + s.skip(0));
        }
    } else {
        assert(!pair_le(x, s[0]));
        lemma_insert_sorted_at(x, s.skip(1), j - 1);
        assert(forall|k: int| 0 <= k < j - 1 ==> s.skip(1)[k] == s[k + 1]);
        assert(insert_sorted(x, s) == seq![s[0]] + insert_sorted(x, s.skip(1)));
        assert(seq![s[0]] + (s.skip(1).take(j - 1) + seq![x] + s.skip(1).skip(j - 1)) =~= s.take(j)
            + seq![x] + s.skip(j));
    }
}

/// The position where a file belongs in a list kept in bundle order: the
/// first index whose element is not below it.
fn find_insert_pos(list: &Vec<PolicyFile>, f: &PolicyFile) -> (j: usize)
    ensures
        j <= list@.len(),
        forall|k: int| 0 <= k < j ==> !pair_le(file_pair(*f), file_views(list@)[k]),
        j < list@.len() ==> pair_le(file_pair(*f), file_views(list@)[j as int]),
{
    let ghost fp = file_pair(*f);
    let ghost vs = file_views(list@);
    let mut j: usize = 0;
    while j < list.len()
        invariant
            j <= list@.len(),
            fp == file_pair(*f),
            vs == file_views(list@),
            forall|k: int| 0 <= k < j ==> !pair_le(fp, vs[k]),
        decreases list@.len() - j,
    {
        proof {
            assert(vs[j as int] == file_pair(list@[j as int]));
        }
        if file_le(f, &list[j]) {
            return j;
        }
        j = j + 1;
    }
    j
}

/// Inserts one file into a list kept in bundle order.
fn insert_file(list: &mut Vec<PolicyFile>, f: PolicyFile)
    ensures
        file_views(final(list)@) == insert_sorted(file_pair(f), file_views(old(list)@)),
{
    let ghost fp = file_pair(f);
    let ghost vs = file_views(list@);
    let j = find_insert_pos(list, &f);
    proof {
        lemma_insert_sorted_at(fp, vs, j as int);
    }
    list.insert(j, f);
    proof {
        assert(file_views(list@) =~= vs.take(j as int) + seq![fp] + vs.skip(j as int));
    }
}

// ---------------------------------------------------------------------------
// The evaluator.
// ---------------------------------------------------------------------------

/// A policy evaluator backed by the embedded rule engine, created from the
/// files of a bundle directory.
pub struct RegorusEvaluator {
    engine: regorus::Engine,
    hash: String,
}

impl RegorusEvaluator {
    /// Loads a bundle from its files: selects the runtime rule files,
    /// sorts them by name, fingerprints their contents in that order, and
    /// registers rules and data documents with the engine.  A bundle
    /// without rule files is rejected.
    pub fn from_files(files: &Vec<PolicyFile>) -> (r: Result<RegorusEvaluator, PepError>)
        ensures
            match r {
                Ok(ev) => ev.hash_model() == spec_bundle_hash(file_views(files@))
                    && rego_filter(file_views(files@)).len() > 0,
                Err(_) => true,
            },
            rego_filter(file_views(files@)).len() == 0 <==> match r {
                Err(PepError::Policy(msg)) => msg@ == "no .rego files found in policy directory"@,
                _ => false,
            },
            ({
                let rules = sort_pairs(rego_filter(file_views(files@)));
                let datas = sort_pairs(json_filter(file_views(files@)));
                (rego_filter(file_views(files@)).len() > 0 && (forall|i: int|
                    0 <= i < rules.len() ==> rego_parse_ok(rules[i].0, rules[i].1))
                    && data_docs_ok(datas)) ==> r is Ok
            }),
    {
        let ghost all = file_views(files@);
        let mut rules: Vec<PolicyFile> = Vec::new();
        let mut datas: Vec<PolicyFile> = Vec::new();
        let mut i: usize = 0;
        while i < files.len()
            invariant
                i <= files@.len(),
                all == file_views(files@),
                file_views(rules@) == rego_filter(all.take(i as int)),
                file_views(datas@) == json_filter(all.take(i as int)),
            decreases files@.len() - i,
        {
            let f = &files[i];
            proof {
                assert(all.take(i + 1).drop_last() =~= all.take(i as int));
                assert(all.take(i + 1).last() == file_pair(files@[i as int]));
            }
            let ghost fp = file_pair(files@[i as int]);
            let ghost rego_here = is_rego_rule(fp.0);
            let ghost json_here = is_json_data(fp.0);
            proof {
                assert(rego_filter(all.take(i + 1)) =~= rego_filter(all.take(i as int)) + (
                if rego_here {
                    seq![fp]
                } else {
                    Seq::<(Seq<char>, Seq<char>)>::empty()
                }));
                assert(json_filter(all.take(i + 1)) =~= json_filter(all.take(i as int)) + (
                if json_here {
                    seq![fp]
                } else {
                    Seq::<(Seq<char>, Seq<char>)>::empty()
                }));
            }
            let takes_rule = is_rego_rule_name(f.name.as_str());
            let takes_data = is_json_data_name(f.name.as_str());
            if takes_rule {
                let ghost pre = file_views(rules@);
                rules.push(PolicyFile { name: f.name.clone(), content: f.content.clone() });
                proof {
                    assert(file_views(rules@) =~= pre + seq![fp]);
                }
            }
            if takes_data {
                let ghost pre = file_views(datas@);
                datas.push(PolicyFile { name: f.name.clone(), content: f.content.clone() });
                proof {
                    assert(file_views(datas@) =~= pre + seq![fp]);
                }
            }
            proof {
                assert(file_views(rules@) =~= rego_filter(all.take(i + 1)));
                assert(file_views(datas@) =~= json_filter(all.take(i + 1)));
            }
            i = i + 1;
        }
        proof {
            assert(all.take(files@.len() as int) =~= all);
            assert(file_views(rules@).len() == rules@.len());
            assert(rego_filter(all).len() == rules@.len());
        }
        if rules.len() == 0 {
            return Err(PepError::Policy("no .rego files found in policy directory".to_owned()));
        }
        let mut sorted_rules: Vec<PolicyFile> = Vec::new();
        let ghost rviews = file_views(rules@);
        let mut k: usize = 0;
        while k < rules.len()
            invariant
                k <= rules@.len(),
                rviews == file_views(rules@),
                file_views(sorted_rules@) == sort_pairs(rviews.take(k as int)),
            decreases rules@.len() - k,
        {
            let f = &rules[k];
            proof {
                assert(rviews.take(k + 1).drop_last() =~= rviews.take(k as int));
                assert(rviews.take(k + 1).last() == file_pair(rules@[k as int]));
            }
            insert_file(
                &mut sorted_rules,
                PolicyFile { name: f.name.clone(), content: f.content.clone() },
            );
            k = k + 1;
        }
        proof {
            assert(rviews.take(rules@.len() as int) =~= rviews);
        }
        let mut sorted_datas: Vec<PolicyFile> = Vec::new();
        let ghost dviews = file_views(datas@);
        let mut k2: usize = 0;
        while k2 < datas.len()
            invariant
                k2 <= datas@.len(),
                dviews == file_views(datas@),
                file_views(sorted_datas@) == sort_pairs(dviews.take(k2 as int)),
            decreases datas@.len() - k2,
        {
            let f = &datas[k2];
            proof {
                assert(dviews.take(k2 + 1).drop_last() =~= dviews.take(k2 as int));
                assert(dviews.take(k2 + 1).last() == file_pair(datas@[k2 as int]));
            }
            insert_file(
                &mut sorted_datas,
                PolicyFile { name: f.name.clone(), content: f.content.clone() },
            );
            k2 = k2 + 1;
        }
        proof {
            assert(dviews.take(datas@.len() as int) =~= dviews);
        }
        let ghost sviews = file_views(sorted_rules@);
        let mut all_bytes: Vec<u8> = Vec::new();
        let mut t: usize = 0;
        while t < sorted_rules.len()
            invariant
                t <= sorted_rules@.len(),
                sviews == file_views(sorted_rules@),
                all_bytes@ == concat_contents(sviews.take(t as int)),
            decreases sorted_rules@.len() - t,
        {
            proof {
                assert(sviews.take(t + 1).drop_last() =~= sviews.take(t as int));
                assert(sviews.take(t + 1).last() == file_pair(sorted_rules@[t as int]));
            }
            all_bytes.extend_from_slice(sorted_rules[t].content.as_str().as_bytes());
            t = t + 1;
        }
        proof {
            assert(sviews.take(sorted_rules@.len() as int) =~= sviews);
        }
        let digest = sha256_bytes(&all_bytes);
        let hash = bytes_to_hex(&digest);
        proof {
            assert(file_views(sorted_rules@) == sort_pairs(rego_filter(all)));
            assert(file_views(sorted_datas@) == sort_pairs(json_filter(all)));
            assert forall|i: int| 0 <= i < sorted_rules@.len() implies #[trigger] file_views(
                sorted_rules@,
            )[i] == file_pair(sorted_rules@[i]) by {}
        }
        let engine = match build_engine(&sorted_rules, &sorted_datas) {
            Ok(e) => e,
            Err(BundleLoadError::Rule { name, message }) => {
                let mut msg = String::new();
                msg.append("parsing ");
                msg.append(name.as_str());
                msg.append(": ");
                msg.append(message.as_str());
                proof {
                    reveal_strlit("parsing ");
                    lemma_load_message_is_not_the_empty_bundle_message(msg@);
                    lemma_load_failure_refutes(sorted_rules@, sorted_datas@, all);
                }
                return Err(PepError::Policy(msg));
            },
            Err(BundleLoadError::Data { name, message }) => {
                let mut msg = String::new();
                msg.append("adding data ");
                msg.append(name.as_str());
                msg.append(": ");
                msg.append(message.as_str());
                proof {
                    reveal_strlit("adding data ");
                    lemma_load_message_is_not_the_empty_bundle_message(msg@);
                    lemma_load_failure_refutes(sorted_rules@, sorted_datas@, all);
                }
                return Err(PepError::Policy(msg));
            },
        };
        Ok(RegorusEvaluator { engine, hash })
    }
}

/// If the engine refused this sorted bundle, the bundle's spec-level load
/// condition is refuted too.
proof fn lemma_load_failure_refutes(
    sorted_rules: Seq<PolicyFile>,
    sorted_datas: Seq<PolicyFile>,
    views: Seq<(Seq<char>, Seq<char>)>,
)
    requires
        file_views(sorted_rules) == sort_pairs(rego_filter(views)),
        file_views(sorted_datas) == sort_pairs(json_filter(views)),
        !((forall|i: int|
            0 <= i < sorted_rules.len() ==> rego_parse_ok(
                sorted_rules[i].name@,
                sorted_rules[i].content@,
            )) && data_docs_ok(file_views(sorted_datas))),
    ensures
        !((forall|i: int|
            0 <= i < sort_pairs(rego_filter(views)).len() ==> rego_parse_ok(
                #[trigger] sort_pairs(rego_filter(views))[i].0,
                sort_pairs(rego_filter(views))[i].1,
            )) && data_docs_ok(sort_pairs(json_filter(views)))),
{
    let rules_spec = sort_pairs(rego_filter(views));
    if (forall|i: int|
        0 <= i < rules_spec.len() ==> rego_parse_ok(
            #[trigger] rules_spec[i].0,
            rules_spec[i].1,
        )) && data_docs_ok(sort_pairs(json_filter(views))) {
        assert(file_views(sorted_rules).len() == sorted_rules.len());
        assert forall|i: int| 0 <= i < sorted_rules.len() implies rego_parse_ok(
            sorted_rules[i].name@,
            sorted_rules[i].content@,
        ) by {
            assert(file_views(sorted_rules)[i] == file_pair(sorted_rules[i]));
            assert(rules_spec[i] == file_pair(sorted_rules[i]));
            assert(rego_parse_ok(rules_spec[i].0, rules_spec[i].1));
        }
        assert(false);
    }
}

/// A message built for a failed rule parse or data load never equals the
/// message reserved for a bundle without rule files.
proof fn lemma_load_message_is_not_the_empty_bundle_message(msg: Seq<char>)
    requires
        msg.len() > 0,
        msg[0] == 'p' || msg[0] == 'a',
    ensures
        msg != "no .rego files found in policy directory"@,
{
    reveal_strlit("no .rego files found in policy directory");
    if msg == "no .rego files found in policy directory"@ {
        assert(msg[0] == 'n');
    }
}

/// Builds one decision record from the plain values read out of the
/// engine's result.  An undefined result denies with a fixed reason and no
/// constraints; otherwise the allow flag and the reason carry over, and
/// the constraint integers are truncated to their unsigned field types.
pub fn assemble_decision(
    undefined: bool,
    allow: bool,
    reason: Option<String>,
    constraints_defined: bool,
    max_bytes: Option<i64>,
    rate_limit_per_min: Option<i64>,
    decision_id: String,
    policy_hash: String,
) -> (d: PolicyDecision)
    ensures
        d.decision_id@ == decision_id@,
        d.policy_hash@ == policy_hash@,
        undefined ==> {
            &&& !d.allow
            &&& match d.reason {
                Some(m) => m@ == "policy evaluation returned undefined"@,
                None => false,
            }
            &&& d.constraints is None
        },
        !undefined ==> {
            &&& d.allow == allow
            &&& match (d.reason, reason) {
                (Some(a), Some(b)) => a@ == b@,
                (None, None) => true,
                _ => false,
            }
            &&& if constraints_defined {
                match d.constraints {
                    Some(c) => {
                        &&& match (c.max_bytes, max_bytes) {
                            (Some(u), Some(n)) => u == n as usize,
                            (None, None) => true,
                            _ => false,
                        }
                        &&& c.allowed_domains is None
                        &&& match (c.rate_limit_per_min, rate_limit_per_min) {
                            (Some(u), Some(n)) => u == n as u32,
                            (None, None) => true,
                            _ => false,
                        }
                    },
                    None => false,
                }
            } else {
                d.constraints is None
            }
        },
{
    if undefined {
        PolicyDecision {
            allow: false,
            reason: Some("policy evaluation returned undefined".to_owned()),
            constraints: None,
            decision_id,
            policy_hash,
        }
    } else {
        let constraints = if constraints_defined {
            Some(
                Constraints {
                    max_bytes: match max_bytes {
                        Some(n) => Some(#[verifier::truncate] (n as usize)),
                        None => None,
                    },
                    allowed_domains: None,
                    rate_limit_per_min: match rate_limit_per_min {
                        Some(n) => Some(#[verifier::truncate] (n as u32)),
                        None => None,
                    },
                },
            )
        } else {
            None
        };
        PolicyDecision { allow, reason, constraints, decision_id, policy_hash }
    }
}

impl PolicyEvaluator for RegorusEvaluator {
    closed spec fn hash_model(&self) -> Seq<char> {
        self.hash@
    }

    /// Evaluates `data.pep.decision` for one input.  An undefined result
    /// denies; otherwise the rule's `allow`, `reason` and `constraints`
    /// fields carry over.  Every decision gets a fresh identifier and the
    /// bundle's fingerprint.
    fn evaluate(&mut self, input: &PolicyInput) -> (r: Result<PolicyDecision, PepError>)
        ensures
            match r {
                Ok(d) => d.decision_id@.len() == 36,
                Err(_) => true,
            },
    {
        let decision_id = new_decision_id();
        let input_json = input.to_json();
        match engine_set_input_json(&mut self.engine, input_json.as_str()) {
            Ok(()) => (),
            Err(e) => {
                let mut msg = String::new();
                msg.append("building input value: ");
                msg.append(e.as_str());
                return Err(PepError::Policy(msg));
            },
        }
        let result = match engine_eval_rule(&mut self.engine, "data.pep.decision") {
            Ok(v) => v,
            Err(e) => {
                let mut msg = String::new();
                msg.append("evaluating rule: ");
                msg.append(e.as_str());
                return Err(PepError::Policy(msg));
            },
        };
        if value_is_undefined(&result) {
            return Ok(
                assemble_decision(
                    true,
                    false,
                    None,
                    false,
                    None,
                    None,
                    decision_id,
                    self.hash.clone(),
                ),
            );
        }
        let allow_value = value_field(&result, "allow");
        let allow = value_is_true(&allow_value);
        let reason_value = value_field(&result, "reason");
        let reason = value_as_string(&reason_value);
        let constraints_value = value_field(&result, "constraints");
        let constraints_defined = !value_is_undefined(&constraints_value);
        let max_bytes: Option<i64> = if constraints_defined {
            let mb_value = value_field(&constraints_value, "max_bytes");
            value_as_i64(&mb_value)
        } else {
            None
        };
        let rate_limit: Option<i64> = if constraints_defined {
            let rl_value = value_field(&constraints_value, "rate_limit_per_min");
            value_as_i64(&rl_value)
        } else {
            None
        };
        Ok(
            assemble_decision(
                false,
                allow,
                reason,
                constraints_defined,
                max_bytes,
                rate_limit,
                decision_id,
                self.hash.clone(),
            ),
        )
    }

    fn policy_hash(&self) -> (r: &str) {
        self.hash.as_str()
    }
}

} // verus!
