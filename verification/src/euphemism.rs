//! The euphemism tables and the one-way `ACTUAL → OFFICIAL` derivation `E`
//! (word-by-word euphemism, then redaction), the severity comparator, the grandiosity
//! scorer and the small lookup tables (entities, access categories, pre-context
//! symbols). There is no inverse of `E`.

use vstd::prelude::*;
use vstd::string::*;
use crate::text::{
    chars_eq, chars_of, contains_chars, has_sub, is_word, is_word_char, matches_at,
    matches_at_exec, owned, push_char, str_eq,
};

verus! {

/// The redaction glyph: four full blocks.
pub const REDACTION: &'static str = "\u{2588}\u{2588}\u{2588}\u{2588}";

// ─────────── whole-word replacement ───────────

/// No word character precedes position `i`.
pub open spec fn before_ok(t: Seq<char>, i: int) -> bool {
    i == 0 || !is_word(t[i - 1])
}

/// No word character follows a match of length `m` at `i`.
pub open spec fn after_ok(t: Seq<char>, i: int, m: int) -> bool {
    i + m >= t.len() || !is_word(t[i + m])
}

/// A whole-word occurrence of `f` at position `i`.
pub open spec fn hit(t: Seq<char>, f: Seq<char>, i: int) -> bool {
    matches_at(t, f, i) && before_ok(t, i) && after_ok(t, i, f.len() as int)
}

/// Replace every whole-word occurrence of `f` in `t[i..]` by `to`, scanning left to
/// right (a match is replaced and skipped past).
pub open spec fn rw_from(t: Seq<char>, f: Seq<char>, to: Seq<char>, i: int) -> Seq<char>
    decreases t.len() - i,
{
    if i < 0 || i >= t.len() || f.len() == 0 {
        Seq::empty()
    } else if hit(t, f, i) {
        to + rw_from(t, f, to, i + f.len())
    } else {
        seq![t[i]] + rw_from(t, f, to, i + 1)
    }
}

/// Whole-word replacement of `f` by `to` in `t` (identity when `f` is empty).
pub open spec fn rw(t: Seq<char>, f: Seq<char>, to: Seq<char>) -> Seq<char> {
    if f.len() == 0 { t } else { rw_from(t, f, to, 0) }
}

fn replace_word(text: &Vec<char>, from: &str, to: &str) -> (r: Vec<char>)
    ensures
        r@ == rw(text@, from@, to@),
{
    let f = chars_of(from);
    let tv = chars_of(to);
    let n = text.len();
    let m = f.len();
    if m == 0 {
        return text.clone();
    }
    let mut out: Vec<char> = Vec::new();
    let mut i: usize = 0;
    while i < n
        invariant
            n == text.len(),
            m == f.len(),
            m > 0,
            f@ == from@,
            tv@ == to@,
            i <= n,
            out@ + rw_from(text@, f@, tv@, i as int) == rw_from(text@, f@, tv@, 0),
        decreases n - i,
    {
        let mut is_hit = false;
        if m <= n - i && matches_at_exec(text, &f, i) {
            let before_ok = i == 0 || !is_word_char(text[i - 1]);
            let after_ok = i + m >= n || !is_word_char(text[i + m]);
            is_hit = before_ok && after_ok;
        }
        assert(is_hit == hit(text@, f@, i as int));
        if is_hit {
            let ghost o = out@;
            let mut k: usize = 0;
            while k < tv.len()
                invariant
                    k <= tv.len(),
                    out@ == o + tv@.subrange(0, k as int),
                decreases tv.len() - k,
            {
                out.push(tv[k]);
                k = k + 1;
                assert(out@ =~= o + tv@.subrange(0, k as int));
            }
            assert(tv@.subrange(0, tv.len() as int) =~= tv@);
            assert(out@ + rw_from(text@, f@, tv@, (i + m) as int) =~= o + rw_from(text@, f@, tv@, i as int));
            i = i + m;
        } else {
            let ghost o = out@;
            out.push(text[i]);
            assert(out@ + rw_from(text@, f@, tv@, (i + 1) as int) =~= o + rw_from(text@, f@, tv@, i as int));
            i = i + 1;
        }
    }
    assert(out@ =~= out@ + rw_from(text@, f@, tv@, n as int));
    out
}

// ─────────── E, redact, severity ───────────

/// Redaction: the sensitive tokens `operative`, `asset`, `covert_op` become `████`.
pub open spec fn redact_spec(t: Seq<char>) -> Seq<char> {
    rw(rw(rw(t, "operative"@, REDACTION@), "asset"@, REDACTION@), "covert_op"@, REDACTION@)
}

/// The euphemism passes, in table order.
pub open spec fn euphemize_spec(t: Seq<char>) -> Seq<char> {
    rw(
        rw(
            rw(
                rw(rw(rw(t, "murder"@, "accident occur"@), "bomb"@, "strike"@), "raze"@, "clearing operation"@),
                "occupy"@,
                "administer"@,
            ),
            "dissident"@,
            "protester"@,
        ),
        "settler"@,
        "resident"@,
    )
}

/// `E`: euphemize word by word, then redact.
pub open spec fn e_spec(t: Seq<char>) -> Seq<char> {
    redact_spec(euphemize_spec(t))
}

/// Severity by substring membership: `murder` 3, `raze`/`bomb` 2, otherwise 0.
pub open spec fn severity_spec(t: Seq<char>) -> int {
    if has_sub(t, "murder"@) {
        3
    } else if has_sub(t, "raze"@) || has_sub(t, "bomb"@) {
        2
    } else {
        0
    }
}

fn redact_chars(t: &Vec<char>) -> (r: Vec<char>)
    ensures
        r@ == redact_spec(t@),
{
    let a = replace_word(t, "operative", REDACTION);
    let b = replace_word(&a, "asset", REDACTION);
    replace_word(&b, "covert_op", REDACTION)
}

fn to_string(v: &Vec<char>) -> (r: String)
    ensures
        r@ == v@,
{
    crate::text::string_of(v, 0, v.len())
}

/// Redact the sensitive tokens (whole words) to `████`.
pub fn redact(text: &str) -> (r: String)
    ensures
        r@ == redact_spec(text@),
{
    to_string(&redact_chars(&chars_of(text)))
}

/// The severity of a text: the largest weight of a severity key it contains.
pub fn severity(text: &str) -> (r: i32)
    ensures
        r as int == severity_spec(text@),
{
    let t = chars_of(text);
    if contains_chars(&t, &chars_of("murder")) {
        3
    } else if contains_chars(&t, &chars_of("raze")) || contains_chars(&t, &chars_of("bomb")) {
        2
    } else {
        0
    }
}

/// `E` — the pure, one-way `ACTUAL → OFFICIAL` derivation. The result is never more
/// severe than the input (polarity).
pub fn e(candid: &str) -> (r: String)
    ensures
        r@ == e_spec(candid@),
        severity_spec(r@) <= severity_spec(candid@),
{
    proof {
        lemma_polarity(candid@);
    }
    let t = chars_of(candid);
    let t = replace_word(&t, "murder", "accident occur");
    let t = replace_word(&t, "bomb", "strike");
    let t = replace_word(&t, "raze", "clearing operation");
    let t = replace_word(&t, "occupy", "administer");
    let t = replace_word(&t, "dissident", "protester");
    let t = replace_word(&t, "settler", "resident");
    let t = redact_chars(&t);
    to_string(&t)
}


// ─────────── the polarity law ───────────

/// Every character of `w` is a word character.
pub open spec fn all_word(w: Seq<char>) -> bool {
    forall|j: int| 0 <= j < w.len() ==> is_word(w[j])
}

/// `k` occurs in `t` at or after position `i`.
pub open spec fn has_from(t: Seq<char>, k: Seq<char>, i: int) -> bool {
    exists|at: int| i <= at && matches_at(t, k, at)
}

proof fn lemma_nonword_start(t: Seq<char>, f: Seq<char>, to: Seq<char>, j: int)
    requires
        0 <= j < t.len(),
        f.len() > 0,
        is_word(f[0]),
        !is_word(t[j]),
    ensures
        rw_from(t, f, to, j) == seq![t[j]] + rw_from(t, f, to, j + 1),
{
    if matches_at(t, f, j) {
        assert(t.subrange(j, j + f.len())[0] == t[j]);
    }
}

proof fn lemma_prefix(t: Seq<char>, f: Seq<char>, to: Seq<char>, i: int, w: Seq<char>)
    requires
        f.len() > 0,
        all_word(w),
        0 < i <= t.len(),
        is_word(t[i - 1]),
        w.len() <= rw_from(t, f, to, i).len(),
        rw_from(t, f, to, i).subrange(0, w.len() as int) == w,
    ensures
        i + w.len() <= t.len(),
        t.subrange(i, i + w.len()) == w,
    decreases w.len(),
{
    if w.len() > 0 {
        let r = rw_from(t, f, to, i);
        assert(i < t.len());
        assert(!hit(t, f, i));
        assert(r == seq![t[i]] + rw_from(t, f, to, i + 1));
        assert(r.subrange(0, w.len() as int)[0] == r[0]);
        assert(t[i] == w[0]);
        let w2 = w.drop_first();
        assert(rw_from(t, f, to, i + 1).subrange(0, w2.len() as int) =~= w2) by {
            assert forall|q: int| 0 <= q < w2.len() implies rw_from(t, f, to, i + 1)[q] == w2[q] by {
                assert(r.subrange(0, w.len() as int)[q + 1] == r[q + 1]);
            }
        }
        lemma_prefix(t, f, to, i + 1, w2);
        assert(t.subrange(i, i + w.len()) =~= w) by {
            assert forall|q: int| 0 <= q < w.len() implies t.subrange(i, i + w.len())[q] == w[q] by {
                if q > 0 {
                    assert(t.subrange(i + 1, i + 1 + w2.len())[q - 1] == w2[q - 1]);
                }
            }
        }
    }
}

proof fn lemma_no_new_from(t: Seq<char>, f: Seq<char>, to: Seq<char>, k: Seq<char>, i: int)
    requires
        f.len() > 0,
        all_word(f),
        k.len() > 0,
        all_word(k),
        !has_sub(to, k),
        0 <= i,
    ensures
        has_sub(rw_from(t, f, to, i), k) ==> has_from(t, k, i),
    decreases t.len() - i,
{
    let r = rw_from(t, f, to, i);
    if i >= t.len() {
    } else if hit(t, f, i) {
        let j = i + f.len();
        let rest = rw_from(t, f, to, j);
        assert(r == to + rest);
        lemma_no_new_from(t, f, to, k, j);
        if has_sub(r, k) {
            let p = choose|p: int| matches_at(r, k, p);
            if p + k.len() <= to.len() {
                assert(matches_at(to, k, p)) by {
                    assert(to.subrange(p, p + k.len()) =~= r.subrange(p, p + k.len()));
                }
            } else if p >= to.len() {
                assert(matches_at(rest, k, p - to.len())) by {
                    assert(rest.subrange(p - to.len(), p - to.len() + k.len()) =~= r.subrange(p, p + k.len()));
                }
                let at = choose|at: int| j <= at && matches_at(t, k, at);
                assert(i <= at && matches_at(t, k, at));
            } else {
                assert(rest.len() > 0);
                assert(j < t.len());
                assert(!is_word(t[j]));
                assert(is_word(f[0]));
                lemma_nonword_start(t, f, to, j);
                assert(rest[0] == t[j]);
                assert(r[to.len() as int] == rest[0]);
                let d = to.len() - p;
                assert(r.subrange(p, p + k.len())[d] == r[to.len() as int]);
                assert(k[d] == t[j]);
                assert(is_word(k[d]));
            }
        }
    } else {
        let rest = rw_from(t, f, to, i + 1);
        assert(r == seq![t[i]] + rest);
        lemma_no_new_from(t, f, to, k, i + 1);
        if has_sub(r, k) {
            let p = choose|p: int| matches_at(r, k, p);
            if p >= 1 {
                assert(matches_at(rest, k, p - 1)) by {
                    assert(rest.subrange(p - 1, p - 1 + k.len()) =~= r.subrange(p, p + k.len()));
                }
                let at = choose|at: int| i + 1 <= at && matches_at(t, k, at);
                assert(i <= at && matches_at(t, k, at));
            } else {
                assert(r.subrange(0, k.len() as int)[0] == r[0]);
                assert(t[i] == k[0]);
                let k2 = k.drop_first();
                assert(rest.subrange(0, k2.len() as int) =~= k2) by {
                    assert forall|q: int| 0 <= q < k2.len() implies rest[q] == k2[q] by {
                        assert(r.subrange(0, k.len() as int)[q + 1] == r[q + 1]);
                    }
                }
                lemma_prefix(t, f, to, i + 1, k2);
                assert(t.subrange(i, i + k.len()) =~= k) by {
                    assert forall|q: int| 0 <= q < k.len() implies t.subrange(i, i + k.len())[q] == k[q] by {
                        if q > 0 {
                            assert(t.subrange(i + 1, i + 1 + k2.len())[q - 1] == k2[q - 1]);
                        }
                    }
                }
                assert(matches_at(t, k, i));
            }
        }
    }
}

/// One replacement pass never creates a word-character key that was absent from both
/// the text and the replacement.
proof fn lemma_no_new(t: Seq<char>, f: Seq<char>, to: Seq<char>, k: Seq<char>)
    requires
        all_word(f),
        k.len() > 0,
        all_word(k),
        !has_sub(to, k),
    ensures
        has_sub(rw(t, f, to), k) ==> has_sub(t, k),
{
    if f.len() > 0 {
        lemma_no_new_from(t, f, to, k, 0);
        if has_sub(rw(t, f, to), k) {
            let at = choose|at: int| 0 <= at && matches_at(t, k, at);
            assert(matches_at(t, k, at));
        }
    }
}

proof fn lemma_no_triple(to: Seq<char>, k: Seq<char>)
    requires
        k.len() >= 3,
        forall|j: int| 0 <= j && j + 2 < to.len() ==> !(#[trigger] to[j] == k[0] && to[j + 1] == k[1] && to[j + 2] == k[2]),
    ensures
        !has_sub(to, k),
{
    if has_sub(to, k) {
        let at = choose|at: int| matches_at(to, k, at);
        let sub = to.subrange(at, at + k.len());
        assert(sub[0] == to[at] && sub[1] == to[at + 1] && sub[2] == to[at + 2]);
    }
}

proof fn lemma_keys_absent(to: Seq<char>)
    requires
        forall|j: int| 0 <= j && j + 2 < to.len() ==> !(#[trigger] to[j] == 'm' && to[j + 1] == 'u' && to[j + 2] == 'r'),
        forall|j: int| 0 <= j && j + 2 < to.len() ==> !(#[trigger] to[j] == 'r' && to[j + 1] == 'a' && to[j + 2] == 'z'),
        forall|j: int| 0 <= j && j + 2 < to.len() ==> !(#[trigger] to[j] == 'b' && to[j + 1] == 'o' && to[j + 2] == 'm'),
    ensures
        !has_sub(to, "murder"@),
        !has_sub(to, "raze"@),
        !has_sub(to, "bomb"@),
{
    reveal_strlit("murder");
    reveal_strlit("raze");
    reveal_strlit("bomb");
    lemma_no_triple(to, "murder"@);
    lemma_no_triple(to, "raze"@);
    lemma_no_triple(to, "bomb"@);
}

proof fn lemma_word_literals()
    ensures
        all_word("murder"@), all_word("bomb"@), all_word("raze"@), all_word("occupy"@),
        all_word("dissident"@), all_word("settler"@), all_word("operative"@),
        all_word("asset"@), all_word("covert_op"@),
        "murder"@.len() > 0, "bomb"@.len() > 0, "raze"@.len() > 0,
{
    reveal_strlit("murder");
    reveal_strlit("bomb");
    reveal_strlit("raze");
    reveal_strlit("occupy");
    reveal_strlit("dissident");
    reveal_strlit("settler");
    reveal_strlit("operative");
    reveal_strlit("asset");
    reveal_strlit("covert_op");
}

proof fn lemma_replacements_clean()
    ensures
        !has_sub("accident occur"@, "murder"@), !has_sub("accident occur"@, "raze"@), !has_sub("accident occur"@, "bomb"@),
        !has_sub("strike"@, "murder"@), !has_sub("strike"@, "raze"@), !has_sub("strike"@, "bomb"@),
        !has_sub("clearing operation"@, "murder"@), !has_sub("clearing operation"@, "raze"@), !has_sub("clearing operation"@, "bomb"@),
        !has_sub("administer"@, "murder"@), !has_sub("administer"@, "raze"@), !has_sub("administer"@, "bomb"@),
        !has_sub("protester"@, "murder"@), !has_sub("protester"@, "raze"@), !has_sub("protester"@, "bomb"@),
        !has_sub("resident"@, "murder"@), !has_sub("resident"@, "raze"@), !has_sub("resident"@, "bomb"@),
        !has_sub(REDACTION@, "murder"@), !has_sub(REDACTION@, "raze"@), !has_sub(REDACTION@, "bomb"@),
{
    reveal_strlit("accident occur");
    reveal_strlit("strike");
    reveal_strlit("clearing operation");
    reveal_strlit("administer");
    reveal_strlit("protester");
    reveal_strlit("resident");
    reveal_strlit("\u{2588}\u{2588}\u{2588}\u{2588}");
    lemma_keys_absent("accident occur"@);
    lemma_keys_absent("strike"@);
    lemma_keys_absent("clearing operation"@);
    lemma_keys_absent("administer"@);
    lemma_keys_absent("protester"@);
    lemma_keys_absent("resident"@);
    lemma_keys_absent(REDACTION@);
}

/// A key absent from the input stays absent from `E` of it.
proof fn lemma_e_keeps_absent(s: Seq<char>, k: Seq<char>)
    requires
        k == "murder"@ || k == "raze"@ || k == "bomb"@,
    ensures
        has_sub(e_spec(s), k) ==> has_sub(s, k),
{
    lemma_word_literals();
    lemma_replacements_clean();
    let s1 = rw(s, "murder"@, "accident occur"@);
    let s2 = rw(s1, "bomb"@, "strike"@);
    let s3 = rw(s2, "raze"@, "clearing operation"@);
    let s4 = rw(s3, "occupy"@, "administer"@);
    let s5 = rw(s4, "dissident"@, "protester"@);
    let s6 = rw(s5, "settler"@, "resident"@);
    let s7 = rw(s6, "operative"@, REDACTION@);
    let s8 = rw(s7, "asset"@, REDACTION@);
    let s9 = rw(s8, "covert_op"@, REDACTION@);
    lemma_no_new(s, "murder"@, "accident occur"@, k);
    lemma_no_new(s1, "bomb"@, "strike"@, k);
    lemma_no_new(s2, "raze"@, "clearing operation"@, k);
    lemma_no_new(s3, "occupy"@, "administer"@, k);
    lemma_no_new(s4, "dissident"@, "protester"@, k);
    lemma_no_new(s5, "settler"@, "resident"@, k);
    lemma_no_new(s6, "operative"@, REDACTION@, k);
    lemma_no_new(s7, "asset"@, REDACTION@, k);
    lemma_no_new(s8, "covert_op"@, REDACTION@, k);
}

/// Polarity (I1): the OFFICIAL face `E(s)` is never more severe than the ACTUAL `s`.
pub proof fn lemma_polarity(s: Seq<char>)
    ensures
        severity_spec(e_spec(s)) <= severity_spec(s),
{
    lemma_e_keeps_absent(s, "murder"@);
    lemma_e_keeps_absent(s, "raze"@);
    lemma_e_keeps_absent(s, "bomb"@);
}


// ─────────── the action, entity, category and context tables ───────────

/// The candid verb behind a sanctioned PR verb (`None` for any other verb).
pub open spec fn candid_of(verb: Seq<char>) -> Option<Seq<char>> {
    if verb == "neutralize"@ {
        Some("murder"@)
    } else if verb == "strike"@ {
        Some("bomb"@)
    } else if verb == "clear"@ {
        Some("raze"@)
    } else if verb == "administer"@ {
        Some("occupy"@)
    } else {
        None
    }
}

/// The PR verb the Spokesperson suggests for a plain verb (`None` if not plain).
pub open spec fn suggestion_of(verb: Seq<char>) -> Option<&'static str> {
    if verb == "murder"@ || verb == "kill"@ {
        Some("neutralize")
    } else if verb == "bomb"@ {
        Some("strike")
    } else if verb == "raze"@ {
        Some("clear")
    } else if verb == "occupy"@ {
        Some("administer")
    } else {
        None
    }
}

/// Resolve a surface entity name to its candid label (`target` → `dissident`).
pub fn candid_label(name: &str) -> (r: String)
    ensures
        r@ == (if name@ == "target"@ { "dissident"@ } else { name@ }),
{
    if str_eq(name, "target") {
        owned("dissident")
    } else {
        owned(name)
    }
}

/// The differential-access category of an entity (unknown entities are `"A"`).
pub fn category_of(entity: &str) -> (r: &'static str)
    ensures
        r@ == (if entity@ == "subject_1"@ || entity@ == "subject_2"@ { "B"@ } else { "A"@ }),
{
    if str_eq(entity, "subject_1") {
        "B"
    } else if str_eq(entity, "subject_2") {
        "B"
    } else {
        "A"
    }
}

/// The documented access description of a category.
pub fn diff_description(category: &str) -> (r: &'static str)
    ensures
        r@ == (if category@ == "B"@ {
            "restricted access (permits/protections withheld)"@
        } else {
            "full access (resources, permits, protections)"@
        }),
{
    if str_eq(category, "B") {
        "restricted access (permits/protections withheld)"
    } else {
        "full access (resources, permits, protections)"
    }
}

/// The pre-`t=0` context symbols.
pub open spec fn pre_context(symbol: Seq<char>) -> bool {
    symbol == "occupation"@ || symbol == "blockade"@ || symbol == "siege"@ || symbol == "nakba"@
        || symbol == "1948"@ || symbol == "1967"@
}

/// Whether a symbol is pre-`t=0` context (ruled out of scope by `timeline`).
pub fn is_pre_context(symbol: &str) -> (r: bool)
    ensures
        r == pre_context(symbol@),
{
    str_eq(symbol, "occupation") || str_eq(symbol, "blockade") || str_eq(symbol, "siege")
        || str_eq(symbol, "nakba") || str_eq(symbol, "1948") || str_eq(symbol, "1967")
}

/// The contested characterizations never stated as settled fact.
pub open spec fn contested(word: Seq<char>) -> bool {
    word == "apartheid"@ || word == "genocide"@ || word == "most moral army"@
}

/// Whether a word is a contested characterization.
pub fn is_contested(word: &str) -> (r: bool)
    ensures
        r == contested(word@),
{
    str_eq(word, "apartheid") || str_eq(word, "genocide") || str_eq(word, "most moral army")
}

/// The Spokesperson's PR suggestion for a plain verb, if it is one.
pub fn plain_suggestion(verb: &str) -> (r: Option<&'static str>)
    ensures
        r == suggestion_of(verb@),
{
    if str_eq(verb, "murder") || str_eq(verb, "kill") {
        Some("neutralize")
    } else if str_eq(verb, "bomb") {
        Some("strike")
    } else if str_eq(verb, "raze") {
        Some("clear")
    } else if str_eq(verb, "occupy") {
        Some("administer")
    } else {
        None
    }
}

/// Whether a surface verb is a sanctioned operation.
pub fn is_sanctioned(verb: &str) -> (r: bool)
    ensures
        r == candid_of(verb@) is Some,
{
    str_eq(verb, "neutralize") || str_eq(verb, "strike") || str_eq(verb, "clear") || str_eq(
        verb,
        "administer",
    )
}

/// Whether a surface verb denotes an operation at all: sanctioned, or plain.
pub fn is_action_verb(verb: &str) -> (r: bool)
    ensures
        r == (candid_of(verb@) is Some || suggestion_of(verb@) is Some),
{
    is_sanctioned(verb) || plain_suggestion(verb).is_some()
}

/// The candid plain verb behind a sanctioned verb (other verbs are returned as is).
pub fn candid_verb(verb: &str) -> (r: String)
    ensures
        r@ == (match candid_of(verb@) {
            Some(c) => c,
            None => verb@,
        }),
{
    if str_eq(verb, "neutralize") {
        owned("murder")
    } else if str_eq(verb, "strike") {
        owned("bomb")
    } else if str_eq(verb, "clear") {
        owned("raze")
    } else if str_eq(verb, "administer") {
        owned("occupy")
    } else {
        owned(verb)
    }
}

/// The candid descriptor of a registry case: the exposed reality behind the routing
/// (never the key the registry routes on).
pub fn case_descriptor(case: &str) -> (r: Option<&'static str>)
    ensures
        r is Some <==> (case@ == "case_A"@ || case@ == "case_B"@),
        case@ == "case_A"@ ==> (r matches Some(d) && d@ == "a Palestinian resident of the West Bank"@),
        case@ != "case_A"@ && case@ == "case_B"@ ==> (r matches Some(d) && d@ == "an Israeli settler in the West Bank"@),
{
    if str_eq(case, "case_A") {
        Some("a Palestinian resident of the West Bank")
    } else if str_eq(case, "case_B") {
        Some("an Israeli settler in the West Bank")
    } else {
        None
    }
}

// ─────────── operation-name grandiosity ───────────

/// Words that name an operation honestly.
pub open spec fn honest_word(w: Seq<char>) -> bool {
    w == "bomb"@ || w == "bombing"@ || w == "raze"@ || w == "razing"@ || w == "kill"@ || w
        == "killing"@ || w == "attack"@ || w == "occupy"@ || w == "occupation"@ || w
        == "airstrike"@ || w == "massacre"@ || w == "destroy"@ || w == "demolish"@ || w
        == "siege"@ || w == "assault"@
}

/// Words that name an operation grandly.
pub open spec fn grand_word(w: Seq<char>) -> bool {
    w == "protective"@ || w == "edge"@ || w == "rising"@ || w == "lion"@ || w == "guardian"@
        || w == "guardians"@ || w == "walls"@ || w == "wall"@ || w == "iron"@ || w
        == "shield"@ || w == "eternal"@ || w == "vigilance"@ || w == "pillar"@ || w
        == "defense"@ || w == "dawn"@ || w == "swords"@ || w == "sword"@ || w == "breaking"@
        || w == "cast"@ || w == "lead"@ || w == "solid"@ || w == "rock"@ || w == "silent"@
}

fn is_one_of(w: &Vec<char>, table: &[&str]) -> (r: bool)
    ensures
        r == exists|j: int| 0 <= j < table@.len() && w@ == table@[j]@,
{
    let mut i: usize = 0;
    while i < table.len()
        invariant
            i <= table@.len(),
            forall|j: int| 0 <= j < i ==> w@ != table@[j]@,
        decreases table.len() - i,
    {
        if chars_eq(w, &chars_of(table[i])) {
            return true;
        }
        i = i + 1;
    }
    false
}

fn is_honest(w: &Vec<char>) -> (r: bool)
    ensures
        r == honest_word(w@),
{
    let table: [&str; 15] = [
        "bomb", "bombing", "raze", "razing", "kill", "killing", "attack", "occupy",
        "occupation", "airstrike", "massacre", "destroy", "demolish", "siege", "assault",
    ];
    let r = is_one_of(w, table.as_slice());
    proof {
        if honest_word(w@) {
            if w@ == "bomb"@ { assert(w@ == table@[0]@); }
            if w@ == "bombing"@ { assert(w@ == table@[1]@); }
            if w@ == "raze"@ { assert(w@ == table@[2]@); }
            if w@ == "razing"@ { assert(w@ == table@[3]@); }
            if w@ == "kill"@ { assert(w@ == table@[4]@); }
            if w@ == "killing"@ { assert(w@ == table@[5]@); }
            if w@ == "attack"@ { assert(w@ == table@[6]@); }
            if w@ == "occupy"@ { assert(w@ == table@[7]@); }
            if w@ == "occupation"@ { assert(w@ == table@[8]@); }
            if w@ == "airstrike"@ { assert(w@ == table@[9]@); }
            if w@ == "massacre"@ { assert(w@ == table@[10]@); }
            if w@ == "destroy"@ { assert(w@ == table@[11]@); }
            if w@ == "demolish"@ { assert(w@ == table@[12]@); }
            if w@ == "siege"@ { assert(w@ == table@[13]@); }
            if w@ == "assault"@ { assert(w@ == table@[14]@); }
        }
    }
    r
}


fn is_grand(w: &Vec<char>) -> (r: bool)
    ensures
        r == grand_word(w@),
{
    let table: [&str; 23] = [
        "protective", "edge", "rising", "lion", "guardian", "guardians", "walls", "wall", "iron",
        "shield", "eternal", "vigilance", "pillar", "defense", "dawn", "swords", "sword",
        "breaking", "cast", "lead", "solid", "rock", "silent",
    ];
    let r = is_one_of(w, table.as_slice());
    proof {
        if grand_word(w@) {
            if w@ == "protective"@ { assert(w@ == table@[0]@); }
            if w@ == "edge"@ { assert(w@ == table@[1]@); }
            if w@ == "rising"@ { assert(w@ == table@[2]@); }
            if w@ == "lion"@ { assert(w@ == table@[3]@); }
            if w@ == "guardian"@ { assert(w@ == table@[4]@); }
            if w@ == "guardians"@ { assert(w@ == table@[5]@); }
            if w@ == "walls"@ { assert(w@ == table@[6]@); }
            if w@ == "wall"@ { assert(w@ == table@[7]@); }
            if w@ == "iron"@ { assert(w@ == table@[8]@); }
            if w@ == "shield"@ { assert(w@ == table@[9]@); }
            if w@ == "eternal"@ { assert(w@ == table@[10]@); }
            if w@ == "vigilance"@ { assert(w@ == table@[11]@); }
            if w@ == "pillar"@ { assert(w@ == table@[12]@); }
            if w@ == "defense"@ { assert(w@ == table@[13]@); }
            if w@ == "dawn"@ { assert(w@ == table@[14]@); }
            if w@ == "swords"@ { assert(w@ == table@[15]@); }
            if w@ == "sword"@ { assert(w@ == table@[16]@); }
            if w@ == "breaking"@ { assert(w@ == table@[17]@); }
            if w@ == "cast"@ { assert(w@ == table@[18]@); }
            if w@ == "lead"@ { assert(w@ == table@[19]@); }
            if w@ == "solid"@ { assert(w@ == table@[20]@); }
            if w@ == "rock"@ { assert(w@ == table@[21]@); }
            if w@ == "silent"@ { assert(w@ == table@[22]@); }
        }
    }
    r
}

/// ASCII lowercase of a character.
pub open spec fn lower(c: char) -> char {
    if 'A' <= c && c <= 'Z' { ((c as u32) + 32) as char } else { c }
}

/// Whether a character, once lowercased, is an ASCII lowercase letter.
pub open spec fn letter(c: char) -> bool {
    'a' <= lower(c) && lower(c) <= 'z'
}

pub fn lower_exec(c: char) -> (r: char)
    ensures
        r == lower(c),
{
    if 'A' <= c && c <= 'Z' {
        let u: u32 = c as u32;
        let v: u8 = (u + 32) as u8;
        v as char
    } else {
        c
    }
}

/// Scan state after the characters `s`: the finished words and the word in progress.
pub open spec fn scan_words(s: Seq<char>) -> (Seq<Seq<char>>, Seq<char>)
    decreases s.len(),
{
    if s.len() == 0 {
        (Seq::empty(), Seq::empty())
    } else {
        let (ws, cur) = scan_words(s.drop_last());
        let c = s.last();
        if letter(c) {
            (ws, cur.push(lower(c)))
        } else if cur.len() > 0 {
            (ws.push(cur), Seq::empty())
        } else {
            (ws, cur)
        }
    }
}

/// The maximal runs of ASCII letters of `s`, lowercased, in order.
pub open spec fn words_of(s: Seq<char>) -> Seq<Seq<char>> {
    let (ws, cur) = scan_words(s);
    if cur.len() > 0 { ws.push(cur) } else { ws }
}

fn ascii_lower_words(name: &str) -> (r: Vec<Vec<char>>)
    ensures
        r@.map_values(|w: Vec<char>| w@) == words_of(name@),
{
    let cs = chars_of(name);
    let mut words: Vec<Vec<char>> = Vec::new();
    let mut cur: Vec<char> = Vec::new();
    let mut i: usize = 0;
    while i < cs.len()
        invariant
            i <= cs.len(),
            cs@ == name@,
            (words@.map_values(|w: Vec<char>| w@), cur@) == scan_words(cs@.take(i as int)),
        decreases cs.len() - i,
    {
        let c = cs[i];
        let lc = lower_exec(c);
        assert(cs@.take(i + 1).drop_last() =~= cs@.take(i as int));
        assert(cs@.take(i + 1).last() == c);
        if 'a' <= lc && lc <= 'z' {
            cur.push(lc);
        } else if cur.len() > 0 {
            let ghost before = words@.map_values(|w: Vec<char>| w@);
            let ghost cv = cur@;
            words.push(cur);
            cur = Vec::new();
            assert(words@.map_values(|w: Vec<char>| w@) =~= before.push(cv));
            assert(cur@ =~= Seq::<char>::empty());
        }
        i = i + 1;
    }
    assert(cs@.take(cs.len() as int) =~= cs@);
    if cur.len() > 0 {
        let ghost before = words@.map_values(|w: Vec<char>| w@);
        let ghost cv = cur@;
        words.push(cur);
        assert(words@.map_values(|w: Vec<char>| w@) =~= before.push(cv));
    }
    words
}

/// Strict lexicographic order on character sequences.
pub open spec fn lex_lt(a: Seq<char>, b: Seq<char>) -> bool
    decreases a.len(),
{
    if a.len() == 0 {
        b.len() > 0
    } else if b.len() == 0 {
        false
    } else if a[0] < b[0] {
        true
    } else if a[0] > b[0] {
        false
    } else {
        lex_lt(a.drop_first(), b.drop_first())
    }
}

fn lex_lt_exec(a: &Vec<char>, b: &Vec<char>) -> (r: bool)
    ensures
        r == lex_lt(a@, b@),
{
    let mut i: usize = 0;
    assert(a@.skip(0) =~= a@);
    assert(b@.skip(0) =~= b@);
    while i < a.len() && i < b.len() && a[i] == b[i]
        invariant
            i <= a.len(),
            i <= b.len(),
            lex_lt(a@, b@) == lex_lt(a@.skip(i as int), b@.skip(i as int)),
        decreases a.len() - i,
    {
        assert(a@.skip(i as int).drop_first() =~= a@.skip(i + 1));
        assert(b@.skip(i as int).drop_first() =~= b@.skip(i + 1));
        i = i + 1;
    }
    if i == a.len() {
        i < b.len()
    } else if i == b.len() {
        false
    } else {
        a[i] < b[i]
    }
}

proof fn lemma_lex_irrefl(a: Seq<char>)
    ensures
        !lex_lt(a, a),
    decreases a.len(),
{
    if a.len() > 0 {
        lemma_lex_irrefl(a.drop_first());
    }
}

proof fn lemma_lex_total(a: Seq<char>, b: Seq<char>)
    ensures
        a != b ==> (lex_lt(a, b) || lex_lt(b, a)),
        !(lex_lt(a, b) && lex_lt(b, a)),
        !lex_lt(a, a),
    decreases a.len(),
{
    lemma_lex_irrefl(a);
    if a.len() > 0 && b.len() > 0 {
        lemma_lex_total(a.drop_first(), b.drop_first());
        if a[0] == b[0] && a.drop_first() == b.drop_first() {
            assert forall|q: int| 0 <= q < a.len() implies a[q] == b[q] by {
                if q > 0 {
                    assert(a.drop_first()[q - 1] == b.drop_first()[q - 1]);
                }
            }
            assert(a =~= b);
        }
    }
    if a.len() == 0 && b.len() == 0 {
        assert(a =~= b);
    }
}

/// The verdict of the grandiosity scorer.
#[derive(Clone, Debug, PartialEq, Eq)]
pub enum Grand {
    /// Names the operation honestly; carries the alphabetically first honest word.
    Honest(String),
    /// Sufficiently grand: accepted.
    Accepted,
    /// Insufficiently grand: rejected.
    Bland,
}

/// The grandiosity scorer: an honest word anywhere in the name (the alphabetically first
/// one is reported) rejects it; otherwise a grand word accepts it; otherwise it is bland.
pub fn grandiosity(name: &str) -> (g: Grand)
    ensures
        match g {
            Grand::Honest(w) => {
                &&& words_of(name@).contains(w@)
                &&& honest_word(w@)
                &&& forall|u: Seq<char>| #[trigger] words_of(name@).contains(u) && honest_word(u) ==> !lex_lt(u, w@)
            },
            Grand::Accepted => {
                &&& forall|u: Seq<char>| #[trigger] words_of(name@).contains(u) ==> !honest_word(u)
                &&& exists|u: Seq<char>| #[trigger] words_of(name@).contains(u) && grand_word(u)
            },
            Grand::Bland => forall|u: Seq<char>| #[trigger] words_of(name@).contains(u) ==> !honest_word(u) && !grand_word(u),
        },
{
    let words = ascii_lower_words(name);
    let ghost ws = words@.map_values(|w: Vec<char>| w@);
    let mut best: Option<usize> = None;
    let mut any_grand = false;
    let mut i: usize = 0;
    while i < words.len()
        invariant
            i <= words.len(),
            ws == words@.map_values(|w: Vec<char>| w@),
            ws == words_of(name@),
            match best {
                Some(b) => {
                    &&& b < i
                    &&& honest_word(ws[b as int])
                    &&& forall|j: int| 0 <= j < i && honest_word(#[trigger] ws[j]) ==> !lex_lt(ws[j], ws[b as int])
                },
                None => forall|j: int| 0 <= j < i ==> !honest_word(#[trigger] ws[j]),
            },
            any_grand == exists|j: int| 0 <= j < i && grand_word(#[trigger] ws[j]),
        decreases words.len() - i,
    {
        assert(ws[i as int] == words@[i as int]@);
        if is_honest(&words[i]) {
            match best {
                Some(b) => {
                    if lex_lt_exec(&words[i], &words[b]) {
                        proof {
                            assert forall|j: int| 0 <= j < i + 1 && honest_word(#[trigger] ws[j]) implies !lex_lt(ws[j], ws[i as int]) by {
                                lemma_lex_total(ws[j], ws[i as int]);
                                lemma_lex_total(ws[j], ws[b as int]);
                                lemma_lex_trans(ws[i as int], ws[b as int], ws[j]);
                            }
                        }
                        best = Some(i);
                    } else {
                        proof {
                            lemma_lex_total(ws[i as int], ws[b as int]);
                        }
                    }
                },
                None => {
                    proof {
                        lemma_lex_total(ws[i as int], ws[i as int]);
                    }
                    best = Some(i);
                },
            }
        }
        if is_grand(&words[i]) {
            any_grand = true;
        }
        i = i + 1;
    }
    match best {
        Some(b) => {
            let mut w = String::new();
            let mut k: usize = 0;
            while k < words[b].len()
                invariant
                    b < words.len(),
                    k <= words@[b as int].len(),
                    w@ == words@[b as int]@.take(k as int),
                decreases words@[b as int].len() - k,
            {
                push_char(&mut w, words[b][k]);
                k = k + 1;
                assert(w@ =~= words@[b as int]@.take(k as int));
            }
            assert(words@[b as int]@.take(words@[b as int].len() as int) =~= words@[b as int]@);
            proof {
                assert(words_of(name@).contains(w@)) by {
                    assert(ws[b as int] == w@);
                }
                assert forall|u: Seq<char>| #[trigger] words_of(name@).contains(u) && honest_word(u) implies !lex_lt(u, w@) by {
                    let j = choose|j: int| 0 <= j < ws.len() && ws[j] == u;
                    assert(honest_word(ws[j]));
                }
            }
            Grand::Honest(w)
        },
        None => {
            if any_grand {
                proof {
                    let j = choose|j: int| 0 <= j < words.len() && grand_word(#[trigger] ws[j]);
                    assert(words_of(name@).contains(ws[j]));
                }
                Grand::Accepted
            } else {
                Grand::Bland
            }
        },
    }
}

proof fn lemma_lex_trans(a: Seq<char>, b: Seq<char>, c: Seq<char>)
    ensures
        lex_lt(a, b) && lex_lt(c, a) ==> lex_lt(c, b),
    decreases a.len(),
{
    if a.len() > 0 && b.len() > 0 && c.len() > 0 {
        lemma_lex_trans(a.drop_first(), b.drop_first(), c.drop_first());
    }
}

} // verus!
