//! The initial prompt that biases speech recognition toward dictionary terms.
use vstd::prelude::*;

use crate::text::{
    append_chars, byte_len, chars_eq, chars_of, eq_ignore_case, is_ws, join, lacks,
    lemma_byte_len_concat, lemma_str_lt_irreflexive, lemma_subrange_lacks, lemma_trim_shape, lemma_str_lt_total, lemma_str_lt_transitive, lower,
    remove_char, remove_char_chars, str_less, str_lt, string_of, to_lower, trim, trim_chars,
    utf8_len,
};

verus! {

pub const MAX_PROMPT_TERMS: usize = 80;

pub const MAX_PROMPT_CHARS: usize = 1_200;

/// The sentence that introduces the vocabulary list.
pub open spec fn prompt_prefix() -> Seq<char> {
    "Use these custom vocabulary terms exactly when heard: "@
}

/// The separator between listed terms.
pub open spec fn term_separator() -> Seq<char> {
    ", "@
}

/// The character views of a sequence of character vectors.
pub open spec fn views(v: Seq<Vec<char>>) -> Seq<Seq<char>> {
    v.map_values(|w: Vec<char>| w@)
}

/// The character views of a sequence of strings.
pub open spec fn string_views(v: Seq<String>) -> Seq<Seq<char>> {
    v.map_values(|w: String| w@)
}

/// A term with NUL characters removed and surrounding whitespace trimmed.
pub open spec fn clean_term(t: Seq<char>) -> Seq<char> {
    trim(remove_char(t, '\0'))
}

/// The cleaned terms, in input order, with the ones that became empty left out.
pub open spec fn cleaned_terms(ts: Seq<Seq<char>>) -> Seq<Seq<char>>
    decreases ts.len(),
{
    if ts.len() == 0 {
        Seq::empty()
    } else {
        let prev = cleaned_terms(ts.drop_last());
        let c = clean_term(ts.last());
        if c.len() == 0 {
            prev
        } else {
            prev.push(c)
        }
    }
}

/// No earlier term of `cs` has the key (ASCII-lowercase form) of `cs[j]`.
pub open spec fn first_with_key(cs: Seq<Seq<char>>, j: int) -> bool {
    forall|m: int| 0 <= m < j ==> lower(#[trigger] cs[m]) != lower(cs[j])
}

/// `t` is the first term of `cs` with its key.
pub open spec fn is_first_term(cs: Seq<Seq<char>>, t: Seq<char>) -> bool {
    exists|j: int| 0 <= j < cs.len() && cs[j] == t && first_with_key(cs, j)
}

/// Some term of `v` has the key `key`.
pub open spec fn key_listed(v: Seq<Seq<char>>, key: Seq<char>) -> bool {
    exists|a: int| 0 <= a < v.len() && lower(v[a]) == key
}

/// `v` lists one term per distinct key of `cs` (the first term with that key),
/// ordered by strictly increasing key.
pub open spec fn is_vocabulary(cs: Seq<Seq<char>>, v: Seq<Seq<char>>) -> bool {
    &&& forall|a: int, b: int|
        0 <= a < b < v.len() ==> str_lt(lower(#[trigger] v[a]), lower(#[trigger] v[b]))
    &&& forall|a: int| 0 <= a < v.len() ==> #[trigger] is_first_term(cs, v[a])
    &&& forall|j: int| 0 <= j < cs.len() ==> #[trigger] key_listed(v, lower(cs[j]))
}

/// Whether the term `v[n]` still fits after the first `n` terms have been listed.
pub open spec fn fits_next(v: Seq<Seq<char>>, n: int) -> bool {
    byte_len(prompt_prefix()) + byte_len(join(v.take(n), term_separator())) + byte_len(v[n]) + 2
        <= MAX_PROMPT_CHARS
}

/// The number of terms listed when listing greedily from index `n` on.
pub open spec fn selected_from(v: Seq<Seq<char>>, n: nat) -> nat
    decreases v.len() - n,
{
    if n >= v.len() || n >= MAX_PROMPT_TERMS || !fits_next(v, n as int) {
        n
    } else {
        selected_from(v, n + 1)
    }
}

/// The number of vocabulary terms that the prompt lists.
pub open spec fn selected_count(v: Seq<Seq<char>>) -> nat {
    selected_from(v, 0)
}

/// The prompt for the vocabulary `v`, or `None` when no term can be listed.
pub open spec fn render_prompt(v: Seq<Seq<char>>) -> Option<Seq<char>> {
    let n = selected_count(v);
    if n == 0 {
        None
    } else {
        Some(prompt_prefix() + join(v.take(n as int), term_separator()) + seq!['.'])
    }
}

/// The view of an optional string.
pub open spec fn opt_view(r: Option<String>) -> Option<Seq<char>> {
    match r {
        Some(s) => Some(s@),
        None => None,
    }
}

// ---------------------------------------------------------------------------
// Lemmas

proof fn lemma_selected_from_bounds(v: Seq<Seq<char>>, n: nat)
    ensures
        selected_from(v, n) >= n,
        n <= v.len() && n <= MAX_PROMPT_TERMS ==> selected_from(v, n) <= v.len() && selected_from(
            v,
            n,
        ) <= MAX_PROMPT_TERMS,
        forall|k: int|
            n <= k < selected_from(v, n) ==> fits_next(v, k) && k < v.len() && k < MAX_PROMPT_TERMS,
    decreases v.len() - n,
{
    if !(n >= v.len() || n >= MAX_PROMPT_TERMS || !fits_next(v, n as int)) {
        lemma_selected_from_bounds(v, n + 1);
    }
}

proof fn lemma_join_push(parts: Seq<Seq<char>>, sep: Seq<char>, n: int)
    requires
        0 <= n < parts.len(),
    ensures
        n == 0 ==> join(parts.take(n + 1), sep) == parts[n],
        n > 0 ==> join(parts.take(n + 1), sep) == join(parts.take(n), sep) + sep + parts[n],
{
    assert(parts.take(n + 1).drop_last() =~= parts.take(n));
    if n == 0 {
        assert(parts.take(1).len() == 1);
    }
}

/// The byte length of `join(parts.take(n), sep)` bounds every step of the greedy listing.
proof fn lemma_join_len_step(parts: Seq<Seq<char>>, sep: Seq<char>, n: int)
    requires
        0 <= n < parts.len(),
    ensures
        n == 0 ==> byte_len(join(parts.take(n + 1), sep)) == byte_len(parts[n]),
        n > 0 ==> byte_len(join(parts.take(n + 1), sep)) == byte_len(join(parts.take(n), sep))
            + byte_len(sep) + byte_len(parts[n]),
{
    lemma_join_push(parts, sep, n);
    if n > 0 {
        lemma_byte_len_concat(join(parts.take(n), sep), sep);
        lemma_byte_len_concat(join(parts.take(n), sep) + sep, parts[n]);
    }
}

/// An ASCII text has one byte per character.
proof fn lemma_ascii_byte_len(s: Seq<char>)
    requires
        forall|i: int| 0 <= i < s.len() ==> (#[trigger] s[i] as u32) <= 0x7F,
    ensures
        byte_len(s) == s.len(),
    decreases s.len(),
{
    if s.len() > 0 {
        assert forall|i: int| 0 <= i < s.drop_first().len() implies (#[trigger] s.drop_first()[i]
            as u32) <= 0x7F by {
            assert(s.drop_first()[i] == s[i + 1]);
        }
        lemma_ascii_byte_len(s.drop_first());
        assert(vstd::utf8::encode_scalar(s[0] as u32).len() == 1);
    }
}

/// Two strictly sorted sequences with the same elements are equal.
proof fn lemma_sorted_equal(k1: Seq<Seq<char>>, k2: Seq<Seq<char>>)
    requires
        sorted_keys(k1),
        sorted_keys(k2),
        forall|a: int| 0 <= a < k1.len() ==> #[trigger] k2.contains(k1[a]),
        forall|b: int| 0 <= b < k2.len() ==> #[trigger] k1.contains(k2[b]),
    ensures
        k1 == k2,
    decreases k1.len(),
{
    if k1.len() == 0 {
        if k2.len() > 0 {
            assert(k1.contains(k2[0]));
        }
        assert(k1 =~= k2);
    } else if k2.len() == 0 {
        assert(k2.contains(k1[0]));
    } else {
        assert(k2.contains(k1[0]));
        let b0 = choose|b: int| 0 <= b < k2.len() && k2[b] == k1[0];
        assert(k1.contains(k2[0]));
        let a0 = choose|a: int| 0 <= a < k1.len() && k1[a] == k2[0];
        if b0 > 0 {
            assert(str_lt(k2[0], k2[b0]));
            if a0 > 0 {
                assert(str_lt(k1[0], k1[a0]));
                lemma_str_lt_transitive(k2[0], k1[0], k2[0]);
            }
            lemma_str_lt_irreflexive(k2[0]);
        }
        assert(k1[0] == k2[0]);
        let r1 = k1.drop_first();
        let r2 = k2.drop_first();
        assert forall|a: int, b: int| 0 <= a < b < r1.len() implies str_lt(
            #[trigger] r1[a],
            #[trigger] r1[b],
        ) by {
            assert(str_lt(k1[a + 1], k1[b + 1]));
        }
        assert forall|a: int, b: int| 0 <= a < b < r2.len() implies str_lt(
            #[trigger] r2[a],
            #[trigger] r2[b],
        ) by {
            assert(str_lt(k2[a + 1], k2[b + 1]));
        }
        assert forall|a: int| 0 <= a < r1.len() implies #[trigger] r2.contains(r1[a]) by {
            assert(k2.contains(k1[a + 1]));
            let b = choose|b: int| 0 <= b < k2.len() && k2[b] == k1[a + 1];
            assert(str_lt(k1[0], k1[a + 1]));
            if b == 0 {
                lemma_str_lt_irreflexive(k1[0]);
            }
            assert(r2[b - 1] == r1[a]);
        }
        assert forall|b: int| 0 <= b < r2.len() implies #[trigger] r1.contains(r2[b]) by {
            assert(k1.contains(k2[b + 1]));
            let a = choose|a: int| 0 <= a < k1.len() && k1[a] == k2[b + 1];
            assert(str_lt(k2[0], k2[b + 1]));
            if a == 0 {
                lemma_str_lt_irreflexive(k2[0]);
            }
            assert(r1[a - 1] == r2[b]);
        }
        lemma_sorted_equal(r1, r2);
        assert(k1 =~= seq![k1[0]] + r1);
        assert(k2 =~= seq![k2[0]] + r2);
    }
}

/// The key sequence of a vocabulary.
pub open spec fn keys_of(v: Seq<Seq<char>>) -> Seq<Seq<char>> {
    v.map_values(|t: Seq<char>| lower(t))
}

/// A vocabulary term and a term of another vocabulary of the same terms, with the
/// same key, are the same term.
proof fn lemma_same_key_same_term(
    cs: Seq<Seq<char>>,
    v1: Seq<Seq<char>>,
    v2: Seq<Seq<char>>,
    a: int,
    b: int,
)
    requires
        is_vocabulary(cs, v1),
        is_vocabulary(cs, v2),
        0 <= a < v1.len(),
        0 <= b < v2.len(),
        lower(v1[a]) == lower(v2[b]),
    ensures
        v1[a] == v2[b],
{
    assert(is_first_term(cs, v1[a]));
    assert(is_first_term(cs, v2[b]));
    let j1 = choose|j: int| 0 <= j < cs.len() && cs[j] == v1[a] && first_with_key(cs, j);
    let j2 = choose|j: int| 0 <= j < cs.len() && cs[j] == v2[b] && first_with_key(cs, j);
    if j1 < j2 {
        assert(lower(cs[j1]) != lower(cs[j2]));
    } else if j2 < j1 {
        assert(lower(cs[j2]) != lower(cs[j1]));
    }
}

/// Every key of one vocabulary is a key of another vocabulary of the same terms.
proof fn lemma_keys_shared(cs: Seq<Seq<char>>, v1: Seq<Seq<char>>, v2: Seq<Seq<char>>)
    requires
        is_vocabulary(cs, v1),
        is_vocabulary(cs, v2),
    ensures
        sorted_keys(keys_of(v1)),
        forall|a: int| 0 <= a < v1.len() ==> #[trigger] keys_of(v2).contains(keys_of(v1)[a]),
{
    let k1 = keys_of(v1);
    assert forall|a: int, b: int| 0 <= a < b < k1.len() implies str_lt(
        #[trigger] k1[a],
        #[trigger] k1[b],
    ) by {
        assert(str_lt(lower(v1[a]), lower(v1[b])));
    }
    assert forall|a: int| 0 <= a < v1.len() implies #[trigger] keys_of(v2).contains(
        keys_of(v1)[a],
    ) by {
        assert(is_first_term(cs, v1[a]));
        let j = choose|j: int| 0 <= j < cs.len() && cs[j] == v1[a] && first_with_key(cs, j);
        assert(key_listed(v2, lower(cs[j])));
        let b = choose|b: int| 0 <= b < v2.len() && lower(v2[b]) == lower(cs[j]);
        assert(keys_of(v2)[b] == keys_of(v1)[a]);
    }
}

/// Two vocabularies of the same terms are the same sequence: the vocabulary, and so
/// the prompt, is determined by the terms.
pub proof fn lemma_vocabulary_unique(cs: Seq<Seq<char>>, v1: Seq<Seq<char>>, v2: Seq<Seq<char>>)
    requires
        is_vocabulary(cs, v1),
        is_vocabulary(cs, v2),
    ensures
        v1 == v2,
{
    lemma_keys_shared(cs, v1, v2);
    lemma_keys_shared(cs, v2, v1);
    let k1 = keys_of(v1);
    let k2 = keys_of(v2);
    assert forall|a: int| 0 <= a < k1.len() implies #[trigger] k2.contains(k1[a]) by {
        assert(keys_of(v2).contains(keys_of(v1)[a]));
    }
    assert forall|b: int| 0 <= b < k2.len() implies #[trigger] k1.contains(k2[b]) by {
        assert(keys_of(v1).contains(keys_of(v2)[b]));
    }
    lemma_sorted_equal(k1, k2);
    assert forall|a: int| 0 <= a < v1.len() implies #[trigger] v1[a] == v2[a] by {
        assert(k1[a] == k2[a]);
        lemma_same_key_same_term(cs, v1, v2, a, a);
    }
    assert(v1 =~= v2);
}

// ---------------------------------------------------------------------------
// Laws

/// The prompt is never longer than the character budget plus its closing period.
pub proof fn law_prompt_within_budget(v: Seq<Seq<char>>)
    ensures
        render_prompt(v) matches Some(p) ==> byte_len(p) <= MAX_PROMPT_CHARS + 1,
{
    let n = selected_count(v);
    lemma_selected_from_bounds(v, 0);
    if n > 0 {
        let k = n - 1;
        assert(fits_next(v, k as int));
        let sep = term_separator();
        lemma_join_len_step(v, sep, k as int);
        if k > 0 {
            reveal_strlit(", ");
            assert(sep.len() == 2);
            lemma_ascii_byte_len(sep);
        }
        let body = join(v.take(n as int), sep);
        lemma_byte_len_concat(prompt_prefix(), body);
        lemma_byte_len_concat(prompt_prefix() + body, seq!['.']);
        lemma_ascii_byte_len(seq!['.']);
    }
}

/// The listed terms are distinct when ASCII case is ignored, each one is a cleaned
/// input term, and there are at most `MAX_PROMPT_TERMS` of them.
pub proof fn law_prompt_terms_distinct(cs: Seq<Seq<char>>, v: Seq<Seq<char>>)
    requires
        is_vocabulary(cs, v),
    ensures
        selected_count(v) <= MAX_PROMPT_TERMS,
        selected_count(v) <= v.len(),
        forall|a: int, b: int|
            0 <= a < b < selected_count(v) ==> !eq_ignore_case(#[trigger] v[a], #[trigger] v[b]),
        forall|a: int| 0 <= a < selected_count(v) ==> #[trigger] cs.contains(v[a]),
{
    lemma_selected_from_bounds(v, 0);
    assert forall|a: int, b: int| 0 <= a < b < selected_count(v) implies !eq_ignore_case(
        #[trigger] v[a],
        #[trigger] v[b],
    ) by {
        assert(str_lt(lower(v[a]), lower(v[b])));
        lemma_str_lt_irreflexive(lower(v[a]));
    }
    assert forall|a: int| 0 <= a < selected_count(v) implies #[trigger] cs.contains(v[a]) by {
        assert(is_first_term(cs, v[a]));
        let j = choose|j: int| 0 <= j < cs.len() && cs[j] == v[a] && first_with_key(cs, j);
    }
}


proof fn lemma_remove_char_lacks(s: Seq<char>, c: char)
    ensures
        lacks(remove_char(s, c), c),
    decreases s.len(),
{
    if s.len() > 0 {
        lemma_remove_char_lacks(s.drop_last(), c);
    }
}

/// Each cleaned term is a non-empty cleaned input, and each input whose cleaned form
/// is non-empty is among the cleaned terms.
proof fn lemma_cleaned_terms_from_inputs(ts: Seq<Seq<char>>)
    ensures
        forall|k: int|
            0 <= k < cleaned_terms(ts).len() ==> (#[trigger] cleaned_terms(ts)[k]).len() > 0 && exists|
                j: int,
            |
                0 <= j < ts.len() && cleaned_terms(ts)[k] == trim(remove_char(#[trigger] ts[j], '\0')),
        forall|j: int|
            0 <= j < ts.len() && trim(remove_char(#[trigger] ts[j], '\0')).len() > 0
                ==> cleaned_terms(ts).contains(trim(remove_char(ts[j], '\0'))),
    decreases ts.len(),
{
    if ts.len() > 0 {
        let init = ts.drop_last();
        lemma_cleaned_terms_from_inputs(init);
        let prev = cleaned_terms(init);
        let cs = cleaned_terms(ts);
        let c = trim(remove_char(ts.last(), '\0'));
        assert forall|k: int| 0 <= k < cs.len() implies (#[trigger] cs[k]).len() > 0 && exists|j: int|
            0 <= j < ts.len() && cs[k] == trim(remove_char(#[trigger] ts[j], '\0')) by {
            if k < prev.len() {
                assert(cs[k] == prev[k]);
                let j = choose|j: int| 0 <= j < init.len() && prev[k] == trim(remove_char(#[trigger] init[j], '\0'));
                assert(ts[j] == init[j]);
            } else {
                assert(cs[k] == c);
                assert(ts[ts.len() - 1] == ts.last());
            }
        }
        assert forall|j: int|
            0 <= j < ts.len() && trim(remove_char(#[trigger] ts[j], '\0')).len() > 0
            implies cs.contains(trim(remove_char(ts[j], '\0'))) by {
            if j < init.len() {
                assert(ts[j] == init[j]);
                let k = choose|k: int| 0 <= k < prev.len() && prev[k] == trim(remove_char(init[j], '\0'));
                assert(cs[k] == prev[k]);
            } else {
                assert(ts[j] == ts.last());
                assert(cs[cs.len() - 1] == c);
            }
        }
    }
}

/// What the prompt lists comes from the dictionary terms, cleaned: every listed
/// term is non-empty, free of NUL characters and of whitespace at either end, and
/// is some input term with its NULs removed and its ends trimmed; every input term
/// that is not blank once cleaned has its lowercase form listed; and no two listed
/// terms share a lowercase form, so inputs that agree once cleaned and lowercased
/// (such as `Tauri` and ` tauri `) are listed once.
pub proof fn law_vocabulary_from_cleaned_inputs(ts: Seq<Seq<char>>, v: Seq<Seq<char>>)
    requires
        is_vocabulary(cleaned_terms(ts), v),
    ensures
        forall|a: int|
            0 <= a < v.len() ==> {
                &&& (#[trigger] v[a]).len() > 0
                &&& !is_ws(v[a][0])
                &&& !is_ws(v[a].last())
                &&& lacks(v[a], '\0')
                &&& exists|j: int| 0 <= j < ts.len() && v[a] == trim(remove_char(#[trigger] ts[j], '\0'))
            },
        forall|j: int|
            0 <= j < ts.len() && trim(remove_char(#[trigger] ts[j], '\0')).len() > 0 ==> exists|a: int|
                0 <= a < v.len() && lower(#[trigger] v[a]) == lower(trim(remove_char(ts[j], '\0'))),
        forall|a: int, b: int|
            0 <= a < b < v.len() ==> lower(#[trigger] v[a]) != lower(#[trigger] v[b]),
{
    let cs = cleaned_terms(ts);
    lemma_cleaned_terms_from_inputs(ts);
    assert forall|a: int| 0 <= a < v.len() implies {
        &&& (#[trigger] v[a]).len() > 0
        &&& !is_ws(v[a][0])
        &&& !is_ws(v[a].last())
        &&& lacks(v[a], '\0')
        &&& exists|j: int| 0 <= j < ts.len() && v[a] == trim(remove_char(#[trigger] ts[j], '\0'))
    } by {
        assert(is_first_term(cs, v[a]));
        let k = choose|k: int| 0 <= k < cs.len() && cs[k] == v[a] && first_with_key(cs, k);
        assert(cs[k].len() > 0);
        let j = choose|j: int| 0 <= j < ts.len() && cs[k] == trim(remove_char(#[trigger] ts[j], '\0'));
        let r = remove_char(ts[j], '\0');
        lemma_trim_shape(r);
        lemma_remove_char_lacks(ts[j], '\0');
        let (x, y) = choose|x: int, y: int| 0 <= x <= y <= r.len() && trim(r) == r.subrange(x, y);
        lemma_subrange_lacks(r, '\0', x, y);
    }
    assert forall|j: int|
        0 <= j < ts.len() && trim(remove_char(#[trigger] ts[j], '\0')).len() > 0 implies exists|a: int|
        0 <= a < v.len() && lower(#[trigger] v[a]) == lower(trim(remove_char(ts[j], '\0'))) by {
        let c = trim(remove_char(ts[j], '\0'));
        assert(cs.contains(c));
        let k = choose|k: int| 0 <= k < cs.len() && cs[k] == c;
        assert(key_listed(v, lower(cs[k])));
    }
    assert forall|a: int, b: int| 0 <= a < b < v.len() implies lower(#[trigger] v[a]) != lower(
        #[trigger] v[b],
    ) by {
        assert(str_lt(lower(v[a]), lower(v[b])));
        lemma_str_lt_irreflexive(lower(v[a]));
    }
}

// ---------------------------------------------------------------------------
// Executable code

fn copy_chars(v: &[char]) -> (r: Vec<char>)
    ensures
        r@ == v@,
{
    let mut r: Vec<char> = Vec::new();
    append_chars(&mut r, v);
    r
}

/// `keys` is strictly increasing.
pub open spec fn sorted_keys(keys: Seq<Seq<char>>) -> bool {
    forall|a: int, b: int| 0 <= a < b < keys.len() ==> str_lt(#[trigger] keys[a], #[trigger] keys[b])
}

/// Inserting `k` at `p` keeps `keys` sorted when `k` falls strictly between its neighbours,
/// and `k` differs from every old key.
proof fn lemma_insert_sorted(keys: Seq<Seq<char>>, k: Seq<char>, p: int)
    requires
        sorted_keys(keys),
        0 <= p <= keys.len(),
        forall|m: int| 0 <= m < p ==> str_lt(#[trigger] keys[m], k),
        p < keys.len() ==> !str_lt(keys[p], k) && keys[p] != k,
    ensures
        sorted_keys(keys.insert(p, k)),
        forall|m: int| 0 <= m < keys.len() ==> #[trigger] keys[m] != k,
{
    assert forall|m: int| p <= m < keys.len() implies str_lt(k, #[trigger] keys[m]) by {
        lemma_str_lt_total(keys[p], k);
        if m > p {
            assert(str_lt(keys[p], keys[m]));
            lemma_str_lt_transitive(k, keys[p], keys[m]);
        }
    }
    assert forall|m: int| 0 <= m < keys.len() implies #[trigger] keys[m] != k by {
        lemma_str_lt_irreflexive(k);
        if m < p {
            assert(str_lt(keys[m], k));
        } else {
            assert(str_lt(k, keys[m]));
        }
    }
    let nk = keys.insert(p, k);
    assert forall|a: int, b: int| 0 <= a < b < nk.len() implies str_lt(
        #[trigger] nk[a],
        #[trigger] nk[b],
    ) by {
        if b < p {
            assert(str_lt(keys[a], keys[b]));
        } else if b == p {
            assert(str_lt(keys[a], k));
        } else if a < p {
            assert(str_lt(keys[a], k));
            assert(str_lt(k, keys[b - 1]));
            lemma_str_lt_transitive(keys[a], k, keys[b - 1]);
        } else if a == p {
            assert(str_lt(k, keys[b - 1]));
        } else {
            assert(str_lt(keys[a - 1], keys[b - 1]));
        }
    }
}

/// The vocabulary of the cleaned terms `cs`: one term per distinct key, the first
/// one with that key, ordered by key. This is what a stable sort by key followed by
/// removal of adjacent equal keys produces.
fn vocabulary_of(cs: &Vec<Vec<char>>) -> (r: Vec<Vec<char>>)
    ensures
        is_vocabulary(views(cs@), views(r@)),
{
    let ghost c = views(cs@);
    let mut vocab: Vec<Vec<char>> = Vec::new();
    let mut keys: Vec<Vec<char>> = Vec::new();
    // src[m]: the index in `c` of the term vocab[m]
    let ghost mut src: Seq<int> = Seq::empty();
    // pos[j]: the index in `keys` of the key of c[j]
    let ghost mut pos: Seq<int> = Seq::empty();
    let mut i: usize = 0;
    while i < cs.len()
        invariant
            c == views(cs@),
            i <= cs.len(),
            vocab@.len() == keys@.len(),
            src.len() == vocab@.len(),
            pos.len() == i,
            forall|m: int| 0 <= m < keys@.len() ==> (#[trigger] keys@[m])@ == lower(vocab@[m]@),
            sorted_keys(views(keys@)),
            forall|m: int|
                0 <= m < vocab@.len() ==> 0 <= #[trigger] src[m] < i && c[src[m]] == vocab@[m]@
                    && first_with_key(c, src[m]),
            forall|j: int|
                0 <= j < i ==> 0 <= #[trigger] pos[j] < keys@.len() && keys@[pos[j]]@ == lower(
                    c[j],
                ),
        decreases cs.len() - i,
    {
        let k = to_lower(cs[i].as_slice());
        let mut p: usize = 0;
        while p < keys.len() && str_less(keys[p].as_slice(), k.as_slice())
            invariant
                p <= keys@.len(),
                forall|m: int| 0 <= m < p ==> str_lt((#[trigger] keys@[m])@, k@),
            decreases keys@.len() - p,
        {
            p += 1;
        }
        let dup = p < keys.len() && chars_eq(keys[p].as_slice(), k.as_slice());
        if dup {
            proof {
                pos = pos.push(p as int);
            }
        } else {
            let ghost old_keys = keys@;
            let ghost old_vocab = vocab@;
            let ghost old_src = src;
            let ghost old_pos = pos;
            proof {
                let vk = views(keys@);
                assert forall|m: int| 0 <= m < p implies str_lt(#[trigger] vk[m], k@) by {
                    assert(str_lt(keys@[m]@, k@));
                }
                lemma_insert_sorted(vk, k@, p as int);
                assert(views(keys@).insert(p as int, k@) =~= views(keys@.insert(p as int, k)));
                // No earlier term has key k.
                assert forall|m: int| 0 <= m < i implies lower(#[trigger] c[m]) != lower(
                    c[i as int],
                ) by {
                    assert(vk[pos[m]] != k@);
                }
            }
            let t = copy_chars(cs[i].as_slice());
            keys.insert(p, k);
            vocab.insert(p, t);
            proof {
                src = src.insert(p as int, i as int);
                pos = old_pos.map_values(|q: int| if q >= p { q + 1 } else { q }).push(p as int);
                assert forall|m: int| 0 <= m < keys@.len() implies (#[trigger] keys@[m])@ == lower(
                    vocab@[m]@,
                ) by {
                    if m < p {
                        assert(keys@[m] == old_keys[m]);
                    } else if m > p {
                        assert(keys@[m] == old_keys[m - 1]);
                    }
                }
                assert forall|m: int| 0 <= m < vocab@.len() implies 0 <= #[trigger] src[m] < i + 1
                    && c[src[m]] == vocab@[m]@ && first_with_key(c, src[m]) by {
                    if m < p {
                        assert(src[m] == old_src[m]);
                        assert(vocab@[m] == old_vocab[m]);
                    } else if m > p {
                        assert(src[m] == old_src[m - 1]);
                        assert(vocab@[m] == old_vocab[m - 1]);
                    } else {
                        assert(c[i as int] == cs@[i as int]@);
                    }
                }
                assert forall|j: int| 0 <= j < i + 1 implies 0 <= #[trigger] pos[j] < keys@.len()
                    && keys@[pos[j]]@ == lower(c[j]) by {
                    if j < i {
                        let q = old_pos[j];
                        if q < p {
                            assert(keys@[q] == old_keys[q]);
                        } else {
                            assert(keys@[q + 1] == old_keys[q]);
                        }
                    }
                }
            }
        }
        i += 1;
    }
    proof {
        let v = views(vocab@);
        assert forall|a: int, b: int| 0 <= a < b < v.len() implies str_lt(
            lower(#[trigger] v[a]),
            lower(#[trigger] v[b]),
        ) by {
            assert(views(keys@)[a] == keys@[a]@);
            assert(views(keys@)[b] == keys@[b]@);
        }
        assert forall|a: int| 0 <= a < v.len() implies #[trigger] is_first_term(c, v[a]) by {
            assert(c[src[a]] == v[a]);
        }
        assert forall|j: int| 0 <= j < c.len() implies #[trigger] key_listed(v, lower(c[j])) by {
            assert(lower(v[pos[j]]) == keys@[pos[j]]@);
        }
    }
    vocab
}

/// The cleaned forms of the non-empty terms.
fn clean_all(terms: &[String]) -> (r: Vec<Vec<char>>)
    ensures
        views(r@) == cleaned_terms(string_views(terms@)),
{
    let ghost ts = string_views(terms@);
    let mut cleaned: Vec<Vec<char>> = Vec::new();
    let mut i: usize = 0;
    while i < terms.len()
        invariant
            i <= terms.len(),
            ts == string_views(terms@),
            views(cleaned@) == cleaned_terms(ts.take(i as int)),
        decreases terms.len() - i,
    {
        let t = chars_of(terms[i].as_str());
        let without_nul = remove_char_chars(t.as_slice(), '\0');
        let c = trim_chars(without_nul.as_slice());
        assert(ts.take(i + 1).drop_last() =~= ts.take(i as int));
        if c.len() > 0 {
            cleaned.push(c);
            assert(views(cleaned@) =~= cleaned_terms(ts.take(i + 1)));
        } else {
            assert(views(cleaned@) =~= cleaned_terms(ts.take(i + 1)));
        }
        i += 1;
    }
    assert(ts.take(terms@.len() as int) =~= ts);
    cleaned
}

/// The prompt listing the vocabulary `vocab` greedily.
fn render(vocab: &Vec<Vec<char>>) -> (r: Option<String>)
    ensures
        opt_view(r) == render_prompt(views(vocab@)),
{
    let ghost v = views(vocab@);
    let prefix = chars_of("Use these custom vocabulary terms exactly when heard: ");
    let sep = chars_of(", ");
    let prefix_len = utf8_len(prefix.as_slice());
    let mut joined: Vec<char> = Vec::new();
    let mut n: usize = 0;
    let mut stop = false;
    proof {
        assert(v.take(0) =~= Seq::<Seq<char>>::empty());
    }
    while n < vocab.len() && n < MAX_PROMPT_TERMS && !stop
        invariant
            v == views(vocab@),
            prefix@ == prompt_prefix(),
            sep@ == term_separator(),
            byte_len(prefix@) <= usize::MAX ==> prefix_len == byte_len(prefix@),
            byte_len(prefix@) > usize::MAX ==> prefix_len == usize::MAX,
            n <= vocab@.len(),
            n <= MAX_PROMPT_TERMS,
            joined@ == join(v.take(n as int), sep@),
            stop ==> selected_count(v) == n,
            !stop ==> selected_count(v) == selected_from(v, n as nat),
        decreases vocab@.len() - n + (if stop { 0int } else { 1int }),
    {
        let joined_len = utf8_len(joined.as_slice());
        let term_len = utf8_len(vocab[n].as_slice());
        let fits = prefix_len <= MAX_PROMPT_CHARS && joined_len <= MAX_PROMPT_CHARS && term_len
            <= MAX_PROMPT_CHARS && prefix_len + joined_len + term_len + 2 <= MAX_PROMPT_CHARS;
        assert(v[n as int] == vocab@[n as int]@);
        assert(fits == fits_next(v, n as int));
        if fits {
            proof {
                lemma_join_push(v, sep@, n as int);
            }
            if n > 0 {
                append_chars(&mut joined, sep.as_slice());
            }
            append_chars(&mut joined, vocab[n].as_slice());
            n += 1;
        } else {
            stop = true;
        }
    }
    if n == 0 {
        None
    } else {
        let mut out: Vec<char> = Vec::new();
        append_chars(&mut out, prefix.as_slice());
        append_chars(&mut out, joined.as_slice());
        out.push('.');
        assert(out@ =~= prompt_prefix() + join(v.take(n as int), term_separator()) + seq!['.']);
        Some(string_of(out.as_slice()))
    }
}

/// Builds the prompt that asks speech recognition to use the dictionary `terms`.
///
/// Terms are cleaned (NUL characters removed, whitespace trimmed), empty ones are
/// dropped, duplicates ignoring ASCII case are merged keeping the first, and the
/// rest are listed in order of their lowercase form, at most `MAX_PROMPT_TERMS`
/// of them, while the prompt stays within `MAX_PROMPT_CHARS` bytes.
pub fn build_initial_prompt(terms: &[String]) -> (r: Option<String>)
    ensures
        exists|v: Seq<Seq<char>>|
            is_vocabulary(cleaned_terms(string_views(terms@)), v) && opt_view(r)
                == render_prompt(v),
{
    let cleaned = clean_all(terms);
    let vocab = vocabulary_of(&cleaned);
    let r = render(&vocab);
    assert(is_vocabulary(cleaned_terms(string_views(terms@)), views(vocab@)));
    r
}

} // verus!
