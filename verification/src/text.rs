//! Character-level text operations shared by the transcript, hotkey and prompt logic.
//!
//! Strings are modelled by their `Seq<char>` views. Each spec function here mirrors the
//! behaviour of the corresponding `str` operation in std (`trim`, `split_whitespace`,
//! `split`, `join`, `replace`, `to_ascii_lowercase`), stated over characters.
use vstd::prelude::*;

verus! {

/// Unicode `White_Space`, the property that `char::is_whitespace` and `str::trim` use.
pub open spec fn is_ws(c: char) -> bool {
    let u = c as u32;
    ||| 9 <= u <= 13
    ||| u == 32
    ||| u == 0x85
    ||| u == 0xA0
    ||| u == 0x1680
    ||| 0x2000 <= u <= 0x200A
    ||| u == 0x2028
    ||| u == 0x2029
    ||| u == 0x202F
    ||| u == 0x205F
    ||| u == 0x3000
}

/// `s` with its leading whitespace removed.
pub open spec fn trim_start(s: Seq<char>) -> Seq<char>
    decreases s.len(),
{
    if s.len() > 0 && is_ws(s[0]) {
        trim_start(s.drop_first())
    } else {
        s
    }
}

/// `s` with its trailing whitespace removed.
pub open spec fn trim_end(s: Seq<char>) -> Seq<char>
    decreases s.len(),
{
    if s.len() > 0 && is_ws(s.last()) {
        trim_end(s.drop_last())
    } else {
        s
    }
}

/// `str::trim`.
pub open spec fn trim(s: Seq<char>) -> Seq<char> {
    trim_end(trim_start(s))
}

/// `s` with every occurrence of `c` removed (`str::replace(c, "")`).
pub open spec fn remove_char(s: Seq<char>, c: char) -> Seq<char>
    decreases s.len(),
{
    if s.len() == 0 {
        s
    } else if s.last() == c {
        remove_char(s.drop_last(), c)
    } else {
        remove_char(s.drop_last(), c).push(s.last())
    }
}

/// The maximal runs of non-whitespace characters of `s`, in order (`str::split_whitespace`).
pub open spec fn words(s: Seq<char>) -> Seq<Seq<char>>
    decreases s.len(),
{
    if s.len() == 0 {
        Seq::empty()
    } else {
        let prev = words(s.drop_last());
        let c = s.last();
        if is_ws(c) {
            prev
        } else if s.len() >= 2 && !is_ws(s[s.len() - 2]) {
            prev.update(prev.len() - 1, prev.last().push(c))
        } else {
            prev.push(seq![c])
        }
    }
}

/// `parts.join(sep)`.
pub open spec fn join(parts: Seq<Seq<char>>, sep: Seq<char>) -> Seq<char>
    decreases parts.len(),
{
    if parts.len() == 0 {
        Seq::empty()
    } else if parts.len() == 1 {
        parts[0]
    } else {
        join(parts.drop_last(), sep) + sep + parts.last()
    }
}

/// The pieces of `s` between occurrences of `c` (`str::split(c)`); never empty.
pub open spec fn split_char(s: Seq<char>, c: char) -> Seq<Seq<char>>
    decreases s.len(),
{
    if s.len() == 0 {
        seq![Seq::empty()]
    } else {
        let prev = split_char(s.drop_last(), c);
        if s.last() == c {
            prev.push(Seq::empty())
        } else {
            prev.update(prev.len() - 1, prev.last().push(s.last()))
        }
    }
}

/// `char::to_ascii_lowercase`.
pub open spec fn lower_char(c: char) -> char {
    if 'A' <= c <= 'Z' {
        ((c as u32 + 32) as u8) as char
    } else {
        c
    }
}

/// `char::to_ascii_uppercase`.
pub open spec fn upper_char(c: char) -> char {
    if 'a' <= c <= 'z' {
        ((c as u32 - 32) as u8) as char
    } else {
        c
    }
}

/// `str::to_ascii_lowercase`.
pub open spec fn lower(s: Seq<char>) -> Seq<char> {
    s.map_values(|c: char| lower_char(c))
}

/// `eq_ignore_ascii_case`.
pub open spec fn eq_ignore_case(a: Seq<char>, b: Seq<char>) -> bool {
    lower(a) == lower(b)
}

/// `pat` occurs in `s` starting at index `i`.
pub open spec fn occurs_at(s: Seq<char>, pat: Seq<char>, i: int) -> bool {
    0 <= i && i + pat.len() <= s.len() && s.subrange(i, i + pat.len()) == pat
}

/// `s.contains(pat)`.
pub open spec fn contains_sub(s: Seq<char>, pat: Seq<char>) -> bool {
    exists|i: int| occurs_at(s, pat, i)
}

/// The part of `s` before the first occurrence of `pat` (`s.split(pat).next()`).
pub open spec fn before_first(s: Seq<char>, pat: Seq<char>) -> Seq<char> {
    if contains_sub(s, pat) {
        let i = choose|i: int|
            occurs_at(s, pat, i) && forall|j: int| 0 <= j < i ==> !occurs_at(s, pat, j);
        s.take(i)
    } else {
        s
    }
}

/// Number of UTF-8 bytes of `s` (`str::len`).
pub open spec fn byte_len(s: Seq<char>) -> nat {
    vstd::utf8::encode_utf8(s).len()
}


/// Lexicographic order on character sequences: the order of `String`'s `Ord`
/// (UTF-8 byte order coincides with code point order).
pub open spec fn str_lt(a: Seq<char>, b: Seq<char>) -> bool
    decreases a.len(),
{
    if a.len() == 0 {
        b.len() > 0
    } else if b.len() == 0 {
        false
    } else if (a[0] as u32) < (b[0] as u32) {
        true
    } else if a[0] == b[0] {
        str_lt(a.drop_first(), b.drop_first())
    } else {
        false
    }
}

/// Number of UTF-8 bytes of one character.
pub open spec fn char_width(c: char) -> nat {
    vstd::utf8::encode_scalar(c as u32).len()
}

/// The decimal digit character of `d` (0 to 9).
pub open spec fn digit_char(d: nat) -> char {
    ((d + 48) as u8) as char
}

/// The decimal representation of `n` (`Display` for unsigned integers).
pub open spec fn decimal(n: nat) -> Seq<char>
    decreases n,
{
    if n < 10 {
        seq![digit_char(n)]
    } else {
        decimal(n / 10).push(digit_char(n % 10))
    }
}

/// The decimal representation of `n` with a leading `-` when negative (`Display`
/// for signed integers).
pub open spec fn decimal_signed(n: int) -> Seq<char> {
    if n < 0 {
        seq!['-'] + decimal((-n) as nat)
    } else {
        decimal(n as nat)
    }
}

// ---------------------------------------------------------------------------
// Lemmas

pub proof fn lemma_str_lt_irreflexive(a: Seq<char>)
    ensures
        !str_lt(a, a),
    decreases a.len(),
{
    if a.len() > 0 {
        lemma_str_lt_irreflexive(a.drop_first());
    }
}

pub proof fn lemma_str_lt_total(a: Seq<char>, b: Seq<char>)
    ensures
        str_lt(a, b) || a == b || str_lt(b, a),
    decreases a.len(),
{
    if a.len() > 0 && b.len() > 0 && a[0] == b[0] {
        lemma_str_lt_total(a.drop_first(), b.drop_first());
        if a.drop_first() == b.drop_first() {
            assert(a =~= seq![a[0]] + a.drop_first());
            assert(b =~= seq![b[0]] + b.drop_first());
        }
    } else if a.len() == 0 && b.len() == 0 {
        assert(a =~= b);
    } else if a.len() > 0 && b.len() > 0 {
        vstd::utf8::char_u32_cast(a[0], a[0] as u32);
        vstd::utf8::char_u32_cast(b[0], b[0] as u32);
    }
}

pub proof fn lemma_str_lt_asymmetric(a: Seq<char>, b: Seq<char>)
    requires
        str_lt(a, b),
    ensures
        !str_lt(b, a),
    decreases a.len(),
{
    if a.len() > 0 && b.len() > 0 && a[0] == b[0] {
        lemma_str_lt_asymmetric(a.drop_first(), b.drop_first());
    }
}

pub proof fn lemma_str_lt_transitive(a: Seq<char>, b: Seq<char>, c: Seq<char>)
    requires
        str_lt(a, b),
        str_lt(b, c),
    ensures
        str_lt(a, c),
    decreases a.len(),
{
    if a.len() > 0 && b.len() > 0 && c.len() > 0 && a[0] == b[0] && b[0] == c[0] {
        lemma_str_lt_transitive(a.drop_first(), b.drop_first(), c.drop_first());
    }
}

pub proof fn lemma_encode_concat(a: Seq<char>, b: Seq<char>)
    ensures
        vstd::utf8::encode_utf8(a + b) == vstd::utf8::encode_utf8(a) + vstd::utf8::encode_utf8(b),
    decreases a.len(),
{
    if a.len() == 0 {
        assert(a + b =~= b);
    } else {
        assert((a + b).drop_first() =~= a.drop_first() + b);
        lemma_encode_concat(a.drop_first(), b);
    }
}

pub proof fn lemma_byte_len_concat(a: Seq<char>, b: Seq<char>)
    ensures
        byte_len(a + b) == byte_len(a) + byte_len(b),
{
    lemma_encode_concat(a, b);
}

pub proof fn lemma_byte_len_ge_len(s: Seq<char>)
    ensures
        byte_len(s) >= s.len(),
    decreases s.len(),
{
    if s.len() > 0 {
        lemma_byte_len_ge_len(s.drop_first());
    }
}

pub proof fn lemma_trim_start_skip(s: Seq<char>, i: int)
    requires
        0 <= i <= s.len(),
        forall|k: int| 0 <= k < i ==> is_ws(#[trigger] s[k]),
    ensures
        trim_start(s) == trim_start(s.skip(i)),
    decreases i,
{
    if i > 0 {
        assert(s.drop_first().skip(i - 1) =~= s.skip(i));
        assert forall|k: int| 0 <= k < i - 1 implies is_ws(#[trigger] s.drop_first()[k]) by {
            assert(s.drop_first()[k] == s[k + 1]);
        }
        lemma_trim_start_skip(s.drop_first(), i - 1);
    } else {
        assert(s.skip(0) =~= s);
    }
}

pub proof fn lemma_trim_end_take(s: Seq<char>, j: int)
    requires
        0 <= j <= s.len(),
        forall|k: int| j <= k < s.len() ==> is_ws(#[trigger] s[k]),
    ensures
        trim_end(s) == trim_end(s.take(j)),
    decreases s.len() - j,
{
    if j < s.len() {
        assert(s.drop_last().take(j) =~= s.take(j));
        lemma_trim_end_take(s.drop_last(), j);
    } else {
        assert(s.take(j) =~= s);
    }
}

pub proof fn lemma_split_nonempty(s: Seq<char>, c: char)
    ensures
        split_char(s, c).len() >= 1,
    decreases s.len(),
{
    if s.len() > 0 {
        lemma_split_nonempty(s.drop_last(), c);
    }
}

pub proof fn lemma_words_last(s: Seq<char>)
    requires
        s.len() >= 1,
        !is_ws(s.last()),
    ensures
        words(s).len() >= 1,
    decreases s.len(),
{
    if s.len() >= 2 && !is_ws(s[s.len() - 2]) {
        assert(s.drop_last().last() == s[s.len() - 2]);
        lemma_words_last(s.drop_last());
    }
}

/// `c` does not occur in `s`.
pub open spec fn lacks(s: Seq<char>, c: char) -> bool {
    forall|i: int| 0 <= i < s.len() ==> #[trigger] s[i] != c
}

pub proof fn lemma_split_without(s: Seq<char>, c: char)
    requires
        lacks(s, c),
    ensures
        split_char(s, c) == seq![s],
    decreases s.len(),
{
    if s.len() > 0 {
        assert(lacks(s.drop_last(), c)) by {
            assert forall|i: int| 0 <= i < s.drop_last().len() implies #[trigger] s.drop_last()[i]
                != c by {
                assert(s.drop_last()[i] == s[i]);
            }
        }
        lemma_split_without(s.drop_last(), c);
        assert(s.drop_last().push(s.last()) =~= s);
        assert(s.last() == s[s.len() - 1]);
        assert(seq![s.drop_last()].update(0, s.drop_last().push(s.last())) =~= seq![s]);
    } else {
        assert(s =~= Seq::<char>::empty());
    }
}

/// Splitting around one separator splits each side on its own.
pub proof fn lemma_split_around(a: Seq<char>, b: Seq<char>, c: char)
    ensures
        split_char(a + seq![c] + b, c) == split_char(a, c) + split_char(b, c),
    decreases b.len(),
{
    lemma_split_nonempty(a, c);
    if b.len() == 0 {
        assert(a + seq![c] + b =~= a.push(c));
        assert((a.push(c)).drop_last() =~= a);
        assert(split_char(b, c) =~= seq![Seq::<char>::empty()]);
        assert(split_char(a, c).push(Seq::<char>::empty()) =~= split_char(a, c) + seq![
            Seq::<char>::empty(),
        ]);
    } else {
        lemma_split_around(a, b.drop_last(), c);
        lemma_split_nonempty(b.drop_last(), c);
        let whole = a + seq![c] + b;
        assert(whole.drop_last() =~= a + seq![c] + b.drop_last());
        assert(whole.last() == b.last());
        let sa = split_char(a, c);
        let sb = split_char(b.drop_last(), c);
        if b.last() == c {
            assert((sa + sb).push(Seq::<char>::empty()) =~= sa + sb.push(Seq::<char>::empty()));
        } else {
            assert((sa + sb).update((sa + sb).len() - 1, (sa + sb).last().push(b.last())) =~= sa
                + sb.update(sb.len() - 1, sb.last().push(b.last())));
        }
    }
}

/// Splitting a join on a separator that no part contains gives the parts back.
pub proof fn lemma_split_join(parts: Seq<Seq<char>>, c: char)
    requires
        parts.len() >= 1,
        forall|i: int| 0 <= i < parts.len() ==> lacks(#[trigger] parts[i], c),
    ensures
        split_char(join(parts, seq![c]), c) == parts,
    decreases parts.len(),
{
    if parts.len() == 1 {
        assert(lacks(parts[0], c));
        lemma_split_without(parts[0], c);
        assert(seq![parts[0]] =~= parts);
    } else {
        let init = parts.drop_last();
        assert forall|i: int| 0 <= i < init.len() implies lacks(#[trigger] init[i], c) by {
            assert(init[i] == parts[i]);
        }
        lemma_split_join(init, c);
        assert(lacks(parts[parts.len() - 1], c));
        assert(parts.last() == parts[parts.len() - 1]);
        lemma_split_without(parts.last(), c);
        lemma_split_around(join(init, seq![c]), parts.last(), c);
        assert(join(parts, seq![c]) == join(init, seq![c]) + seq![c] + parts.last());
        assert(init + seq![parts.last()] =~= parts);
    }
}

/// Each piece of a split lacks the separator.
pub proof fn lemma_split_pieces_lack(s: Seq<char>, c: char)
    ensures
        forall|i: int| 0 <= i < split_char(s, c).len() ==> lacks(#[trigger] split_char(s, c)[i], c),
    decreases s.len(),
{
    if s.len() > 0 {
        lemma_split_pieces_lack(s.drop_last(), c);
        lemma_split_nonempty(s.drop_last(), c);
        let prev = split_char(s.drop_last(), c);
        if s.last() != c {
            let n = prev.len() - 1;
            assert(lacks(prev[n], c));
            assert(lacks(prev.last().push(s.last()), c)) by {
                assert forall|k: int| 0 <= k < prev.last().push(s.last()).len() implies #[trigger] prev.last().push(
                    s.last(),
                )[k] != c by {
                    if k < prev.last().len() {
                        assert(prev.last()[k] == prev[n][k]);
                    }
                }
            }
        } else {
            assert(lacks(Seq::<char>::empty(), c));
        }
    }
}

/// `trim_start` drops a prefix.
pub proof fn lemma_trim_start_suffix(s: Seq<char>)
    ensures
        exists|k: int| 0 <= k <= s.len() && trim_start(s) == s.skip(k),
        trim_start(s).len() > 0 ==> !is_ws(trim_start(s)[0]),
    decreases s.len(),
{
    if s.len() > 0 && is_ws(s[0]) {
        lemma_trim_start_suffix(s.drop_first());
        let k = choose|k: int| 0 <= k <= s.drop_first().len() && trim_start(s.drop_first())
            == s.drop_first().skip(k);
        assert(s.drop_first().skip(k) =~= s.skip(k + 1));
    } else {
        assert(s.skip(0) =~= s);
    }
}

/// `trim_end` drops a suffix.
pub proof fn lemma_trim_end_prefix(s: Seq<char>)
    ensures
        exists|k: int| 0 <= k <= s.len() && trim_end(s) == s.take(k),
        trim_end(s).len() > 0 ==> !is_ws(trim_end(s).last()),
    decreases s.len(),
{
    if s.len() > 0 && is_ws(s.last()) {
        lemma_trim_end_prefix(s.drop_last());
        let k = choose|k: int| 0 <= k <= s.drop_last().len() && trim_end(s.drop_last())
            == s.drop_last().take(k);
        assert(s.drop_last().take(k) =~= s.take(k));
    } else {
        assert(s.take(s.len() as int) =~= s);
    }
}

/// A non-empty `trim` result starts and ends with non-whitespace and is a piece of
/// the input.
pub proof fn lemma_trim_shape(s: Seq<char>)
    ensures
        exists|i: int, j: int| 0 <= i <= j <= s.len() && trim(s) == s.subrange(i, j),
        trim(s).len() > 0 ==> !is_ws(trim(s)[0]) && !is_ws(trim(s).last()),
{
    lemma_trim_start_suffix(s);
    let a = trim_start(s);
    lemma_trim_end_prefix(a);
    let i = choose|k: int| 0 <= k <= s.len() && a == s.skip(k);
    let j = choose|k: int| 0 <= k <= a.len() && trim_end(a) == a.take(k);
    assert(a.take(j) =~= s.subrange(i, i + j));
    if trim(s).len() > 0 {
        assert(trim(s)[0] == a[0]);
    }
}

/// A sequence that is empty or starts and ends with non-whitespace is its own `trim`.
pub proof fn lemma_trim_fixed(s: Seq<char>)
    requires
        s.len() == 0 || (!is_ws(s[0]) && !is_ws(s.last())),
    ensures
        trim(s) == s,
{
}

/// ASCII case mapping keeps whitespace and `+` as they are, and lowercasing is
/// idempotent, also after uppercasing.
pub proof fn lemma_case_chars(x: char)
    ensures
        is_ws(lower_char(x)) == is_ws(x),
        is_ws(upper_char(x)) == is_ws(x),
        (lower_char(x) == '+') == (x == '+'),
        (upper_char(x) == '+') == (x == '+'),
        lower_char(lower_char(x)) == lower_char(x),
        lower_char(upper_char(lower_char(x))) == lower_char(x),
{
}

/// Lowercasing twice is lowercasing once, and keeps the length.
pub proof fn lemma_lower_idempotent(t: Seq<char>)
    ensures
        lower(lower(t)) == lower(t),
        lower(t).len() == t.len(),
{
    assert forall|i: int| 0 <= i < t.len() implies #[trigger] lower(lower(t))[i] == lower(t)[i] by {
        lemma_case_chars(t[i]);
    }
    assert(lower(lower(t)) =~= lower(t));
}

/// A piece of a sequence that lacks `c` lacks it too.
pub proof fn lemma_subrange_lacks(s: Seq<char>, c: char, i: int, j: int)
    requires
        lacks(s, c),
        0 <= i <= j <= s.len(),
    ensures
        lacks(s.subrange(i, j), c),
{
    assert forall|k: int| 0 <= k < s.subrange(i, j).len() implies #[trigger] s.subrange(i, j)[k] != c by {
        assert(s.subrange(i, j)[k] == s[i + k]);
    }
}

// ---------------------------------------------------------------------------
// Executable operations

/// `String::push`: appends one character.
#[verifier::external_body]
fn push_char(s: &mut String, c: char)
    ensures
        final(s)@ == old(s)@.push(c),
{
    s.push(c);
}

/// The characters of `s`.
pub fn chars_of(s: &str) -> (v: Vec<char>)
    ensures
        v@ == s@,
{
    let mut v: Vec<char> = Vec::new();
    for c in it: s.chars()
        invariant
            v@ == it.seq().take(it.index() as int),
            it.seq() == s@,
    {
        v.push(c);
    }
    v
}

/// The string made of the characters `v`.
pub fn string_of(v: &[char]) -> (s: String)
    ensures
        s@ == v@,
{
    let mut s = String::new();
    let mut i: usize = 0;
    while i < v.len()
        invariant
            i <= v.len(),
            s@ == v@.take(i as int),
        decreases v.len() - i,
    {
        push_char(&mut s, v[i]);
        i += 1;
        assert(s@ =~= v@.take(i as int));
    }
    assert(v@.take(v@.len() as int) =~= v@);
    s
}

/// Appends the characters `b` to `a`.
pub fn append_chars(a: &mut Vec<char>, b: &[char])
    ensures
        final(a)@ == old(a)@ + b@,
{
    let mut i: usize = 0;
    while i < b.len()
        invariant
            i <= b.len(),
            a@ == old(a)@ + b@.take(i as int),
        decreases b.len() - i,
    {
        a.push(b[i]);
        i += 1;
        assert(a@ =~= old(a)@ + b@.take(i as int));
    }
    assert(b@.take(b@.len() as int) =~= b@);
}

/// Appends the characters of the string `b` to `a`.
pub fn append_str(a: &mut Vec<char>, b: &str)
    ensures
        final(a)@ == old(a)@ + b@,
{
    let v = chars_of(b);
    append_chars(a, v.as_slice());
}

/// `char::is_whitespace`.
pub fn is_whitespace(c: char) -> (r: bool)
    ensures
        r == is_ws(c),
{
    let u = c as u32;
    (9 <= u && u <= 13) || u == 32 || u == 0x85 || u == 0xA0 || u == 0x1680 || (0x2000 <= u
        && u <= 0x200A) || u == 0x2028 || u == 0x2029 || u == 0x202F || u == 0x205F || u == 0x3000
}

/// `char::to_ascii_lowercase`.
pub fn to_lower_char(c: char) -> (r: char)
    ensures
        r == lower_char(c),
{
    if 'A' <= c && c <= 'Z' {
        let x: u32 = (c as u32) + 32;
        (x as u8) as char
    } else {
        c
    }
}

/// `char::to_ascii_uppercase`.
pub fn to_upper_char(c: char) -> (r: char)
    ensures
        r == upper_char(c),
{
    if 'a' <= c && c <= 'z' {
        let x: u32 = (c as u32) - 32;
        (x as u8) as char
    } else {
        c
    }
}

/// `str::to_ascii_lowercase`.
pub fn to_lower(v: &[char]) -> (r: Vec<char>)
    ensures
        r@ == lower(v@),
{
    let mut r: Vec<char> = Vec::new();
    let mut i: usize = 0;
    while i < v.len()
        invariant
            i <= v.len(),
            r@ == lower(v@.take(i as int)),
        decreases v.len() - i,
    {
        r.push(to_lower_char(v[i]));
        i += 1;
        assert(r@ =~= lower(v@.take(i as int)));
    }
    assert(v@.take(v@.len() as int) =~= v@);
    r
}

/// Character-wise equality.
pub fn chars_eq(a: &[char], b: &[char]) -> (r: bool)
    ensures
        r == (a@ == b@),
{
    if a.len() != b.len() {
        return false;
    }
    let mut i: usize = 0;
    while i < a.len()
        invariant
            i <= a.len(),
            a.len() == b.len(),
            forall|k: int| 0 <= k < i ==> a@[k] == b@[k],
        decreases a.len() - i,
    {
        if a[i] != b[i] {
            return false;
        }
        i += 1;
    }
    assert(a@ =~= b@);
    true
}

/// Equality of `a` with the string `b`.
pub fn chars_eq_str(a: &[char], b: &str) -> (r: bool)
    ensures
        r == (a@ == b@),
{
    let bv = chars_of(b);
    chars_eq(a, bv.as_slice())
}

/// `eq_ignore_ascii_case`.
pub fn eq_ignore_ascii_case(a: &[char], b: &[char]) -> (r: bool)
    ensures
        r == eq_ignore_case(a@, b@),
{
    let la = to_lower(a);
    let lb = to_lower(b);
    chars_eq(la.as_slice(), lb.as_slice())
}

/// `str::trim`.
pub fn trim_chars(v: &[char]) -> (r: Vec<char>)
    ensures
        r@ == trim(v@),
{
    let n = v.len();
    let mut i: usize = 0;
    while i < n && is_whitespace(v[i])
        invariant
            i <= n,
            n == v.len(),
            forall|k: int| 0 <= k < i ==> is_ws(#[trigger] v@[k]),
        decreases n - i,
    {
        i += 1;
    }
    proof {
        lemma_trim_start_skip(v@, i as int);
    }
    let ghost rest = v@.skip(i as int);
    assert(i == n || !is_ws(rest[0]));
    assert(trim_start(v@) == rest);
    let mut j: usize = n;
    while j > i && is_whitespace(v[j - 1])
        invariant
            i <= j <= n,
            n == v.len(),
            forall|k: int| j <= k < n ==> is_ws(#[trigger] v@[k]),
        decreases j,
    {
        j -= 1;
    }
    proof {
        let jj = (j - i) as int;
        assert forall|k: int| jj <= k < rest.len() implies is_ws(#[trigger] rest[k]) by {
            assert(rest[k] == v@[k + i]);
        }
        lemma_trim_end_take(rest, jj);
        assert(rest.take(jj) =~= v@.subrange(i as int, j as int));
        if jj > 0 {
            assert(rest.take(jj).last() == v@[j - 1]);
        }
    }
    let mut r: Vec<char> = Vec::new();
    let mut k: usize = i;
    while k < j
        invariant
            i <= k <= j,
            j <= n,
            n == v.len(),
            r@ == v@.subrange(i as int, k as int),
        decreases j - k,
    {
        r.push(v[k]);
        k += 1;
        assert(r@ =~= v@.subrange(i as int, k as int));
    }
    r
}

/// `str::replace(c, "")`.
pub fn remove_char_chars(v: &[char], c: char) -> (r: Vec<char>)
    ensures
        r@ == remove_char(v@, c),
{
    let mut r: Vec<char> = Vec::new();
    let mut i: usize = 0;
    while i < v.len()
        invariant
            i <= v.len(),
            r@ == remove_char(v@.take(i as int), c),
        decreases v.len() - i,
    {
        assert(v@.take(i + 1).drop_last() =~= v@.take(i as int));
        if v[i] != c {
            r.push(v[i]);
        }
        i += 1;
    }
    assert(v@.take(v@.len() as int) =~= v@);
    r
}

/// `str::split_whitespace`.
pub fn split_whitespace(v: &[char]) -> (r: Vec<Vec<char>>)
    ensures
        r@.map_values(|w: Vec<char>| w@) == words(v@),
{
    let mut out: Vec<Vec<char>> = Vec::new();
    let mut cur: Vec<char> = Vec::new();
    let mut i: usize = 0;
    while i < v.len()
        invariant
            i <= v.len(),
            cur@.len() == 0 ==> words(v@.take(i as int)) == out@.map_values(|w: Vec<char>| w@),
            cur@.len() > 0 ==> words(v@.take(i as int)) == out@.map_values(|w: Vec<char>| w@).push(cur@),
            cur@.len() > 0 ==> i >= 1 && !is_ws(v@[i - 1]),
            cur@.len() == 0 ==> (i == 0 || is_ws(v@[i - 1])),
        decreases v.len() - i,
    {
        let c = v[i];
        let ghost s = v@.take(i + 1);
        assert(s.drop_last() =~= v@.take(i as int));
        if is_whitespace(c) {
            if cur.len() > 0 {
                let w = cur;
                cur = Vec::new();
                out.push(w);
                assert(out@.map_values(|w: Vec<char>| w@) =~= words(v@.take(i as int)));
            }
        } else {
            let ghost old_cur = cur@;
            cur.push(c);
            proof {
                let prev = words(v@.take(i as int));
                let outv = out@.map_values(|w: Vec<char>| w@);
                if i >= 1 && !is_ws(v@[i - 1]) {
                    assert(s[s.len() - 2] == v@[i - 1]);
                    assert(old_cur.len() > 0);
                    assert(prev == outv.push(old_cur));
                    assert(words(s) == prev.update(prev.len() - 1, prev.last().push(c)));
                    assert(words(s) =~= outv.push(cur@));
                } else {
                    assert(old_cur.len() == 0);
                    assert(cur@ =~= seq![c]);
                    if s.len() >= 2 {
                        assert(s[s.len() - 2] == v@[i - 1]);
                    }
                    assert(words(s) =~= outv.push(cur@));
                }
            }
        }
        i += 1;
    }
    if cur.len() > 0 {
        out.push(cur);
    }
    assert(v@.take(v@.len() as int) =~= v@);
    assert(out@.map_values(|w: Vec<char>| w@) =~= words(v@));
    out
}

/// `parts.join(sep)`.
pub fn join_chars(parts: &Vec<Vec<char>>, sep: &[char]) -> (r: Vec<char>)
    ensures
        r@ == join(parts@.map_values(|w: Vec<char>| w@), sep@),
{
    let ghost ps = parts@.map_values(|w: Vec<char>| w@);
    let mut r: Vec<char> = Vec::new();
    let mut i: usize = 0;
    while i < parts.len()
        invariant
            i <= parts.len(),
            ps == parts@.map_values(|w: Vec<char>| w@),
            r@ == join(ps.take(i as int), sep@),
        decreases parts.len() - i,
    {
        assert(ps.take(i + 1).drop_last() =~= ps.take(i as int));
        if i > 0 {
            append_chars(&mut r, sep);
        }
        append_chars(&mut r, parts[i].as_slice());
        i += 1;
        assert(ps.take(i as int).last() == parts@[i - 1]@);
        if i == 1 {
            assert(r@ =~= join(ps.take(i as int), sep@));
        } else {
            assert(r@ =~= join(ps.take(i as int), sep@));
        }
    }
    assert(ps.take(parts.len() as int) =~= ps);
    r
}

/// `str::split(c)`.
pub fn split_on(v: &[char], c: char) -> (r: Vec<Vec<char>>)
    ensures
        r@.map_values(|w: Vec<char>| w@) == split_char(v@, c),
{
    let mut out: Vec<Vec<char>> = Vec::new();
    let mut cur: Vec<char> = Vec::new();
    let mut i: usize = 0;
    while i < v.len()
        invariant
            i <= v.len(),
            split_char(v@.take(i as int), c) == out@.map_values(|w: Vec<char>| w@).push(cur@),
        decreases v.len() - i,
    {
        let ghost s = v@.take(i + 1);
        assert(s.drop_last() =~= v@.take(i as int));
        if v[i] == c {
            let w = cur;
            cur = Vec::new();
            out.push(w);
            assert(split_char(s, c) =~= out@.map_values(|w: Vec<char>| w@).push(cur@));
        } else {
            cur.push(v[i]);
            assert(split_char(s, c) =~= out@.map_values(|w: Vec<char>| w@).push(cur@));
        }
        i += 1;
    }
    out.push(cur);
    assert(v@.take(v@.len() as int) =~= v@);
    assert(out@.map_values(|w: Vec<char>| w@) =~= split_char(v@, c));
    out
}

/// Whether `pat` occurs in `v` at index `i`.
pub fn matches_at(v: &[char], pat: &[char], i: usize) -> (r: bool)
    ensures
        r == occurs_at(v@, pat@, i as int),
{
    if i > v.len() || pat.len() > v.len() - i {
        return false;
    }
    let mut k: usize = 0;
    while k < pat.len()
        invariant
            k <= pat.len(),
            i + pat.len() <= v.len(),
            forall|m: int| 0 <= m < k ==> v@[i + m] == pat@[m],
        decreases pat.len() - k,
    {
        if v[i + k] != pat[k] {
            assert(v@.subrange(i as int, i + pat.len())[k as int] != pat@[k as int]);
            return false;
        }
        k += 1;
    }
    assert(v@.subrange(i as int, i + pat.len()) =~= pat@);
    true
}

/// The index of the first occurrence of `pat` in `v`.
pub fn find_sub(v: &[char], pat: &[char]) -> (r: Option<usize>)
    ensures
        r is None ==> !contains_sub(v@, pat@),
        r matches Some(i) ==> occurs_at(v@, pat@, i as int) && forall|j: int|
            0 <= j < i ==> !occurs_at(v@, pat@, j),
{
    if pat.len() > v.len() {
        return None;
    }
    let last = v.len() - pat.len();
    let mut i: usize = 0;
    while i < last
        invariant
            i <= last,
            last == v.len() - pat.len(),
            forall|j: int| 0 <= j < i ==> !occurs_at(v@, pat@, j),
        decreases last - i,
    {
        if matches_at(v, pat, i) {
            return Some(i);
        }
        i += 1;
    }
    if matches_at(v, pat, last) {
        return Some(last);
    }
    assert forall|j: int| !occurs_at(v@, pat@, j) by {
        if 0 <= j < last {
        }
    }
    None
}

/// `str::contains`.
pub fn contains_chars(v: &[char], pat: &[char]) -> (r: bool)
    ensures
        r == contains_sub(v@, pat@),
{
    match find_sub(v, pat) {
        Some(_) => true,
        None => false,
    }
}

/// `s.split(pat).next()`: the part of `v` before the first occurrence of `pat`.
pub fn prefix_before(v: &[char], pat: &[char]) -> (r: Vec<char>)
    ensures
        r@ == before_first(v@, pat@),
{
    match find_sub(v, pat) {
        Some(i) => {
            proof {
                let k = choose|k: int|
                    occurs_at(v@, pat@, k) && forall|j: int| 0 <= j < k ==> !occurs_at(v@, pat@, j);
                assert(k == i as int) by {
                    if k < i {
                    } else if k > i {
                    }
                }
            }
            let mut r: Vec<char> = Vec::new();
            let mut k: usize = 0;
            while k < i
                invariant
                    k <= i,
                    i <= v.len(),
                    r@ == v@.take(k as int),
                decreases i - k,
            {
                r.push(v[k]);
                k += 1;
                assert(r@ =~= v@.take(k as int));
            }
            r
        },
        None => {
            let mut r: Vec<char> = Vec::new();
            append_chars(&mut r, v);
            r
        },
    }
}

/// `String`'s `<`.
pub fn str_less(a: &[char], b: &[char]) -> (r: bool)
    ensures
        r == str_lt(a@, b@),
{
    let mut i: usize = 0;
    assert(a@.skip(0) =~= a@);
    assert(b@.skip(0) =~= b@);
    while i < a.len() && i < b.len() && a[i] == b[i]
        invariant
            i <= a.len(),
            i <= b.len(),
            str_lt(a@, b@) == str_lt(a@.skip(i as int), b@.skip(i as int)),
        decreases a.len() - i,
    {
        assert(a@.skip(i as int).drop_first() =~= a@.skip(i + 1));
        assert(b@.skip(i as int).drop_first() =~= b@.skip(i + 1));
        i += 1;
    }
    if i == a.len() {
        i < b.len()
    } else if i == b.len() {
        false
    } else {
        assert(a@.skip(i as int)[0] == a@[i as int]);
        assert(b@.skip(i as int)[0] == b@[i as int]);
        (a[i] as u32) < (b[i] as u32)
    }
}

/// Number of UTF-8 bytes of `c` (`char::len_utf8`).
pub fn char_len_utf8(c: char) -> (n: usize)
    ensures
        n == char_width(c),
        1 <= n <= 4,
{
    let u = c as u32;
    proof {
        vstd::utf8::char_is_scalar(c);
    }
    if u <= 0x7F {
        1
    } else if u <= 0x7FF {
        2
    } else if u <= 0xFFFF {
        3
    } else {
        4
    }
}

/// Number of UTF-8 bytes of `s` (`str::len`), saturating at `usize::MAX`.
pub fn utf8_len(s: &[char]) -> (n: usize)
    ensures
        byte_len(s@) <= usize::MAX ==> n == byte_len(s@),
        byte_len(s@) > usize::MAX ==> n == usize::MAX,
{
    let mut n: usize = 0;
    let mut i: usize = 0;
    while i < s.len()
        invariant
            i <= s.len(),
            byte_len(s@.take(i as int)) <= usize::MAX ==> n == byte_len(s@.take(i as int)),
            byte_len(s@.take(i as int)) > usize::MAX ==> n == usize::MAX,
        decreases s.len() - i,
    {
        let w = char_len_utf8(s[i]);
        proof {
            assert(s@.take(i + 1) =~= s@.take(i as int) + seq![s@[i as int]]);
            lemma_byte_len_concat(s@.take(i as int), seq![s@[i as int]]);
            let one = seq![s@[i as int]];
            assert(one.drop_first() =~= Seq::<char>::empty());
            assert(vstd::utf8::encode_utf8(one) == vstd::utf8::encode_scalar(one[0] as u32)
                + vstd::utf8::encode_utf8(one.drop_first()));
            assert(vstd::utf8::encode_utf8(one.drop_first()) =~= Seq::<u8>::empty());
            assert(byte_len(one) == char_width(s@[i as int]));
        }
        n = n.saturating_add(w);
        i += 1;
    }
    assert(s@.take(s@.len() as int) =~= s@);
    n
}

/// The decimal representation of `n`.
pub fn decimal_of(n: u64) -> (r: Vec<char>)
    ensures
        r@ == decimal(n as nat),
    decreases n,
{
    if n < 10 {
        let mut r: Vec<char> = Vec::new();
        r.push(((n + 48) as u8) as char);
        assert(r@ =~= seq![digit_char(n as nat)]);
        r
    } else {
        let mut r = decimal_of(n / 10);
        r.push((((n % 10) + 48) as u8) as char);
        r
    }
}

/// The decimal representation of the signed `n`.
pub fn signed_decimal_of(n: i64) -> (r: Vec<char>)
    ensures
        r@ == decimal_signed(n as int),
{
    if n < 0 {
        let magnitude: u64 = ((-(n + 1)) as u64) + 1;
        let digits = decimal_of(magnitude);
        let mut r: Vec<char> = Vec::new();
        r.push('-');
        append_chars(&mut r, digits.as_slice());
        assert(r@ =~= seq!['-'] + decimal((-(n as int)) as nat));
        r
    } else {
        decimal_of(n as u64)
    }
}

} // verus!
