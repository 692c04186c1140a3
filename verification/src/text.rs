//! Character-level string operations with their mathematical meaning.
//!
//! Every string is modelled by its sequence of characters (`s@`). The spec
//! functions here say what `str::split`, `str::replace`, `str::trim` and
//! friends compute on such sequences, and the executable functions are
//! proved to compute exactly that.
use vstd::prelude::*;

verus! {

// ---------------------------------------------------------------------------
// Models
// ---------------------------------------------------------------------------

/// The character views of a sequence of strings.
pub open spec fn views(v: Seq<String>) -> Seq<Seq<char>> {
    v.map_values(|x: String| x@)
}

/// `pat` occurs in `s` starting at index `i`.
pub open spec fn occurs_at(s: Seq<char>, pat: Seq<char>, i: int) -> bool {
    0 <= i && i + pat.len() <= s.len() && s.subrange(i, i + pat.len()) == pat
}

/// The index of the leftmost occurrence of `pat` in `s`, if any.
pub open spec fn first_occurrence(s: Seq<char>, pat: Seq<char>) -> Option<int>
    decreases s.len(),
{
    if pat.len() == 0 {
        Some(0)
    } else if s.len() < pat.len() {
        None
    } else if s.take(pat.len() as int) == pat {
        Some(0)
    } else {
        match first_occurrence(s.drop_first(), pat) {
            Some(j) => Some(j + 1),
            None => None,
        }
    }
}

/// The pieces of `s` between the leftmost non-overlapping occurrences of
/// `pat`, as `str::split` yields them. An empty pattern matches at every
/// character boundary.
pub open spec fn split_seq(s: Seq<char>, pat: Seq<char>) -> Seq<Seq<char>>
    decreases s.len(),
{
    if pat.len() == 0 {
        seq![Seq::<char>::empty()] + s.map_values(|c: char| seq![c]) + seq![Seq::<char>::empty()]
    } else {
        match first_occurrence(s, pat) {
            None => seq![s],
            Some(j) => {
                proof {
                    lemma_first_occurrence_bounds(s, pat);
                }
                seq![s.take(j)] + split_seq(s.skip(j + pat.len()), pat)
            },
        }
    }
}

/// The pieces joined with `sep` between consecutive pieces.
pub open spec fn join_seq(parts: Seq<Seq<char>>, sep: Seq<char>) -> Seq<char>
    decreases parts.len(),
{
    if parts.len() == 0 {
        Seq::empty()
    } else if parts.len() == 1 {
        parts[0]
    } else {
        join_seq(parts.drop_last(), sep) + sep + parts.last()
    }
}

/// `s` with every leftmost non-overlapping occurrence of `from` replaced by
/// `to`, as `str::replace` computes it.
pub open spec fn replace_seq(s: Seq<char>, from: Seq<char>, to: Seq<char>) -> Seq<char> {
    join_seq(split_seq(s, from), to)
}

/// `s` begins with `prefix`.
pub open spec fn starts_with_seq(s: Seq<char>, prefix: Seq<char>) -> bool {
    prefix.len() <= s.len() && s.take(prefix.len() as int) == prefix
}

/// `s` ends with `suffix`.
pub open spec fn ends_with_seq(s: Seq<char>, suffix: Seq<char>) -> bool {
    suffix.len() <= s.len() && s.skip(s.len() - suffix.len()) == suffix
}

/// `s` with `prefix` removed, when `s` begins with it.
pub open spec fn strip_prefix_seq(s: Seq<char>, prefix: Seq<char>) -> Option<Seq<char>> {
    if starts_with_seq(s, prefix) {
        Some(s.skip(prefix.len() as int))
    } else {
        None
    }
}

/// `s` with every trailing repetition of `pat` removed, as
/// `str::trim_end_matches` computes it; an empty pattern removes nothing.
pub open spec fn trim_end_matches_seq(s: Seq<char>, pat: Seq<char>) -> Seq<char>
    decreases s.len(),
{
    if pat.len() > 0 && ends_with_seq(s, pat) {
        trim_end_matches_seq(s.take(s.len() - pat.len()), pat)
    } else {
        s
    }
}

/// The characters with the Unicode `White_Space` property, which is what
/// `char::is_whitespace` tests.
pub open spec fn is_white_space(c: char) -> bool {
    ||| '\u{9}' <= c <= '\u{d}'
    ||| c == ' '
    ||| c == '\u{85}'
    ||| c == '\u{a0}'
    ||| c == '\u{1680}'
    ||| '\u{2000}' <= c <= '\u{200a}'
    ||| c == '\u{2028}'
    ||| c == '\u{2029}'
    ||| c == '\u{202f}'
    ||| c == '\u{205f}'
    ||| c == '\u{3000}'
}

/// `s` without leading white space.
pub open spec fn trim_start_seq(s: Seq<char>) -> Seq<char>
    decreases s.len(),
{
    if s.len() > 0 && is_white_space(s[0]) {
        trim_start_seq(s.drop_first())
    } else {
        s
    }
}

/// `s` without trailing white space.
pub open spec fn trim_end_seq(s: Seq<char>) -> Seq<char>
    decreases s.len(),
{
    if s.len() > 0 && is_white_space(s.last()) {
        trim_end_seq(s.drop_last())
    } else {
        s
    }
}

/// `s` without leading and trailing white space, as `str::trim` computes it.
pub open spec fn trim_seq(s: Seq<char>) -> Seq<char> {
    trim_end_seq(trim_start_seq(s))
}

/// An ASCII decimal digit.
pub open spec fn is_digit(c: char) -> bool {
    '0' <= c <= '9'
}

/// The value of a sequence of decimal digits.
pub open spec fn digits_value(s: Seq<char>) -> nat
    decreases s.len(),
{
    if s.len() == 0 {
        0
    } else {
        digits_value(s.drop_last()) * 10 + ((s.last() as int - '0' as int) as nat)
    }
}

/// All characters of `s` are decimal digits.
pub open spec fn all_digits(s: Seq<char>) -> bool {
    forall|i: int| 0 <= i < s.len() ==> is_digit(#[trigger] s[i])
}

/// What `s.parse::<u64>()` yields: an optional `+` followed by at least one
/// decimal digit, of a value that fits in a `u64`.
pub open spec fn parse_u64_seq(s: Seq<char>) -> Option<u64> {
    let d = if s.len() > 0 && s[0] == '+' { s.drop_first() } else { s };
    if d.len() > 0 && all_digits(d) && digits_value(d) <= u64::MAX {
        Some(digits_value(d) as u64)
    } else {
        None
    }
}

/// The index of the first element of `items` equal to `x`.
pub open spec fn first_index_of(items: Seq<Seq<char>>, x: Seq<char>) -> Option<int>
    decreases items.len(),
{
    if items.len() == 0 {
        None
    } else {
        match first_index_of(items.drop_last(), x) {
            Some(i) => Some(i),
            None => if items.last() == x {
                Some(items.len() - 1)
            } else {
                None
            },
        }
    }
}

/// The first index of `x` lies inside `items` and holds `x`; no earlier
/// index holds it, and there is none when no element equals `x`.
pub proof fn lemma_first_index_of(items: Seq<Seq<char>>, x: Seq<char>)
    ensures
        first_index_of(items, x) matches Some(i) ==> 0 <= i < items.len() && items[i] == x
            && forall|j: int| 0 <= j < i ==> items[j] != x,
        first_index_of(items, x) is None ==> forall|j: int| 0 <= j < items.len() ==> items[j] != x,
    decreases items.len(),
{
    if items.len() > 0 {
        lemma_first_index_of(items.drop_last(), x);
        assert forall|j: int| 0 <= j < items.len() - 1 implies items.drop_last()[j] == items[j] by {}
    }
}

/// Characterizes the first index by the elements before it.
pub proof fn lemma_first_index_of_by_prefix(items: Seq<Seq<char>>, x: Seq<char>, i: int)
    requires
        0 <= i <= items.len(),
        forall|j: int| 0 <= j < i ==> items[j] != x,
    ensures
        i < items.len() && items[i] == x ==> first_index_of(items, x) == Some(i),
        i == items.len() ==> first_index_of(items, x) is None,
{
    lemma_first_index_of(items, x);
}

/// The decimal digit for `d < 10`.
pub open spec fn digit_char(d: nat) -> char {
    ('0' as nat + d) as char
}

/// The decimal representation of `n`, without leading zeros.
pub open spec fn decimal_seq(n: nat) -> Seq<char>
    decreases n,
{
    if n < 10 {
        seq![digit_char(n)]
    } else {
        decimal_seq(n / 10).push(digit_char(n % 10))
    }
}

/// What `format!("{}", n)` yields for a signed integer.
pub open spec fn signed_decimal_seq(n: int) -> Seq<char> {
    if n < 0 {
        seq!['-'] + decimal_seq((-n) as nat)
    } else {
        decimal_seq(n as nat)
    }
}

/// What `s.to_lowercase()` yields: the standard library's Unicode lowercase
/// mapping of the string (which lowercases a final sigma by its context).
pub uninterp spec fn lowercased(s: Seq<char>) -> Seq<char>;

// ---------------------------------------------------------------------------
// Lemmas on the models
// ---------------------------------------------------------------------------

/// A leftmost occurrence lies inside the sequence and is an occurrence.
pub proof fn lemma_first_occurrence_bounds(s: Seq<char>, pat: Seq<char>)
    ensures
        first_occurrence(s, pat) matches Some(j) ==> occurs_at(s, pat, j),
        first_occurrence(s, pat) is None ==> forall|i: int| !occurs_at(s, pat, i),
    decreases s.len(),
{
    if pat.len() == 0 {
        assert(s.subrange(0, 0) =~= pat);
    } else if s.len() < pat.len() {
    } else if s.take(pat.len() as int) == pat {
        assert(s.subrange(0, pat.len() as int) =~= s.take(pat.len() as int));
    } else {
        lemma_first_occurrence_bounds(s.drop_first(), pat);
        let t = s.drop_first();
        if let Some(j) = first_occurrence(t, pat) {
            assert(s.subrange(j + 1, j + 1 + pat.len()) =~= t.subrange(j, j + pat.len()));
        } else {
            assert forall|i: int| !occurs_at(s, pat, i) by {
                if occurs_at(s, pat, i) {
                    if i == 0 {
                        assert(s.subrange(0, pat.len() as int) =~= s.take(pat.len() as int));
                    } else {
                        assert(s.subrange(i, i + pat.len()) =~= t.subrange(i - 1, i - 1 + pat.len()));
                        assert(occurs_at(t, pat, i - 1));
                    }
                }
            }
        }
    }
}

/// Joining the pieces of a split with the pattern gives back the string.
pub proof fn lemma_join_split(s: Seq<char>, pat: Seq<char>)
    requires
        pat.len() > 0,
    ensures
        join_seq(split_seq(s, pat), pat) == s,
    decreases s.len(),
{
    lemma_first_occurrence_bounds(s, pat);
    match first_occurrence(s, pat) {
        None => {},
        Some(j) => {
            let rest = s.skip(j + pat.len());
            lemma_join_split(rest, pat);
            lemma_join_prepend(s.take(j), split_seq(rest, pat), pat);
            assert(s =~= s.take(j) + pat + rest);
        },
    }
}

/// Joining a sequence whose first piece is `first`.
pub proof fn lemma_join_prepend(first: Seq<char>, rest: Seq<Seq<char>>, sep: Seq<char>)
    requires
        rest.len() > 0,
    ensures
        join_seq(seq![first] + rest, sep) == first + sep + join_seq(rest, sep),
    decreases rest.len(),
{
    let all = seq![first] + rest;
    if rest.len() == 1 {
        assert(all.drop_last() =~= seq![first]);
        assert(join_seq(seq![first], sep) == first);
        assert(all.last() == rest[0]);
        assert(join_seq(rest, sep) == rest[0]);
    } else {
        lemma_join_prepend(first, rest.drop_last(), sep);
        assert(all.drop_last() =~= seq![first] + rest.drop_last());
        assert(all.last() == rest.last());
        let j = join_seq(rest.drop_last(), sep);
        assert(join_seq(all, sep) == first + sep + j + sep + rest.last());
        assert(join_seq(rest, sep) == j + sep + rest.last());
        assert(first + sep + j + sep + rest.last() =~= first + sep + (j + sep + rest.last()));
    }
}

/// A split always yields at least one piece.
pub proof fn lemma_split_nonempty(s: Seq<char>, pat: Seq<char>)
    ensures
        split_seq(s, pat).len() >= 1,
    decreases s.len(),
{
    if pat.len() > 0 {
        lemma_first_occurrence_bounds(s, pat);
        if let Some(j) = first_occurrence(s, pat) {
            lemma_split_nonempty(s.skip(j + pat.len()), pat);
        }
    }
}

/// No occurrence of the pattern lies before the leftmost one.
pub proof fn lemma_first_occurrence_leftmost(s: Seq<char>, pat: Seq<char>)
    ensures
        first_occurrence(s, pat) matches Some(j) ==> forall|i: int|
            0 <= i < j ==> !occurs_at(s, pat, i),
    decreases s.len(),
{
    if pat.len() == 0 {
    } else if s.len() < pat.len() {
    } else if s.take(pat.len() as int) == pat {
    } else {
        let t = s.drop_first();
        lemma_first_occurrence_leftmost(t, pat);
        if let Some(j) = first_occurrence(t, pat) {
            assert forall|i: int| 0 <= i < j + 1 implies !occurs_at(s, pat, i) by {
                if occurs_at(s, pat, i) {
                    if i == 0 {
                        assert(s.subrange(0, pat.len() as int) =~= s.take(pat.len() as int));
                    } else {
                        assert(s.subrange(i, i + pat.len()) =~= t.subrange(i - 1, i - 1 + pat.len()));
                        assert(occurs_at(t, pat, i - 1));
                    }
                }
            }
        }
    }
}

/// An occurrence with none before it is the leftmost one.
pub proof fn lemma_first_occurrence_at(s: Seq<char>, pat: Seq<char>, j: int)
    requires
        occurs_at(s, pat, j),
        forall|i: int| 0 <= i < j ==> !occurs_at(s, pat, i),
    ensures
        first_occurrence(s, pat) == Some(j),
{
    lemma_first_occurrence_bounds(s, pat);
    lemma_first_occurrence_leftmost(s, pat);
}

/// Splitting at the leftmost occurrence: the part before it, then the
/// pieces of what follows it.
pub proof fn lemma_split_at(s: Seq<char>, pat: Seq<char>, j: int)
    requires
        pat.len() > 0,
        occurs_at(s, pat, j),
        forall|i: int| 0 <= i < j ==> !occurs_at(s, pat, i),
    ensures
        split_seq(s, pat) == seq![s.take(j)] + split_seq(s.skip(j + pat.len()), pat),
{
    lemma_first_occurrence_at(s, pat, j);
}

/// When the pattern does not occur, the split is the whole string.
pub proof fn lemma_split_absent(s: Seq<char>, pat: Seq<char>)
    requires
        pat.len() > 0,
        forall|i: int| !occurs_at(s, pat, i),
    ensures
        split_seq(s, pat) == seq![s],
{
    lemma_first_occurrence_bounds(s, pat);
    if let Some(j) = first_occurrence(s, pat) {
        assert(occurs_at(s, pat, j));
    }
}

/// Replacing a pattern that does not occur changes nothing.
pub proof fn lemma_replace_absent(s: Seq<char>, from: Seq<char>, to: Seq<char>)
    requires
        from.len() > 0,
        forall|i: int| !occurs_at(s, from, i),
    ensures
        replace_seq(s, from, to) == s,
{
    lemma_split_absent(s, from);
}

/// A pattern does not occur in `s` when its first character appears in `s`
/// at most at index 0, and at index 0 it does not fit: it is longer than
/// `s` or differs from `s` at index `k`.
pub proof fn lemma_absent_by_head(s: Seq<char>, pat: Seq<char>, k: int)
    requires
        pat.len() > 0,
        forall|i: int| 0 < i < s.len() ==> s[i] != pat[0],
        pat.len() > s.len() || (0 <= k < pat.len() && k < s.len() && s[k] != pat[k]),
    ensures
        forall|i: int| !occurs_at(s, pat, i),
{
    assert forall|i: int| !occurs_at(s, pat, i) by {
        if occurs_at(s, pat, i) {
            assert(s.subrange(i, i + pat.len())[0] == pat[0]);
            if i == 0 {
                assert(s.subrange(0, pat.len() as int)[k] == pat[k]);
            }
        }
    }
}

/// Replacing the whole of a nonempty string gives the replacement.
pub proof fn lemma_replace_whole(s: Seq<char>, to: Seq<char>)
    requires
        s.len() > 0,
    ensures
        replace_seq(s, s, to) == to,
{
    let e = Seq::<char>::empty();
    assert(s.subrange(0, s.len() as int) =~= s);
    lemma_split_at(s, s, 0);
    assert(s.take(0) =~= e);
    assert(s.skip(s.len() as int) =~= e);
    assert(split_seq(e, s) == seq![e]);
    assert(split_seq(s, s) =~= seq![e, e]);
    assert(seq![e, e].drop_last() =~= seq![e]);
    assert(join_seq(seq![e, e], to) == join_seq(seq![e], to) + to + e);
    assert(join_seq(seq![e, e], to) =~= to);
}

/// `s` with every `c` turned into `d`.
pub open spec fn char_replaced(s: Seq<char>, c: char, d: char) -> Seq<char> {
    s.map_values(|x: char| if x == c { d } else { x })
}

/// A character occurs as a one-character pattern exactly where it stands.
pub proof fn lemma_occurs_char_pub(s: Seq<char>, c: char, i: int)
    ensures
        occurs_at(s, seq![c], i) <==> (0 <= i < s.len() && s[i] == c),
{
    if 0 <= i < s.len() {
        assert(s.subrange(i, i + 1) =~= seq![s[i]]);
        if s.subrange(i, i + 1) == seq![c] {
            assert(seq![s[i]][0] == seq![c][0]);
        }
    }
}

/// Replacing a one-character pattern by one character replaces each of its
/// occurrences.
pub proof fn lemma_replace_char(s: Seq<char>, c: char, d: char)
    ensures
        replace_seq(s, seq![c], seq![d]) == char_replaced(s, c, d),
    decreases s.len(),
{
    let pat = seq![c];
    lemma_first_occurrence_bounds(s, pat);
    lemma_first_occurrence_leftmost(s, pat);
    match first_occurrence(s, pat) {
        None => {
            assert forall|i: int| 0 <= i < s.len() implies s[i] != c by {
                lemma_occurs_char_pub(s, c, i);
            }
            assert(char_replaced(s, c, d) =~= s);
        },
        Some(j) => {
            lemma_occurs_char_pub(s, c, j);
            let rest = s.skip(j + 1);
            lemma_replace_char(rest, c, d);
            lemma_split_nonempty(rest, pat);
            lemma_join_prepend(s.take(j), split_seq(rest, pat), seq![d]);
            assert(split_seq(s, pat) == seq![s.take(j)] + split_seq(rest, pat));
            assert forall|i: int| 0 <= i < j implies s[i] != c by {
                lemma_occurs_char_pub(s, c, i);
            }
            assert(char_replaced(s, c, d) =~= s.take(j) + seq![d] + char_replaced(rest, c, d));
        },
    }
}

/// Replacing characters works piece by piece.
pub proof fn lemma_char_replaced_concat(a: Seq<char>, b: Seq<char>, c: char, d: char)
    ensures
        char_replaced(a + b, c, d) == char_replaced(a, c, d) + char_replaced(b, c, d),
{
    assert(char_replaced(a + b, c, d) =~= char_replaced(a, c, d) + char_replaced(b, c, d));
}

/// Replacing a character that does not occur changes nothing.
pub proof fn lemma_char_replaced_absent(s: Seq<char>, c: char, d: char)
    requires
        !s.contains(c),
    ensures
        char_replaced(s, c, d) == s,
{
    assert forall|i: int| 0 <= i < s.len() implies s[i] != c by {
        if s[i] == c {
            assert(s.contains(c));
        }
    }
    assert(char_replaced(s, c, d) =~= s);
}

/// Splitting by the empty pattern yields one piece per character and an
/// empty piece at each end.
pub proof fn lemma_split_empty_pattern_len(s: Seq<char>)
    ensures
        split_seq(s, Seq::<char>::empty()).len() == s.len() + 2,
        split_seq(s, Seq::<char>::empty())[0] == Seq::<char>::empty(),
        s.len() == 0 ==> split_seq(s, Seq::<char>::empty())[1] == Seq::<char>::empty(),
{
}

/// A split into exactly two pieces cuts the string at the leftmost
/// occurrence of the pattern.
pub proof fn lemma_split_two(s: Seq<char>, pat: Seq<char>)
    requires
        pat.len() > 0,
        split_seq(s, pat).len() == 2,
    ensures
        split_seq(s, pat)[0].len() + pat.len() <= s.len(),
        split_seq(s, pat)[0] == s.take(split_seq(s, pat)[0].len() as int),
        split_seq(s, pat)[1] == s.skip((split_seq(s, pat)[0].len() + pat.len()) as int),
{
    lemma_first_occurrence_bounds(s, pat);
    match first_occurrence(s, pat) {
        None => {},
        Some(j) => {
            let rest = s.skip(j + pat.len());
            lemma_first_occurrence_bounds(rest, pat);
            if let Some(k) = first_occurrence(rest, pat) {
                lemma_split_nonempty(rest.skip(k + pat.len()), pat);
                assert(split_seq(rest, pat) == seq![rest.take(k)] + split_seq(rest.skip(k + pat.len()), pat));
                assert(split_seq(rest, pat).len() >= 2);
                assert(false);
            } else {
                assert(split_seq(rest, pat) == seq![rest]);
                assert(split_seq(s, pat)[0] == s.take(j));
                assert(s.take(j).len() == j);
                assert(split_seq(s, pat)[1] == rest);
            }
        },
    }
}

// ---------------------------------------------------------------------------
// Executable operations
// ---------------------------------------------------------------------------

/// Appends one character to a string.
#[verifier::external_body]
fn push_char(s: &mut String, c: char)
    ensures
        final(s)@ == old(s)@.push(c),
{
    s.push(c);
}

/// What `str::to_lowercase` returns.
#[verifier::external_body]
pub(crate) fn to_lowercase(s: &str) -> (r: String)
    ensures
        r@ == lowercased(s@),
{
    s.to_lowercase()
}

/// The characters of `s`, in order.
pub fn to_chars(s: &str) -> (v: Vec<char>)
    ensures
        v@ == s@,
{
    let mut v: Vec<char> = Vec::new();
    for c in it: s.chars()
        invariant
            v@ == s@.take(it.index() as int),
            it.seq() == s@,
    {
        v.push(c);
        assert(s@.take(it.index() as int + 1) == v@);
    }
    v
}

/// The string made of the characters of `v[from..to]`.
pub fn from_chars(v: &Vec<char>, from: usize, to: usize) -> (s: String)
    requires
        from <= to <= v.len(),
    ensures
        s@ == v@.subrange(from as int, to as int),
{
    let mut s = String::new();
    let mut i = from;
    while i < to
        invariant
            from <= i <= to <= v.len(),
            s@ == v@.subrange(from as int, i as int),
        decreases to - i,
    {
        push_char(&mut s, v[i]);
        assert(v@.subrange(from as int, i + 1) == v@.subrange(from as int, i as int).push(
            v@[i as int],
        ));
        i += 1;
    }
    s
}

/// An owned copy of `s`.
pub fn copy_str(s: &str) -> (r: String)
    ensures
        r@ == s@,
{
    let v = to_chars(s);
    from_chars(&v, 0, v.len())
}

/// `a` and `b` hold the same characters.
pub fn str_eq(a: &str, b: &str) -> (r: bool)
    ensures
        r == (a@ == b@),
{
    let x = to_chars(a);
    let y = to_chars(b);
    if x.len() != y.len() {
        return false;
    }
    let mut i: usize = 0;
    while i < x.len()
        invariant
            x@ == a@,
            y@ == b@,
            x.len() == y.len(),
            i <= x.len(),
            forall|k: int| 0 <= k < i ==> x@[k] == y@[k],
        decreases x.len() - i,
    {
        if x[i] != y[i] {
            return false;
        }
        i += 1;
    }
    assert(x@ =~= y@);
    true
}

/// `pat` occurs in `v` at index `i`.
fn matches_at(v: &Vec<char>, pat: &Vec<char>, i: usize) -> (r: bool)
    requires
        i + pat.len() <= v.len(),
    ensures
        r == (v@.subrange(i as int, i + pat.len()) == pat@),
{
    let mut k: usize = 0;
    while k < pat.len()
        invariant
            i + pat.len() <= v.len(),
            k <= pat.len(),
            forall|m: int| 0 <= m < k ==> v@[i + m] == pat@[m],
        decreases pat.len() - k,
    {
        if v[i + k] != pat[k] {
            assert(v@.subrange(i as int, i + pat.len())[k as int] != pat@[k as int]);
            return false;
        }
        k += 1;
    }
    assert(v@.subrange(i as int, i + pat.len()) =~= pat@);
    true
}

/// The leftmost occurrence of `pat` in `v` at or after `from`.
fn find_from(v: &Vec<char>, pat: &Vec<char>, from: usize) -> (r: Option<usize>)
    requires
        from <= v.len(),
    ensures
        match r {
            Some(j) => from <= j && first_occurrence(v@.skip(from as int), pat@) == Some(
                j - from,
            ),
            None => first_occurrence(v@.skip(from as int), pat@) is None,
        },
{
    let mut i = from;
    while i < v.len() && pat.len() > 0 && pat.len() <= v.len() - i && !matches_at(v, pat, i)
        invariant
            from <= i <= v.len(),
            first_occurrence(v@.skip(from as int), pat@) == match first_occurrence(
                v@.skip(i as int),
                pat@,
            ) {
                Some(j) => Some(j + (i - from)),
                None => None,
            },
        decreases v.len() - i,
    {
        assert(v@.skip(i as int).take(pat.len() as int) =~= v@.subrange(i as int, i + pat.len()));
        assert(v@.skip(i as int).drop_first() =~= v@.skip(i + 1));
        i += 1;
    }
    if pat.len() == 0 {
        return Some(i);
    }
    if i < v.len() && pat.len() <= v.len() - i {
        assert(v@.skip(i as int).take(pat.len() as int) =~= v@.subrange(i as int, i + pat.len()));
        Some(i)
    } else {
        None
    }
}

/// The pieces of `v` between occurrences of `pat`, as `str::split` yields them.
fn split_chars(v: &Vec<char>, pat: &Vec<char>) -> (parts: Vec<String>)
    ensures
        views(parts@) == split_seq(v@, pat@),
{
    let mut parts: Vec<String> = Vec::new();
    if pat.len() == 0 {
        parts.push(String::new());
        let mut i: usize = 0;
        while i < v.len()
            invariant
                i <= v.len(),
                views(parts@) == seq![Seq::<char>::empty()] + v@.take(i as int).map_values(
                    |c: char| seq![c],
                ),
            decreases v.len() - i,
        {
            let one = from_chars(v, i, i + 1);
            let ghost before = parts@;
            parts.push(one);
            assert(views(parts@) =~= views(before).push(one@));
            assert(v@.subrange(i as int, i + 1) =~= seq![v@[i as int]]);
            assert(v@.take(i + 1).map_values(|c: char| seq![c]) =~= v@.take(i as int).map_values(
                |c: char| seq![c],
            ).push(seq![v@[i as int]]));
            assert(views(parts@) =~= seq![Seq::<char>::empty()] + v@.take(i + 1).map_values(
                |c: char| seq![c],
            ));
            i += 1;
        }
        parts.push(String::new());
        assert(v@.take(v.len() as int) =~= v@);
        assert(views(parts@) =~= split_seq(v@, pat@));
        return parts;
    }
    let mut start: usize = 0;
    assert(v@.skip(0) =~= v@);
    loop
        invariant
            pat.len() > 0,
            start <= v.len(),
            split_seq(v@, pat@) == views(parts@) + split_seq(v@.skip(start as int), pat@),
        decreases v.len() - start,
    {
        let found = find_from(v, pat, start);
        let ghost rest = v@.skip(start as int);
        proof {
            lemma_first_occurrence_bounds(rest, pat@);
        }
        match found {
            None => {
                let last = from_chars(v, start, v.len());
                assert(v@.subrange(start as int, v.len() as int) =~= rest);
                parts.push(last);
                assert(views(parts@) =~= split_seq(v@, pat@));
                return parts;
            },
            Some(j) => {
                let piece = from_chars(v, start, j);
                assert(v@.subrange(start as int, j as int) =~= rest.take(j - start));
                assert(rest.skip((j - start) + pat.len()) =~= v@.skip(j + pat.len()));
                parts.push(piece);
                assert(views(parts@) =~= views(parts@.drop_last()).push(rest.take(j - start)));
                start = j + pat.len();
                assert(split_seq(v@, pat@) =~= views(parts@) + split_seq(
                    v@.skip(start as int),
                    pat@,
                ));
            },
        }
    }
}

/// `s.split(pat)`, collected.
pub fn split_str(s: &str, pat: &str) -> (parts: Vec<String>)
    ensures
        views(parts@) == split_seq(s@, pat@),
{
    let v = to_chars(s);
    let p = to_chars(pat);
    split_chars(&v, &p)
}

/// `s.split(c)`, collected.
pub fn split_char(s: &str, c: char) -> (parts: Vec<String>)
    ensures
        views(parts@) == split_seq(s@, seq![c]),
{
    let v = to_chars(s);
    let mut p: Vec<char> = Vec::new();
    p.push(c);
    assert(p@ =~= seq![c]);
    split_chars(&v, &p)
}

/// The pieces joined with `sep`, as `[..].join(sep)` computes it.
pub fn join_strings(parts: &Vec<String>, sep: &str) -> (r: String)
    ensures
        r@ == join_seq(views(parts@), sep@),
{
    let mut r = String::new();
    let mut i: usize = 0;
    while i < parts.len()
        invariant
            i <= parts.len(),
            r@ == join_seq(views(parts@).take(i as int), sep@),
        decreases parts.len() - i,
    {
        assert(views(parts@).take(i + 1).drop_last() =~= views(parts@).take(i as int));
        if i > 0 {
            r.append(sep);
        }
        r.append(parts[i].as_str());
        i += 1;
    }
    assert(views(parts@).take(parts.len() as int) =~= views(parts@));
    r
}

/// `s.replace(from, to)`.
pub fn replace_str(s: &str, from: &str, to: &str) -> (r: String)
    ensures
        r@ == replace_seq(s@, from@, to@),
{
    let parts = split_str(s, from);
    join_strings(&parts, to)
}

/// `s.starts_with(prefix)`.
pub fn starts_with(s: &str, prefix: &str) -> (r: bool)
    ensures
        r == starts_with_seq(s@, prefix@),
{
    let v = to_chars(s);
    let p = to_chars(prefix);
    if p.len() > v.len() {
        return false;
    }
    let r = matches_at(&v, &p, 0);
    assert(v@.subrange(0, p.len() as int) =~= v@.take(p.len() as int));
    r
}

/// `s.ends_with(suffix)`.
pub fn ends_with(s: &str, suffix: &str) -> (r: bool)
    ensures
        r == ends_with_seq(s@, suffix@),
{
    let v = to_chars(s);
    let p = to_chars(suffix);
    if p.len() > v.len() {
        return false;
    }
    let r = matches_at(&v, &p, v.len() - p.len());
    assert(v@.subrange(v.len() - p.len(), v.len() as int) =~= v@.skip(v.len() - p.len()));
    r
}

/// `s.strip_prefix(prefix)`, owned.
pub fn strip_prefix(s: &str, prefix: &str) -> (r: Option<String>)
    ensures
        match r {
            Some(x) => strip_prefix_seq(s@, prefix@) == Some(x@),
            None => strip_prefix_seq(s@, prefix@) is None,
        },
{
    if starts_with(s, prefix) {
        let v = to_chars(s);
        let p = to_chars(prefix);
        let rest = from_chars(&v, p.len(), v.len());
        assert(rest@ =~= s@.skip(prefix@.len() as int));
        Some(rest)
    } else {
        None
    }
}

/// `s.trim_end_matches(pat)`, owned. An empty pattern leaves `s` as it is.
pub fn trim_end_matches(s: &str, pat: &str) -> (r: String)
    ensures
        r@ == trim_end_matches_seq(s@, pat@),
{
    let v = to_chars(s);
    let p = to_chars(pat);
    if p.len() == 0 {
        return copy_str(s);
    }
    let mut end = v.len();
    assert(v@.take(end as int) =~= v@);
    while p.len() <= end && matches_at(&v, &p, end - p.len())
        invariant
            p@ == pat@,
            p.len() > 0,
            end <= v.len(),
            trim_end_matches_seq(v@, p@) == trim_end_matches_seq(v@.take(end as int), p@),
        decreases end,
    {
        let ghost t = v@.take(end as int);
        assert(t.skip(t.len() - p.len()) =~= v@.subrange(end - p.len(), end as int));
        assert(t.take(t.len() - p.len()) =~= v@.take(end - p.len()));
        end = end - p.len();
    }
    let ghost t = v@.take(end as int);
    if p.len() <= end {
        assert(t.skip(t.len() - p.len()) =~= v@.subrange(end - p.len(), end as int));
    }
    let r = from_chars(&v, 0, end);
    assert(r@ =~= t);
    r
}

/// `c` has the Unicode `White_Space` property.
pub fn is_white_space_char(c: char) -> (r: bool)
    ensures
        r == is_white_space(c),
{
    ('\u{9}' <= c && c <= '\u{d}') || c == ' ' || c == '\u{85}' || c == '\u{a0}' || c
        == '\u{1680}' || ('\u{2000}' <= c && c <= '\u{200a}') || c == '\u{2028}' || c
        == '\u{2029}' || c == '\u{202f}' || c == '\u{205f}' || c == '\u{3000}'
}

/// `s.trim()`, owned.
pub fn trim(s: &str) -> (r: String)
    ensures
        r@ == trim_seq(s@),
{
    let v = to_chars(s);
    let mut a: usize = 0;
    assert(v@.skip(0) =~= v@);
    while a < v.len() && is_white_space_char(v[a])
        invariant
            a <= v.len(),
            trim_start_seq(v@) == trim_start_seq(v@.skip(a as int)),
        decreases v.len() - a,
    {
        assert(v@.skip(a as int).drop_first() =~= v@.skip(a + 1));
        a += 1;
    }
    let ghost t = v@.skip(a as int);
    assert(trim_start_seq(v@) == t);
    let mut b: usize = v.len();
    assert(t =~= v@.subrange(a as int, b as int));
    while b > a && is_white_space_char(v[b - 1])
        invariant
            a <= b <= v.len(),
            trim_end_seq(t) == trim_end_seq(v@.subrange(a as int, b as int)),
        decreases b,
    {
        assert(v@.subrange(a as int, b as int).drop_last() =~= v@.subrange(a as int, b - 1));
        b -= 1;
    }
    from_chars(&v, a, b)
}

proof fn lemma_digits_value_push(s: Seq<char>, c: char)
    ensures
        digits_value(s.push(c)) == digits_value(s) * 10 + ((c as int - '0' as int) as nat),
{
    assert(s.push(c).drop_last() =~= s);
}

proof fn lemma_digits_value_grows(s: Seq<char>, i: int)
    requires
        0 <= i <= s.len(),
        all_digits(s),
    ensures
        digits_value(s.take(i)) <= digits_value(s),
    decreases s.len() - i,
{
    if i == s.len() {
        assert(s.take(i) =~= s);
    } else {
        lemma_digits_value_grows(s, i + 1);
        assert(s.take(i + 1) =~= s.take(i).push(s[i]));
        lemma_digits_value_push(s.take(i), s[i]);
        assert(is_digit(s[i]));
    }
}

/// `s.parse::<u64>().ok()`.
pub fn parse_u64(s: &str) -> (r: Option<u64>)
    ensures
        r == parse_u64_seq(s@),
{
    let v = to_chars(s);
    let start: usize = if v.len() > 0 && v[0] == '+' {
        1
    } else {
        0
    };
    let ghost d = if v@.len() > 0 && v@[0] == '+' {
        v@.drop_first()
    } else {
        v@
    };
    assert(d =~= v@.skip(start as int));
    if start >= v.len() {
        return None;
    }
    let mut acc: u64 = 0;
    let mut i = start;
    assert(v@.subrange(start as int, start as int) =~= Seq::<char>::empty());
    while i < v.len()
        invariant
            start <= i <= v.len(),
            v@ == s@,
            start == 0 || start == 1,
            start == 1 <==> (v@.len() > 0 && v@[0] == '+'),
            d == v@.skip(start as int),
            d == (if v@.len() > 0 && v@[0] == '+' { v@.drop_first() } else { v@ }),
            acc == digits_value(v@.subrange(start as int, i as int)),
            all_digits(v@.subrange(start as int, i as int)),
        decreases v.len() - i,
    {
        let c = v[i];
        assert(v@.subrange(start as int, i + 1) =~= v@.subrange(start as int, i as int).push(c));
        proof {
            lemma_digits_value_push(v@.subrange(start as int, i as int), c);
        }
        if !('0' <= c && c <= '9') {
            assert(d[i - start] == c);
            assert(!is_digit(d[i - start]));
            assert(!all_digits(d));
            return None;
        }
        let digit: u64 = ((c as u32) - ('0' as u32)) as u64;
        let next = acc.checked_mul(10);
        match next {
            Some(m) => match m.checked_add(digit) {
                Some(n) => {
                    acc = n;
                },
                None => {
                    proof {
                        assert(v@.subrange(start as int, i + 1) =~= d.take(i + 1 - start));
                        assert(digits_value(d.take(i + 1 - start)) == m + digit);
                        assert(m + digit > u64::MAX);
                        if all_digits(d) {
                            lemma_digits_value_grows(d, i + 1 - start);
                        }
                    }
                    return None;
                },
            },
            None => {
                proof {
                    assert(v@.subrange(start as int, i + 1) =~= d.take(i + 1 - start));
                    assert(acc * 10 > u64::MAX);
                    assert(digits_value(d.take(i + 1 - start)) >= acc * 10);
                    if all_digits(d) {
                        lemma_digits_value_grows(d, i + 1 - start);
                    }
                }
                return None;
            },
        }
        i += 1;
    }
    assert(v@.subrange(start as int, v.len() as int) =~= d);
    Some(acc)
}

proof fn lemma_decimal_len(n: nat)
    ensures
        decimal_seq(n).len() >= 1,
    decreases n,
{
    if n >= 10 {
        lemma_decimal_len(n / 10);
    }
}

/// The decimal representation of `n`, as `n.to_string()` gives it.
pub fn u64_to_decimal(n: u64) -> (r: String)
    ensures
        r@ == decimal_seq(n as nat),
{
    // digits collected least significant first
    let mut rev: Vec<char> = Vec::new();
    let mut m = n;
    loop
        invariant_except_break
            m <= n,
            decimal_seq(n as nat) == decimal_seq(m as nat) + rev@.reverse(),
        ensures
            decimal_seq(n as nat) == rev@.reverse(),
        decreases m,
    {
        let d = m % 10;
        let c = ((d as u32 + '0' as u32) as u8) as char;
        assert(c == digit_char(d as nat)) by {
            assert(d < 10);
        }
        let ghost before = rev@;
        rev.push(c);
        assert(rev@.reverse() =~= seq![c] + before.reverse());
        if m < 10 {
            assert(decimal_seq(m as nat) == seq![c]);
            break;
        }
        assert(decimal_seq(m as nat) == decimal_seq((m / 10) as nat).push(c));
        assert(decimal_seq((m / 10) as nat).push(c) + before.reverse() =~= decimal_seq(
            (m / 10) as nat,
        ) + rev@.reverse());
        m = m / 10;
    }
    let ghost full = rev@.reverse();
    assert(decimal_seq(n as nat) == full);
    let mut out: Vec<char> = Vec::new();
    let mut k = rev.len();
    while k > 0
        invariant
            k <= rev.len(),
            out@ == rev@.subrange(k as int, rev.len() as int).reverse(),
        decreases k,
    {
        k -= 1;
        out.push(rev[k]);
        assert(rev@.subrange(k as int, rev.len() as int).reverse() =~= rev@.subrange(
            k + 1,
            rev.len() as int,
        ).reverse().push(rev@[k as int]));
    }
    assert(rev@.subrange(0, rev.len() as int) =~= rev@);
    from_chars(&out, 0, out.len())
}

/// The decimal representation of `n`, as `format!("{}", n)` gives it.
pub fn i32_to_decimal(n: i32) -> (r: String)
    ensures
        r@ == signed_decimal_seq(n as int),
{
    if n < 0 {
        let magnitude: u64 = (-(n as i64)) as u64;
        let mut r = String::new();
        push_char(&mut r, '-');
        let digits = u64_to_decimal(magnitude);
        r.append(digits.as_str());
        assert(r@ =~= seq!['-'] + decimal_seq((-n) as nat));
        r
    } else {
        u64_to_decimal(n as u64)
    }
}

} // verus!
