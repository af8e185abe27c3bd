//! What the other modules share for working on text, character by
//! character: white space, words and trimming, searching and cutting.
//!
//! The functions that run work on vectors of characters, so that an index
//! is the index of a character. Their contracts are stated over the
//! sequences of characters that the spec functions here describe.

use vstd::prelude::*;
use vstd::string::*;

verus! {

// The standard library's string, as far as these modules change one.

/// `String::push` of the standard library appends the given character to the
/// end of the string and leaves the characters before it unchanged.
pub assume_specification[ String::push ](s: &mut String, c: char)
    ensures
        final(s)@ == old(s)@.push(c),
;

/// `String::pop` of the standard library removes the last character and
/// returns it, and returns `None` for an empty string, which it leaves as it
/// is.
pub assume_specification[ String::pop ](s: &mut String) -> (c: Option<char>)
    ensures
        old(s)@.len() == 0 ==> c is None && final(s)@ == old(s)@,
        old(s)@.len() > 0 ==> c == Some(old(s)@.last()) && final(s)@ == old(s)@.drop_last(),
;

/// `String::clear` of the standard library removes all characters.
pub assume_specification[ String::clear ](s: &mut String)
    ensures
        final(s)@ == Seq::<char>::empty(),
;

// Characters.

/// A character is its code point: a number up to `0x10FFFF`, from which the
/// character can be had back.
pub proof fn lemma_char_is_code_point(c: char)
    ensures
        0 <= c as int <= 0x10FFFF,
        (c as int) as char == c,
{
}

/// The code point of `c`.
pub(crate) fn code_point(c: char) -> (n: u32)
    ensures
        n as int == c as int,
        n <= 0x10FFFF,
{
    c as u32
}

// Strings and vectors of characters.

/// The characters of `s`, in order.
pub(crate) fn chars_of(s: &str) -> (v: Vec<char>)
    ensures
        v@ == s@,
{
    let mut v: Vec<char> = Vec::new();
    for c in it: s.chars()
        invariant
            v@ == it.seq().take(it.index() as int),
            it.seq() == s@,
    {
        v.push(c);
    }
    v
}

/// Appends the characters `v[from..to]` to `out`.
pub(crate) fn push_range(out: &mut String, v: &Vec<char>, from: usize, to: usize)
    requires
        from <= to <= v@.len(),
    ensures
        final(out)@ == old(out)@ + v@.subrange(from as int, to as int),
{
    let mut i: usize = from;
    while i < to
        invariant
            from <= i <= to <= v@.len(),
            out@ == old(out)@ + v@.subrange(from as int, i as int),
        decreases to - i,
    {
        out.push(v[i]);
        i += 1;
        assert(v@.subrange(from as int, i as int) == v@.subrange(from as int, i - 1).push(
            v@[i - 1],
        ));
    }
}

/// The string made of the characters `v[from..to]`.
pub(crate) fn string_of_range(v: &Vec<char>, from: usize, to: usize) -> (s: String)
    requires
        from <= to <= v@.len(),
    ensures
        s@ == v@.subrange(from as int, to as int),
{
    let mut s = String::new();
    push_range(&mut s, v, from, to);
    s
}

/// The characters `v[from..to]` as a vector of their own.
pub(crate) fn sub_vec(v: &Vec<char>, from: usize, to: usize) -> (part: Vec<char>)
    requires
        from <= to <= v@.len(),
    ensures
        part@ == v@.subrange(from as int, to as int),
{
    let mut part: Vec<char> = Vec::new();
    let mut i: usize = from;
    while i < to
        invariant
            from <= i <= to <= v@.len(),
            part@ == v@.subrange(from as int, i as int),
        decreases to - i,
    {
        part.push(v[i]);
        i += 1;
    }
    part
}

/// The views of `parts`, in order.
pub open spec fn texts(parts: Seq<Vec<char>>) -> Seq<Seq<char>> {
    Seq::new(parts.len(), |i: int| parts[i]@)
}

/// The views of `parts`, in order.
pub open spec fn string_views(parts: Seq<String>) -> Seq<Seq<char>> {
    Seq::new(parts.len(), |i: int| parts[i]@)
}

/// Whether `v` holds exactly the characters of `word`.
pub(crate) fn same_text(v: &Vec<char>, word: &str) -> (b: bool)
    ensures
        b == (v@ == word@),
{
    let w = chars_of(word);
    assert(v@.subrange(0, v@.len() as int) == v@);
    w.len() == v.len() && matches_at(v, &w, 0)
}

// White space and words.

/// White space: the characters that Unicode gives the property White_Space.
pub open spec fn is_space(c: char) -> bool {
    let n = c as int;
    ||| 0x09 <= n <= 0x0d
    ||| n == 0x20
    ||| n == 0x85
    ||| n == 0xa0
    ||| n == 0x1680
    ||| 0x2000 <= n <= 0x200a
    ||| n == 0x2028
    ||| n == 0x2029
    ||| n == 0x202f
    ||| n == 0x205f
    ||| n == 0x3000
}

/// Whether `c` is white space.
pub(crate) fn is_whitespace(c: char) -> (b: bool)
    ensures
        b == is_space(c),
{
    let n: u32 = code_point(c);
    (0x09 <= n && n <= 0x0d) || n == 0x20 || n == 0x85 || n == 0xa0 || n == 0x1680 || (0x2000 <= n
        && n <= 0x200a) || n == 0x2028 || n == 0x2029 || n == 0x202f || n == 0x205f || n == 0x3000
}

/// The first index at or after `from` that holds no white space, `s.len()`
/// where only white space follows.
pub open spec fn skip_spaces(s: Seq<char>, from: int) -> int
    decreases s.len() - from,
{
    if from < 0 || from >= s.len() {
        s.len() as int
    } else if is_space(s[from]) {
        skip_spaces(s, from + 1)
    } else {
        from
    }
}

/// The first index at or after `from` that holds white space, `s.len()` where
/// none follows.
pub open spec fn skip_word(s: Seq<char>, from: int) -> int
    decreases s.len() - from,
{
    if from < 0 || from >= s.len() {
        s.len() as int
    } else if is_space(s[from]) {
        from
    } else {
        skip_word(s, from + 1)
    }
}

/// The length of `s.take(upto)` without the white space at its end.
pub open spec fn drop_spaces(s: Seq<char>, upto: int) -> int
    decreases upto,
{
    if upto <= 0 || upto > s.len() {
        0
    } else if is_space(s[upto - 1]) {
        drop_spaces(s, upto - 1)
    } else {
        upto
    }
}

/// `s` without the white space at its start and at its end.
pub open spec fn trimmed(s: Seq<char>) -> Seq<char> {
    let start = skip_spaces(s, 0);
    let end = drop_spaces(s, s.len() as int);
    if start < end {
        s.subrange(start, end)
    } else {
        Seq::empty()
    }
}

/// The first word of `s`: what stands between the white space at its start
/// and the next white space. Empty where `s` holds white space only.
pub open spec fn first_word(s: Seq<char>) -> Seq<char> {
    let start = skip_spaces(s, 0);
    s.subrange(start, skip_word(s, start))
}

/// What follows the first word of `s`.
pub open spec fn after_first_word(s: Seq<char>) -> Seq<char> {
    s.skip(skip_word(s, skip_spaces(s, 0)))
}

/// The words of `s` that start at index `from` or later: the stretches
/// without white space, in order.
pub open spec fn words_from(s: Seq<char>, from: int) -> Seq<Seq<char>>
    decreases s.len() - from,
{
    let start = skip_spaces(s, from);
    if from < 0 || start >= s.len() {
        Seq::empty()
    } else {
        let end = skip_word(s, start);
        proof {
            lemma_skip_spaces_bounds(s, from);
            lemma_skip_spaces_finds_word(s, from);
            lemma_skip_word_bounds(s, start + 1);
        }
        seq![s.subrange(start, end)] + words_from(s, end)
    }
}

/// The words of `s`: what stands between white space.
pub open spec fn words(s: Seq<char>) -> Seq<Seq<char>> {
    words_from(s, 0)
}

/// The index that `skip_spaces` names.
pub(crate) fn find_word(v: &Vec<char>, from: usize) -> (at: usize)
    requires
        from <= v@.len(),
    ensures
        at == skip_spaces(v@, from as int),
        from <= at <= v@.len(),
{
    let mut i: usize = from;
    while i < v.len() && is_whitespace(v[i])
        invariant
            from <= i <= v@.len(),
            skip_spaces(v@, from as int) == skip_spaces(v@, i as int),
        decreases v@.len() - i,
    {
        i += 1;
    }
    i
}

/// The index that `skip_word` names.
pub(crate) fn find_space(v: &Vec<char>, from: usize) -> (at: usize)
    requires
        from <= v@.len(),
    ensures
        at == skip_word(v@, from as int),
        from <= at <= v@.len(),
{
    let mut i: usize = from;
    while i < v.len() && !is_whitespace(v[i])
        invariant
            from <= i <= v@.len(),
            skip_word(v@, from as int) == skip_word(v@, i as int),
        decreases v@.len() - i,
    {
        i += 1;
    }
    i
}

/// The length that `drop_spaces` names.
pub(crate) fn find_end(v: &Vec<char>, upto: usize) -> (end: usize)
    requires
        upto <= v@.len(),
    ensures
        end == drop_spaces(v@, upto as int),
        end <= upto,
{
    let mut i: usize = upto;
    while i > 0 && is_whitespace(v[i - 1])
        invariant
            i <= upto <= v@.len(),
            drop_spaces(v@, upto as int) == drop_spaces(v@, i as int),
        decreases i,
    {
        i -= 1;
    }
    i
}

/// `v` without the white space at its start and at its end.
pub(crate) fn trim(v: &Vec<char>) -> (t: Vec<char>)
    ensures
        t@ == trimmed(v@),
{
    let start = find_word(v, 0);
    let end = find_end(v, v.len());
    if start < end {
        sub_vec(v, start, end)
    } else {
        Vec::new()
    }
}

/// The words of `v`.
pub(crate) fn split_words(v: &Vec<char>) -> (parts: Vec<Vec<char>>)
    ensures
        texts(parts@) == words(v@),
{
    let mut parts: Vec<Vec<char>> = Vec::new();
    let mut at: usize = 0;
    loop
        invariant
            at <= v@.len(),
            words(v@) == texts(parts@) + words_from(v@, at as int),
        decreases v@.len() - at,
    {
        let start = find_word(v, at);
        if start >= v.len() {
            assert(words_from(v@, at as int) =~= Seq::<Seq<char>>::empty());
            assert(texts(parts@) + Seq::<Seq<char>>::empty() =~= texts(parts@));
            return parts;
        }
        let end = find_space(v, start);
        proof {
            lemma_skip_spaces_finds_word(v@, at as int);
            lemma_skip_word_bounds(v@, start + 1);
        }
        let ghost before = texts(parts@);
        parts.push(sub_vec(v, start, end));
        assert(texts(parts@) =~= before.push(v@.subrange(start as int, end as int)));
        assert(before + (seq![v@.subrange(start as int, end as int)] + words_from(v@, end as int))
            =~= before.push(v@.subrange(start as int, end as int)) + words_from(v@, end as int));
        at = end;
    }
}

// Searching and cutting.

/// Whether `pattern` stands in `s` at index `at`.
pub open spec fn occurs_at(s: Seq<char>, pattern: Seq<char>, at: int) -> bool {
    &&& 0 <= at
    &&& at + pattern.len() <= s.len()
    &&& s.subrange(at, at + pattern.len()) == pattern
}

/// The first index at or after `from` where `pattern` stands in `s`.
pub open spec fn first_occurrence(s: Seq<char>, pattern: Seq<char>, from: int) -> Option<int>
    decreases s.len() - from,
{
    if from < 0 || from + pattern.len() > s.len() {
        None
    } else if occurs_at(s, pattern, from) {
        Some(from)
    } else if from < s.len() {
        first_occurrence(s, pattern, from + 1)
    } else {
        None
    }
}

/// The first index at or after `from` that holds `c`, `s.len()` where none
/// follows.
pub open spec fn index_of(s: Seq<char>, c: char, from: int) -> int
    decreases s.len() - from,
{
    if from < 0 || from >= s.len() {
        s.len() as int
    } else if s[from] == c {
        from
    } else {
        index_of(s, c, from + 1)
    }
}

/// The pieces of `s` from index `from` on, cut at every `separator`. A text
/// with n separators has n + 1 pieces, empty ones among them.
pub open spec fn pieces_from(s: Seq<char>, separator: char, from: int) -> Seq<Seq<char>>
    decreases s.len() - from,
{
    let cut = index_of(s, separator, from);
    if from < 0 || from > s.len() {
        Seq::empty()
    } else if cut >= s.len() {
        seq![s.subrange(from, s.len() as int)]
    } else {
        proof {
            lemma_index_of_bounds(s, separator, from);
        }
        seq![s.subrange(from, cut)] + pieces_from(s, separator, cut + 1)
    }
}

/// The pieces of `s`, cut at every `separator`.
pub open spec fn pieces(s: Seq<char>, separator: char) -> Seq<Seq<char>> {
    pieces_from(s, separator, 0)
}

/// Whether `pattern` stands in `v` at index `at`.
pub(crate) fn matches_at(v: &Vec<char>, pattern: &Vec<char>, at: usize) -> (b: bool)
    ensures
        b == occurs_at(v@, pattern@, at as int),
{
    let n = v.len();
    let m = pattern.len();
    if m > n || at > n - m {
        return false;
    }
    let mut k: usize = 0;
    while k < m
        invariant
            n == v@.len(),
            m == pattern@.len(),
            k <= m,
            at + m <= n,
            v@.subrange(at as int, at + k) == pattern@.take(k as int),
        decreases m - k,
    {
        if v[at + k] != pattern[k] {
            proof {
                let whole = v@.subrange(at as int, at + m);
                assert(whole[k as int] != pattern@[k as int]);
            }
            return false;
        }
        k += 1;
        assert(v@.subrange(at as int, at + k) =~= pattern@.take(k as int)) by {
            let a = v@.subrange(at as int, at + k);
            let b = pattern@.take(k as int);
            assert forall|j: int| 0 <= j < k implies a[j] == b[j] by {
                if j < k - 1 {
                    assert(v@.subrange(at as int, at + k - 1)[j] == pattern@.take(k - 1)[j]);
                }
            }
        }
    }
    assert(pattern@.take(k as int) == pattern@);
    true
}

/// The index that `first_occurrence` names.
pub(crate) fn find(v: &Vec<char>, pattern: &Vec<char>, from: usize) -> (at: Option<usize>)
    requires
        from <= v@.len(),
    ensures
        first_occurrence(v@, pattern@, from as int) == match at {
            Some(i) => Some(i as int),
            None => None,
        },
        at matches Some(i) ==> from <= i && i + pattern@.len() <= v@.len(),
{
    let n = v.len();
    let m = pattern.len();
    if m > n || from > n - m {
        return None;
    }
    let last: usize = n - m;
    let mut i: usize = from;
    loop
        invariant
            n == v@.len(),
            m == pattern@.len(),
            last + m == n,
            from <= i <= last,
            first_occurrence(v@, pattern@, from as int) == first_occurrence(v@, pattern@, i as int),
        decreases last - i,
    {
        if matches_at(v, pattern, i) {
            return Some(i);
        }
        if i >= last {
            assert(first_occurrence(v@, pattern@, i + 1) is None);
            return None;
        }
        i += 1;
    }
}

/// The index that `index_of` names.
pub(crate) fn find_char(v: &Vec<char>, c: char, from: usize) -> (at: usize)
    requires
        from <= v@.len(),
    ensures
        at == index_of(v@, c, from as int),
        from <= at <= v@.len(),
{
    let mut i: usize = from;
    while i < v.len() && v[i] != c
        invariant
            from <= i <= v@.len(),
            index_of(v@, c, from as int) == index_of(v@, c, i as int),
        decreases v@.len() - i,
    {
        i += 1;
    }
    i
}

/// Whether `c` stands in `v`.
pub(crate) fn has_char(v: &Vec<char>, c: char) -> (b: bool)
    ensures
        b == v@.contains(c),
{
    let at = find_char(v, c, 0);
    proof {
        lemma_index_of_bounds(v@, c, 0);
        if at >= v@.len() {
            lemma_index_of_misses(v@, c, 0);
        }
    }
    at < v.len()
}

/// The pieces of `v`, cut at every `separator`.
pub(crate) fn split_at_char(v: &Vec<char>, separator: char) -> (parts: Vec<Vec<char>>)
    ensures
        texts(parts@) == pieces(v@, separator),
        parts@.len() >= 1,
{
    let mut parts: Vec<Vec<char>> = Vec::new();
    let mut at: usize = 0;
    loop
        invariant
            at <= v@.len(),
            pieces(v@, separator) == texts(parts@) + pieces_from(v@, separator, at as int),
        decreases v@.len() - at,
    {
        let cut = find_char(v, separator, at);
        let ghost before = texts(parts@);
        parts.push(sub_vec(v, at, cut));
        assert(texts(parts@) =~= before.push(v@.subrange(at as int, cut as int)));
        if cut >= v.len() {
            assert(before + seq![v@.subrange(at as int, cut as int)] =~= before.push(
                v@.subrange(at as int, cut as int),
            ));
            return parts;
        }
        assert(before + (seq![v@.subrange(at as int, cut as int)] + pieces_from(
            v@,
            separator,
            cut + 1,
        )) =~= before.push(v@.subrange(at as int, cut as int)) + pieces_from(
            v@,
            separator,
            cut + 1,
        ));
        at = cut + 1;
    }
}

// What holds of the indices above.

/// `skip_spaces` names an index from `from` on, inside `s` or at its end.
pub proof fn lemma_skip_spaces_bounds(s: Seq<char>, from: int)
    requires
        0 <= from <= s.len(),
    ensures
        from <= skip_spaces(s, from) <= s.len(),
    decreases s.len() - from,
{
    if from < s.len() && is_space(s[from]) {
        lemma_skip_spaces_bounds(s, from + 1);
    }
}

/// `skip_word` names an index from `from` on, inside `s` or at its end.
pub proof fn lemma_skip_word_bounds(s: Seq<char>, from: int)
    requires
        0 <= from <= s.len(),
    ensures
        from <= skip_word(s, from) <= s.len(),
    decreases s.len() - from,
{
    if from < s.len() && !is_space(s[from]) {
        lemma_skip_word_bounds(s, from + 1);
    }
}

/// `drop_spaces` names a length up to `upto`.
pub proof fn lemma_drop_spaces_bounds(s: Seq<char>, upto: int)
    requires
        0 <= upto <= s.len(),
    ensures
        0 <= drop_spaces(s, upto) <= upto,
    decreases upto,
{
    if upto > 0 && is_space(s[upto - 1]) {
        lemma_drop_spaces_bounds(s, upto - 1);
    }
}

/// Where `skip_spaces` names an index inside `s`, a word starts there: it
/// is at least one character long.
pub proof fn lemma_skip_spaces_finds_word(s: Seq<char>, from: int)
    requires
        0 <= from <= s.len(),
        skip_spaces(s, from) < s.len(),
    ensures
        !is_space(s[skip_spaces(s, from)]),
        skip_word(s, skip_spaces(s, from)) == skip_word(s, skip_spaces(s, from) + 1),
    decreases s.len() - from,
{
    if from < s.len() && is_space(s[from]) {
        lemma_skip_spaces_finds_word(s, from + 1);
    }
}

/// `index_of` names an index from `from` on, and one inside `s` holds `c`.
pub proof fn lemma_index_of_bounds(s: Seq<char>, c: char, from: int)
    requires
        0 <= from <= s.len(),
    ensures
        from <= index_of(s, c, from) <= s.len(),
        index_of(s, c, from) < s.len() ==> s[index_of(s, c, from)] == c,
    decreases s.len() - from,
{
    if from < s.len() && s[from] != c {
        lemma_index_of_bounds(s, c, from + 1);
    }
}

/// Where `index_of` names the end of `s`, `c` does not stand at `from` or later.
pub proof fn lemma_index_of_misses(s: Seq<char>, c: char, from: int)
    requires
        0 <= from <= s.len(),
        index_of(s, c, from) >= s.len(),
    ensures
        forall|i: int| from <= i < s.len() ==> s[i] != c,
    decreases s.len() - from,
{
    if from < s.len() {
        lemma_index_of_misses(s, c, from + 1);
    }
}

/// `skip_spaces` stops at the first character that is no white space.
pub proof fn lemma_skip_spaces_stops(s: Seq<char>, from: int, at: int)
    requires
        0 <= from <= at <= s.len(),
        forall|i: int| from <= i < at ==> is_space(#[trigger] s[i]),
        at == s.len() || !is_space(s[at]),
    ensures
        skip_spaces(s, from) == at,
    decreases at - from,
{
    if from < at {
        lemma_skip_spaces_stops(s, from + 1, at);
    }
}

/// `skip_word` stops at the first white space.
pub proof fn lemma_skip_word_stops(s: Seq<char>, from: int, at: int)
    requires
        0 <= from <= at <= s.len(),
        forall|i: int| from <= i < at ==> !is_space(#[trigger] s[i]),
        at == s.len() || is_space(s[at]),
    ensures
        skip_word(s, from) == at,
    decreases at - from,
{
    if from < at {
        lemma_skip_word_stops(s, from + 1, at);
    }
}

/// `drop_spaces` stops behind the last character that is no white space.
pub proof fn lemma_drop_spaces_stops(s: Seq<char>, upto: int, at: int)
    requires
        0 <= at <= upto <= s.len(),
        forall|i: int| at <= i < upto ==> is_space(#[trigger] s[i]),
        at == 0 || !is_space(s[at - 1]),
    ensures
        drop_spaces(s, upto) == at,
    decreases upto - at,
{
    if at < upto {
        lemma_drop_spaces_stops(s, upto - 1, at);
    }
}

/// Before the index that `skip_spaces` names stands white space only, and
/// at it none.
pub proof fn lemma_skip_spaces_skips_spaces(s: Seq<char>, from: int)
    requires
        0 <= from <= s.len(),
    ensures
        from <= skip_spaces(s, from) <= s.len(),
        forall|i: int| from <= i < skip_spaces(s, from) ==> is_space(#[trigger] s[i]),
        skip_spaces(s, from) < s.len() ==> !is_space(s[skip_spaces(s, from)]),
    decreases s.len() - from,
{
    if from < s.len() && is_space(s[from]) {
        lemma_skip_spaces_skips_spaces(s, from + 1);
    }
}

/// Behind the length that `drop_spaces` names stands white space only, and
/// just before it none.
pub proof fn lemma_drop_spaces_drops_spaces(s: Seq<char>, upto: int)
    requires
        0 <= upto <= s.len(),
    ensures
        0 <= drop_spaces(s, upto) <= upto,
        forall|i: int| drop_spaces(s, upto) <= i < upto ==> is_space(#[trigger] s[i]),
        drop_spaces(s, upto) > 0 ==> !is_space(s[drop_spaces(s, upto) - 1]),
    decreases upto,
{
    if upto > 0 && is_space(s[upto - 1]) {
        lemma_drop_spaces_drops_spaces(s, upto - 1);
    }
}

/// White space around a text does not change what is left of it when it is
/// trimmed.
pub proof fn lemma_trimmed_ignores_spaces_around(left: Seq<char>, s: Seq<char>, right: Seq<char>)
    requires
        forall|i: int| 0 <= i < left.len() ==> is_space(#[trigger] left[i]),
        forall|i: int| 0 <= i < right.len() ==> is_space(#[trigger] right[i]),
    ensures
        trimmed(left + s + right) == trimmed(s),
{
    let t = left + s + right;
    let shift = left.len() as int;
    let start = skip_spaces(s, 0);
    let end = drop_spaces(s, s.len() as int);
    lemma_skip_spaces_skips_spaces(s, 0);
    lemma_drop_spaces_drops_spaces(s, s.len() as int);
    assert forall|i: int| 0 <= i < t.len() implies #[trigger] t[i] == if i < shift {
        left[i]
    } else if i < shift + s.len() {
        s[i - shift]
    } else {
        right[i - shift - s.len()]
    } by {}
    if start < s.len() {
        assert(end > start) by {
            if end <= start {
                assert(is_space(s[start]));
            }
        }
        assert forall|i: int| 0 <= i < shift + start implies is_space(#[trigger] t[i]) by {
            if i >= shift {
                assert(is_space(s[i - shift]));
            }
        }
        lemma_skip_spaces_stops(t, 0, shift + start);
        assert forall|i: int| shift + end <= i < t.len() implies is_space(#[trigger] t[i]) by {
            if i < shift + s.len() {
                assert(is_space(s[i - shift]));
            }
        }
        lemma_drop_spaces_stops(t, t.len() as int, shift + end);
        assert(t.subrange(shift + start, shift + end) =~= s.subrange(start, end));
    } else {
        assert forall|i: int| 0 <= i < t.len() implies is_space(#[trigger] t[i]) by {
            if shift <= i < shift + s.len() {
                assert(is_space(s[i - shift]));
            }
        }
        lemma_skip_spaces_stops(t, 0, t.len() as int);
        lemma_drop_spaces_bounds(t, t.len() as int);
        assert(end <= start) by {
            if end > 0 {
                assert(is_space(s[end - 1]));
            }
        }
    }
}

/// A trimmed text neither starts nor ends with white space, so trimming it
/// again changes nothing.
pub proof fn lemma_trimmed_is_trimmed(s: Seq<char>)
    ensures
        trimmed(s).len() > 0 ==> !is_space(trimmed(s).first()) && !is_space(trimmed(s).last()),
        trimmed(trimmed(s)) == trimmed(s),
{
    let t = trimmed(s);
    let start = skip_spaces(s, 0);
    let end = drop_spaces(s, s.len() as int);
    lemma_skip_spaces_skips_spaces(s, 0);
    lemma_drop_spaces_drops_spaces(s, s.len() as int);
    if start < end {
        assert(t =~= s.subrange(start, end));
        assert(t.first() == s[start]);
        assert(t.last() == s[end - 1]);
        lemma_skip_spaces_stops(t, 0, 0);
        lemma_drop_spaces_stops(t, t.len() as int, t.len() as int);
        assert(t.subrange(0, t.len() as int) =~= t);
    } else {
        assert(t =~= Seq::<char>::empty());
    }
}

} // verus!
