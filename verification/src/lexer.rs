//! Splitting a line of text into words.
//!
//! A word is a maximal run of characters that are not white space.

use vstd::prelude::*;

verus! {

/// Whether `c` has the Unicode property `White_Space`.
pub open spec fn white_space(c: char) -> bool {
    let u = c as u32;
    ||| 0x09 <= u <= 0x0D
    ||| u == 0x20
    ||| u == 0x85
    ||| u == 0xA0
    ||| u == 0x1680
    ||| 0x2000 <= u <= 0x200A
    ||| u == 0x2028
    ||| u == 0x2029
    ||| u == 0x202F
    ||| u == 0x205F
    ||| u == 0x3000
}

/// Tests whether `c` is white space.
pub fn is_white_space(c: char) -> (b: bool)
    ensures
        b == white_space(c),
{
    let u: u32 = c as u32;
    (0x09 <= u && u <= 0x0D) || u == 0x20 || u == 0x85 || u == 0xA0 || u == 0x1680 || (0x2000
        <= u && u <= 0x200A) || u == 0x2028 || u == 0x2029 || u == 0x202F || u == 0x205F || u
        == 0x3000
}

/// The characters of `s`, in order.
pub fn chars_of(s: &str) -> (v: Vec<char>)
    ensures
        v@ == s@,
{
    let mut v: Vec<char> = Vec::new();
    for c in it: s.chars()
        invariant
            v@ == it.seq().take(it.index()),
            it.seq() == s@,
    {
        v.push(c);
    }
    v
}

/// The first position at or after `i` that holds no white space, or the
/// length of `s` where only white space follows.
pub open spec fn skip_blank(s: Seq<char>, i: int) -> int
    decreases s.len() - i,
{
    if 0 <= i < s.len() && white_space(s[i]) {
        skip_blank(s, i + 1)
    } else {
        i
    }
}

/// The first position at or after `i` that holds white space, or the
/// length of `s` where none follows.
pub open spec fn skip_word(s: Seq<char>, i: int) -> int
    decreases s.len() - i,
{
    if 0 <= i < s.len() && !white_space(s[i]) {
        skip_word(s, i + 1)
    } else {
        i
    }
}

/// The words of `s` that begin at or after position `i`, in order.
pub open spec fn words_from(s: Seq<char>, i: int) -> Seq<Seq<char>>
    decreases s.len() - i,
    via words_from_decreases
{
    let a = skip_blank(s, i);
    if 0 <= i && a < s.len() {
        let b = skip_word(s, a);
        seq![s.subrange(a, b)] + words_from(s, b)
    } else {
        Seq::empty()
    }
}

#[via_fn]
proof fn words_from_decreases(s: Seq<char>, i: int) {
    let a = skip_blank(s, i);
    if 0 <= i && a < s.len() {
        lemma_skip_blank_stops(s, i);
        lemma_skip_word_stops(s, a);
    }
}

/// The words of `s`: its maximal runs of characters that are not white
/// space, from left to right.
pub open spec fn words(s: Seq<char>) -> Seq<Seq<char>> {
    words_from(s, 0)
}

/// `skip_blank` passes over white space only and stops at the first
/// character that is none.
pub proof fn lemma_skip_blank_stops(s: Seq<char>, i: int)
    requires
        0 <= i <= s.len(),
    ensures
        i <= skip_blank(s, i) <= s.len(),
        forall|k: int| i <= k < skip_blank(s, i) ==> white_space(#[trigger] s[k]),
        skip_blank(s, i) < s.len() ==> !white_space(s[skip_blank(s, i)]),
    decreases s.len() - i,
{
    if i < s.len() && white_space(s[i]) {
        lemma_skip_blank_stops(s, i + 1);
    }
}

/// `skip_word` passes over characters that are not white space and stops
/// at the first white space; from such a character it moves at least one
/// step.
pub proof fn lemma_skip_word_stops(s: Seq<char>, i: int)
    requires
        0 <= i <= s.len(),
    ensures
        i <= skip_word(s, i) <= s.len(),
        forall|k: int| i <= k < skip_word(s, i) ==> !white_space(#[trigger] s[k]),
        skip_word(s, i) < s.len() ==> white_space(s[skip_word(s, i)]),
        i < s.len() && !white_space(s[i]) ==> i < skip_word(s, i),
    decreases s.len() - i,
{
    if i < s.len() && !white_space(s[i]) {
        lemma_skip_word_stops(s, i + 1);
    }
}

/// Every word holds at least one character, and none of its characters
/// is white space.
pub proof fn lemma_words_hold_no_blank(s: Seq<char>, i: int, k: int)
    requires
        0 <= i <= s.len(),
        0 <= k < words_from(s, i).len(),
    ensures
        words_from(s, i)[k].len() > 0,
        forall|j: int|
            0 <= j < words_from(s, i)[k].len() ==> !white_space(#[trigger] words_from(s, i)[k][j]),
    decreases s.len() - i,
{
    let a = skip_blank(s, i);
    lemma_skip_blank_stops(s, i);
    let b = skip_word(s, a);
    lemma_skip_word_stops(s, a);
    if k > 0 {
        lemma_words_hold_no_blank(s, b, k - 1);
    } else {
        assert forall|j: int| 0 <= j < b - a implies !white_space(
            #[trigger] s.subrange(a, b)[j],
        ) by {
            assert(s.subrange(a, b)[j] == s[a + j]);
        }
    }
}

/// A line of white space alone, the empty line among them, has no words.
pub proof fn lemma_blank_line_has_no_words(s: Seq<char>)
    requires
        forall|i: int| 0 <= i < s.len() ==> white_space(#[trigger] s[i]),
    ensures
        words(s) == Seq::<Seq<char>>::empty(),
{
    lemma_skip_blank_stops(s, 0);
}

/// Finds where the white space that begins at `i` ends.
pub fn blank_end(line: &Vec<char>, i: usize) -> (j: usize)
    requires
        i <= line.len(),
    ensures
        j == skip_blank(line@, i as int),
        i <= j <= line.len(),
{
    let mut j: usize = i;
    while j < line.len() && is_white_space(line[j])
        invariant
            i <= j <= line.len(),
            skip_blank(line@, i as int) == skip_blank(line@, j as int),
        decreases line.len() - j,
    {
        j += 1;
    }
    j
}

/// Finds where the word that begins at `i` ends.
pub fn word_end(line: &Vec<char>, i: usize) -> (j: usize)
    requires
        i <= line.len(),
    ensures
        j == skip_word(line@, i as int),
        i <= j <= line.len(),
{
    let mut j: usize = i;
    while j < line.len() && !is_white_space(line[j])
        invariant
            i <= j <= line.len(),
            skip_word(line@, i as int) == skip_word(line@, j as int),
        decreases line.len() - j,
    {
        j += 1;
    }
    j
}

/// Copies the characters of `line` from position `from` up to, and
/// without, position `to`.
pub fn slice_of(line: &Vec<char>, from: usize, to: usize) -> (part: Vec<char>)
    requires
        from <= to <= line.len(),
    ensures
        part@ == line@.subrange(from as int, to as int),
{
    let mut part: Vec<char> = Vec::new();
    let mut k: usize = from;
    while k < to
        invariant
            from <= k <= to <= line.len(),
            part@ == line@.subrange(from as int, k as int),
        decreases to - k,
    {
        part.push(line[k]);
        k += 1;
        assert(part@ =~= line@.subrange(from as int, k as int));
    }
    part
}

/// The character sequences that a list of words holds.
pub open spec fn texts(words: Seq<Vec<char>>) -> Seq<Seq<char>> {
    words.map_values(|w: Vec<char>| w@)
}

/// Splits `line` into its words.
///
/// White space separates words and is dropped; a line of white space
/// alone, or an empty line, has no words.
pub fn split_words(line: &Vec<char>) -> (out: Vec<Vec<char>>)
    ensures
        texts(out@) == words(line@),
{
    let mut out: Vec<Vec<char>> = Vec::new();
    let mut i: usize = 0;
    while i < line.len()
        invariant
            i <= line.len(),
            words(line@) == texts(out@) + words_from(line@, i as int),
        decreases line.len() - i,
    {
        let a = blank_end(line, i);
        if a < line.len() {
            proof {
                lemma_skip_blank_stops(line@, i as int);
                lemma_skip_word_stops(line@, a as int);
            }
            let b = word_end(line, a);
            let word = slice_of(line, a, b);
            out.push(word);
            assert(words(line@) =~= texts(out@) + words_from(line@, b as int));
            i = b;
        } else {
            i = a;
        }
    }
    out
}

} // verus!
