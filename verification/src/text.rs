//! Text handling that the rest of the library builds on: comparing strings
//! and splitting a text into its words.

use vstd::prelude::*;
use vstd::string::{StrSliceExecFns, StringExecFns};
use vstd::utf8::{encode_utf8, encode_utf8_decode_utf8};

verus! {

/// Whether `c` is white space: the characters with Unicode's `White_Space`
/// property.
pub open spec fn is_whitespace(c: char) -> bool {
    ||| '\u{9}' <= c <= '\u{d}'
    ||| c == ' '
    ||| c == '\u{85}'
    ||| c == '\u{a0}'
    ||| c == '\u{1680}'
    ||| '\u{2000}' <= c <= '\u{200a}'
    ||| c == '\u{2028}'
    ||| c == '\u{2029}'
    ||| c == '\u{202f}'
    ||| c == '\u{205f}'
    ||| c == '\u{3000}'
}

/// The length of the longest prefix of `s` that holds no white space.
pub open spec fn word_len(s: Seq<char>) -> nat
    decreases s.len(),
{
    if s.len() == 0 || is_whitespace(s[0]) {
        0
    } else {
        1 + word_len(s.drop_first())
    }
}

/// The words of `s`: its maximal runs of characters that are not white
/// space, from left to right.
pub open spec fn words_of(s: Seq<char>) -> Seq<Seq<char>>
    decreases s.len(),
{
    if s.len() == 0 {
        Seq::empty()
    } else if is_whitespace(s[0]) {
        words_of(s.drop_first())
    } else {
        proof {
            lemma_word_len_bounds(s);
        }
        seq![s.take(word_len(s) as int)] + words_of(s.skip(word_len(s) as int))
    }
}

/// Whether no character of `s` is white space.
pub open spec fn is_word(s: Seq<char>) -> bool {
    forall|i: int| 0 <= i < s.len() ==> !is_whitespace(#[trigger] s[i])
}

/// The views of a vector of words.
pub open spec fn words_view(words: Seq<Vec<char>>) -> Seq<Seq<char>> {
    words.map_values(|w: Vec<char>| w@)
}

/// A word is no longer than the text it starts.
pub proof fn lemma_word_len_bounds(s: Seq<char>)
    ensures
        word_len(s) <= s.len(),
        s.len() > 0 && !is_whitespace(s[0]) ==> word_len(s) >= 1,
    decreases s.len(),
{
    if s.len() > 0 && !is_whitespace(s[0]) {
        lemma_word_len_bounds(s.drop_first());
    }
}

/// A word in front of a text that does not continue it is the first word of
/// the whole.
pub proof fn lemma_word_len_prefix(word: Seq<char>, rest: Seq<char>)
    requires
        is_word(word),
        rest.len() == 0 || is_whitespace(rest[0]),
    ensures
        word_len(word + rest) == word.len(),
    decreases word.len(),
{
    if word.len() == 0 {
        assert(word + rest =~= rest);
    } else {
        assert((word + rest).drop_first() =~= word.drop_first() + rest);
        lemma_word_len_prefix(word.drop_first(), rest);
    }
}

/// The words of a text that starts with a complete word.
pub proof fn lemma_words_after_word(word: Seq<char>, rest: Seq<char>)
    requires
        word.len() > 0,
        is_word(word),
        rest.len() == 0 || is_whitespace(rest[0]),
    ensures
        words_of(word + rest) == seq![word] + words_of(rest),
{
    let s = word + rest;
    lemma_word_len_prefix(word, rest);
    assert(s.take(word.len() as int) =~= word);
    assert(s.skip(word.len() as int) =~= rest);
}

/// Whether `c` is white space.
pub fn whitespace(c: char) -> (b: bool)
    ensures
        b == is_whitespace(c),
{
    ('\u{9}' <= c && c <= '\u{d}') || c == ' ' || c == '\u{85}' || c == '\u{a0}' || c
        == '\u{1680}' || ('\u{2000}' <= c && c <= '\u{200a}') || c == '\u{2028}' || c
        == '\u{2029}' || c == '\u{202f}' || c == '\u{205f}' || c == '\u{3000}'
}

/// Splits `s` into its words.
pub fn words(s: &str) -> (out: Vec<Vec<char>>)
    ensures
        words_view(out@) == words_of(s@),
{
    let mut out: Vec<Vec<char>> = Vec::new();
    let mut word: Vec<char> = Vec::new();
    assert(word@ + s@.skip(0) =~= s@);
    assert(words_view(out@) + words_of(s@) =~= words_of(s@));
    for c in it: s.chars()
        invariant
            it.seq() == s@,
            is_word(word@),
            words_of(s@) == words_view(out@) + words_of(word@ + s@.skip(it.index() as int)),
    {
        let ghost rest = s@.skip(it.index() as int);
        let ghost after = s@.skip(it.index() + 1);
        assert(rest.drop_first() =~= after);
        if whitespace(c) {
            if word.len() > 0 {
                proof {
                    lemma_words_after_word(word@, rest);
                    assert(words_view(out@.push(word)) =~= words_view(out@) + seq![word@]);
                }
                out.push(word);
                word = Vec::new();
                assert(word@ + after =~= after);
            } else {
                assert(word@ + rest =~= rest);
                assert(word@ + after =~= after);
            }
        } else {
            assert(word@.push(c) + after =~= word@ + rest);
            word.push(c);
        }
    }
    proof {
        let rest = s@.skip(s@.len() as int);
        assert(word@ + rest =~= word@);
        if word@.len() > 0 {
            lemma_words_after_word(word@, rest);
            assert(words_view(out@.push(word)) =~= words_view(out@) + seq![word@]);
        }
    }
    if word.len() > 0 {
        out.push(word);
    }
    out
}

/// Whether `a` and `b` hold the same text.
pub fn same_text(a: &str, b: &str) -> (same: bool)
    ensures
        same == (a@ == b@),
{
    let x = a.as_bytes();
    let y = b.as_bytes();
    proof {
        encode_utf8_decode_utf8(a@);
        encode_utf8_decode_utf8(b@);
    }
    if x.len() != y.len() {
        return false;
    }
    let mut i: usize = 0;
    while i < x.len()
        invariant
            i <= x.len(),
            x.len() == y.len(),
            x@ == encode_utf8(a@),
            y@ == encode_utf8(b@),
            forall|k: int| 0 <= k < i ==> x@[k] == y@[k],
        decreases x.len() - i,
    {
        if x[i] != y[i] {
            return false;
        }
        i = i + 1;
    }
    assert(x@ =~= y@);
    true
}

/// The decimal digit `d` as a text.
pub open spec fn digit_text(d: nat) -> Seq<char> {
    if d == 0 {
        "0"@
    } else if d == 1 {
        "1"@
    } else if d == 2 {
        "2"@
    } else if d == 3 {
        "3"@
    } else if d == 4 {
        "4"@
    } else if d == 5 {
        "5"@
    } else if d == 6 {
        "6"@
    } else if d == 7 {
        "7"@
    } else if d == 8 {
        "8"@
    } else {
        "9"@
    }
}

/// The number `n` written in decimal digits, without leading zeros.
pub open spec fn decimal_of(n: nat) -> Seq<char>
    decreases n,
{
    if n < 10 {
        digit_text(n)
    } else {
        decimal_of(n / 10) + digit_text(n % 10)
    }
}

fn digit(d: u64) -> (text: &'static str)
    requires
        d < 10,
    ensures
        text@ == digit_text(d as nat),
{
    if d == 0 {
        "0"
    } else if d == 1 {
        "1"
    } else if d == 2 {
        "2"
    } else if d == 3 {
        "3"
    } else if d == 4 {
        "4"
    } else if d == 5 {
        "5"
    } else if d == 6 {
        "6"
    } else if d == 7 {
        "7"
    } else if d == 8 {
        "8"
    } else {
        "9"
    }
}

/// Writes `n` in decimal digits.
pub fn decimal(n: u64) -> (text: String)
    ensures
        text@ == decimal_of(n as nat),
    decreases n,
{
    if n < 10 {
        String::from_str(digit(n))
    } else {
        let mut text = decimal(n / 10);
        text.append(digit(n % 10));
        text
    }
}

/// How one value stands to another in an order.
#[derive(Debug, Clone, Copy, PartialEq, Eq, Structural)]
pub enum Order {
    /// It comes first.
    Less,
    /// Neither comes first.
    Equal,
    /// It comes second.
    Greater,
}

/// How `a` stands to `b` in the order of the dictionary: the first byte in
/// which they differ decides, and a text comes before those that continue
/// it.
pub open spec fn bytes_order(a: Seq<u8>, b: Seq<u8>) -> Order
    decreases a.len(),
{
    if a.len() == 0 {
        if b.len() == 0 {
            Order::Equal
        } else {
            Order::Less
        }
    } else if b.len() == 0 {
        Order::Greater
    } else if a[0] < b[0] {
        Order::Less
    } else if a[0] > b[0] {
        Order::Greater
    } else {
        bytes_order(a.drop_first(), b.drop_first())
    }
}

/// How the text `a` stands to the text `b`: as their UTF-8 bytes do.
pub open spec fn text_order(a: Seq<char>, b: Seq<char>) -> Order {
    bytes_order(encode_utf8(a), encode_utf8(b))
}

/// Compares two texts as their UTF-8 bytes stand in the dictionary.
pub fn order_texts(a: &str, b: &str) -> (o: Order)
    ensures
        o == text_order(a@, b@),
{
    let x = a.as_bytes();
    let y = b.as_bytes();
    let mut i: usize = 0;
    assert(x@.skip(0) =~= x@ && y@.skip(0) =~= y@);
    while i < x.len() && i < y.len()
        invariant
            i <= x.len(),
            i <= y.len(),
            x@ == encode_utf8(a@),
            y@ == encode_utf8(b@),
            bytes_order(x@, y@) == bytes_order(x@.skip(i as int), y@.skip(i as int)),
        decreases x.len() - i,
    {
        proof {
            assert(x@.skip(i as int).drop_first() =~= x@.skip(i + 1));
            assert(y@.skip(i as int).drop_first() =~= y@.skip(i + 1));
        }
        if x[i] < y[i] {
            return Order::Less;
        }
        if x[i] > y[i] {
            return Order::Greater;
        }
        i = i + 1;
    }
    if i < y.len() {
        Order::Less
    } else if i < x.len() {
        Order::Greater
    } else {
        Order::Equal
    }
}

/// The length of the longest prefix of `s` that does not hold `sep`.
pub open spec fn field_len(s: Seq<char>, sep: char) -> nat
    decreases s.len(),
{
    if s.len() == 0 || s[0] == sep {
        0
    } else {
        1 + field_len(s.drop_first(), sep)
    }
}

/// The first field of `s`: what stands before the first `sep`, or all of `s`
/// if it holds none.
pub open spec fn first_field(s: Seq<char>, sep: char) -> Seq<char> {
    s.take(field_len(s, sep) as int)
}

/// The first two of the fields that `sep` parts `s` into, if there are two.
pub open spec fn two_fields(s: Seq<char>, sep: char) -> Option<(Seq<char>, Seq<char>)> {
    if field_len(s, sep) == s.len() {
        None
    } else {
        Some((first_field(s, sep), first_field(s.skip(field_len(s, sep) as int + 1), sep)))
    }
}

/// A prefix that holds no `sep`, and that ends where `sep` stands or where
/// the text ends, is the text's first field.
proof fn lemma_field_found(s: Seq<char>, sep: char, end: int)
    requires
        0 <= end <= s.len(),
        forall|i: int| 0 <= i < end ==> s[i] != sep,
        end < s.len() ==> s[end] == sep,
    ensures
        field_len(s, sep) == end,
    decreases end,
{
    if end > 0 {
        let rest = s.drop_first();
        assert forall|i: int| 0 <= i < end - 1 implies rest[i] != sep by {
            assert(rest[i] == s[i + 1]);
        }
        lemma_field_found(rest, sep, end - 1);
    }
}

fn chars_of(s: &str) -> (out: Vec<char>)
    ensures
        out@ == s@,
{
    let mut out: Vec<char> = Vec::new();
    for c in it: s.chars()
        invariant
            it.seq() == s@,
            out@ == s@.take(it.index() as int),
    {
        assert(s@.take(it.index() + 1) =~= s@.take(it.index() as int).push(c));
        out.push(c);
    }
    assert(s@.take(s@.len() as int) =~= s@);
    out
}

fn field_end(chars: &Vec<char>, from: usize, sep: char) -> (end: usize)
    requires
        from <= chars@.len(),
    ensures
        end == from + field_len(chars@.skip(from as int), sep),
        end <= chars@.len(),
{
    let mut end: usize = from;
    while end < chars.len() && chars[end] != sep
        invariant
            from <= end <= chars@.len(),
            forall|i: int| from <= i < end ==> chars@[i] != sep,
        decreases chars@.len() - end,
    {
        end = end + 1;
    }
    proof {
        lemma_field_found(chars@.skip(from as int), sep, end - from);
    }
    end
}

/// Takes the first two of the fields that `sep` parts `s` into.
pub fn split_two(s: &str, sep: char) -> (fields: Option<(String, String)>)
    ensures
        match fields {
            Some((first, second)) => two_fields(s@, sep) == Some((first@, second@)),
            None => two_fields(s@, sep) is None,
        },
{
    let chars = chars_of(s);
    assert(chars@.skip(0) =~= s@);
    let cut = field_end(&chars, 0, sep);
    if cut == chars.len() {
        return None;
    }
    let end = field_end(&chars, cut + 1, sep);
    let first = s.substring_char(0, cut);
    let second = s.substring_char(cut + 1, end);
    proof {
        let rest = s@.skip(cut + 1);
        assert(s@.subrange(0, cut as int) =~= first_field(s@, sep));
        assert(s@.subrange(cut + 1, end as int) =~= rest.take(field_len(rest, sep) as int));
    }
    Some((String::from_str(first), String::from_str(second)))
}

} // verus!
