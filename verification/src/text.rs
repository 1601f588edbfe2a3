//! Text as sequences of characters.
//!
//! The line-oriented formats of this library are stated over characters, not
//! bytes. The functions here move between `str`, `String`, UTF-8 bytes and a
//! vector of characters that can be indexed.

use std::string::FromUtf8Error;
use vstd::prelude::*;
use vstd::std_specs::iter::IteratorSpec;
use vstd::string::{StrSliceExecFns, StringExecFns};
use vstd::utf8::{decode_utf8, encode_utf8, valid_utf8};

verus! {

/// `std::string::FromUtf8Error`, the error of `String::from_utf8`.
#[verifier::external_type_specification]
#[verifier::external_body]
pub struct ExFromUtf8Error(FromUtf8Error);

/// `String::push`: appends one character.
#[verifier::external_body]
fn string_push(text: &mut String, c: char)
    ensures
        final(text)@ == old(text)@.push(c),
{
    text.push(c)
}

/// `String::from_utf8`: the text that the bytes encode, or an error where
/// they are not UTF-8.
#[verifier::external_body]
fn string_from_utf8(bytes: Vec<u8>) -> (r: Result<String, FromUtf8Error>)
    ensures
        r is Ok <==> valid_utf8(bytes@),
        r matches Ok(text) ==> text@ == decode_utf8(bytes@),
{
    String::from_utf8(bytes)
}

/// The characters of `text`, in order.
pub fn chars_of(text: &str) -> (chars: Vec<char>)
    ensures
        chars@ == text@,
{
    broadcast use vstd::string::group_string_axioms;

    let mut chars: Vec<char> = Vec::new();
    let mut iter = text.chars();
    loop
        invariant
            chars@ + iter.remaining() == text@,
            iter.decrease() is Some,
        ensures
            chars@ == text@,
        decreases iter.decrease()->0,
    {
        let ghost before = iter.remaining();
        match iter.next() {
            Some(c) => {
                proof {
                    assert(chars@.push(c) + iter.remaining() == chars@ + before);
                }
                chars.push(c);
            },
            None => {
                proof {
                    assert(chars@ + Seq::<char>::empty() == chars@);
                }
                break ;
            },
        }
    }
    chars
}

/// The text of `chars[from..to]`.
pub(crate) fn text_between(chars: &Vec<char>, from: usize, to: usize) -> (text: String)
    requires
        from <= to <= chars@.len(),
    ensures
        text@ == chars@.subrange(from as int, to as int),
{
    let mut text = String::new();
    let mut i: usize = from;
    while i < to
        invariant
            from <= i <= to <= chars@.len(),
            text@ == chars@.subrange(from as int, i as int),
        decreases to - i,
    {
        proof {
            assert(chars@.subrange(from as int, i as int).push(chars@[i as int])
                == chars@.subrange(from as int, i + 1));
        }
        string_push(&mut text, chars[i]);
        i += 1;
    }
    text
}

/// The UTF-8 encoding of `text`.
pub fn utf8_of(text: &str) -> (bytes: Vec<u8>)
    ensures
        bytes@ == encode_utf8(text@),
{
    text.as_bytes_vec()
}

/// The text that `bytes` encode, if they are UTF-8.
pub fn text_of_utf8(bytes: Vec<u8>) -> (text: Option<String>)
    ensures
        text is Some <==> valid_utf8(bytes@),
        text matches Some(t) ==> t@ == decode_utf8(bytes@),
{
    match string_from_utf8(bytes) {
        Ok(text) => Some(text),
        Err(_) => None,
    }
}

/// Where `c` first occurs in `text`, or the length of `text` where it does
/// not occur.
pub open spec fn first_index(text: Seq<char>, c: char) -> int
    decreases text.len(),
{
    if text.len() == 0 {
        0
    } else if text[0] == c {
        0
    } else {
        1 + first_index(text.drop_first(), c)
    }
}

/// [`first_index`] is the one position that holds `c` with no `c` before it.
pub proof fn lemma_first_index(text: Seq<char>, c: char, at: int)
    requires
        0 <= at <= text.len(),
        forall|j: int| 0 <= j < at ==> text[j] != c,
        at < text.len() ==> text[at] == c,
    ensures
        first_index(text, c) == at,
    decreases text.len(),
{
    if text.len() > 0 && at > 0 {
        let rest = text.drop_first();
        assert forall|j: int| 0 <= j < at - 1 implies rest[j] != c by {
            assert(rest[j] == text[j + 1]);
        }
        lemma_first_index(rest, c, at - 1);
    }
}

/// [`first_index`] stays within the text and stops at the first `c`.
pub proof fn lemma_first_index_bounds(text: Seq<char>, c: char)
    ensures
        0 <= first_index(text, c) <= text.len(),
        forall|j: int| 0 <= j < first_index(text, c) ==> text[j] != c,
        first_index(text, c) < text.len() ==> text[first_index(text, c)] == c,
    decreases text.len(),
{
    if text.len() > 0 && text[0] != c {
        let rest = text.drop_first();
        lemma_first_index_bounds(rest, c);
        assert forall|j: int| 0 <= j < first_index(text, c) implies text[j] != c by {
            if j > 0 {
                assert(text[j] == rest[j - 1]);
            }
        }
    }
}

/// The first position in `chars[from..to]` that holds `c`, or `to`.
pub(crate) fn find_char(chars: &Vec<char>, from: usize, to: usize, c: char) -> (at: usize)
    requires
        from <= to <= chars@.len(),
    ensures
        from <= at <= to,
        at - from == first_index(chars@.subrange(from as int, to as int), c),
{
    let mut at: usize = from;
    while at < to && chars[at] != c
        invariant
            from <= at <= to <= chars@.len(),
            forall|j: int| from <= j < at ==> chars@[j] != c,
        decreases to - at,
    {
        at += 1;
    }
    proof {
        lemma_first_index(chars@.subrange(from as int, to as int), c, at - from);
    }
    at
}

/// Whether `c` occurs in `text`.
pub open spec fn has_char(text: Seq<char>, c: char) -> bool {
    exists|i: int| 0 <= i < text.len() && text[i] == c
}

/// Whether `c` occurs in `text`.
pub fn contains_char(text: &str, c: char) -> (found: bool)
    ensures
        found == has_char(text@, c),
{
    let chars = chars_of(text);
    let at = find_char(&chars, 0, chars.len(), c);
    proof {
        assert(chars@.subrange(0, chars@.len() as int) == chars@);
        lemma_first_index_bounds(chars@, c);
        if at < chars@.len() {
            assert(chars@[at as int] == c);
        }
    }
    at < chars.len()
}

/// `name` as a path below the directory `base`, by the rule of
/// `std::path::Path::join` on Unix: a `name` that begins with `/` is absolute
/// and stands alone; any other is appended to `base`, with a `/` between the
/// two unless `base` is empty or ends in one already.
pub open spec fn joined(base: Seq<char>, name: Seq<char>) -> Seq<char> {
    if name.len() > 0 && name[0] == '/' {
        name
    } else if base.len() == 0 || base.last() == '/' {
        base + name
    } else {
        base + seq!['/'] + name
    }
}

/// The path of `name` below the directory `base`. An absolute `name` takes
/// the place of `base`.
pub fn join_path(base: &str, name: &str) -> (path: String)
    ensures
        path@ == joined(base@, name@),
{
    let name_chars = chars_of(name);
    if name_chars.len() > 0 && name_chars[0] == '/' {
        return name.to_owned();
    }
    let chars = chars_of(base);
    let mut path = base.to_owned();
    if chars.len() > 0 && chars[chars.len() - 1] != '/' {
        proof {
            reveal_strlit("/");
            assert("/"@ == seq!['/']);
        }
        path.append("/");
    }
    path.append(name);
    path
}

/// Whether `word` stands in `text` at position `at`.
pub open spec fn stands_at(text: Seq<char>, word: Seq<char>, at: int) -> bool {
    0 <= at && at + word.len() <= text.len() && text.subrange(at, at + word.len()) == word
}

/// Whether `word` occurs in `text`.
pub open spec fn occurs(text: Seq<char>, word: Seq<char>) -> bool {
    exists|at: int| stands_at(text, word, at)
}

/// Whether `word` stands in `chars` at position `at`.
pub(crate) fn matches_at(chars: &Vec<char>, word: &Vec<char>, at: usize) -> (found: bool)
    ensures
        found == stands_at(chars@, word@, at as int),
{
    if word.len() > chars.len() || at > chars.len() - word.len() {
        return false;
    }
    let mut i: usize = 0;
    while i < word.len()
        invariant
            i <= word@.len(),
            at + word@.len() <= chars@.len() <= usize::MAX,
            forall|j: int| 0 <= j < i ==> chars@[at + j] == word@[j],
        decreases word@.len() - i,
    {
        if chars[at + i] != word[i] {
            proof {
                assert(chars@.subrange(at as int, at + word@.len())[i as int] == chars@[at + i]);
            }
            return false;
        }
        i += 1;
    }
    proof {
        assert(chars@.subrange(at as int, at + word@.len()) =~= word@);
    }
    true
}

/// Whether `word` occurs in `chars`.
pub(crate) fn contains_word(chars: &Vec<char>, word: &Vec<char>) -> (found: bool)
    ensures
        found == occurs(chars@, word@),
{
    if word.len() > chars.len() {
        return false;
    }
    let last: usize = chars.len() - word.len();
    let mut at: usize = 0;
    loop
        invariant
            at <= last,
            last + word@.len() == chars@.len(),
            forall|j: int| 0 <= j < at ==> !stands_at(chars@, word@, j),
        decreases last - at,
    {
        if matches_at(chars, word, at) {
            return true;
        }
        if at == last {
            return false;
        }
        at += 1;
    }
}

/// What follows the last `c` in `text`: all of `text` where `c` does not
/// occur.
pub open spec fn after_last(text: Seq<char>, c: char) -> Seq<char>
    decreases text.len(),
{
    if text.len() == 0 {
        text
    } else if text.last() == c {
        Seq::empty()
    } else {
        after_last(text.drop_last(), c).push(text.last())
    }
}

/// [`after_last`] starts right behind the last `c`.
pub proof fn lemma_after_last(text: Seq<char>, c: char, from: int)
    requires
        0 <= from <= text.len(),
        forall|j: int| from <= j < text.len() ==> text[j] != c,
        from > 0 ==> text[from - 1] == c,
    ensures
        after_last(text, c) == text.subrange(from, text.len() as int),
    decreases text.len(),
{
    if text.len() == 0 {
        assert(text.subrange(0, 0) == text);
    } else if from == text.len() {
        assert(text.subrange(from, text.len() as int) == Seq::<char>::empty());
    } else {
        let shorter = text.drop_last();
        lemma_after_last(shorter, c, from);
        assert(shorter.subrange(from, shorter.len() as int).push(text.last()) == text.subrange(
            from,
            text.len() as int,
        ));
    }
}

/// The position right behind the last `c` in `chars`, or 0.
pub(crate) fn start_after_last(chars: &Vec<char>, c: char) -> (from: usize)
    ensures
        from <= chars@.len(),
        after_last(chars@, c) == chars@.subrange(from as int, chars@.len() as int),
{
    let mut from: usize = chars.len();
    while from > 0 && chars[from - 1] != c
        invariant
            from <= chars@.len(),
            forall|j: int| from <= j < chars@.len() ==> chars@[j] != c,
        decreases from,
    {
        from -= 1;
    }
    proof {
        lemma_after_last(chars@, c, from as int);
    }
    from
}

/// `text` with every occurrence of `word` replaced by `with`, found from left
/// to right without overlap. An empty `word` occurs before every character
/// and at the end.
pub open spec fn replaced(text: Seq<char>, word: Seq<char>, with: Seq<char>) -> Seq<char>
    decreases text.len(),
{
    if text.len() == 0 {
        if word.len() == 0 {
            with
        } else {
            text
        }
    } else if word.len() == 0 {
        with + seq![text[0]] + replaced(text.drop_first(), word, with)
    } else if stands_at(text, word, 0) {
        with + replaced(text.subrange(word.len() as int, text.len() as int), word, with)
    } else {
        seq![text[0]] + replaced(text.drop_first(), word, with)
    }
}

/// `text` with every occurrence of `word` replaced by `with`.
pub fn replace_all(text: &str, word: &str, with: &str) -> (result: String)
    ensures
        result@ == replaced(text@, word@, with@),
{
    let chars = chars_of(text);
    let pattern = chars_of(word);
    let total: usize = chars.len();
    let mut result = String::new();
    let mut at: usize = 0;
    proof {
        assert(chars@.subrange(0, total as int) == chars@);
        assert(result@ + replaced(chars@, word@, with@) == replaced(chars@, word@, with@));
    }
    while at < total
        invariant
            at <= total == chars@.len(),
            pattern@ == word@,
            replaced(text@, word@, with@) == result@ + replaced(
                chars@.subrange(at as int, total as int),
                word@,
                with@,
            ),
            chars@ == text@,
        decreases total - at,
    {
        let ghost rest = chars@.subrange(at as int, total as int);
        let ghost before = result@;
        if pattern.len() == 0 {
            result.append(with);
            string_push(&mut result, chars[at]);
            proof {
                let tail = replaced(rest.drop_first(), word@, with@);
                assert(rest.drop_first() == chars@.subrange(at + 1, total as int));
                assert(result@ == before + (with@ + seq![rest[0]]));
                assert(before + (with@ + seq![rest[0]] + tail) == (before + (with@ + seq![
                    rest[0],
                ])) + tail);
            }
            at += 1;
        } else if matches_at(&chars, &pattern, at) {
            proof {
                assert(rest.subrange(0, word@.len() as int) == chars@.subrange(
                    at as int,
                    at + word@.len(),
                ));
                assert(stands_at(rest, word@, 0));
                let tail = replaced(
                    rest.subrange(word@.len() as int, rest.len() as int),
                    word@,
                    with@,
                );
                assert(rest.subrange(word@.len() as int, rest.len() as int) == chars@.subrange(
                    at + word@.len(),
                    total as int,
                ));
                assert(before + (with@ + tail) == (before + with@) + tail);
            }
            result.append(with);
            at += pattern.len();
        } else {
            proof {
                if at + word@.len() <= total {
                    assert(rest.subrange(0, word@.len() as int) == chars@.subrange(
                        at as int,
                        at + word@.len(),
                    ));
                }
                assert(!stands_at(rest, word@, 0));
                let tail = replaced(rest.drop_first(), word@, with@);
                assert(rest.drop_first() == chars@.subrange(at + 1, total as int));
                assert(before + (seq![rest[0]] + tail) == before.push(rest[0]) + tail);
            }
            string_push(&mut result, chars[at]);
            at += 1;
        }
    }
    proof {
        assert(chars@.subrange(total as int, total as int) == Seq::<char>::empty());
    }
    if pattern.len() == 0 {
        result.append(with);
    } else {
        proof {
            assert(result@ + Seq::<char>::empty() == result@);
        }
    }
    result
}

/// `c` in lower case where it is an ASCII capital, `c` itself otherwise.
pub open spec fn ascii_lower(c: char) -> char {
    if 'A' <= c && c <= 'Z' {
        ((c as u8) + 32) as char
    } else {
        c
    }
}

/// `text` with every ASCII capital in lower case.
pub open spec fn lowered(text: Seq<char>) -> Seq<char> {
    Seq::new(text.len(), |i: int| ascii_lower(text[i]))
}

/// `text` with every ASCII capital in lower case.
pub fn to_ascii_lower(text: &str) -> (lower: String)
    ensures
        lower@ == lowered(text@),
{
    let chars = chars_of(text);
    let mut lower = String::new();
    let mut i: usize = 0;
    while i < chars.len()
        invariant
            i <= chars@.len(),
            lower@ == lowered(chars@.subrange(0, i as int)),
        decreases chars@.len() - i,
    {
        let c = chars[i];
        let l = if 'A' <= c && c <= 'Z' {
            ((c as u8) + 32) as char
        } else {
            c
        };
        proof {
            assert(lowered(chars@.subrange(0, i as int)).push(l) == lowered(
                chars@.subrange(0, i + 1),
            ));
        }
        string_push(&mut lower, l);
        i += 1;
    }
    proof {
        assert(chars@.subrange(0, chars@.len() as int) == chars@);
    }
    lower
}

} // verus!
