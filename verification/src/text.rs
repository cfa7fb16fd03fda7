//! Text as sequences of characters: conversions between strings and
//! character vectors, and the splitting of a text into words.

use vstd::prelude::*;
use vstd::string::*;

verus! {

/// Whether a character is white space as Unicode defines it: whether it
/// has the property `White_Space`. These are the characters U+0009 to
/// U+000D, U+0020, U+0085, U+00A0, U+1680, U+2000 to U+200A, U+2028, U+2029,
/// U+202F, U+205F and U+3000.
pub open spec fn is_white_space(ch: char) -> bool {
    let code = ch as u32;
    ||| 0x0009 <= code <= 0x000D
    ||| code == 0x0020
    ||| code == 0x0085
    ||| code == 0x00A0
    ||| code == 0x1680
    ||| 0x2000 <= code <= 0x200A
    ||| code == 0x2028
    ||| code == 0x2029
    ||| code == 0x202F
    ||| code == 0x205F
    ||| code == 0x3000
}

/// `char::is_whitespace` tells whether the character has the Unicode
/// property `White_Space`.
pub assume_specification[ char::is_whitespace ](ch: char) -> (white: bool)
    ensures
        white == is_white_space(ch),
;

/// `String::push` appends one character.
pub assume_specification[ String::push ](text: &mut String, ch: char)
    ensures
        final(text)@ == old(text)@.push(ch),
;

/// The characters of `text`, in order.
pub fn chars_of(text: &str) -> (chars: Vec<char>)
    ensures
        chars@ == text@,
{
    let mut chars: Vec<char> = Vec::new();
    for c in it: text.chars()
        invariant
            chars@ == it.seq().take(it.index() as int),
            it.seq() == text@,
    {
        chars.push(c);
        assert(it.seq().take(it.index() + 1) =~= it.seq().take(it.index() as int).push(c));
    }
    assert(text@.take(text@.len() as int) =~= text@);
    chars
}

/// The string that holds `chars`, in order.
pub fn string_of(chars: &Vec<char>) -> (text: String)
    ensures
        text@ == chars@,
{
    let mut text = String::new();
    let mut i: usize = 0;
    while i < chars.len()
        invariant
            i <= chars@.len(),
            text@ == chars@.take(i as int),
        decreases chars@.len() - i,
    {
        text.push(chars[i]);
        assert(chars@.take(i + 1) =~= chars@.take(i as int).push(chars@[i as int]));
        i = i + 1;
    }
    assert(chars@.take(chars@.len() as int) =~= chars@);
    text
}

/// The number of characters at the start of `text` before its first white
/// space, or before its end where it holds none.
pub open spec fn word_len(text: Seq<char>) -> int
    decreases text.len(),
{
    if text.len() == 0 || is_white_space(text[0]) {
        0
    } else {
        1 + word_len(text.drop_first())
    }
}

/// The words of `text`: its longest stretches without white space, in
/// order. White space separates words and belongs to none.
pub open spec fn words_of(text: Seq<char>) -> Seq<Seq<char>>
    decreases text.len(),
    via words_of_ends
{
    if text.len() == 0 {
        Seq::empty()
    } else if is_white_space(text[0]) {
        words_of(text.drop_first())
    } else {
        seq![text.take(word_len(text))] + words_of(text.skip(word_len(text)))
    }
}

#[via_fn]
proof fn words_of_ends(text: Seq<char>) {
    lemma_word_len_bounds(text);
}

/// The length in bytes of `text` in UTF-8.
pub open spec fn byte_len(text: Seq<char>) -> nat {
    vstd::utf8::encode_utf8(text).len()
}

/// The length in bytes of `text` in UTF-8.
pub fn byte_length(text: &str) -> (n: usize)
    ensures
        n == byte_len(text@),
{
    text.as_bytes().len()
}

/// A stretch without white space that ends at the text's end or at a white
/// space is the text's first word.
pub proof fn lemma_word_len(text: Seq<char>, end: int)
    requires
        0 <= end <= text.len(),
        forall|k: int| 0 <= k < end ==> !is_white_space(text[k]),
        end == text.len() || is_white_space(text[end]),
    ensures
        word_len(text) == end,
    decreases end,
{
    if end > 0 {
        let rest = text.drop_first();
        assert forall|k: int| 0 <= k < end - 1 implies !is_white_space(rest[k]) by {
            assert(rest[k] == text[k + 1]);
        }
        lemma_word_len(rest, end - 1);
    }
}

/// No word is empty and no word holds white space.
pub proof fn law_words_are_solid(text: Seq<char>)
    ensures
        forall|i: int|
            0 <= i < words_of(text).len() ==> (#[trigger] words_of(text)[i]).len() > 0,
        forall|i: int, k: int|
            0 <= i < words_of(text).len() && 0 <= k < words_of(text)[i].len()
                ==> !is_white_space(#[trigger] words_of(text)[i][k]),
    decreases text.len(),
{
    if text.len() == 0 {
        assert(words_of(text).len() == 0);
    } else if is_white_space(text[0]) {
        law_words_are_solid(text.drop_first());
        assert(words_of(text) == words_of(text.drop_first()));
    } else {
        let n = word_len(text);
        lemma_word_len_bounds(text);
        law_words_are_solid(text.skip(n));
        let rest = words_of(text.skip(n));
        let all = words_of(text);
        assert(all =~= seq![text.take(n)] + rest);
        assert forall|i: int| 0 <= i < all.len() implies (#[trigger] all[i]).len() > 0 by {
            if i > 0 {
                assert(all[i] == rest[i - 1]);
            } else {
                assert(all[i] == text.take(n));
            }
        }
        assert forall|i: int, k: int|
            0 <= i < all.len() && 0 <= k < all[i].len() implies !is_white_space(
            #[trigger] all[i][k],
        ) by {
            if i > 0 {
                assert(all[i] == rest[i - 1]);
                assert(!is_white_space(rest[i - 1][k]));
            } else {
                assert(all[i] == text.take(n));
                assert(text.take(n)[k] == text[k]);
            }
        }
    }
}

/// The first word lies within the text and holds no white space; it is
/// empty only where the text is empty or starts with white space.
pub proof fn lemma_word_len_bounds(text: Seq<char>)
    ensures
        0 <= word_len(text) <= text.len(),
        forall|k: int| 0 <= k < word_len(text) ==> !is_white_space(text[k]),
        text.len() > 0 && !is_white_space(text[0]) ==> word_len(text) > 0,
    decreases text.len(),
{
    if text.len() > 0 && !is_white_space(text[0]) {
        let rest = text.drop_first();
        lemma_word_len_bounds(rest);
        assert forall|k: int| 0 <= k < word_len(text) implies !is_white_space(text[k]) by {
            if k > 0 {
                assert(text[k] == rest[k - 1]);
            }
        }
    }
}

/// The words of `text`, in order.
pub fn words(text: &str) -> (found: Vec<String>)
    ensures
        found.deep_view() == words_of(text@),
{
    let chars = chars_of(text);
    let n = chars.len();
    let mut found: Vec<String> = Vec::new();
    let mut i: usize = 0;
    assert(chars@.skip(0) =~= chars@);
    assert(found.deep_view() + words_of(chars@.skip(0)) =~= words_of(chars@));
    while i < n
        invariant
            n == chars@.len(),
            i <= n,
            found.deep_view() + words_of(chars@.skip(i as int)) == words_of(chars@),
        decreases n - i,
    {
        let ghost rest = chars@.skip(i as int);
        if chars[i].is_whitespace() {
            assert(rest.drop_first() =~= chars@.skip(i + 1));
            i = i + 1;
        } else {
            let mut word = String::new();
            let mut j: usize = i;
            while j < n && !chars[j].is_whitespace()
                invariant
                    n == chars@.len(),
                    i <= j <= n,
                    word@ == chars@.subrange(i as int, j as int),
                    forall|k: int| i <= k < j ==> !is_white_space(chars@[k]),
                decreases n - j,
            {
                word.push(chars[j]);
                assert(chars@.subrange(i as int, j + 1) =~= chars@.subrange(
                    i as int,
                    j as int,
                ).push(chars@[j as int]));
                j = j + 1;
            }
            proof {
                assert forall|k: int| 0 <= k < j - i implies !is_white_space(rest[k]) by {
                    assert(rest[k] == chars@[i + k]);
                }
                lemma_word_len(rest, j - i);
                assert(rest.take(j - i) =~= word@);
                assert(rest.skip(j - i) =~= chars@.skip(j as int));
            }
            let ghost before = found.deep_view();
            found.push(word);
            assert(found.deep_view() =~= before.push(word@));
            assert(before.push(word@) + words_of(chars@.skip(j as int)) =~= before + (
                seq![word@] + words_of(chars@.skip(j as int))));
            i = j;
        }
    }
    assert(found.deep_view() + words_of(chars@.skip(n as int)) =~= found.deep_view());
    found
}

/// Whether two texts hold the same characters.
pub fn same_text(left: &str, right: &str) -> (same: bool)
    ensures
        same == (left@ == right@),
{
    let a = chars_of(left);
    let b = chars_of(right);
    if a.len() != b.len() {
        return false;
    }
    let mut i: usize = 0;
    while i < a.len()
        invariant
            a@ == left@,
            b@ == right@,
            a@.len() == b@.len(),
            i <= a@.len(),
            forall|k: int| 0 <= k < i ==> a@[k] == b@[k],
        decreases a@.len() - i,
    {
        if a[i] != b[i] {
            return false;
        }
        i = i + 1;
    }
    assert(a@ =~= b@);
    true
}

/// Whether `text` begins with the characters of `prefix`.
pub open spec fn starts_with(text: Seq<char>, prefix: Seq<char>) -> bool {
    prefix.len() <= text.len() && text.take(prefix.len() as int) == prefix
}

/// Whether `text` begins with `prefix`.
pub fn has_prefix(text: &str, prefix: &str) -> (yes: bool)
    ensures
        yes == starts_with(text@, prefix@),
{
    let a = chars_of(text);
    let b = chars_of(prefix);
    if b.len() > a.len() {
        return false;
    }
    let mut i: usize = 0;
    while i < b.len()
        invariant
            a@ == text@,
            b@ == prefix@,
            b@.len() <= a@.len(),
            i <= b@.len(),
            forall|k: int| 0 <= k < i ==> a@[k] == b@[k],
        decreases b@.len() - i,
    {
        if a[i] != b[i] {
            assert(a@.take(b@.len() as int)[i as int] != b@[i as int]);
            return false;
        }
        i = i + 1;
    }
    assert(a@.take(b@.len() as int) =~= b@);
    true
}

/// The UTF-8 length of a text in two parts is the sum of the parts'
/// lengths.
pub proof fn lemma_byte_len_concat(left: Seq<char>, right: Seq<char>)
    ensures
        byte_len(left + right) == byte_len(left) + byte_len(right),
    decreases left.len(),
{
    if left.len() == 0 {
        assert(left + right =~= right);
    } else {
        lemma_byte_len_concat(left.drop_first(), right);
        assert((left + right).drop_first() =~= left.drop_first() + right);
    }
}

/// A space takes one byte.
pub proof fn lemma_byte_len_space()
    ensures
        byte_len(seq![' ']) == 1,
{
    let one = seq![' '];
    assert(one.drop_first() =~= Seq::<char>::empty());
    assert(vstd::utf8::encode_utf8(one) == vstd::utf8::encode_scalar(' ' as u32)
        + vstd::utf8::encode_utf8(one.drop_first()));
    assert(vstd::utf8::has_width_1_encoding(' ' as u32));
}

/// A copy of `texts`.
pub fn copy_of_texts(texts: &Vec<String>) -> (copy: Vec<String>)
    ensures
        copy.deep_view() == texts.deep_view(),
{
    let mut copy: Vec<String> = Vec::new();
    let mut i: usize = 0;
    while i < texts.len()
        invariant
            i <= texts@.len(),
            copy@.len() == i,
            forall|k: int| 0 <= k < i ==> copy@[k]@ == texts@[k]@,
        decreases texts@.len() - i,
    {
        copy.push(texts[i].clone());
        i = i + 1;
    }
    assert(copy.deep_view() =~= texts.deep_view());
    copy
}

/// `text` with every occurrence of `pattern` replaced by `with`. The
/// occurrences are sought from left to right and do not overlap. An empty
/// pattern occurs nowhere.
pub open spec fn replaced(text: Seq<char>, pattern: Seq<char>, with: Seq<char>) -> Seq<char>
    decreases text.len(),
{
    if text.len() == 0 || pattern.len() == 0 {
        text
    } else if starts_with(text, pattern) {
        with + replaced(text.skip(pattern.len() as int), pattern, with)
    } else {
        seq![text[0]] + replaced(text.drop_first(), pattern, with)
    }
}

/// What follows the first space of `text`, if it holds a space.
pub open spec fn after_first_space(text: Seq<char>) -> Option<Seq<char>>
    decreases text.len(),
{
    if text.len() == 0 {
        None
    } else if text[0] == ' ' {
        Some(text.drop_first())
    } else {
        after_first_space(text.drop_first())
    }
}

/// Whether `pattern` stands in `text` at the place `at`.
fn occurs_at(text: &Vec<char>, at: usize, pattern: &Vec<char>) -> (yes: bool)
    requires
        at <= text@.len(),
    ensures
        yes == starts_with(text@.skip(at as int), pattern@),
{
    if pattern.len() > text.len() - at {
        return false;
    }
    let mut i: usize = 0;
    while i < pattern.len()
        invariant
            at <= text@.len() <= usize::MAX,
            pattern@.len() <= text@.len() - at,
            i <= pattern@.len(),
            forall|k: int| 0 <= k < i ==> text@[at + k] == pattern@[k],
        decreases pattern@.len() - i,
    {
        if text[at + i] != pattern[i] {
            assert(text@.skip(at as int).take(pattern@.len() as int)[i as int] != pattern@[i as int]);
            return false;
        }
        i = i + 1;
    }
    assert(text@.skip(at as int).take(pattern@.len() as int) =~= pattern@);
    true
}

/// `text` with every occurrence of `pattern` replaced by `with`.
pub fn replace_text(text: &str, pattern: &str, with: &str) -> (out: String)
    ensures
        out@ == replaced(text@, pattern@, with@),
{
    let chars = chars_of(text);
    let sought = chars_of(pattern);
    if sought.len() == 0 {
        return String::from_str(text);
    }
    let mut out = String::new();
    let mut i: usize = 0;
    assert(chars@.skip(0) =~= chars@);
    assert(out@ + replaced(chars@.skip(0), sought@, with@) =~= replaced(chars@, sought@, with@));
    while i < chars.len()
        invariant
            i <= chars@.len(),
            sought@.len() > 0,
            out@ + replaced(chars@.skip(i as int), sought@, with@) == replaced(
                chars@,
                sought@,
                with@,
            ),
        decreases chars@.len() - i,
    {
        let ghost rest = chars@.skip(i as int);
        let ghost before = out@;
        if occurs_at(&chars, i, &sought) {
            out.append(with);
            assert(rest.skip(sought@.len() as int) =~= chars@.skip(i + sought@.len()));
            assert(before + (with@ + replaced(rest.skip(sought@.len() as int), sought@, with@))
                =~= (before + with@) + replaced(chars@.skip(i + sought@.len()), sought@, with@));
            i = i + sought.len();
        } else {
            out.push(chars[i]);
            assert(rest.drop_first() =~= chars@.skip(i + 1));
            assert(before + (seq![rest[0]] + replaced(rest.drop_first(), sought@, with@))
                =~= before.push(chars@[i as int]) + replaced(chars@.skip(i + 1), sought@, with@));
            i = i + 1;
        }
    }
    assert(out@ + replaced(chars@.skip(chars@.len() as int), sought@, with@) =~= out@);
    out
}

/// What follows the first space of `text`, if it holds a space.
pub fn rest_after_space(text: &str) -> (rest: Option<String>)
    ensures
        match rest {
            Some(tail) => after_first_space(text@) == Some(tail@),
            None => after_first_space(text@) is None,
        },
{
    let chars = chars_of(text);
    let mut i: usize = 0;
    assert(chars@.skip(0) =~= chars@);
    while i < chars.len() && chars[i] != ' '
        invariant
            i <= chars@.len(),
            after_first_space(chars@) == after_first_space(chars@.skip(i as int)),
        decreases chars@.len() - i,
    {
        assert(chars@.skip(i as int).drop_first() =~= chars@.skip(i + 1));
        i = i + 1;
    }
    if i == chars.len() {
        return None;
    }
    let mut tail = String::new();
    let mut j: usize = i + 1;
    while j < chars.len()
        invariant
            i < j <= chars@.len(),
            tail@ == chars@.subrange(i + 1, j as int),
        decreases chars@.len() - j,
    {
        tail.push(chars[j]);
        assert(chars@.subrange(i + 1, j + 1) =~= chars@.subrange(i + 1, j as int).push(
            chars@[j as int],
        ));
        j = j + 1;
    }
    assert(tail@ =~= chars@.skip(i as int).drop_first());
    Some(tail)
}

} // verus!
