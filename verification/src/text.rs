//! Text as the hub handles it: clipping, trimming, and the order of session names.

use vstd::prelude::*;

verus! {

/// `String::push` appends the given character to the end of the text.
pub assume_specification[ String::push ](text: &mut String, ch: char)
    ensures
        final(text)@ == old(text)@.push(ch),
;

/// `String::pop` takes the last character off the text and returns it; an empty text stays
/// empty.
pub assume_specification[ String::pop ](text: &mut String) -> (last: Option<char>)
    ensures
        old(text)@.len() == 0 ==> last is None && final(text)@ == old(text)@,
        old(text)@.len() > 0 ==> last == Some(old(text)@.last()) && final(text)@
            == old(text)@.drop_last(),
;

/// `==` on string slices holds exactly of texts with the same characters.
pub assume_specification[ <str as PartialEq>::eq ](left: &str, right: &str) -> (same: bool)
    ensures
        same == (left@ == right@),
;

/// `str::trim` drops leading and trailing white space, which is the Unicode property
/// `White_Space` of a character.
pub assume_specification[ str::trim ](text: &str) -> (rest: &str)
    ensures
        rest@ == trimmed(text@),
;

/// The characters with the Unicode property `White_Space`.
pub open spec fn is_white_space(ch: char) -> bool {
    let code = ch as u32;
    ||| 0x9 <= code <= 0xd
    ||| code == 0x20
    ||| code == 0x85
    ||| code == 0xa0
    ||| code == 0x1680
    ||| 0x2000 <= code <= 0x200a
    ||| code == 0x2028
    ||| code == 0x2029
    ||| code == 0x202f
    ||| code == 0x205f
    ||| code == 0x3000
}

/// The text from its first character that is not white space on.
pub open spec fn trimmed_start(text: Seq<char>) -> Seq<char>
    decreases text.len(),
{
    if text.len() > 0 && is_white_space(text.first()) {
        trimmed_start(text.drop_first())
    } else {
        text
    }
}

/// The text up to its last character that is not white space.
pub open spec fn trimmed_end(text: Seq<char>) -> Seq<char>
    decreases text.len(),
{
    if text.len() > 0 && is_white_space(text.last()) {
        trimmed_end(text.drop_last())
    } else {
        text
    }
}

/// The text without white space at either end.
pub open spec fn trimmed(text: Seq<char>) -> Seq<char> {
    trimmed_end(trimmed_start(text))
}

/// How many bytes the text takes in UTF-8.
pub open spec fn byte_len(text: Seq<char>) -> usize {
    vstd::utf8::encode_utf8(text).len() as usize
}

/// A character takes one to four bytes behind those of the text before it.
pub proof fn lemma_bytes_of_one_more(text: Seq<char>, ch: char)
    ensures
        vstd::utf8::encode_utf8(text).len() < vstd::utf8::encode_utf8(text.push(ch)).len()
            <= vstd::utf8::encode_utf8(text).len() + 4,
    decreases text.len(),
{
    if text.len() == 0 {
        assert(text.push(ch).drop_first() =~= text);
    } else {
        lemma_bytes_of_one_more(text.drop_first(), ch);
        assert(text.push(ch).drop_first() =~= text.drop_first().push(ch));
    }
}

/// The first `width` characters of the text, or all of them where there are fewer.
pub open spec fn clipped(text: Seq<char>, width: nat) -> Seq<char> {
    if text.len() < width {
        text
    } else {
        text.take(width as int)
    }
}

/// Cuts a text to at most `width` characters.
pub fn clip(value: &str, width: usize) -> (out: String)
    ensures
        out@ == clipped(value@, width as nat),
{
    let mut out = String::new();
    let mut taken: usize = 0;
    for ch in chars: value.chars()
        invariant
            chars.seq() == value@,
            taken == chars.index(),
            taken <= width,
            out@ == value@.take(taken as int),
    {
        if taken == width {
            return out;
        }
        out.push(ch);
        taken = taken + 1;
    }
    assert(value@.take(taken as int) == value@);
    out
}

/// The characters of a text, one by one.
pub fn characters(text: &str) -> (chars: Vec<char>)
    ensures
        chars@ == text@,
{
    let mut chars: Vec<char> = Vec::new();
    for ch in walk: text.chars()
        invariant
            walk.seq() == text@,
            chars@ == text@.take(walk.index()),
    {
        chars.push(ch);
    }
    assert(text@.take(text@.len() as int) == text@);
    chars
}

/// Joins three texts into one.
pub fn joined(first: &str, second: &str, third: &str) -> (out: String)
    ensures
        out@ == first@ + second@ + third@,
{
    let mut out = first.to_owned();
    out.append(second);
    out.append(third);
    out
}

/// The order of names: by the code points of their characters, the first difference deciding,
/// and a name before every longer one that it begins.
pub open spec fn name_le(left: Seq<char>, right: Seq<char>) -> bool
    decreases left.len(),
{
    if left.len() == 0 {
        true
    } else if right.len() == 0 {
        false
    } else if left.first() != right.first() {
        (left.first() as int) < (right.first() as int)
    } else {
        name_le(left.drop_first(), right.drop_first())
    }
}

/// A character's code point is its number.
proof fn lemma_code_point(ch: char)
    ensures
        (ch as u32) as int == ch as int,
{
}

/// Tells whether one name comes before another or equals it.
pub fn names_in_order(left: &str, right: &str) -> (in_order: bool)
    ensures
        in_order == name_le(left@, right@),
{
    let left_chars = characters(left);
    let right_chars = characters(right);
    let mut at: usize = 0;
    proof {
        assert(left@.skip(0) == left@);
        assert(right@.skip(0) == right@);
    }
    while at < left_chars.len() && at < right_chars.len() && left_chars[at] == right_chars[at]
        invariant
            at <= left_chars.len(),
            at <= right_chars.len(),
            left_chars@ == left@,
            right_chars@ == right@,
            name_le(left@, right@) == name_le(left@.skip(at as int), right@.skip(at as int)),
        decreases left_chars.len() - at,
    {
        proof {
            assert(left@.skip(at as int).drop_first() == left@.skip(at + 1));
            assert(right@.skip(at as int).drop_first() == right@.skip(at + 1));
        }
        at = at + 1;
    }
    if at == left_chars.len() {
        return true;
    }
    if at == right_chars.len() {
        return false;
    }
    proof {
        lemma_code_point(left@[at as int]);
        lemma_code_point(right@[at as int]);
    }
    (left_chars[at] as u32) < (right_chars[at] as u32)
}

/// Any two names are in order one way or the other.
pub proof fn name_order_is_total(left: Seq<char>, right: Seq<char>)
    ensures
        name_le(left, right) || name_le(right, left),
    decreases left.len(),
{
    if left.len() > 0 && right.len() > 0 {
        name_order_is_total(left.drop_first(), right.drop_first());
    }
}

/// Two names that are in order both ways are the same name.
pub proof fn name_order_is_antisymmetric(left: Seq<char>, right: Seq<char>)
    requires
        name_le(left, right),
        name_le(right, left),
    ensures
        left == right,
    decreases left.len(),
{
    if left.len() > 0 && right.len() > 0 {
        name_order_is_antisymmetric(left.drop_first(), right.drop_first());
        assert(left == seq![left.first()] + left.drop_first());
        assert(right == seq![right.first()] + right.drop_first());
    }
}

/// The order of names is transitive.
pub proof fn name_order_is_transitive(first: Seq<char>, second: Seq<char>, third: Seq<char>)
    requires
        name_le(first, second),
        name_le(second, third),
    ensures
        name_le(first, third),
    decreases first.len(),
{
    if first.len() > 0 && second.len() > 0 && third.len() > 0 {
        if first.first() == second.first() && second.first() == third.first() {
            name_order_is_transitive(first.drop_first(), second.drop_first(), third.drop_first());
        }
    }
}

} // verus!
