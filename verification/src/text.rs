//! Text as a row of characters.

use vstd::prelude::*;
use vstd::utf8::{
    encode_utf8, encode_utf8_decode_utf8, encode_utf8_valid_utf8, is_ascii_chars_encode_utf8,
};

use crate::ascii::same_bytes;
use crate::outside::lossy;

verus! {

/// The characters of `text`.
pub fn chars_of(text: &str) -> (chars: Vec<char>)
    ensures
        chars@ == text@,
{
    let mut chars: Vec<char> = Vec::new();
    for c in it: text.chars()
        invariant
            it.seq() == text@,
            chars@ =~= text@.take(it.index() as int),
    {
        chars.push(c);
    }
    assert(text@.take(text@.len() as int) =~= text@);
    chars
}

/// The text made of `chars[from..to]`.
pub fn text_between(chars: &[char], from: usize, to: usize) -> (text: String)
    requires
        from <= to <= chars@.len(),
    ensures
        text@ == chars@.subrange(from as int, to as int),
{
    let mut text = String::new();
    push_between(&mut text, chars, from, to);
    assert(Seq::<char>::empty() + chars@.subrange(from as int, to as int) =~= chars@.subrange(
        from as int,
        to as int,
    ));
    text
}

/// Append `chars[from..to]` to `text`.
pub fn push_between(text: &mut String, chars: &[char], from: usize, to: usize)
    requires
        from <= to <= chars@.len(),
    ensures
        final(text)@ == old(text)@ + chars@.subrange(from as int, to as int),
{
    let mut i: usize = from;
    while i < to
        invariant
            from <= i <= to <= chars@.len(),
            text@ =~= old(text)@ + chars@.subrange(from as int, i as int),
        decreases to - i,
    {
        text.push(chars[i]);
        i += 1;
    }
}

/// Do the two texts hold the same characters?
pub fn same_text(left: &str, right: &str) -> (yes: bool)
    ensures
        yes == (left@ == right@),
{
    proof {
        encode_utf8_decode_utf8(left@);
        encode_utf8_decode_utf8(right@);
    }
    same_bytes(left.as_bytes(), right.as_bytes())
}

/// `left` comes before `right` in the order of their bytes.
pub open spec fn bytes_precede(left: Seq<u8>, right: Seq<u8>) -> bool
    decreases left.len(),
{
    if right.len() == 0 {
        false
    } else if left.len() == 0 {
        true
    } else if left[0] == right[0] {
        bytes_precede(left.drop_first(), right.drop_first())
    } else {
        left[0] < right[0]
    }
}

/// `left` comes before `right` in the order of strings, which is that of their
/// UTF-8 bytes.
pub open spec fn text_precedes(left: Seq<char>, right: Seq<char>) -> bool {
    bytes_precede(encode_utf8(left), encode_utf8(right))
}

proof fn lemma_bytes_precede_strict(left: Seq<u8>, right: Seq<u8>)
    ensures
        !(bytes_precede(left, right) && bytes_precede(right, left)),
        left == right ==> !bytes_precede(left, right),
        bytes_precede(left, right) || bytes_precede(right, left) || left == right,
    decreases left.len(),
{
    if left.len() == 0 && right.len() == 0 {
        assert(left =~= right);
    }
    if left.len() > 0 && right.len() > 0 && left[0] == right[0] {
        lemma_bytes_precede_strict(left.drop_first(), right.drop_first());
        if left.drop_first() == right.drop_first() {
            assert(left =~= seq![left[0]] + left.drop_first());
            assert(right =~= seq![right[0]] + right.drop_first());
        }
    }
}

proof fn lemma_bytes_precede_transitive(first: Seq<u8>, second: Seq<u8>, third: Seq<u8>)
    requires
        bytes_precede(first, second),
        bytes_precede(second, third),
    ensures
        bytes_precede(first, third),
    decreases first.len(),
{
    if first.len() > 0 && second.len() > 0 && third.len() > 0 && first[0] == second[0] && second[0]
        == third[0] {
        lemma_bytes_precede_transitive(
            first.drop_first(),
            second.drop_first(),
            third.drop_first(),
        );
    }
}

/// Of two texts exactly one precedes the other, unless they are equal.
pub proof fn lemma_text_precedes_total(left: Seq<char>, right: Seq<char>)
    ensures
        !(text_precedes(left, right) && text_precedes(right, left)),
        left == right ==> !text_precedes(left, right),
        text_precedes(left, right) || text_precedes(right, left) || left == right,
{
    encode_utf8_decode_utf8(left);
    encode_utf8_decode_utf8(right);
    lemma_bytes_precede_strict(encode_utf8(left), encode_utf8(right));
}

pub proof fn lemma_text_precedes_transitive(first: Seq<char>, second: Seq<char>, third: Seq<char>)
    requires
        text_precedes(first, second),
        text_precedes(second, third),
    ensures
        text_precedes(first, third),
{
    lemma_bytes_precede_transitive(encode_utf8(first), encode_utf8(second), encode_utf8(third));
}

/// Does `left` come before `right` in the order of strings?
pub fn comes_before(left: &str, right: &str) -> (yes: bool)
    ensures
        yes == text_precedes(left@, right@),
{
    let left_bytes: &[u8] = left.as_bytes();
    let right_bytes: &[u8] = right.as_bytes();
    let mut i: usize = 0;
    assert(left_bytes@.skip(0) =~= left_bytes@);
    assert(right_bytes@.skip(0) =~= right_bytes@);
    while i < left_bytes.len() && i < right_bytes.len()
        invariant
            left_bytes@ == encode_utf8(left@),
            right_bytes@ == encode_utf8(right@),
            i <= left_bytes@.len(),
            i <= right_bytes@.len(),
            bytes_precede(left_bytes@, right_bytes@) == bytes_precede(
                left_bytes@.skip(i as int),
                right_bytes@.skip(i as int),
            ),
        decreases left_bytes.len() - i,
    {
        if left_bytes[i] != right_bytes[i] {
            return left_bytes[i] < right_bytes[i];
        }
        assert(left_bytes@.skip(i as int).drop_first() =~= left_bytes@.skip(i + 1));
        assert(right_bytes@.skip(i as int).drop_first() =~= right_bytes@.skip(i + 1));
        i += 1;
    }
    i < right_bytes.len()
}

/// A copy of an optional text.
pub fn copy_text(text: &Option<String>) -> (copy: Option<String>)
    ensures
        crate::domain::text_of(copy) == crate::domain::text_of(*text),
{
    match text {
        Some(text) => Some(text.clone()),
        None => None,
    }
}

/// Bytes below 0x80 are the text of the characters with those numbers.
pub proof fn law_ascii_bytes_are_their_text(bytes: Seq<u8>)
    requires
        forall|i: int| 0 <= i < bytes.len() ==> #[trigger] bytes[i] < 0x80,
    ensures
        lossy(bytes) == Seq::new(bytes.len(), |i: int| bytes[i] as char),
{
    let chars = Seq::new(bytes.len(), |i: int| bytes[i] as char);
    assert forall|i: int| 0 <= i < chars.len() implies '\0' <= #[trigger] chars[i]
        <= '\u{7f}' by {
        assert(bytes[i] < 0x80);
    }
    is_ascii_chars_encode_utf8(chars);
    assert(encode_utf8(chars) =~= bytes) by {
        assert forall|i: int| 0 <= i < bytes.len() implies #[trigger] (chars[i] as u8)
            == bytes[i] by {
            assert(bytes[i] < 0x80);
        }
    }
    encode_utf8_valid_utf8(chars);
    encode_utf8_decode_utf8(chars);
}

} // verus!
