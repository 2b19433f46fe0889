//! Text handling shared by the rewrite passes: byte ranges of a string and the
//! characters they hold.

use vstd::prelude::*;
use vstd::string::StringSliceAdditionalSpecFns;
use vstd::utf8::*;

verus! {

/// The characters encoded by the bytes `from..to` of the UTF-8 encoding of `text`.
pub open spec fn byte_slice(text: Seq<char>, from: int, to: int) -> Seq<char> {
    decode_utf8(encode_utf8(text).subrange(from, to))
}

/// Whether `from..to` is a range of bytes of the UTF-8 encoding of `text` that starts and
/// ends between characters.
pub open spec fn is_byte_range(text: Seq<char>, from: int, to: int) -> bool {
    &&& 0 <= from <= to <= encode_utf8(text).len()
    &&& is_char_boundary(encode_utf8(text), from)
    &&& is_char_boundary(encode_utf8(text), to)
}

/// The whole of a text is one of its byte ranges, and holds all of its characters.
pub proof fn lemma_whole_range(text: Seq<char>)
    ensures
        is_byte_range(text, 0, encode_utf8(text).len() as int),
        byte_slice(text, 0, encode_utf8(text).len() as int) == text,
{
    let bytes = encode_utf8(text);
    encode_utf8_valid_utf8(text);
    is_char_boundary_start_end_of_seq(bytes);
    assert(bytes.subrange(0, bytes.len() as int) =~= bytes);
    encode_utf8_decode_utf8(text);
}

/// The number of bytes that `text` takes in UTF-8.
pub fn byte_len(text: &str) -> (len: usize)
    ensures
        len == encode_utf8(text@).len(),
{
    let bytes = text.as_bytes();
    proof {
        vstd::slice::axiom_spec_len(bytes);
    }
    bytes.len()
}

/// Whether two strings hold the same characters.
pub fn same_text(left: &str, right: &str) -> (same: bool)
    ensures
        same == (left@ == right@),
{
    let a = left.as_bytes();
    let b = right.as_bytes();
    proof {
        vstd::slice::axiom_spec_len(a);
        vstd::slice::axiom_spec_len(b);
        encode_utf8_decode_utf8(left@);
        encode_utf8_decode_utf8(right@);
    }
    if a.len() != b.len() {
        return false;
    }
    let mut i: usize = 0;
    while i < a.len()
        invariant
            i <= a.len(),
            a.len() == b.len(),
            a@.len() == a.len(),
            b@.len() == b.len(),
            a@ == encode_utf8(left@),
            b@ == encode_utf8(right@),
            forall|k: int| 0 <= k < i ==> a@[k] == b@[k],
        decreases a.len() - i,
    {
        if a[i] != b[i] {
            return false;
        }
        i = i + 1;
    }
    assert(a@ =~= b@);
    true
}

/// The part of `text` between the byte offsets `from` and `to`.
pub fn slice<'a>(text: &'a str, from: usize, to: usize) -> (piece: &'a str)
    requires
        is_byte_range(text@, from as int, to as int),
    ensures
        piece@ == byte_slice(text@, from as int, to as int),
{
    let (head, _) = text.split_at(to);
    proof {
        let bytes = text.spec_bytes();
        let hb = head.spec_bytes();
        encode_utf8_valid_utf8(text@);
        encode_utf8_valid_utf8(head@);
        assert(hb =~= bytes.subrange(0, to as int));
        if from < to {
            is_char_boundary_iff_not_is_continuation_byte(bytes, from as int);
            is_char_boundary_iff_not_is_continuation_byte(hb, from as int);
        } else {
            is_char_boundary_start_end_of_seq(hb);
        }
    }
    let (_, piece) = head.split_at(from);
    proof {
        assert(piece.spec_bytes() =~= text.spec_bytes().subrange(from as int, to as int));
        encode_utf8_decode_utf8(piece@);
    }
    piece
}

} // verus!
