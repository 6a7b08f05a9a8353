//! Numbers as text.

use vstd::prelude::*;
use vstd::utf8::*;
use crate::message::string_from_utf8;

verus! {

/// The decimal digit for a number below ten.
pub open spec fn digit(n: int) -> char {
    ((48 + n) as u8) as char
}

/// The decimal form of a number, without leading zeros.
pub open spec fn decimal(n: nat) -> Seq<char>
    decreases n,
{
    if n < 10 {
        seq![digit(n as int)]
    } else {
        decimal(n / 10) + seq![digit((n % 10) as int)]
    }
}

/// The text that ASCII bytes spell.
pub open spec fn ascii_text(bytes: Seq<u8>) -> Seq<char> {
    Seq::new(bytes.len(), |i: int| bytes[i] as char)
}

/// ASCII bytes are the UTF-8 encoding of the text that they spell.
pub proof fn lemma_ascii_text(bytes: Seq<u8>)
    requires
        forall|i: int| 0 <= i < bytes.len() ==> bytes[i] < 128,
    ensures
        valid_utf8(bytes),
        decode_utf8(bytes) == ascii_text(bytes),
{
    let chars = ascii_text(bytes);
    assert(is_ascii_chars(chars));
    is_ascii_chars_encode_utf8(chars);
    assert(encode_utf8(chars) =~= bytes);
    encode_utf8_valid_utf8(chars);
    encode_utf8_decode_utf8(chars);
}

/// The decimal form of a number, without leading zeros.
pub fn decimal_string(n: u64) -> (text: String)
    ensures
        text@ == decimal(n as nat),
{
    let mut digits: Vec<u8> = Vec::new();
    let mut rest = n;
    assert(ascii_text(digits@) =~= Seq::<char>::empty());
    while rest >= 10
        invariant
            forall|i: int| 0 <= i < digits@.len() ==> digits@[i] < 128,
            decimal(n as nat) == decimal(rest as nat) + ascii_text(digits@),
        decreases rest,
    {
        let ghost before = digits@;
        digits.insert(0, 48 + (rest % 10) as u8);
        assert(ascii_text(digits@) =~= seq![digit((rest % 10) as int)] + ascii_text(before));
        assert(decimal(rest as nat) == decimal((rest / 10) as nat) + seq![
            digit((rest % 10) as int),
        ]);
        assert(decimal(n as nat) =~= decimal((rest / 10) as nat) + ascii_text(digits@));
        rest = rest / 10;
    }
    let ghost before = digits@;
    digits.insert(0, 48 + rest as u8);
    assert(ascii_text(digits@) =~= seq![digit(rest as int)] + ascii_text(before));
    assert(decimal(n as nat) =~= ascii_text(digits@));
    proof {
        lemma_ascii_text(digits@);
    }
    match string_from_utf8(digits) {
        Some(text) => text,
        None => String::new(),
    }
}

} // verus!
