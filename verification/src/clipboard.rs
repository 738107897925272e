//! The terminal escape sequence (OSC 52) that puts text on the clipboard.

use vstd::prelude::*;
use base64::Engine;
use vstd::string::StringSliceAdditionalSpecFns;

verus! {

/// The character of a six-bit value in the standard base64 alphabet.
pub open spec fn base64_char(v: int) -> char {
    if v < 26 {
        (('A' as u32) + v) as char
    } else if v < 52 {
        (('a' as u32) + (v - 26)) as char
    } else if v < 62 {
        (('0' as u32) + (v - 52)) as char
    } else if v == 62 {
        '+'
    } else {
        '/'
    }
}

/// Standard base64 with `=` padding (RFC 4648): each group of three bytes
/// becomes four characters; a final group of one or two bytes is padded.
pub open spec fn base64_encode(b: Seq<u8>) -> Seq<char>
    decreases b.len(),
{
    if b.len() == 0 {
        Seq::empty()
    } else if b.len() == 1 {
        seq![base64_char((b[0] as int) / 4), base64_char(((b[0] as int) % 4) * 16), '=', '=']
    } else if b.len() == 2 {
        seq![
            base64_char((b[0] as int) / 4),
            base64_char(((b[0] as int) % 4) * 16 + (b[1] as int) / 16),
            base64_char(((b[1] as int) % 16) * 4),
            '=',
        ]
    } else {
        seq![
            base64_char((b[0] as int) / 4),
            base64_char(((b[0] as int) % 4) * 16 + (b[1] as int) / 16),
            base64_char(((b[1] as int) % 16) * 4 + (b[2] as int) / 64),
            base64_char((b[2] as int) % 64),
        ] + base64_encode(b.skip(3))
    }
}

/// Bytes in standard padded base64: `base64::engine::general_purpose::STANDARD.encode`.
/// Claims the RFC 4648 encoding stated by `base64_encode`; the crate panics
/// when the encoded length overflows, which the bound on the input rules out.
#[verifier::external_body]
fn base64_standard(bytes: &[u8]) -> (s: String)
    requires
        bytes@.len() <= usize::MAX / 2,
    ensures
        s@ == base64_encode(bytes@),
{
    base64::engine::general_purpose::STANDARD.encode(bytes)
}

/// The OSC 52 sequence that sets the clipboard: `ESC ] 52 ; c ;`, the bytes
/// in base64, then `BEL`.
pub open spec fn osc52(bytes: Seq<u8>) -> Seq<char> {
    seq!['\x1b', ']', '5', '2', ';', 'c', ';'] + base64_encode(bytes) + seq!['\x07']
}

/// The escape sequence that asks the terminal to put `text` on the clipboard.
pub fn osc52_sequence(text: &str) -> (s: String)
    requires
        text.spec_bytes().len() <= usize::MAX / 2,
    ensures
        s@ == osc52(text.spec_bytes()),
{
    let encoded = base64_standard(text.as_bytes());
    let mut s = "\x1b]52;c;".to_owned();
    s.append(encoded.as_str());
    s.append("\x07");
    proof {
        reveal_strlit("\x1b]52;c;");
        reveal_strlit("\x07");
        assert(s@ =~= osc52(text.spec_bytes()));
    }
    s
}

} // verus!
