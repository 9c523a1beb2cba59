//! Text encodings of a raw digest.

use crate::error::DigestError;
use crate::text::{str_eq, symbol_at};
use vstd::prelude::*;
use vstd::string::*;
use vstd::utf8::*;

verus! {

/// How the raw bytes of a digest are rendered as text.
#[derive(Debug, Clone, Copy, PartialEq, Eq)]
pub enum Encoding {
    /// Lowercase hexadecimal, two characters per byte.
    Hex,
    /// Base 64 with the standard alphabet, padded with `=`.
    Base64,
}

/// The sixteen hexadecimal digits in order of value.
pub open spec fn hex_alphabet() -> Seq<char> {
    "0123456789abcdef"@
}

/// The sixty-four base-64 symbols in order of value.
pub open spec fn base64_alphabet() -> Seq<char> {
    "ABCDEFGHIJKLMNOPQRSTUVWXYZabcdefghijklmnopqrstuvwxyz0123456789+/"@
}

/// Whether `c` is a decimal digit or one of the letters `a` to `f`.
pub open spec fn is_lower_hex(c: char) -> bool {
    ('0' <= c && c <= '9') || ('a' <= c && c <= 'f')
}

/// The hexadecimal text of `bytes`: for each byte its high nibble, then its low nibble.
pub open spec fn hex_text(bytes: Seq<u8>) -> Seq<char> {
    Seq::new(
        2 * bytes.len(),
        |i: int|
            if i % 2 == 0 {
                hex_alphabet()[bytes[i / 2] as int / 16]
            } else {
                hex_alphabet()[bytes[i / 2] as int % 16]
            },
    )
}

/// The base-64 text of `bytes`: each group of three bytes gives four symbols of
/// six bits each, and a last group of one or two bytes is filled up with `=`.
pub open spec fn base64_text(bytes: Seq<u8>) -> Seq<char>
    decreases bytes.len(),
{
    let symbols = base64_alphabet();
    if bytes.len() == 0 {
        Seq::empty()
    } else if bytes.len() == 1 {
        seq![symbols[bytes[0] as int / 4], symbols[(bytes[0] as int % 4) * 16], '=', '=']
    } else if bytes.len() == 2 {
        seq![
            symbols[bytes[0] as int / 4],
            symbols[(bytes[0] as int % 4) * 16 + bytes[1] as int / 16],
            symbols[(bytes[1] as int % 16) * 4],
            '=',
        ]
    } else {
        seq![
            symbols[bytes[0] as int / 4],
            symbols[(bytes[0] as int % 4) * 16 + bytes[1] as int / 16],
            symbols[(bytes[1] as int % 16) * 4 + bytes[2] as int / 64],
            symbols[bytes[2] as int % 64],
        ] + base64_text(bytes.skip(3))
    }
}

/// The encoding that `name` selects, if any. Names are matched exactly, case included.
pub open spec fn encoding_named(name: Seq<char>) -> Option<Encoding> {
    if name == "hex"@ {
        Some(Encoding::Hex)
    } else if name == "base64"@ {
        Some(Encoding::Base64)
    } else {
        None
    }
}

/// Hexadecimal text has two characters per byte, each a digit or a letter from `a` to `f`.
pub proof fn lemma_hex_text_shape(digest: Seq<u8>)
    ensures
        hex_text(digest).len() == 2 * digest.len(),
        forall|i: int| 0 <= i < 2 * digest.len() ==> is_lower_hex(#[trigger] hex_text(digest)[i]),
{
    reveal_strlit("0123456789abcdef");
    assert forall|i: int| 0 <= i < 2 * digest.len() implies is_lower_hex(
        #[trigger] hex_text(digest)[i],
    ) by {
        let byte = digest[i / 2] as int;
        let nibble = if i % 2 == 0 {
            byte / 16
        } else {
            byte % 16
        };
        assert(0 <= nibble < 16);
        assert(hex_text(digest)[i] == hex_alphabet()[nibble]);
        assert(forall|k: int| 0 <= k < 16 ==> is_lower_hex(#[trigger] hex_alphabet()[k]));
    }
}

/// Appending one byte appends its two hexadecimal digits.
proof fn lemma_hex_text_push(bytes: Seq<u8>, byte: u8)
    ensures
        hex_text(bytes.push(byte)) == hex_text(bytes).push(
            hex_alphabet()[byte as int / 16],
        ).push(hex_alphabet()[byte as int % 16]),
{
    let longer = hex_text(bytes.push(byte));
    let pushed = hex_text(bytes).push(hex_alphabet()[byte as int / 16]).push(
        hex_alphabet()[byte as int % 16],
    );
    assert(longer.len() == pushed.len());
    assert forall|i: int| 0 <= i < longer.len() implies longer[i] == pushed[i] by {
        if i / 2 < bytes.len() {
            assert(bytes.push(byte)[i / 2] == bytes[i / 2]);
        } else {
            assert(i / 2 == bytes.len());
            assert(bytes.push(byte)[i / 2] == byte);
        }
    }
    assert(longer =~= pushed);
}

/// Renders `bytes` in lowercase hexadecimal.
pub fn hex_encode(bytes: &[u8]) -> (text: String)
    ensures
        text@ == hex_text(bytes@),
{
    proof {
        reveal_strlit("0123456789abcdef");
    }
    let mut text = String::new();
    let mut i: usize = 0;
    assert(bytes@.take(0) =~= Seq::<u8>::empty());
    assert(hex_text(Seq::<u8>::empty()) =~= Seq::<char>::empty());
    while i < bytes.len()
        invariant
            i <= bytes.len(),
            text@ == hex_text(bytes@.take(i as int)),
            is_ascii_chars("0123456789abcdef"@),
            "0123456789abcdef"@.len() == 16,
        decreases bytes.len() - i,
    {
        let byte = bytes[i];
        let high: usize = (byte / 16) as usize;
        let low: usize = (byte % 16) as usize;
        text.append(symbol_at("0123456789abcdef", high));
        text.append(symbol_at("0123456789abcdef", low));
        proof {
            lemma_hex_text_push(bytes@.take(i as int), byte);
            assert(bytes@.take(i as int).push(byte) =~= bytes@.take(i + 1));
            assert(text@ =~= hex_text(bytes@.take(i + 1)));
        }
        i += 1;
    }
    assert(bytes@.take(i as int) =~= bytes@);
    text
}

/// Renders `bytes` in base 64.
pub fn base64_encode(bytes: &[u8]) -> (text: String)
    ensures
        text@ == base64_text(bytes@),
{
    proof {
        reveal_strlit("ABCDEFGHIJKLMNOPQRSTUVWXYZabcdefghijklmnopqrstuvwxyz0123456789+/");
        reveal_strlit("=");
        reveal_strlit("==");
    }
    let symbols: &'static str = "ABCDEFGHIJKLMNOPQRSTUVWXYZabcdefghijklmnopqrstuvwxyz0123456789+/";
    let mut text = String::new();
    let mut i: usize = 0;
    assert(bytes@.skip(0) =~= bytes@);
    while bytes.len() - i >= 3
        invariant
            i <= bytes.len(),
            base64_text(bytes@) == text@ + base64_text(bytes@.skip(i as int)),
            symbols@ == base64_alphabet(),
            is_ascii_chars(symbols@),
            symbols@.len() == 64,
        decreases bytes.len() - i,
    {
        let first = bytes[i];
        let second = bytes[i + 1];
        let third = bytes[i + 2];
        let ghost rest = bytes@.skip(i as int);
        let ghost before = text@;
        text.append(symbol_at(symbols, (first / 4) as usize));
        text.append(symbol_at(symbols, ((first % 4) * 16 + second / 16) as usize));
        text.append(symbol_at(symbols, ((second % 16) * 4 + third / 64) as usize));
        text.append(symbol_at(symbols, (third % 64) as usize));
        proof {
            assert(rest[0] == first && rest[1] == second && rest[2] == third);
            assert(rest.skip(3) =~= bytes@.skip(i + 3));
            assert(text@ + base64_text(bytes@.skip(i + 3)) =~= before + base64_text(rest));
        }
        i += 3;
    }
    let ghost rest = bytes@.skip(i as int);
    let ghost before = text@;
    if bytes.len() - i == 1 {
        let first = bytes[i];
        text.append(symbol_at(symbols, (first / 4) as usize));
        text.append(symbol_at(symbols, ((first % 4) * 16) as usize));
        text.append("==");
        proof {
            assert(rest[0] == first);
            assert(text@ =~= before + base64_text(rest));
        }
    } else if bytes.len() - i == 2 {
        let first = bytes[i];
        let second = bytes[i + 1];
        text.append(symbol_at(symbols, (first / 4) as usize));
        text.append(symbol_at(symbols, ((first % 4) * 16 + second / 16) as usize));
        text.append(symbol_at(symbols, ((second % 16) * 4) as usize));
        text.append("=");
        proof {
            assert(rest[0] == first && rest[1] == second);
            assert(text@ =~= before + base64_text(rest));
        }
    } else {
        assert(text@ =~= before + base64_text(rest));
    }
    text
}

impl Default for Encoding {
    /// Hexadecimal, the encoding used where none is chosen.
    fn default() -> (encoding: Encoding)
        ensures
            encoding == Encoding::Hex,
    {
        Encoding::Hex
    }
}

impl Encoding {
    /// The text that this encoding gives to `bytes`.
    pub open spec fn encoded(self, bytes: Seq<u8>) -> Seq<char> {
        match self {
            Encoding::Hex => hex_text(bytes),
            Encoding::Base64 => base64_text(bytes),
        }
    }

    /// Selects an encoding by its name, `hex` or `base64`, matched exactly.
    /// Any other name is handed back in the error.
    pub fn from_str(name: &str) -> (parsed: Result<Encoding, DigestError>)
        ensures
            match encoding_named(name@) {
                Some(encoding) => parsed == Ok::<Encoding, DigestError>(encoding),
                None => parsed matches Err(DigestError::UnknownEncoding(unknown)) && unknown@
                    == name@,
            },
    {
        if str_eq(name, "hex") {
            Ok(Encoding::Hex)
        } else if str_eq(name, "base64") {
            Ok(Encoding::Base64)
        } else {
            Err(DigestError::UnknownEncoding(String::from_str(name)))
        }
    }

    /// Renders `bytes` as text. For hexadecimal the text is twice as long as
    /// `bytes` and made of digits and the letters `a` to `f` only.
    pub fn encode(&self, bytes: Vec<u8>) -> (text: String)
        ensures
            text@ == self.encoded(bytes@),
            self is Hex ==> text@.len() == 2 * bytes@.len(),
            self is Hex ==> forall|i: int| 0 <= i < text@.len() ==> is_lower_hex(#[trigger] text@[i]),
    {
        proof {
            lemma_hex_text_shape(bytes@);
        }
        match self {
            Encoding::Hex => hex_encode(bytes.as_slice()),
            Encoding::Base64 => base64_encode(bytes.as_slice()),
        }
    }
}

} // verus!
