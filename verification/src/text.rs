//! Small verified helpers on strings: equality of slices and decimal numerals.

use vstd::prelude::*;
use vstd::string::*;
use vstd::utf8::*;

verus! {

/// Whether two string slices hold the same characters.
pub fn str_eq(a: &str, b: &str) -> (same: bool)
    ensures
        same == (a@ == b@),
{
    let x = a.as_bytes();
    let y = b.as_bytes();
    if x.len() != y.len() {
        return false;
    }
    let mut i: usize = 0;
    while i < x.len()
        invariant
            i <= x.len(),
            x.len() == y.len(),
            x@ == encode_utf8(a@),
            y@ == encode_utf8(b@),
            forall|j: int| 0 <= j < i ==> x@[j] == y@[j],
        decreases x.len() - i,
    {
        if x[i] != y[i] {
            return false;
        }
        i += 1;
    }
    proof {
        assert(x@ =~= y@);
        encode_utf8_decode_utf8(a@);
        encode_utf8_decode_utf8(b@);
    }
    true
}

/// The decimal digits, least first.
pub open spec fn decimal_digits() -> Seq<char> {
    seq!['0', '1', '2', '3', '4', '5', '6', '7', '8', '9']
}

/// The decimal numeral of `n`: no sign, no leading zero, `"0"` for zero.
pub open spec fn decimal_text(n: nat) -> Seq<char>
    decreases n,
{
    if n < 10 {
        seq![decimal_digits()[n as int]]
    } else {
        decimal_text(n / 10).push(decimal_digits()[(n % 10) as int])
    }
}

/// The one-character slice of `alphabet` at `index`.
pub(crate) fn symbol_at(alphabet: &'static str, index: usize) -> (symbol: &'static str)
    requires
        is_ascii_chars(alphabet@),
        index < alphabet@.len(),
    ensures
        symbol@ == seq![alphabet@[index as int]],
{
    let width = alphabet.as_bytes().len();
    proof {
        is_ascii_chars_encode_utf8(alphabet@);
    }
    assert(index < width);
    let symbol = alphabet.substring_ascii(index, index + 1);
    assert(symbol@ =~= seq![alphabet@[index as int]]);
    symbol
}

/// Renders `n` as a decimal numeral.
pub fn decimal(n: usize) -> (numeral: String)
    ensures
        numeral@ == decimal_text(n as nat),
    decreases n,
{
    proof {
        reveal_strlit("0123456789");
    }
    assert("0123456789"@ =~= decimal_digits());
    if n < 10 {
        String::from_str(symbol_at("0123456789", n))
    } else {
        let mut numeral = decimal(n / 10);
        numeral.append(symbol_at("0123456789", n % 10));
        numeral
    }
}

} // verus!
