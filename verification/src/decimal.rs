//! Prices and quantities as the wire carries them: decimal text, kept exactly.

use vstd::prelude::*;
use crate::text::{copy_bytes, is_digit, DOT, MINUS, PLUS, ZERO};

verus! {

/// The part of a number's text that follows an optional sign.
pub open spec fn number_body(s: Seq<u8>) -> Seq<u8> {
    if s.len() > 0 && (s[0] == PLUS || s[0] == MINUS) {
        s.subrange(1, s.len() as int)
    } else {
        s
    }
}

/// A FIX float: an optional sign, then digits with at most one decimal point among
/// them, and at least one digit.
pub open spec fn is_decimal_text(s: Seq<u8>) -> bool {
    let b = number_body(s);
    &&& forall|i: int| 0 <= i < b.len() ==> is_digit(#[trigger] b[i]) || b[i] == DOT
    &&& forall|i: int, j: int|
        0 <= i < j < b.len() ==> !(#[trigger] b[i] == DOT && #[trigger] b[j] == DOT)
    &&& exists|i: int| 0 <= i < b.len() && is_digit(#[trigger] b[i])
}

/// True when every digit of the text is `0`: the number is zero, whatever its sign.
pub open spec fn is_zero_text(s: Seq<u8>) -> bool {
    forall|i: int| 0 <= i < number_body(s).len() && is_digit(#[trigger] number_body(s)[i]) ==> number_body(s)[i] == ZERO
}

/// A decimal number, held as its text.
#[derive(Debug)]
pub struct Decimal {
    text: Vec<u8>,
}

impl View for Decimal {
    type V = Seq<u8>;

    closed spec fn view(&self) -> Seq<u8> {
        self.text@
    }
}

impl Decimal {
    #[verifier::type_invariant]
    spec fn well_formed(self) -> bool {
        is_decimal_text(self.text@)
    }

    /// Accepts exactly the texts that are FIX floats, and keeps them byte for byte.
    pub fn parse(text: &[u8]) -> (r: Option<Decimal>)
        ensures
            r is Some == is_decimal_text(text@),
            r is Some ==> r->0@ == text@,
    {
        let start: usize = if text.len() > 0 && (text[0] == PLUS || text[0] == MINUS) {
            1
        } else {
            0
        };
        let ghost b = number_body(text@);
        assert(b =~= text@.subrange(start as int, text@.len() as int));
        let mut seen_dot = false;
        let mut seen_digit = false;
        let mut i: usize = start;
        while i < text.len()
            invariant
                start <= i <= text@.len(),
                b == number_body(text@),
                b == text@.subrange(start as int, text@.len() as int),
                forall|k: int| 0 <= k < i - start ==> is_digit(#[trigger] b[k]) || b[k] == DOT,
                forall|k: int, j: int|
                    0 <= k < j < i - start ==> !(#[trigger] b[k] == DOT && #[trigger] b[j] == DOT),
                seen_dot == exists|k: int| 0 <= k < i - start && #[trigger] b[k] == DOT,
                seen_digit == exists|k: int| 0 <= k < i - start && is_digit(#[trigger] b[k]),
            decreases text@.len() - i,
        {
            let c = text[i];
            assert(c == b[i - start]);
            if c == DOT {
                if seen_dot {
                    let ghost k = choose|k: int| 0 <= k < i - start && #[trigger] b[k] == DOT;
                    assert(b[k] == DOT && b[i - start] == DOT);
                    return None;
                }
                seen_dot = true;
            } else if c >= ZERO && c <= 57 {
                seen_digit = true;
            } else {
                assert(!(is_digit(b[i - start]) || b[i - start] == DOT));
                return None;
            }
            i = i + 1;
        }
        if !seen_digit {
            return None;
        }
        Some(Decimal { text: copy_bytes(text) })
    }

    /// The number zero, written `0`.
    pub fn zero() -> (r: Decimal)
        ensures
            r@ == seq![ZERO],
    {
        let mut text: Vec<u8> = Vec::new();
        text.push(ZERO);
        assert(text@ =~= seq![ZERO]);
        assert(number_body(text@) =~= text@);
        assert(is_digit(number_body(text@)[0]));
        Decimal { text }
    }

    /// The text of the number.
    pub fn as_bytes(&self) -> (r: &[u8])
        ensures
            r@ == self@,
            is_decimal_text(self@),
    {
        proof {
            use_type_invariant(self);
        }
        self.text.as_slice()
    }

    /// True when the number is zero.
    pub fn is_zero(&self) -> (r: bool)
        ensures
            r == is_zero_text(self@),
    {
        let ghost b = number_body(self.text@);
        let mut i: usize = 0;
        let n = self.text.len();
        while i < n
            invariant
                i <= n == self.text@.len(),
                b == number_body(self.text@),
                forall|k: int| 0 <= k < i && 49 <= #[trigger] self.text@[k] <= 57 ==> false,
            decreases n - i,
        {
            let c = self.text[i];
            if c > ZERO && c <= 57 {
                assert(c != PLUS && c != MINUS);
                assert(b[if b.len() == n { i as int } else { i - 1 }] == c);
                return false;
            }
            i = i + 1;
        }
        assert forall|k: int| 0 <= k < b.len() && is_digit(#[trigger] b[k]) implies b[k] == ZERO by {
            let j = if b.len() == n { k } else { k + 1 };
            assert(self.text@[j] == b[k]);
        }
        true
    }

    /// A copy of the number.
    pub fn duplicate(&self) -> (r: Decimal)
        ensures
            r@ == self@,
    {
        proof {
            use_type_invariant(self);
        }
        Decimal { text: copy_bytes(self.text.as_slice()) }
    }
}

/// The view of an optional number.
pub open spec fn decimal_view(d: Option<Decimal>) -> Option<Seq<u8>> {
    match d {
        Some(v) => Some(v@),
        None => None,
    }
}

} // verus!
