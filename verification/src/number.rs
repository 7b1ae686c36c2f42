//! Numbers as they are written into markup: natural numbers in decimal, and
//! [`Decimal`], a fractional quantity kept in its written form.

use vstd::prelude::*;
use vstd::std_specs::iter::IteratorSpec;
use vstd::string::*;
use crate::text::push_char;

verus! {

/// True for the ten ASCII digits.
pub open spec fn is_digit(c: char) -> bool {
    '0' <= c && c <= '9'
}

/// The character that writes a digit value below ten.
pub open spec fn digit_char(d: nat) -> char {
    if d == 0 {
        '0'
    } else if d == 1 {
        '1'
    } else if d == 2 {
        '2'
    } else if d == 3 {
        '3'
    } else if d == 4 {
        '4'
    } else if d == 5 {
        '5'
    } else if d == 6 {
        '6'
    } else if d == 7 {
        '7'
    } else if d == 8 {
        '8'
    } else {
        '9'
    }
}

/// The decimal notation of a natural number, without sign or leading zeros.
pub open spec fn nat_text(n: nat) -> Seq<char>
    decreases n,
{
    if n < 10 {
        seq![digit_char(n)]
    } else {
        nat_text(n / 10).push(digit_char(n % 10))
    }
}

/// The decimal notation of a natural number, filled with zeros on the left
/// up to three places.
pub open spec fn nat_text_pad3(n: nat) -> Seq<char> {
    if n < 10 {
        seq!['0', '0'] + nat_text(n)
    } else if n < 100 {
        seq!['0'] + nat_text(n)
    } else {
        nat_text(n)
    }
}

/// The decimal notation of a number consists of digits only, at least one.
pub proof fn lemma_nat_text_digits(n: nat)
    ensures
        nat_text(n).len() >= 1,
        forall|i: int| 0 <= i < nat_text(n).len() ==> is_digit(#[trigger] nat_text(n)[i]),
    decreases n,
{
    if n >= 10 {
        lemma_nat_text_digits(n / 10);
    }
}

fn digit_of(d: u64) -> (c: char)
    requires
        d < 10,
    ensures
        c == digit_char(d as nat),
{
    if d == 0 {
        '0'
    } else if d == 1 {
        '1'
    } else if d == 2 {
        '2'
    } else if d == 3 {
        '3'
    } else if d == 4 {
        '4'
    } else if d == 5 {
        '5'
    } else if d == 6 {
        '6'
    } else if d == 7 {
        '7'
    } else if d == 8 {
        '8'
    } else {
        '9'
    }
}

/// Appends the decimal notation of `n` to `out`.
pub fn push_nat(out: &mut String, n: u64)
    ensures
        final(out)@ == old(out)@ + nat_text(n as nat),
    decreases n,
{
    if n >= 10 {
        push_nat(out, n / 10);
    }
    push_char(out, digit_of(n % 10));
    assert(final(out)@ == old(out)@ + nat_text(n as nat));
}

/// Appends the decimal notation of `n`, at least three places wide, to `out`.
pub fn push_nat_pad3(out: &mut String, n: u64)
    ensures
        final(out)@ == old(out)@ + nat_text_pad3(n as nat),
{
    if n < 10 {
        push_char(out, '0');
        push_char(out, '0');
    } else if n < 100 {
        push_char(out, '0');
    }
    push_nat(out, n);
    assert(final(out)@ == old(out)@ + nat_text_pad3(n as nat));
}

/// A text without its leading minus sign, if it has one.
pub open spec fn unsigned_part(s: Seq<char>) -> Seq<char> {
    if s.len() > 0 && s[0] == '-' {
        s.skip(1)
    } else {
        s
    }
}

/// True when `body` is one or more digits, optionally followed by a point
/// and one or more digits.
pub open spec fn is_unsigned_decimal(body: Seq<char>) -> bool {
    &&& body.len() > 0
    &&& is_digit(body.first())
    &&& is_digit(body.last())
    &&& forall|i: int| 0 <= i < body.len() ==> is_digit(#[trigger] body[i]) || body[i] == '.'
    &&& forall|i: int, j: int|
        0 <= i < j < body.len() ==> !(#[trigger] body[i] == '.' && #[trigger] body[j] == '.')
}

/// True when `s` writes a finite decimal number: an optional minus sign, one
/// or more digits, and optionally a point followed by one or more digits.
pub open spec fn is_decimal_text(s: Seq<char>) -> bool {
    is_unsigned_decimal(unsigned_part(s))
}

/// Decides whether `s` writes a finite decimal number.
pub fn check_decimal_text(s: &str) -> (ok: bool)
    ensures
        ok == is_decimal_text(s@),
{
    broadcast use axiom_spec_iter;

    let mut it = s.chars();
    let ghost mut done: int = 0;
    let ghost start: int = if s@.len() > 0 && s@[0] == '-' {
        1
    } else {
        0
    };
    let ghost body = unsigned_part(s@);
    let ghost mut dot_at: int = 0;
    let mut first = true;
    let mut seen_dot = false;
    let mut seen_body = false;
    let mut last_is_digit = false;
    loop
        invariant
            0 <= done <= s@.len(),
            it.remaining() == s@.skip(done),
            start == 0 || start == 1,
            start == 1 <==> s@.len() > 0 && s@[0] == '-',
            body == unsigned_part(s@),
            body.len() == s@.len() - start,
            seen_dot ==> 0 <= dot_at < done - start && body[dot_at] == '.',
            first == (done == 0),
            !first ==> done >= start,
            seen_body == (done > start),
            seen_body ==> is_digit(body[0]),
            seen_body ==> last_is_digit == is_digit(body[done - start - 1]),
            forall|i: int|
                0 <= i < done - start ==> is_digit(#[trigger] body[i]) || body[i] == '.',
            forall|i: int|
                0 <= i < done - start && #[trigger] body[i] == '.' ==> seen_dot && i == dot_at,
        ensures
            done == s@.len(),
        decreases s@.len() - done,
    {
        broadcast use next_postcondition;

        match it.next() {
            Some(c) => {
                let ghost at = done - start;
                proof {
                    assert(s@.skip(done).drop_first() == s@.skip(done + 1));
                    assert(c == s@[done]);
                }
                if first && c == '-' {
                    first = false;
                } else {
                    first = false;
                    assert(0 <= at < body.len() && body[at] == c);
                    let digit = '0' <= c && c <= '9';
                    if !digit {
                        if c != '.' {
                            assert(!is_digit(body[at]) && body[at] != '.');
                            return false;
                        }
                        if !seen_body {
                            assert(body.first() == '.');
                            return false;
                        }
                        if seen_dot {
                            assert(body[dot_at] == '.' && body[at] == '.' && dot_at < at);
                            return false;
                        }
                        seen_dot = true;
                        proof {
                            dot_at = at;
                        }
                    }
                    seen_body = true;
                    last_is_digit = digit;
                }
                proof {
                    done = done + 1;
                }
            },
            None => {
                break ;
            },
        }
    }
    proof {
        if seen_body {
            assert(body.last() == body[done - start - 1]);
        }
    }
    seen_body && last_is_digit
}

/// A finite decimal quantity, held as the text that writes it: a position or
/// a size in percent, an opacity, a radius, a font size.
///
/// Every value of this type writes a decimal number, so placing one into a
/// style value cannot change the structure of the markup around it.
#[derive(Debug)]
pub struct Decimal {
    text: String,
}

impl View for Decimal {
    type V = Seq<char>;

    closed spec fn view(&self) -> Seq<char> {
        self.text@
    }
}

impl DeepView for Decimal {
    type V = Seq<char>;

    open spec fn deep_view(&self) -> Seq<char> {
        self@
    }
}

impl Decimal {
    #[verifier::type_invariant]
    spec fn well_formed(&self) -> bool {
        is_decimal_text(self.text@)
    }

    /// Reads a decimal quantity from its text; `None` when the text does not
    /// write a finite decimal number.
    pub fn parse(text: &str) -> (r: Option<Decimal>)
        ensures
            r is Some <==> is_decimal_text(text@),
            r matches Some(d) ==> d@ == text@,
    {
        if check_decimal_text(text) {
            Some(Decimal { text: String::from_str(text) })
        } else {
            None
        }
    }

    /// The whole number `n` as a decimal quantity.
    pub fn from_nat(n: u64) -> (d: Decimal)
        ensures
            d@ == nat_text(n as nat),
    {
        let mut text = String::new();
        push_nat(&mut text, n);
        proof {
            lemma_nat_text_is_decimal(n as nat);
            assert(text@ == nat_text(n as nat));
        }
        Decimal { text }
    }

    /// The text that writes this quantity.
    pub fn as_str(&self) -> (s: &str)
        ensures
            s@ == self@,
            is_decimal_text(s@),
    {
        proof {
            use_type_invariant(self);
        }
        self.text.as_str()
    }
}

impl Clone for Decimal {
    fn clone(&self) -> (r: Self)
        ensures
            r@ == self@,
    {
        proof {
            use_type_invariant(self);
        }
        Decimal { text: self.text.clone() }
    }
}

/// The decimal notation of a natural number writes a decimal quantity.
pub proof fn lemma_nat_text_is_decimal(n: nat)
    ensures
        is_decimal_text(nat_text(n)),
{
    lemma_nat_text_digits(n);
    let s = nat_text(n);
    assert(is_digit(s[0]));
    assert(s[0] != '-');
    assert(unsigned_part(s) == s);
    assert(is_digit(s[s.len() - 1]));
    assert forall|i: int, j: int| 0 <= i < j < s.len() implies !(#[trigger] s[i] == '.'
        && #[trigger] s[j] == '.') by {
        assert(is_digit(s[i]));
    }
}

} // verus!
