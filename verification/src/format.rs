//! Values that can be written as text.

use vstd::prelude::*;
use vstd::string::StringExecFns;

verus! {

/// A value with a textual form that can be appended to a buffer.
pub trait XmlDisplay {
    /// The text that stands for the value.
    spec fn text(&self) -> Seq<char>;

    /// Appends the text of the value to `buffer`.
    fn write_text(&self, buffer: &mut String)
        ensures
            final(buffer)@ == old(buffer)@ + self.text(),
    ;
}

/// The text of a truth value: `true` or `false`.
pub open spec fn bool_text(value: bool) -> Seq<char> {
    if value {
        seq!['t', 'r', 'u', 'e']
    } else {
        seq!['f', 'a', 'l', 's', 'e']
    }
}

/// The character of the decimal digit `digit`.
pub open spec fn digit_char(digit: nat) -> char
    recommends
        digit < 10,
{
    (48 + digit) as char
}

/// The decimal digits of `n`, most significant first, without leading zeros.
pub open spec fn decimal(n: nat) -> Seq<char>
    decreases n,
{
    if n < 10 {
        seq![digit_char(n)]
    } else {
        decimal(n / 10).push(digit_char(n % 10))
    }
}

/// The decimal form of an integer, with a minus sign in front of a negative one.
pub open spec fn signed_decimal(n: int) -> Seq<char> {
    if n < 0 {
        seq!['-'] + decimal((-n) as nat)
    } else {
        decimal(n as nat)
    }
}

/// Appends the decimal digits of `n` to `buffer`.
pub fn push_decimal(buffer: &mut String, n: u64)
    ensures
        final(buffer)@ == old(buffer)@ + decimal(n as nat),
    decreases n,
{
    if n >= 10 {
        push_decimal(buffer, n / 10);
    }
    let digit: u8 = (n % 10) as u8;
    buffer.push((48u8 + digit) as char);
}

/// Appends the decimal form of `n` to `buffer`.
pub fn push_signed_decimal(buffer: &mut String, n: i64)
    ensures
        final(buffer)@ == old(buffer)@ + signed_decimal(n as int),
{
    if n < 0 {
        buffer.push('-');
        let magnitude: u64 = (0 - (n as i128)) as u64;
        push_decimal(buffer, magnitude);
    } else {
        push_decimal(buffer, n as u64);
    }
}

impl XmlDisplay for bool {
    open spec fn text(&self) -> Seq<char> {
        bool_text(*self)
    }

    fn write_text(&self, buffer: &mut String) {
        proof {
            reveal_strlit("true");
            reveal_strlit("false");
        }
        if *self {
            buffer.append("true");
        } else {
            buffer.append("false");
        }
        assert(final(buffer)@ =~= old(buffer)@ + bool_text(*self));
    }
}

impl<'a> XmlDisplay for &'a str {
    open spec fn text(&self) -> Seq<char> {
        self@
    }

    fn write_text(&self, buffer: &mut String) {
        buffer.append(*self);
    }
}

impl XmlDisplay for String {
    open spec fn text(&self) -> Seq<char> {
        self@
    }

    fn write_text(&self, buffer: &mut String) {
        buffer.append(self.as_str());
    }
}

impl XmlDisplay for u32 {
    open spec fn text(&self) -> Seq<char> {
        decimal(*self as nat)
    }

    fn write_text(&self, buffer: &mut String) {
        push_decimal(buffer, *self as u64);
    }
}

impl XmlDisplay for u64 {
    open spec fn text(&self) -> Seq<char> {
        decimal(*self as nat)
    }

    fn write_text(&self, buffer: &mut String) {
        push_decimal(buffer, *self);
    }
}

impl XmlDisplay for i32 {
    open spec fn text(&self) -> Seq<char> {
        signed_decimal(*self as int)
    }

    fn write_text(&self, buffer: &mut String) {
        push_signed_decimal(buffer, *self as i64);
    }
}

impl XmlDisplay for i64 {
    open spec fn text(&self) -> Seq<char> {
        signed_decimal(*self as int)
    }

    fn write_text(&self, buffer: &mut String) {
        push_signed_decimal(buffer, *self);
    }
}

impl<'a, T: XmlDisplay> XmlDisplay for &'a T {
    open spec fn text(&self) -> Seq<char> {
        (**self).text()
    }

    fn write_text(&self, buffer: &mut String) {
        (**self).write_text(buffer);
    }
}

} // verus!
