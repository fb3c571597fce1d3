//! IPv4 addresses and their dotted-quad text.

use crate::text::{join_with, lemma_split_join, split_on, split_str};
use vstd::prelude::*;

verus! {

/// An IPv4 address, as its four octets from left to right.
#[derive(Clone, Copy, Debug, PartialEq, Eq, Structural)]
pub struct Ipv4 {
    pub a: u8,
    pub b: u8,
    pub c: u8,
    pub d: u8,
}

/// Whether `c` is one of the ten decimal digits.
pub open spec fn is_digit(c: char) -> bool {
    '0' <= c <= '9'
}

/// The number that the digit `c` stands for.
pub open spec fn digit_value(c: char) -> nat {
    (c as nat - '0' as nat) as nat
}

/// The digit that stands for `d`, where `d < 10`.
pub open spec fn digit_char(d: nat) -> char {
    ('0' as nat + d) as char
}

/// The number that a run of decimal digits stands for.
pub open spec fn decimal_value(s: Seq<char>) -> nat
    decreases s.len(),
{
    if s.len() == 0 {
        0
    } else {
        decimal_value(s.drop_last()) * 10 + digit_value(s.last())
    }
}

/// The decimal digits of `n`, without leading zeros.
pub open spec fn decimal_text(n: nat) -> Seq<char>
    decreases n,
{
    if n < 10 {
        seq![digit_char(n)]
    } else {
        decimal_text(n / 10).push(digit_char(n % 10))
    }
}

/// Whether every character of `s` is a decimal digit.
pub open spec fn all_digits(s: Seq<char>) -> bool {
    forall|i: int| 0 <= i < s.len() ==> is_digit(#[trigger] s[i])
}

/// The octet that `s` denotes: one to three decimal digits, no leading zero
/// before another digit, and a value of at most 255.
pub open spec fn octet_of_text(s: Seq<char>) -> Option<u8> {
    if 1 <= s.len() <= 3 && all_digits(s) && (s.len() == 1 || s[0] != '0') && decimal_value(s)
        <= 255 {
        Some(decimal_value(s) as u8)
    } else {
        None
    }
}

/// The address that `s` denotes: exactly four octets with a dot between each
/// two, and nothing else.
pub open spec fn ipv4_of_text(s: Seq<char>) -> Option<Ipv4> {
    let parts = split_on(s, '.');
    if parts.len() == 4 && octet_of_text(parts[0]) is Some && octet_of_text(parts[1]) is Some
        && octet_of_text(parts[2]) is Some && octet_of_text(parts[3]) is Some {
        Some(
            Ipv4 {
                a: octet_of_text(parts[0])->0,
                b: octet_of_text(parts[1])->0,
                c: octet_of_text(parts[2])->0,
                d: octet_of_text(parts[3])->0,
            },
        )
    } else {
        None
    }
}

impl Ipv4 {
    /// The dotted-quad text of the address.
    pub open spec fn text(self) -> Seq<char> {
        join_with(
            seq![
                decimal_text(self.a as nat),
                decimal_text(self.b as nat),
                decimal_text(self.c as nat),
                decimal_text(self.d as nat),
            ],
            seq!['.'],
        )
    }

    /// The address `a.b.c.d`.
    pub fn new(a: u8, b: u8, c: u8, d: u8) -> (ip: Ipv4)
        ensures
            ip == (Ipv4 { a, b, c, d }),
    {
        Ipv4 { a, b, c, d }
    }

    /// The four octets, from left to right.
    pub fn octets(&self) -> (o: [u8; 4])
        ensures
            o@ == seq![self.a, self.b, self.c, self.d],
    {
        [self.a, self.b, self.c, self.d]
    }

    /// Writes the address in dotted-quad form.
    pub fn to_text(&self) -> (s: String)
        ensures
            s@ == self.text(),
    {
        let mut s = String::new();
        push_decimal(&mut s, self.a);
        s.push('.');
        push_decimal(&mut s, self.b);
        s.push('.');
        push_decimal(&mut s, self.c);
        s.push('.');
        push_decimal(&mut s, self.d);
        proof {
            reveal_with_fuel(join_with, 5);
        }
        s
    }
}

/// Appends the decimal digits of `n` to `s`.
pub fn push_decimal(s: &mut String, n: u8)
    ensures
        final(s)@ == old(s)@ + decimal_text(n as nat),
{
    proof {
        reveal_with_fuel(decimal_text, 3);
    }
    if n >= 100 {
        s.push(digit_of(n / 100));
    }
    if n >= 10 {
        s.push(digit_of((n / 10) % 10));
    }
    s.push(digit_of(n % 10));
}

/// The character for the digit `d`.
fn digit_of(d: u8) -> (c: char)
    requires
        d < 10,
    ensures
        c == digit_char(d as nat),
{
    (48u8 + d) as char
}

/// Reads an octet from its decimal text.
pub fn parse_octet(s: &str) -> (octet: Option<u8>)
    ensures
        octet == octet_of_text(s@),
{
    let mut value: u32 = 0;
    let mut count: usize = 0;
    let mut digits = true;
    let mut leading_zero = false;
    for c in it: s.chars()
        invariant
            it.seq() == s@,
            digits ==> count == it.index(),
            digits ==> count <= 3,
            digits ==> all_digits(s@.take(it.index() as int)),
            digits ==> value == decimal_value(s@.take(it.index() as int)),
            digits ==> value < 1000,
            digits && count > 0 ==> leading_zero == (s@[0] == '0'),
            !digits ==> s@.len() > 3 || !all_digits(s@),
    {
        proof {
            assert(s@.take(it.index() + 1).drop_last() == s@.take(it.index() as int));
        }
        if digits {
            if '0' <= c && c <= '9' && count < 3 {
                if count == 0 {
                    leading_zero = c == '0';
                }
                value = value * 10 + (c as u32 - '0' as u32);
                count += 1;
                proof {
                    lemma_three_digits(s@.take(it.index() + 1));
                }
            } else {
                digits = false;
            }
        }
    }
    proof {
        assert(s@.take(s@.len() as int) == s@);
    }
    if digits && count >= 1 && (count == 1 || !leading_zero) && value <= 255 {
        Some(value as u8)
    } else {
        None
    }
}

/// Up to three decimal digits stand for a number below 1000.
proof fn lemma_three_digits(s: Seq<char>)
    requires
        s.len() <= 3,
        all_digits(s),
    ensures
        decimal_value(s) < 1000,
{
    reveal_with_fuel(decimal_value, 4);
}

/// Reading the decimal text of an octet gives the octet back, and the text
/// holds no dot.
pub proof fn lemma_octet_text_reads_back(n: u8)
    ensures
        octet_of_text(decimal_text(n as nat)) == Some(n),
        !decimal_text(n as nat).contains('.'),
{
    reveal_with_fuel(decimal_text, 3);
    reveal_with_fuel(decimal_value, 4);
    let text = decimal_text(n as nat);
    if n >= 100 {
        assert(text =~= seq![
            digit_char(n as nat / 100),
            digit_char(n as nat / 10 % 10),
            digit_char(n as nat % 10),
        ]);
        assert(text.drop_last() =~= seq![
            digit_char(n as nat / 100),
            digit_char(n as nat / 10 % 10),
        ]);
    }
    assert forall|i: int| 0 <= i < text.len() implies is_digit(#[trigger] text[i]) && text[i]
        != '.' by {}
}

/// Reading the dotted-quad text of an address gives the address back.
pub proof fn lemma_text_reads_back(ip: Ipv4)
    ensures
        ipv4_of_text(ip.text()) == Some(ip),
{
    let parts = seq![
        decimal_text(ip.a as nat),
        decimal_text(ip.b as nat),
        decimal_text(ip.c as nat),
        decimal_text(ip.d as nat),
    ];
    lemma_octet_text_reads_back(ip.a);
    lemma_octet_text_reads_back(ip.b);
    lemma_octet_text_reads_back(ip.c);
    lemma_octet_text_reads_back(ip.d);
    lemma_split_join(parts, '.');
}

/// Reads an address from its dotted-quad text.
pub fn parse_ipv4(body: &str) -> (ip: Option<Ipv4>)
    ensures
        ip == ipv4_of_text(body@),
{
    let parts = split_str(body, '.');
    if parts.len() != 4 {
        return None;
    }
    let a = parse_octet(parts[0].as_str());
    let b = parse_octet(parts[1].as_str());
    let c = parse_octet(parts[2].as_str());
    let d = parse_octet(parts[3].as_str());
    match (a, b, c, d) {
        (Some(a), Some(b), Some(c), Some(d)) => Some(Ipv4 { a, b, c, d }),
        _ => None,
    }
}

} // verus!
