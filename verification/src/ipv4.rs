//! IPv4 addresses in dotted-quad notation.

use crate::text::{chars_of, lemma_split_first, lemma_split_whole, split, split_text, texts_of};
use vstd::prelude::*;

verus! {

/// An IPv4 address: its four octets, first to last.
#[derive(Clone, Copy, Debug, PartialEq, Eq, Structural)]
pub struct Ipv4Addr {
    pub a: u8,
    pub b: u8,
    pub c: u8,
    pub d: u8,
}

/// Whether `c` is one of the digits `0` to `9`.
pub open spec fn is_digit(c: char) -> bool {
    48 <= c as u32 <= 57
}

/// The number that the digit `c` stands for.
pub open spec fn digit_value(c: char) -> int {
    c as u32 - 48
}

/// The number that the digits `s` write in base ten.
pub open spec fn decimal_value(s: Seq<char>) -> int
    decreases s.len(),
{
    if s.len() == 0 {
        0
    } else {
        decimal_value(s.drop_last()) * 10 + digit_value(s.last())
    }
}

/// The octet that `part` writes: one to three digits, no leading zero on a
/// number of more than one digit, and a value of at most 255.
pub open spec fn octet_of(part: Seq<char>) -> Option<u8> {
    if 1 <= part.len() <= 3 && (forall|i: int| 0 <= i < part.len() ==> is_digit(#[trigger] part[i]))
        && (part.len() == 1 || part[0] != '0') && decimal_value(part) <= 255 {
        Some(decimal_value(part) as u8)
    } else {
        None
    }
}

/// The address that `s` writes: four octets with a dot between each two.
pub open spec fn dotted_quad(s: Seq<char>) -> Option<Ipv4Addr> {
    let parts = split(s, '.');
    if parts.len() == 4 && octet_of(parts[0]) is Some && octet_of(parts[1]) is Some && octet_of(
        parts[2],
    ) is Some && octet_of(parts[3]) is Some {
        Some(
            Ipv4Addr {
                a: octet_of(parts[0])->Some_0,
                b: octet_of(parts[1])->Some_0,
                c: octet_of(parts[2])->Some_0,
                d: octet_of(parts[3])->Some_0,
            },
        )
    } else {
        None
    }
}

/// Reads one octet.
fn parse_octet(part: &str) -> (r: Option<u8>)
    ensures
        r == octet_of(part@),
{
    let chars = chars_of(part);
    let n = chars.len();
    if n == 0 || n > 3 {
        return None;
    }
    let mut value: u32 = 0;
    let mut i: usize = 0;
    while i < n
        invariant
            chars@ == part@,
            n == chars.len(),
            1 <= n <= 3,
            i <= n,
            forall|k: int| 0 <= k < i ==> is_digit(#[trigger] part@[k]),
            value == decimal_value(part@.take(i as int)),
            value < 1000,
            i < 3 ==> value < 100,
            i < 2 ==> value < 10,
            i < 1 ==> value == 0,
        decreases n - i,
    {
        let c = chars[i];
        let code: u32 = c as u32;
        if code < 48 || code > 57 {
            assert(!is_digit(part@[i as int]));
            return None;
        }
        assert(part@.take(i + 1).drop_last() =~= part@.take(i as int));
        value = value * 10 + (code - 48);
        i += 1;
    }
    assert(part@.take(n as int) =~= part@);
    if n > 1 && chars[0] == '0' {
        return None;
    }
    if value > 255 {
        return None;
    }
    Some(value as u8)
}

/// The digit that writes `d`, for `d` from 0 to 9.
pub open spec fn digit_char(d: int) -> char {
    if d == 0 {
        '0'
    } else if d == 1 {
        '1'
    } else if d == 2 {
        '2'
    } else if d == 3 {
        '3'
    } else if d == 4 {
        '4'
    } else if d == 5 {
        '5'
    } else if d == 6 {
        '6'
    } else if d == 7 {
        '7'
    } else if d == 8 {
        '8'
    } else {
        '9'
    }
}

/// The shortest decimal notation of `v`.
pub open spec fn octet_text(v: u8) -> Seq<char> {
    if v < 10 {
        seq![digit_char(v as int)]
    } else if v < 100 {
        seq![digit_char((v / 10) as int), digit_char((v % 10) as int)]
    } else {
        seq![
            digit_char((v / 100) as int),
            digit_char(((v / 10) % 10) as int),
            digit_char((v % 10) as int),
        ]
    }
}

/// The dotted-quad notation of `ip`.
pub open spec fn quad_text(ip: Ipv4Addr) -> Seq<char> {
    octet_text(ip.a) + seq!['.'] + octet_text(ip.b) + seq!['.'] + octet_text(ip.c) + seq!['.']
        + octet_text(ip.d)
}

/// The notation of an octet is read back as the octet, and holds no dot.
pub proof fn lemma_octet_reads_back(v: u8)
    ensures
        octet_of(octet_text(v)) == Some(v),
        !octet_text(v).contains('.'),
{
    let t = octet_text(v);
    assert forall|i: int| 0 <= i < t.len() implies is_digit(#[trigger] t[i]) && t[i] != '.' by {}
    assert(!t.contains('.')) by {
        if t.contains('.') {
            let i = choose|i: int| 0 <= i < t.len() && t[i] == '.';
            assert(is_digit(t[i]));
        }
    }
    reveal_with_fuel(decimal_value, 4);
    if v < 10 {
        assert(t.drop_last() =~= Seq::<char>::empty());
    } else if v < 100 {
        assert(t.drop_last() =~= seq![t[0]]);
        assert(t.drop_last().drop_last() =~= Seq::<char>::empty());
    } else {
        assert(t.drop_last() =~= seq![t[0], t[1]]);
        assert(t.drop_last().drop_last() =~= seq![t[0]]);
        assert(t.drop_last().drop_last().drop_last() =~= Seq::<char>::empty());
    }
    assert(decimal_value(t) == v);
}

/// Four texts without a dot, written with a dot between each two, are
/// the four pieces of what was written.
pub proof fn lemma_split_quad(a: Seq<char>, b: Seq<char>, c: Seq<char>, d: Seq<char>)
    requires
        !a.contains('.'),
        !b.contains('.'),
        !c.contains('.'),
        !d.contains('.'),
    ensures
        split(a + seq!['.'] + b + seq!['.'] + c + seq!['.'] + d, '.') == seq![a, b, c, d],
{
    let dot = seq!['.'];
    let tail2 = c + dot + d;
    let tail1 = b + dot + tail2;
    assert(a + dot + b + dot + c + dot + d =~= a + dot + tail1);
    lemma_split_first(a, tail1, '.');
    lemma_split_first(b, tail2, '.');
    lemma_split_first(c, d, '.');
    lemma_split_whole(d, '.');
    assert(seq![a] + (seq![b] + (seq![c] + seq![d])) =~= seq![a, b, c, d]);
}

/// An address that is written in dotted-quad notation is read back as it
/// was.
pub proof fn lemma_written_address_reads_back(ip: Ipv4Addr)
    ensures
        dotted_quad(quad_text(ip)) == Some(ip),
{
    lemma_octet_reads_back(ip.a);
    lemma_octet_reads_back(ip.b);
    lemma_octet_reads_back(ip.c);
    lemma_octet_reads_back(ip.d);
    lemma_split_quad(octet_text(ip.a), octet_text(ip.b), octet_text(ip.c), octet_text(ip.d));
}

/// Writes the digit for `d` behind `text`.
fn push_digit(text: &mut String, d: u8)
    requires
        d < 10,
    ensures
        final(text)@ == old(text)@.push(digit_char(d as int)),
{
    proof {
        reveal_strlit("0");
        reveal_strlit("1");
        reveal_strlit("2");
        reveal_strlit("3");
        reveal_strlit("4");
        reveal_strlit("5");
        reveal_strlit("6");
        reveal_strlit("7");
        reveal_strlit("8");
        reveal_strlit("9");
    }
    let digit = if d == 0 {
        "0"
    } else if d == 1 {
        "1"
    } else if d == 2 {
        "2"
    } else if d == 3 {
        "3"
    } else if d == 4 {
        "4"
    } else if d == 5 {
        "5"
    } else if d == 6 {
        "6"
    } else if d == 7 {
        "7"
    } else if d == 8 {
        "8"
    } else {
        "9"
    };
    assert(digit@ =~= seq![digit_char(d as int)]);
    text.append(digit);
    assert(text@ =~= old(text)@.push(digit_char(d as int)));
}

/// Writes `v` in decimal behind `text`.
fn push_octet(text: &mut String, v: u8)
    ensures
        final(text)@ == old(text)@ + octet_text(v),
{
    if v >= 100 {
        push_digit(text, v / 100);
    }
    if v >= 10 {
        push_digit(text, (v / 10) % 10);
    }
    push_digit(text, v % 10);
    assert(text@ =~= old(text)@ + octet_text(v));
}

impl Ipv4Addr {
    /// The address `a.b.c.d`.
    pub fn new(a: u8, b: u8, c: u8, d: u8) -> (ip: Ipv4Addr)
        ensures
            ip == (Ipv4Addr { a, b, c, d }),
    {
        Ipv4Addr { a, b, c, d }
    }

    /// Reads an address in dotted-quad notation; `None` for any other text.
    pub fn parse(s: &str) -> (r: Option<Ipv4Addr>)
        ensures
            r == dotted_quad(s@),
    {
        let parts = split_text(s, '.');
        if parts.len() != 4 {
            return None;
        }
        assert(forall|i: int| 0 <= i < 4 ==> #[trigger] texts_of(parts@)[i] == parts@[i]@);
        let a = parse_octet(parts[0].as_str());
        let b = parse_octet(parts[1].as_str());
        let c = parse_octet(parts[2].as_str());
        let d = parse_octet(parts[3].as_str());
        match (a, b, c, d) {
            (Some(a), Some(b), Some(c), Some(d)) => Some(Ipv4Addr { a, b, c, d }),
            _ => None,
        }
    }

    /// The address in dotted-quad notation.
    pub fn to_text(&self) -> (text: String)
        ensures
            text@ == quad_text(*self),
    {
        proof {
            reveal_strlit(".");
        }
        let mut text = String::new();
        push_octet(&mut text, self.a);
        text.append(".");
        push_octet(&mut text, self.b);
        text.append(".");
        push_octet(&mut text, self.c);
        text.append(".");
        push_octet(&mut text, self.d);
        assert("."@ =~= seq!['.']);
        assert(text@ =~= quad_text(*self));
        text
    }
}

} // verus!
