//! Reading command arguments: decimal numbers as `str::parse` reads them,
//! positions, volume levels and the query text.

use vstd::prelude::*;
use crate::text::{digit_char, join, nat_text, views};

verus! {

/// Whether `c` is an ASCII decimal digit.
pub open spec fn is_digit(c: char) -> bool {
    '0' <= c && c <= '9'
}

/// The value of a run of decimal digits.
pub open spec fn digits_value(s: Seq<char>) -> nat
    decreases s.len(),
{
    if s.len() == 0 {
        0
    } else {
        digits_value(s.drop_last()) * 10 + ((s.last() as nat) - 48) as nat
    }
}

/// `s` without one leading `+`.
pub open spec fn unsigned_digits(s: Seq<char>) -> Seq<char> {
    if s.len() > 0 && s[0] == '+' {
        s.drop_first()
    } else {
        s
    }
}

/// Whether every character of `d` is a decimal digit.
pub open spec fn all_digits(d: Seq<char>) -> bool {
    forall|i: int| 0 <= i < d.len() ==> is_digit(#[trigger] d[i])
}

/// The unsigned number that `s` spells, as `str::parse` reads an unsigned
/// integer type whose largest value is `max`: an optional `+`, then one or
/// more decimal digits and nothing else, with a value of at most `max`.
pub open spec fn parse_unsigned(s: Seq<char>, max: nat) -> Option<nat> {
    let d = unsigned_digits(s);
    if d.len() > 0 && all_digits(d)
        && digits_value(d) <= max {
        Some(digits_value(d))
    } else {
        None
    }
}

/// Reads an unsigned decimal number of at most `max` from `s` (the rules
/// of `str::parse` for unsigned integers).
pub fn parse_u64_up_to(s: &str, max: u64) -> (r: Option<u64>)
    ensures
        match parse_unsigned(s@, max as nat) {
            Some(v) => r == Some(v as u64),
            None => r is None,
        },
{
    let n = s.unicode_len();
    let mut start: usize = 0;
    if n > 0 && s.get_char(0) == '+' {
        start = 1;
    }
    let ghost d = unsigned_digits(s@);
    assert(d =~= s@.skip(start as int));
    if start == n {
        return None;
    }
    let mut i: usize = start;
    let mut value: u64 = 0;
    let mut over = false;
    while i < n
        invariant
            n == s@.len(),
            start <= i <= n,
            d == s@.skip(start as int),
            d == unsigned_digits(s@),
            forall|j: int| 0 <= j < i - start ==> is_digit(#[trigger] d[j]),
            !over ==> value == digits_value(d.take(i - start)) && value <= max,
            over ==> digits_value(d.take(i - start)) > max,
        decreases n - i,
    {
        let c = s.get_char(i);
        assert(d[i - start] == c);
        if !('0' <= c && c <= '9') {
            assert(!is_digit(d[i - start]));
            assert(!all_digits(d));
            return None;
        }
        let ghost prev = d.take(i - start);
        let ghost next = d.take(i - start + 1);
        assert(next.drop_last() =~= prev);
        assert(next.last() == c);
        let dv: u64 = ((c as u32) - 48) as u64;
        if !over {
            if dv > max || value > (max - dv) / 10 {
                over = true;
                assert(digits_value(next) > max) by (nonlinear_arith)
                    requires
                        digits_value(next) == value * 10 + dv,
                        dv > max || value > (max - dv) / 10,
                ;
            } else {
                assert(value * 10 + dv <= max) by (nonlinear_arith)
                    requires
                        dv <= max,
                        value <= (max - dv) / 10,
                ;
                value = value * 10 + dv;
            }
        } else {
            assert(digits_value(next) >= digits_value(prev));
        }
        i = i + 1;
    }
    assert(d.take(n - start) =~= d);
    if over {
        None
    } else {
        Some(value)
    }
}


/// The 1-based queue position asked for by the first argument: a number
/// that fits `usize` and is at least 1.
pub open spec fn position_arg(args: Seq<String>) -> Option<nat> {
    if args.len() == 0 {
        None
    } else {
        match parse_unsigned(args[0]@, usize::MAX as nat) {
            Some(n) => if n >= 1 {
                Some(n)
            } else {
                None
            },
            None => None,
        }
    }
}

/// Reads the position of `skipto`: the first argument as a `usize` of at
/// least 1.
pub fn parse_position(args: &[String]) -> (r: Option<usize>)
    ensures
        match position_arg(args@) {
            Some(n) => r == Some(n as usize),
            None => r is None,
        },
{
    if args.len() == 0 {
        return None;
    }
    match parse_u64_up_to(args[0].as_str(), usize::MAX as u64) {
        Some(n) => if n >= 1 {
            Some(n as usize)
        } else {
            None
        },
        None => None,
    }
}

/// The volume asked for by the first argument: a number that fits `u8`
/// and is at most 100.
pub open spec fn volume_arg(args: Seq<String>) -> Option<nat> {
    if args.len() == 0 {
        None
    } else {
        match parse_unsigned(args[0]@, 255) {
            Some(n) => if n <= 100 {
                Some(n)
            } else {
                None
            },
            None => None,
        }
    }
}

/// Reads the level of `volume`: the first argument as a `u8` of at most
/// 100.
pub fn parse_volume_level(args: &[String]) -> (r: Option<u8>)
    ensures
        match volume_arg(args@) {
            Some(n) => r == Some(n as u8),
            None => r is None,
        },
{
    if args.len() == 0 {
        return None;
    }
    match parse_u64_up_to(args[0].as_str(), 255) {
        Some(n) => if n <= 100 {
            Some(n as u8)
        } else {
            None
        },
        None => None,
    }
}

/// The query of `play`, `playnext` and `radio`: the arguments joined with
/// single spaces.
pub fn join_args(args: &[String]) -> (r: String)
    ensures
        r@ == join(views(args@), " "@),
{
    let n = args.len();
    if n == 0 {
        let r = String::new();
        assert(r@ =~= join(views(args@), " "@));
        return r;
    }
    let mut r = args[0].clone();
    assert(views(args@).take(1) =~= seq![args@[0]@]);
    let mut i: usize = 1;
    while i < n
        invariant
            n == args@.len(),
            1 <= i <= n,
            r@ == join(views(args@).take(i as int), " "@),
        decreases n - i,
    {
        let ghost before = views(args@).take(i as int);
        r.append(" ");
        r.append(args[i].as_str());
        i = i + 1;
        assert(views(args@).take(i as int).drop_last() =~= before);
        assert(r@ =~= join(views(args@).take(i as int), " "@));
    }
    assert(views(args@).take(n as int) =~= views(args@));
    r
}

proof fn lemma_digits_of_nat_text(n: nat)
    ensures
        nat_text(n).len() > 0,
        all_digits(nat_text(n)),
        digits_value(nat_text(n)) == n,
    decreases n,
{
    if n < 10 {
        let t = nat_text(n);
        assert(t == seq![digit_char(n)]);
        assert(t.drop_last() =~= Seq::<char>::empty());
        assert((digit_char(n) as nat) == n + 48);
        assert(t.last() == digit_char(n));
        assert(digits_value(t.drop_last()) == 0);
        assert(digits_value(t) == n);
    } else {
        lemma_digits_of_nat_text(n / 10);
        let p = nat_text(n / 10);
        let t = nat_text(n);
        assert(t == p.push(digit_char(n % 10)));
        assert(t.drop_last() =~= p);
        assert((digit_char(n % 10) as nat) == n % 10 + 48);
        assert forall|i: int| 0 <= i < t.len() implies is_digit(#[trigger] t[i]) by {
            if i < p.len() {
                assert(t[i] == p[i]);
            }
        }
        assert(t.last() == digit_char(n % 10));
        assert(digits_value(t) == digits_value(p) * 10 + n % 10);
        assert(n == (n / 10) * 10 + n % 10);
    }
}

/// A number written in decimal reads back as itself when it fits.
pub proof fn law_decimal_reads_back(n: nat, max: nat)
    ensures
        parse_unsigned(nat_text(n), max) == if n <= max { Some(n) } else { None::<nat> },
{
    lemma_digits_of_nat_text(n);
    let t = nat_text(n);
    assert(t[0] != '+') by {
        assert(is_digit(t[0]));
    }
    assert(unsigned_digits(t) == t);
}

/// `skipto` reads every position from 1 up to the largest `usize` written in
/// decimal as that position, position 1 included; 0 and anything that is
/// not such a number is refused, and a position read is never 0.
pub proof fn law_position_reads_back(args: Seq<String>, n: nat)
    ensures
        args.len() >= 1 && args[0]@ == nat_text(n) ==> position_arg(args) == if 1 <= n <= usize::MAX {
            Some(n)
        } else {
            None::<nat>
        },
        position_arg(args) matches Some(p) ==> 1 <= p <= usize::MAX && args.len() >= 1 && parse_unsigned(
            args[0]@,
            usize::MAX as nat,
        ) == Some(p),
        args.len() == 0 ==> position_arg(args) is None,
{
    law_decimal_reads_back(n, usize::MAX as nat);
}

/// `volume` reads every level from 0 to 100 written in decimal as that
/// level and refuses every larger number.
pub proof fn law_volume_reads_back(args: Seq<String>, n: nat)
    ensures
        args.len() >= 1 && args[0]@ == nat_text(n) ==> volume_arg(args) == if n <= 100 {
            Some(n)
        } else {
            None::<nat>
        },
        volume_arg(args) matches Some(v) ==> v <= 100,
{
    law_decimal_reads_back(n, 255);
}

} // verus!
