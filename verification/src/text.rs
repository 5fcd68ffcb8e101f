//! Text building blocks: decimal and hexadecimal numerals, and strings as
//! sequences of characters.

use vstd::prelude::*;

verus! {

/// `String::push` appends one character.
pub assume_specification[ String::push ](s: &mut String, ch: char)
    ensures
        final(s)@ == old(s)@.push(ch),
;

/// The character of a digit below 16: `0`-`9`, then `a`-`f` or `A`-`F`.
pub open spec fn digit_char(d: int, upper: bool) -> char {
    if d < 10 {
        (48 + d) as char
    } else if upper {
        (55 + d) as char
    } else {
        (87 + d) as char
    }
}

/// The numeral of `n` in base `base`, without leading zeros.
pub open spec fn numeral(n: nat, base: nat, upper: bool) -> Seq<char>
    decreases n,
{
    if base < 2 || n < base {
        seq![digit_char(n as int, upper)]
    } else {
        proof {
            assert(n / base < n) by (nonlinear_arith)
                requires
                    base >= 2,
                    n >= base,
            ;
        }
        numeral(n / base, base, upper).push(digit_char((n % base) as int, upper))
    }
}

/// The decimal numeral of `n`.
pub open spec fn decimal(n: nat) -> Seq<char> {
    numeral(n, 10, false)
}

/// `s` preceded by as many `c` as it takes to reach `width` characters.
pub open spec fn pad_left(s: Seq<char>, width: nat, c: char) -> Seq<char> {
    if s.len() >= width {
        s
    } else {
        Seq::new((width - s.len()) as nat, |_i: int| c) + s
    }
}

/// The hexadecimal numeral of `n`, zero-padded to `width` digits.
pub open spec fn hex(n: nat, width: nat, upper: bool) -> Seq<char> {
    pad_left(numeral(n, 16, upper), width, '0')
}

fn digit(d: u64, upper: bool) -> (c: char)
    requires
        d < 16,
    ensures
        c == digit_char(d as int, upper),
{
    let b: u8 = if d < 10 {
        48 + d as u8
    } else if upper {
        55 + d as u8
    } else {
        87 + d as u8
    };
    b as char
}

fn push_numeral(s: &mut String, n: u64, base: u64, upper: bool)
    requires
        2 <= base <= 16,
    ensures
        final(s)@ == old(s)@ + numeral(n as nat, base as nat, upper),
    decreases n,
{
    proof {
        assert(n % base < base) by (nonlinear_arith)
            requires
                base >= 2,
        ;
    }
    if n >= base {
        proof {
            assert(n / base < n) by (nonlinear_arith)
                requires
                    base >= 2,
                    n >= base,
            ;
        }
        push_numeral(s, n / base, base, upper);
    }
    let ghost mid = s@;
    s.push(digit(n % base, upper));
    proof {
        if n >= base {
            assert(numeral(n as nat, base as nat, upper) == numeral((n / base) as nat, base as nat, upper).push(
                digit_char((n % base) as int, upper),
            ));
            assert(s@ =~= old(s)@ + numeral(n as nat, base as nat, upper));
        } else {
            assert(n % base == n) by (nonlinear_arith)
                requires
                    n < base,
            ;
            assert(numeral(n as nat, base as nat, upper) == seq![digit_char(n as int, upper)]);
            assert(s@ =~= old(s)@ + numeral(n as nat, base as nat, upper));
        }
    }
}

/// Appends the decimal numeral of `n`.
pub fn push_decimal(s: &mut String, n: u64)
    ensures
        final(s)@ == old(s)@ + decimal(n as nat),
{
    push_numeral(s, n, 10, false);
}

/// The numeral of `n` in base `base`, zero-padded to `width` digits.
pub open spec fn padded(n: nat, base: nat, width: nat, upper: bool) -> Seq<char> {
    pad_left(numeral(n, base, upper), width, '0')
}

fn push_padded(s: &mut String, n: u64, base: u64, width: usize, upper: bool)
    requires
        2 <= base <= 16,
    ensures
        final(s)@ == old(s)@ + padded(n as nat, base as nat, width as nat, upper),
{
    let mut digits = String::new();
    push_numeral(&mut digits, n, base, upper);
    let len = digits.as_str().unicode_len();
    let ghost start = s@;
    if len < width {
        let mut k: usize = 0;
        while k < width - len
            invariant
                k <= width - len,
                s@ == start + Seq::new(k as nat, |_i: int| '0'),
            decreases width - len - k,
        {
            s.push('0');
            k += 1;
            proof {
                assert(s@ =~= start + Seq::new(k as nat, |_i: int| '0'));
            }
        }
    }
    s.append(digits.as_str());
    proof {
        assert(s@ =~= start + padded(n as nat, base as nat, width as nat, upper));
    }
}

/// Appends the hexadecimal numeral of `n`, zero-padded to `width` digits.
pub fn push_hex(s: &mut String, n: u64, width: usize, upper: bool)
    ensures
        final(s)@ == old(s)@ + hex(n as nat, width as nat, upper),
{
    push_padded(s, n, 16, width, upper);
}

/// Appends the decimal numeral of `n`, zero-padded to `width` digits.
pub fn push_decimal_padded(s: &mut String, n: u64, width: usize)
    ensures
        final(s)@ == old(s)@ + pad_left(decimal(n as nat), width as nat, '0'),
{
    push_padded(s, n, 10, width, false);
}

/// The decimal numeral of a signed number: `-` before the magnitude when
/// negative.
pub open spec fn signed_decimal(n: int) -> Seq<char> {
    if n < 0 {
        seq!['-'] + decimal((-n) as nat)
    } else {
        decimal(n as nat)
    }
}

/// Appends the decimal numeral of the signed `n`.
pub fn push_signed_decimal(s: &mut String, n: i64)
    ensures
        final(s)@ == old(s)@ + signed_decimal(n as int),
{
    let ghost start = s@;
    if n < 0 {
        s.push('-');
        let mag: u64 = if n == i64::MIN {
            0x8000_0000_0000_0000u64
        } else {
            (-n) as u64
        };
        push_decimal(s, mag);
        proof {
            assert(s@ =~= start + signed_decimal(n as int));
        }
    } else {
        push_decimal(s, n as u64);
    }
}

/// The characters of `s`, in order.
pub fn chars_of(s: &str) -> (v: Vec<char>)
    ensures
        v@ == s@,
{
    let n = s.unicode_len();
    let mut v: Vec<char> = Vec::with_capacity(n);
    let mut i: usize = 0;
    while i < n
        invariant
            n == s@.len(),
            i <= n,
            v@ == s@.subrange(0, i as int),
        decreases n - i,
    {
        v.push(s.get_char(i));
        i += 1;
    }
    proof {
        assert(s@.subrange(0, n as int) == s@);
    }
    v
}

/// Appends the characters `v[from..to]`.
pub fn push_chars(s: &mut String, v: &Vec<char>, from: usize, to: usize)
    requires
        from <= to <= v@.len(),
    ensures
        final(s)@ == old(s)@ + v@.subrange(from as int, to as int),
{
    let ghost start = s@;
    let mut i = from;
    while i < to
        invariant
            from <= i <= to <= v@.len(),
            s@ == start + v@.subrange(from as int, i as int),
        decreases to - i,
    {
        s.push(v[i]);
        i += 1;
        proof {
            assert(s@ =~= start + v@.subrange(from as int, i as int));
        }
    }
}

/// A string holding `v[from..to]`.
pub fn string_of(v: &Vec<char>, from: usize, to: usize) -> (s: String)
    requires
        from <= to <= v@.len(),
    ensures
        s@ == v@.subrange(from as int, to as int),
{
    let mut s = String::new();
    push_chars(&mut s, v, from, to);
    proof {
        assert(Seq::<char>::empty() + v@.subrange(from as int, to as int) == v@.subrange(
            from as int,
            to as int,
        ));
    }
    s
}

/// Whether `s` begins with `prefix`.
pub open spec fn starts_with(s: Seq<char>, prefix: Seq<char>) -> bool {
    prefix.len() <= s.len() && s.subrange(0, prefix.len() as int) == prefix
}

/// Whether `v` holds `lit` at position `at`.
pub fn chars_match_at(v: &Vec<char>, at: usize, lit: &str) -> (b: bool)
    requires
        at <= v@.len(),
    ensures
        b == (at + lit@.len() <= v@.len() && v@.subrange(at as int, at + lit@.len()) == lit@),
{
    let n = lit.unicode_len();
    let vl = v.len();
    if n > vl - at {
        return false;
    }
    let mut i: usize = 0;
    while i < n
        invariant
            n == lit@.len(),
            vl == v@.len(),
            at + n <= vl,
            i <= n,
            forall|j: int| 0 <= j < i ==> v@[at + j] == lit@[j],
        decreases n - i,
    {
        if v[at + i] != lit.get_char(i) {
            proof {
                assert(v@.subrange(at as int, at + n)[i as int] != lit@[i as int]);
            }
            return false;
        }
        i += 1;
    }
    proof {
        assert(v@.subrange(at as int, at + n) =~= lit@);
    }
    true
}

} // verus!
