use vstd::prelude::*;
use crate::text::chars_of;

verus! {

/// Why a text is not an unsigned number.
#[derive(Clone, Copy, Debug, PartialEq, Eq, Structural)]
pub enum NumberFault {
    Empty,
    InvalidDigit,
    TooLarge,
}

impl NumberFault {
    /// The fault in words.
    pub open spec fn words(self) -> Seq<char> {
        match self {
            NumberFault::Empty => "cannot parse integer from empty string"@,
            NumberFault::InvalidDigit => "invalid digit found in string"@,
            NumberFault::TooLarge => "number too large to fit in target type"@,
        }
    }

    /// The fault in words.
    pub fn message(self) -> (r: String)
        ensures
            r@ == self.words(),
    {
        match self {
            NumberFault::Empty => "cannot parse integer from empty string".to_owned(),
            NumberFault::InvalidDigit => "invalid digit found in string".to_owned(),
            NumberFault::TooLarge => "number too large to fit in target type".to_owned(),
        }
    }
}

/// The value of a digit, counting `a` (or `A`) as ten.
pub open spec fn digit_of(c: char) -> Option<nat> {
    if '0' <= c <= '9' {
        Some((c as u32 - 48) as nat)
    } else if 'a' <= c <= 'f' {
        Some((c as u32 - 87) as nat)
    } else if 'A' <= c <= 'F' {
        Some((c as u32 - 55) as nat)
    } else {
        None
    }
}

/// The number that the digits `s` write in base `radix`, no larger than `max`. The first
/// character that is no digit, or that takes the value above `max`, decides the fault.
pub open spec fn digits_value(s: Seq<char>, radix: nat, max: nat) -> Result<nat, NumberFault>
    decreases s.len(),
{
    if s.len() == 0 {
        Ok(0)
    } else {
        match digits_value(s.drop_last(), radix, max) {
            Err(e) => Err(e),
            Ok(v) => match digit_of(s.last()) {
                Some(d) => if d >= radix {
                    Err(NumberFault::InvalidDigit)
                } else if v * radix + d > max {
                    Err(NumberFault::TooLarge)
                } else {
                    Ok(v * radix + d)
                },
                None => Err(NumberFault::InvalidDigit),
            },
        }
    }
}

/// The unsigned number that `s` writes in base `radix`: digits, with at most one plus
/// sign before them.
pub open spec fn number_of(s: Seq<char>, radix: nat, max: nat) -> Result<nat, NumberFault> {
    if s.len() == 0 {
        Err(NumberFault::Empty)
    } else if s[0] == '+' && s.len() > 1 {
        digits_value(s.drop_first(), radix, max)
    } else {
        digits_value(s, radix, max)
    }
}

fn digit(c: char) -> (r: Option<u64>)
    ensures
        r is Some == digit_of(c) is Some,
        r matches Some(d) ==> digit_of(c) == Some(d as nat) && d < 16,
{
    if '0' <= c && c <= '9' {
        Some((c as u32 - 48) as u64)
    } else if 'a' <= c && c <= 'f' {
        Some((c as u32 - 87) as u64)
    } else if 'A' <= c && c <= 'F' {
        Some((c as u32 - 55) as u64)
    } else {
        None
    }
}

/// A parsed number by its value.
pub open spec fn number_result(r: Result<u64, NumberFault>) -> Result<nat, NumberFault> {
    match r {
        Ok(v) => Ok(v as nat),
        Err(e) => Err(e),
    }
}

proof fn digits_fault_stays(s: Seq<char>, i: int, radix: nat, max: nat)
    requires
        0 <= i <= s.len(),
        digits_value(s.take(i), radix, max) is Err,
    ensures
        digits_value(s, radix, max) == digits_value(s.take(i), radix, max),
    decreases s.len() - i,
{
    if i == s.len() {
        assert(s.take(i) =~= s);
    } else {
        assert(s.take(i + 1).drop_last() =~= s.take(i));
        digits_fault_stays(s, i + 1, radix, max);
    }
}

proof fn digits_fit(s: Seq<char>, radix: nat, max: nat)
    ensures
        digits_value(s, radix, max) matches Ok(v) ==> v <= max,
    decreases s.len(),
{
    if s.len() > 0 {
        digits_fit(s.drop_last(), radix, max);
    }
}

/// A number that was read is no larger than it may be.
pub proof fn number_fits(s: Seq<char>, radix: nat, max: nat)
    ensures
        number_of(s, radix, max) matches Ok(v) ==> v <= max,
{
    digits_fit(s, radix, max);
    if s.len() > 0 {
        digits_fit(s.drop_first(), radix, max);
    }
}

fn parse_digits(cs: &Vec<char>, from: usize, radix: u64, max: u64) -> (r: Result<u64, NumberFault>)
    requires
        from <= cs@.len(),
        2 <= radix <= 16,
    ensures
        number_result(r) == digits_value(cs@.skip(from as int), radix as nat, max as nat),
{
    let ghost s = cs@.skip(from as int);
    let mut v: u64 = 0;
    let mut i: usize = from;
    assert(s.take(0) =~= Seq::empty());
    while i < cs.len()
        invariant
            from <= i <= cs@.len(),
            2 <= radix <= 16,
            s == cs@.skip(from as int),
            v <= max,
            digits_value(s.take(i - from), radix as nat, max as nat) == Ok::<nat, NumberFault>(
                v as nat,
            ),
        decreases cs@.len() - i,
    {
        proof {
            assert(s.take(i - from + 1).drop_last() =~= s.take(i - from));
            assert(s.take(i - from + 1).last() == cs@[i as int]);
        }
        match digit(cs[i]) {
            Some(d) => {
                if d >= radix {
                    proof {
                        digits_fault_stays(s, i - from + 1, radix as nat, max as nat);
                    }
                    return Err(NumberFault::InvalidDigit);
                }
                assert(v * radix <= 16 * v) by (nonlinear_arith)
                    requires
                        0 <= v,
                        radix <= 16,
                ;
                let wide: u128 = (v as u128) * (radix as u128) + (d as u128);
                assert(v as nat * radix as nat + d as nat == wide) by (nonlinear_arith)
                    requires
                        wide == (v as u128) * (radix as u128) + (d as u128),
                ;
                if wide > max as u128 {
                    proof {
                        digits_fault_stays(s, i - from + 1, radix as nat, max as nat);
                    }
                    return Err(NumberFault::TooLarge);
                }
                v = wide as u64;
            },
            None => {
                proof {
                    digits_fault_stays(s, i - from + 1, radix as nat, max as nat);
                }
                return Err(NumberFault::InvalidDigit);
            },
        }
        i = i + 1;
    }
    assert(s.take(s.len() as int) =~= s);
    Ok(v)
}

/// Reads the unsigned number that `s` writes in base `radix`, no larger than `max`.
pub fn parse_number(s: &str, radix: u64, max: u64) -> (r: Result<u64, NumberFault>)
    requires
        2 <= radix <= 16,
    ensures
        number_result(r) == number_of(s@, radix as nat, max as nat),
{
    let cs = chars_of(s);
    if cs.len() == 0 {
        Err(NumberFault::Empty)
    } else if cs[0] == '+' && cs.len() > 1 {
        assert(cs@.skip(1) =~= s@.drop_first());
        parse_digits(&cs, 1, radix, max)
    } else {
        assert(cs@.skip(0) =~= s@);
        parse_digits(&cs, 0, radix, max)
    }
}

/// The digit of value `d`, in lower case.
pub open spec fn digit_char(d: nat) -> char {
    if d < 10 {
        (48 + d) as char
    } else {
        (87 + d) as char
    }
}

/// The digits of `n` in base `radix`, without leading zeros.
pub open spec fn digits_text(n: nat, radix: nat) -> Seq<char>
    decreases n,
{
    if radix < 2 || n < radix {
        seq![digit_char(n)]
    } else {
        proof {
            assert(n / radix < n) by (nonlinear_arith)
                requires
                    n >= radix,
                    radix >= 2,
            ;
        }
        digits_text(n / radix, radix).push(digit_char(n % radix))
    }
}

/// `n` in decimal digits.
pub open spec fn dec(n: nat) -> Seq<char> {
    digits_text(n, 10)
}

fn digit_at(d: u8) -> (r: char)
    requires
        d < 16,
    ensures
        r == digit_char(d as nat),
{
    if d < 10 {
        (48 + d) as char
    } else {
        (87 + d) as char
    }
}

/// The digits of `n` in base `radix`, without leading zeros.
pub fn render(n: u128, radix: u128) -> (r: String)
    requires
        radix == 10 || radix == 16,
    ensures
        r@ == digits_text(n as nat, radix as nat),
    decreases n,
{
    if n < radix {
        let mut out = String::new();
        out.push(digit_at(n as u8));
        assert(out@ =~= digits_text(n as nat, radix as nat));
        out
    } else {
        let mut out = render(n / radix, radix);
        out.push(digit_at((n % radix) as u8));
        out
    }
}

/// `n` in decimal digits.
pub fn decimal(n: u64) -> (r: String)
    ensures
        r@ == dec(n as nat),
{
    render(n as u128, 10)
}

/// The sum of two lengths in decimal digits.
pub fn decimal_sum(a: usize, b: usize) -> (r: String)
    ensures
        r@ == dec((a + b) as nat),
{
    render(a as u128 + b as u128, 10)
}

/// `n` in hexadecimal digits behind the prefix `0x`.
pub open spec fn hex_text(n: nat) -> Seq<char> {
    "0x"@ + digits_text(n, 16)
}

/// `n` in hexadecimal digits behind the prefix `0x`.
pub fn hex(n: u64) -> (r: String)
    ensures
        r@ == hex_text(n as nat),
{
    let mut out = "0x".to_owned();
    out.append(render(n as u128, 16).as_str());
    out
}

/// `s` with the character `c` before it, as often as its length falls short of `width`.
pub open spec fn padded_left(s: Seq<char>, width: nat, c: char) -> Seq<char> {
    if s.len() >= width {
        s
    } else {
        Seq::new((width - s.len()) as nat, |i: int| c) + s
    }
}

/// `s` with the character `c` behind it, as often as its length falls short of `width`.
pub open spec fn padded_right(s: Seq<char>, width: nat, c: char) -> Seq<char> {
    if s.len() >= width {
        s
    } else {
        s + Seq::new((width - s.len()) as nat, |i: int| c)
    }
}

fn repeat(c: char, n: usize) -> (r: String)
    ensures
        r@ == Seq::new(n as nat, |i: int| c),
{
    let mut out = String::new();
    let mut i: usize = 0;
    while i < n
        invariant
            i <= n,
            out@ =~= Seq::new(i as nat, |i: int| c),
        decreases n - i,
    {
        out.push(c);
        i = i + 1;
    }
    out
}

/// `s` with the character `c` before it, as often as its length falls short of `width`.
pub fn pad_left(s: &str, width: usize, c: char) -> (r: String)
    ensures
        r@ == padded_left(s@, width as nat, c),
{
    let n: usize = chars_of(s).len();
    if n >= width {
        s.to_owned()
    } else {
        let mut out = repeat(c, width - n);
        out.append(s);
        out
    }
}

/// `s` with the character `c` behind it, as often as its length falls short of `width`.
pub fn pad_right(s: &str, width: usize, c: char) -> (r: String)
    ensures
        r@ == padded_right(s@, width as nat, c),
{
    let n: usize = chars_of(s).len();
    let mut out = s.to_owned();
    if n < width {
        out.append(repeat(c, width - n).as_str());
    }
    out
}

proof fn digit_char_reads_back(d: nat)
    requires
        d < 16,
    ensures
        digit_of(digit_char(d)) == Some(d),
{
}

proof fn digits_read_back(n: nat, radix: nat, max: nat)
    requires
        2 <= radix <= 16,
        n <= max,
    ensures
        digits_value(digits_text(n, radix), radix, max) == Ok::<nat, NumberFault>(n),
        digits_text(n, radix).len() >= 1,
        digits_text(n, radix)[0] != '+',
    decreases n,
{
    let s = digits_text(n, radix);
    if n < radix {
        digit_char_reads_back(n);
        assert(s.drop_last() =~= Seq::empty());
        assert(digits_value(s.drop_last(), radix, max) == Ok::<nat, NumberFault>(0));
        assert(0 * radix == 0);
    } else {
        assert(n / radix < n) by (nonlinear_arith)
            requires
                n >= radix,
                radix >= 2,
        ;
        digits_read_back(n / radix, radix, max);
        digit_char_reads_back(n % radix);
        assert(s.drop_last() =~= digits_text(n / radix, radix));
        assert((n / radix) * radix + n % radix == n) by (nonlinear_arith)
            requires
                radix >= 2,
        ;
    }
}

/// What is written in digits reads back as the number that was written.
pub proof fn number_read_back(n: nat, radix: nat, max: nat)
    requires
        2 <= radix <= 16,
        n <= max,
    ensures
        number_of(digits_text(n, radix), radix, max) == Ok::<nat, NumberFault>(n),
{
    digits_read_back(n, radix, max);
}

proof fn zeros_value(k: nat, radix: nat, max: nat)
    requires
        radix >= 1,
    ensures
        digits_value(Seq::new(k, |i: int| '0'), radix, max) == Ok::<nat, NumberFault>(0),
    decreases k,
{
    let s = Seq::new(k, |i: int| '0');
    if k > 0 {
        zeros_value((k - 1) as nat, radix, max);
        assert(s.drop_last() =~= Seq::new((k - 1) as nat, |i: int| '0'));
        assert(s.last() == '0');
        assert(0 * radix == 0);
    }
}

proof fn zeros_before(k: nat, s: Seq<char>, radix: nat, max: nat)
    requires
        radix >= 1,
    ensures
        digits_value(Seq::new(k, |i: int| '0') + s, radix, max) == digits_value(s, radix, max),
    decreases s.len(),
{
    let z = Seq::new(k, |i: int| '0');
    if s.len() == 0 {
        zeros_value(k, radix, max);
        assert(z + s =~= z);
    } else {
        zeros_before(k, s.drop_last(), radix, max);
        assert((z + s).drop_last() =~= z + s.drop_last());
        assert((z + s).last() == s.last());
    }
}

/// What is written in digits with zeros before them reads back as the number that was
/// written.
pub proof fn padded_read_back(n: nat, radix: nat, max: nat, width: nat)
    requires
        2 <= radix <= 16,
        n <= max,
    ensures
        number_of(padded_left(digits_text(n, radix), width, '0'), radix, max) == Ok::<
            nat,
            NumberFault,
        >(n),
{
    let s = digits_text(n, radix);
    digits_read_back(n, radix, max);
    if s.len() < width {
        zeros_before((width - s.len()) as nat, s, radix, max);
        assert(padded_left(s, width, '0')[0] == '0');
    }
}

/// The last digit of a number is a digit.
pub proof fn last_digit(n: nat, radix: nat)
    requires
        2 <= radix <= 16,
    ensures
        digits_text(n, radix).len() >= 1,
        digit_of(digits_text(n, radix).last()) is Some,
{
    if n < radix {
        digit_char_reads_back(n);
    } else {
        digit_char_reads_back(n % radix);
    }
}

/// Decimal digits tell numbers apart: two numbers have the same text only if they are one.
pub proof fn decimals_differ(a: nat, b: nat)
    ensures
        dec(a) == dec(b) ==> a == b,
{
    let max = if a < b {
        b
    } else {
        a
    };
    number_read_back(a, 10, max);
    number_read_back(b, 10, max);
}

/// How a number is written: a number below ten as its one digit, and behind the text of any
/// other number each digit makes ten times that number and the digit.
pub proof fn decimals_grow_by_digits(n: nat, d: nat)
    requires
        d < 10,
    ensures
        dec(d) == seq![(48 + d) as char],
        n > 0 ==> dec(10 * n + d) == dec(n).push((48 + d) as char),
{
    if n > 0 {
        assert((10 * n + d) / 10 == n);
        assert((10 * n + d) % 10 == d);
    }
}

/// The text of a number is made of decimal digits alone, at least one.
pub proof fn decimals_are_digits(n: nat)
    ensures
        dec(n).len() > 0,
        forall|i: int| 0 <= i < dec(n).len() ==> '0' <= #[trigger] dec(n)[i] <= '9',
    decreases n,
{
    if n >= 10 {
        decimals_are_digits(n / 10);
    }
}

} // verus!
