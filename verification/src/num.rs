//! Numbers written as text.
use crate::text::{ascii_digit, chars_of, is_digit};
use vstd::prelude::*;

verus! {

/// The decimal digit for `d`.
pub open spec fn digit(d: nat) -> char
    recommends
        d < 10,
{
    (48 + d) as u8 as char
}

/// `n` in decimal, without leading zeros.
pub open spec fn decimal(n: nat) -> Seq<char>
    decreases n,
{
    if n < 10 {
        seq![digit(n)]
    } else {
        decimal(n / 10).push(digit(n % 10))
    }
}

/// Appends `n` in decimal.
pub fn push_decimal(out: &mut String, n: u64)
    ensures
        final(out)@ == old(out)@ + decimal(n as nat),
    decreases n,
{
    let ghost start = out@;
    if n >= 10 {
        push_decimal(out, n / 10);
    }
    let d: u8 = (n % 10) as u8;
    out.push((48 + d) as char);
    assert(out@ =~= start + decimal(n as nat));
}

/// `n` in decimal.
pub fn decimal_text(n: u64) -> (r: String)
    ensures
        r@ == decimal(n as nat),
{
    let mut out = String::new();
    push_decimal(&mut out, n);
    assert(out@ =~= decimal(n as nat));
    out
}

/// `n` in decimal, with a zero before a single digit.
pub open spec fn decimal2(n: nat) -> Seq<char> {
    if n < 10 {
        seq!['0'] + decimal(n)
    } else {
        decimal(n)
    }
}

/// Appends `n` in decimal, with a zero before a single digit.
pub fn push_decimal2(out: &mut String, n: u64)
    ensures
        final(out)@ == old(out)@ + decimal2(n as nat),
{
    let ghost start = out@;
    if n < 10 {
        out.push('0');
    }
    push_decimal(out, n);
    assert(out@ =~= start + decimal2(n as nat));
}

/// The value of a decimal digit.
pub open spec fn digit_value(c: char) -> nat {
    if ascii_digit(c) {
        (c as u32 - 48) as nat
    } else {
        0
    }
}

/// The value of a sequence of decimal digits.
pub open spec fn digits_value(s: Seq<char>) -> nat
    decreases s.len(),
{
    if s.len() == 0 {
        0
    } else {
        digits_value(s.drop_last()) * 10 + digit_value(s.last())
    }
}

/// Whether `s` is one or more decimal digits.
pub open spec fn all_digits(s: Seq<char>) -> bool {
    s.len() > 0 && forall|i: int| 0 <= i < s.len() ==> ascii_digit(#[trigger] s[i])
}

/// Whether `s` is one or more decimal digits.
pub fn is_all_digits(s: &str) -> (r: bool)
    ensures
        r == all_digits(s@),
{
    let v = chars_of(s);
    for i in 0..v.len()
        invariant
            v@ == s@,
            forall|j: int| 0 <= j < i ==> ascii_digit(#[trigger] v@[j]),
    {
        if !is_digit(v[i]) {
            return false;
        }
    }
    v.len() > 0
}

/// What stands behind one leading plus sign, if there is one.
pub open spec fn unsigned_part(s: Seq<char>) -> Seq<char> {
    if s.len() > 0 && s[0] == '+' {
        s.skip(1)
    } else {
        s
    }
}

/// The number at most `max` that `s` spells: decimal digits after an optional plus sign.
pub open spec fn number_of(s: Seq<char>, max: nat) -> Option<nat> {
    let t = unsigned_part(s);
    if all_digits(t) && digits_value(t) <= max {
        Some(digits_value(t))
    } else {
        None
    }
}

/// More digits never make the value smaller.
proof fn digits_value_monotonic(s: Seq<char>, n: int)
    requires
        0 <= n <= s.len(),
    ensures
        digits_value(s.take(n)) <= digits_value(s),
    decreases s.len(),
{
    if n == s.len() {
        assert(s.take(n) =~= s);
    } else {
        digits_value_monotonic(s.drop_last(), n);
        assert(s.drop_last().take(n) =~= s.take(n));
    }
}

/// Reads a number of at most `max`.
pub fn parse_number(s: &str, max: u64) -> (r: Option<u64>)
    ensures
        match r {
            Some(n) => number_of(s@, max as nat) == Some(n as nat),
            None => number_of(s@, max as nat) is None,
        },
{
    let v = chars_of(s);
    let start: usize = if v.len() > 0 && v[0] == '+' {
        1
    } else {
        0
    };
    let ghost t = unsigned_part(s@);
    assert(t =~= v@.skip(start as int));
    if start == v.len() {
        return None;
    }
    let mut n: u64 = 0;
    let mut i: usize = start;
    while i < v.len()
        invariant
            start <= i <= v.len(),
            start < v.len(),
            v@ == s@,
            t == unsigned_part(s@),
            t == v@.skip(start as int),
            n == digits_value(t.take(i - start)),
            n <= max,
            forall|k: int| 0 <= k < i - start ==> ascii_digit(#[trigger] t[k]),
        decreases v.len() - i,
    {
        let c = v[i];
        assert(t[i - start] == c);
        if !is_digit(c) {
            return None;
        }
        let d: u64 = (c as u32 - 48) as u64;
        proof {
            assert(t.take(i + 1 - start).drop_last() =~= t.take(i - start));
            digits_value_monotonic(t, i + 1 - start);
        }
        if n > max / 10 {
            assert(n * 10 > max);
            return None;
        }
        if d > max - n * 10 {
            return None;
        }
        n = n * 10 + d;
        i += 1;
    }
    assert(t.take(t.len() as int) =~= t);
    Some(n)
}

/// Every character of a written number is a digit.
pub proof fn decimal_digits(n: nat)
    ensures
        all_digits(decimal(n)),
    decreases n,
{
    if n >= 10 {
        decimal_digits(n / 10);
    }
}

/// Reading back a written number gives the number.
pub proof fn decimal_read_back(n: nat, max: nat)
    requires
        n <= max,
    ensures
        number_of(decimal(n), max) == Some(n),
{
    decimal_digits(n);
    decimal_value(n);
    assert(decimal(n)[0] != '+');
}

proof fn decimal_value(n: nat)
    ensures
        digits_value(decimal(n)) == n,
    decreases n,
{
    reveal_with_fuel(digits_value, 2);
    if n >= 10 {
        decimal_value(n / 10);
        assert(decimal(n).drop_last() =~= decimal(n / 10));
    } else {
        assert(decimal(n).drop_last() =~= Seq::<char>::empty());
    }
}

/// Reading back a number that was written with two digits gives the number.
pub proof fn decimal2_read_back(n: nat, max: nat)
    requires
        n <= max,
    ensures
        all_digits(decimal2(n)),
        number_of(decimal2(n), max) == Some(n),
{
    decimal_digits(n);
    decimal_value(n);
    let s = decimal2(n);
    if n < 10 {
        reveal_with_fuel(digits_value, 3);
        assert(s =~= seq!['0', digit(n)]);
        assert(s.drop_last() =~= seq!['0']);
        assert(s.drop_last().drop_last() =~= Seq::<char>::empty());
    }
    assert(s[0] != '+');
}

/// Different numbers are written differently.
pub proof fn decimal_injective(m: nat, n: nat)
    requires
        decimal(m) == decimal(n),
    ensures
        m == n,
{
    decimal_value(m);
    decimal_value(n);
}

/// `n` in decimal, with a minus sign where it is negative.
pub open spec fn signed_decimal(n: int) -> Seq<char> {
    if n < 0 {
        seq!['-'] + decimal((-n) as nat)
    } else {
        decimal(n as nat)
    }
}

/// Appends `n` in decimal, with a minus sign where it is negative.
pub fn push_signed(out: &mut String, n: i32)
    ensures
        final(out)@ == old(out)@ + signed_decimal(n as int),
{
    let ghost start = out@;
    if n < 0 {
        out.push('-');
        push_decimal(out, (-(n as i64)) as u64);
    } else {
        push_decimal(out, n as u64);
    }
    assert(out@ =~= start + signed_decimal(n as int));
}

/// A process's exit code as debugging output shows it.
pub open spec fn exit_code_text(code: Option<i32>) -> Seq<char> {
    match code {
        Some(n) => "Some("@ + signed_decimal(n as int) + ")"@,
        None => "None"@,
    }
}

/// Writes a process's exit code as debugging output shows it.
pub fn exit_code(code: Option<i32>) -> (r: String)
    ensures
        r@ == exit_code_text(code),
{
    match code {
        Some(n) => {
            let mut out = "Some(".to_owned();
            push_signed(&mut out, n);
            out.append(")");
            out
        },
        None => "None".to_owned(),
    }
}

/// A negative number is a minus sign and the number without it; no two numbers are
/// written the same.
pub proof fn signed_decimal_injective(m: int, n: int)
    ensures
        n > 0 ==> signed_decimal(-n) == seq!['-'] + signed_decimal(n),
        n >= 0 ==> number_of(signed_decimal(n), n as nat) == Some(n as nat),
        signed_decimal(m) == signed_decimal(n) ==> m == n,
{
    if n >= 0 {
        decimal_read_back(n as nat, n as nat);
    }
    if signed_decimal(m) == signed_decimal(n) {
        let a = decimal((if m < 0 { -m } else { m }) as nat);
        let b = decimal((if n < 0 { -n } else { n }) as nat);
        decimal_digits((if m < 0 { -m } else { m }) as nat);
        decimal_digits((if n < 0 { -n } else { n }) as nat);
        assert(ascii_digit(a[0]) && ascii_digit(b[0]));
        assert(signed_decimal(m)[0] == signed_decimal(n)[0]);
        if m < 0 {
            assert(signed_decimal(m).skip(1) =~= a);
            assert(signed_decimal(n).skip(1) =~= b);
        }
        decimal_injective(
            (if m < 0 { -m } else { m }) as nat,
            (if n < 0 { -n } else { n }) as nat,
        );
    }
}

/// Digits stand for their value by place: one more digit is ten times the value before
/// and the digit, and a digit is worth what it is called.
pub proof fn digits_count_by_place(s: Seq<char>, d: nat)
    requires
        d < 10,
    ensures
        digits_value(s.push(digit(d))) == 10 * digits_value(s) + d,
        digit(0) == '0',
        digit(9) == '9',
        d < 9 ==> digit(d) as u32 + 1 == digit(d + 1) as u32,
{
    assert(s.push(digit(d)).drop_last() =~= s);
}

} // verus!
