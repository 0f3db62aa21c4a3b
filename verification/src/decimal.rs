//! Whole numbers written in decimal.

use vstd::prelude::*;

use crate::text::chars_of;

verus! {

pub open spec fn is_digit(c: char) -> bool {
    '0' <= c <= '9'
}

pub open spec fn all_digits(s: Seq<char>) -> bool {
    forall|i: int| 0 <= i < s.len() ==> is_digit(#[trigger] s[i])
}

/// The number that a run of digits denotes.
pub open spec fn digits_value(s: Seq<char>) -> nat
    decreases s.len(),
{
    if s.len() == 0 {
        0
    } else {
        digits_value(s.drop_last()) * 10 + (s.last() as int - '0' as int) as nat
    }
}

/// The number that `s` denotes as one or more digits behind an optional `+`.
pub open spec fn unsigned_decimal(s: Seq<char>) -> Option<int> {
    let digits = if s.len() > 0 && s[0] == '+' {
        s.drop_first()
    } else {
        s
    };
    if digits.len() > 0 && all_digits(digits) {
        Some(digits_value(digits) as int)
    } else {
        None
    }
}

/// The number that `s` denotes as one or more digits behind an optional `+` or
/// `-`.
pub open spec fn signed_decimal(s: Seq<char>) -> Option<int> {
    if s.len() > 0 && s[0] == '-' {
        let digits = s.drop_first();
        if digits.len() > 0 && all_digits(digits) {
            Some(-digits_value(digits))
        } else {
            None
        }
    } else {
        unsigned_decimal(s)
    }
}

/// The character for the digit `d`.
pub open spec fn digit_char(d: int) -> char {
    (48 + d) as char
}

/// `n` in decimal, without leading zeros.
pub open spec fn decimal_nat(n: nat) -> Seq<char>
    decreases n,
{
    if n < 10 {
        seq![digit_char(n as int)]
    } else {
        decimal_nat(n / 10).push(digit_char((n % 10) as int))
    }
}

/// `n` in decimal, behind a `-` where it is negative.
pub open spec fn decimal(n: int) -> Seq<char> {
    if n < 0 {
        seq!['-'] + decimal_nat((-n) as nat)
    } else {
        decimal_nat(n as nat)
    }
}

proof fn lemma_decimal_nat(n: nat)
    ensures
        decimal_nat(n).len() > 0,
        all_digits(decimal_nat(n)),
        digits_value(decimal_nat(n)) == n,
    decreases n,
{
    reveal_with_fuel(digits_value, 2);
    let s = decimal_nat(n);
    if n < 10 {
        assert(s.drop_last() =~= Seq::<char>::empty());
    } else {
        lemma_decimal_nat(n / 10);
        assert(s.drop_last() =~= decimal_nat(n / 10));
    }
}

/// Reading a number that was written in decimal gives the number back.
pub proof fn lemma_decimal_reads_back(n: int)
    ensures
        signed_decimal(decimal(n)) == Some(n),
        n >= 0 ==> unsigned_decimal(decimal(n)) == Some(n),
{
    if n < 0 {
        lemma_decimal_nat((-n) as nat);
        assert(decimal(n).drop_first() =~= decimal_nat((-n) as nat));
    } else {
        lemma_decimal_nat(n as nat);
        assert(is_digit(decimal(n)[0]));
    }
}

proof fn lemma_prefix_value(s: Seq<char>, i: int)
    requires
        0 <= i <= s.len(),
    ensures
        digits_value(s.take(i)) <= digits_value(s),
    decreases s.len(),
{
    if i == s.len() {
        assert(s.take(i) =~= s);
    } else {
        lemma_prefix_value(s.drop_last(), i);
        assert(s.drop_last().take(i) =~= s.take(i));
    }
}

/// The number that the characters from `from` on denote as digits, where it is
/// at most `limit`.
fn parse_digits(v: &Vec<char>, from: usize, limit: u64) -> (r: Option<u64>)
    requires
        from <= v.len(),
        limit <= 0xffff_ffff_ffff,
    ensures
        ({
            let digits = v@.skip(from as int);
            match r {
                Some(n) => digits.len() > 0 && all_digits(digits) && digits_value(digits) == n && n
                    <= limit,
                None => digits.len() == 0 || !all_digits(digits) || digits_value(digits) > limit,
            }
        }),
{
    if from == v.len() {
        return None;
    }
    let ghost digits = v@.skip(from as int);
    let mut i: usize = from;
    let mut n: u64 = 0;
    assert(digits.take(0) =~= Seq::<char>::empty());
    while i < v.len()
        invariant
            from <= i <= v.len(),
            limit <= 0xffff_ffff_ffff,
            digits == v@.skip(from as int),
            n <= limit,
            n == digits_value(digits.take(i - from)),
            forall|k: int| 0 <= k < i - from ==> is_digit(#[trigger] digits[k]),
        decreases v.len() - i,
    {
        let c = v[i];
        assert(c == digits[i - from]);
        if c < '0' || '9' < c {
            return None;
        }
        assert(digits.take(i + 1 - from).drop_last() =~= digits.take(i - from));
        n = n * 10 + (c as u32 - 48) as u64;
        i = i + 1;
        if n > limit {
            proof {
                lemma_prefix_value(digits, i - from);
            }
            return None;
        }
    }
    assert(digits.take(i - from) =~= digits);
    Some(n)
}

/// Reads a number in the range of `u16`, as one or more digits behind an
/// optional `+`.
pub fn parse_u16(s: &str) -> (r: Option<u16>)
    ensures
        r == (match unsigned_decimal(s@) {
            Some(n) => if n <= u16::MAX {
                Some(n as u16)
            } else {
                None
            },
            None => None,
        }),
{
    let v = chars_of(s);
    let from: usize = if v.len() > 0 && v[0] == '+' {
        1
    } else {
        0
    };
    assert(v@.skip(0) =~= v@);
    assert(v.len() > 0 ==> v@.skip(1) =~= v@.drop_first());
    match parse_digits(&v, from, 0xffff) {
        Some(n) => Some(n as u16),
        None => None,
    }
}

/// Reads a number in the range of `i32`, as one or more digits behind an
/// optional `+` or `-`.
pub fn parse_i32(s: &str) -> (r: Option<i32>)
    ensures
        r == (match signed_decimal(s@) {
            Some(n) => if i32::MIN <= n <= i32::MAX {
                Some(n as i32)
            } else {
                None
            },
            None => None,
        }),
{
    let v = chars_of(s);
    assert(v@.skip(0) =~= v@);
    assert(v.len() > 0 ==> v@.skip(1) =~= v@.drop_first());
    if v.len() > 0 && v[0] == '-' {
        match parse_digits(&v, 1, 0x8000_0000) {
            Some(n) => Some((0 - n as i64) as i32),
            None => None,
        }
    } else {
        let from: usize = if v.len() > 0 && v[0] == '+' {
            1
        } else {
            0
        };
        match parse_digits(&v, from, 0x7fff_ffff) {
            Some(n) => Some(n as i32),
            None => None,
        }
    }
}

/// The digit `d` as a text.
fn digit_text(d: u64) -> (r: &'static str)
    requires
        d < 10,
    ensures
        r@ == seq![digit_char(d as int)],
{
    proof {
        reveal_strlit("0");
        reveal_strlit("1");
        reveal_strlit("2");
        reveal_strlit("3");
        reveal_strlit("4");
        reveal_strlit("5");
        reveal_strlit("6");
        reveal_strlit("7");
        reveal_strlit("8");
        reveal_strlit("9");
    }
    let r = match d {
        0 => "0",
        1 => "1",
        2 => "2",
        3 => "3",
        4 => "4",
        5 => "5",
        6 => "6",
        7 => "7",
        8 => "8",
        _ => "9",
    };
    assert(r@ =~= seq![digit_char(d as int)]);
    r
}

/// Writes `n` in decimal at the end of `out`.
pub fn append_u64(out: &mut String, n: u64)
    ensures
        final(out)@ == old(out)@ + decimal(n as int),
    decreases n,
{
    if n >= 10 {
        append_u64(out, n / 10);
    }
    out.append(digit_text(n % 10));
    assert(out@ =~= old(out)@ + decimal(n as int));
}

/// Writes `n` in decimal at the end of `out`.
pub fn append_i32(out: &mut String, n: i32)
    ensures
        final(out)@ == old(out)@ + decimal(n as int),
{
    if n < 0 {
        proof {
            reveal_strlit("-");
        }
        out.append("-");
        append_u64(out, (0 - n as i64) as u64);
        assert(out@ =~= old(out)@ + decimal(n as int));
    } else {
        append_u64(out, n as u64);
    }
}

/// A digit more makes the number ten times as large and adds the digit, and a
/// zero ahead changes nothing.
pub proof fn lemma_digits_value(s: Seq<char>, c: char)
    requires
        is_digit(c),
    ensures
        '0' <= c <= '9',
        digits_value(s.push(c)) == 10 * digits_value(s) + (c as int - 48),
        digits_value(seq!['0'] + s) == digits_value(s),
        digits_value(Seq::empty()) == 0,
    decreases s.len(),
{
    assert(s.push(c).drop_last() =~= s);
    reveal_with_fuel(digits_value, 2);
    if s.len() == 0 {
        assert(seq!['0'] + s =~= seq!['0']);
        assert(seq!['0'].drop_last() =~= Seq::<char>::empty());
    } else {
        lemma_digits_value(s.drop_last(), c);
        assert((seq!['0'] + s).drop_last() =~= seq!['0'] + s.drop_last());
    }
}

/// What is read as a number is one or more digits, ahead of them a sign or
/// nothing, and nothing else. A plus sign changes nothing, and a minus sign, for
/// numbers that may have one, turns the sign.
pub proof fn lemma_what_is_a_number(s: Seq<char>)
    ensures
        ({
            let digits = s.len() > 0 && forall|i: int|
                0 <= i < s.len() ==> '0' <= #[trigger] s[i] <= '9';
            &&& digits ==> unsigned_decimal(s) == Some(digits_value(s) as int) && signed_decimal(s)
                == Some(digits_value(s) as int)
            &&& digits ==> unsigned_decimal(seq!['+'] + s) == Some(digits_value(s) as int)
                && signed_decimal(seq!['+'] + s) == Some(digits_value(s) as int)
            &&& digits ==> unsigned_decimal(seq!['-'] + s) is None && signed_decimal(
                seq!['-'] + s,
            ) == Some(-(digits_value(s) as int))
            &&& !digits ==> unsigned_decimal(seq!['+'] + s) is None && signed_decimal(
                seq!['+'] + s,
            ) is None && signed_decimal(seq!['-'] + s) is None
            &&& !digits && (s.len() == 0 || s[0] != '+') ==> unsigned_decimal(s) is None
            &&& !digits && (s.len() == 0 || s[0] != '+' && s[0] != '-') ==> signed_decimal(s)
                is None
        }),
{
    let plus = seq!['+'] + s;
    let minus = seq!['-'] + s;
    assert(plus.drop_first() =~= s && plus[0] == '+');
    assert(minus.drop_first() =~= s && minus[0] == '-');
    let digits = s.len() > 0 && forall|i: int| 0 <= i < s.len() ==> '0' <= #[trigger] s[i] <= '9';
    if digits {
        assert(all_digits(s));
        assert('0' <= s[0] <= '9');
    }
    if s.len() > 0 && all_digits(s) {
        assert forall|i: int| 0 <= i < s.len() implies '0' <= #[trigger] s[i] <= '9' by {
            assert(is_digit(s[i]));
        }
        assert(digits);
    }
    assert(!is_digit('-'));
    assert(minus.len() > 0 && !all_digits(minus)) by {
        assert(!is_digit(minus[0]));
    }
}

/// A number is written in digits, without a zero ahead of others, and behind a
/// minus sign exactly where it is negative.
pub proof fn lemma_decimal_shape(n: int)
    ensures
        decimal(n).len() > 0,
        n < 0 <==> decimal(n)[0] == '-',
        n >= 0 ==> forall|i: int| 0 <= i < decimal(n).len() ==> '0' <= #[trigger] decimal(n)[i]
            <= '9',
        n > 0 ==> decimal(n)[0] != '0',
        n < 0 ==> decimal(n) == seq!['-'] + decimal(-n),
        n == 0 ==> decimal(n) == seq!['0'],
{
    if n >= 0 {
        lemma_decimal_nat(n as nat);
        assert forall|i: int| 0 <= i < decimal(n).len() implies '0' <= #[trigger] decimal(n)[i]
            <= '9' by {
            assert(is_digit(decimal_nat(n as nat)[i]));
        }
        assert('0' <= decimal(n)[0]);
        lemma_no_zero_ahead(n as nat);
    }
}

proof fn lemma_no_zero_ahead(n: nat)
    ensures
        n > 0 ==> decimal_nat(n)[0] != '0',
    decreases n,
{
    lemma_decimal_nat(n);
    if n >= 10 {
        lemma_no_zero_ahead(n / 10);
        lemma_decimal_nat(n / 10);
        assert(decimal_nat(n)[0] == decimal_nat(n / 10)[0]);
    }
}

} // verus!
