//! Decimal notation of task ids: how an id is written into the backing file
//! and how a field of the file is read back as an id.

use vstd::prelude::*;

verus! {

/// Whether `c` is one of the ten ASCII digits.
pub open spec fn is_digit(c: char) -> bool {
    '0' <= c && c <= '9'
}

/// The value of the digit `c`.
pub open spec fn digit_value(c: char) -> int {
    c as int - 48
}

/// The digit that stands for `d`, for `0 <= d <= 9`.
pub open spec fn digit_char(d: int) -> char {
    (d + 48) as char
}

/// Whether every character of `s` is a digit.
pub open spec fn all_digits(s: Seq<char>) -> bool {
    forall|i: int| 0 <= i < s.len() ==> is_digit(#[trigger] s[i])
}

/// The number that a run of digits denotes, most significant digit first.
pub open spec fn digits_value(s: Seq<char>) -> int
    decreases s.len(),
{
    if s.len() == 0 {
        0
    } else {
        10 * digits_value(s.drop_last()) + digit_value(s.last())
    }
}

/// The decimal notation of a natural number, without leading zeros.
pub open spec fn dec_nat(n: nat) -> Seq<char>
    decreases n,
{
    if n < 10 {
        seq![digit_char(n as int)]
    } else {
        dec_nat(n / 10).push(digit_char((n % 10) as int))
    }
}

/// The decimal notation of an integer: a minus sign for a negative number,
/// then the notation of its magnitude.
pub open spec fn dec_int(i: int) -> Seq<char> {
    if i < 0 {
        seq!['-'] + dec_nat((-i) as nat)
    } else {
        dec_nat(i as nat)
    }
}

/// Whether `s` begins with a sign.
pub open spec fn has_sign(s: Seq<char>) -> bool {
    s.len() > 0 && (s[0] == '-' || s[0] == '+')
}

/// The integer that `s` denotes: an optional sign, then at least one digit
/// and nothing else. Leading zeros are accepted.
pub open spec fn parse_int(s: Seq<char>) -> Option<int> {
    let body = if has_sign(s) { s.drop_first() } else { s };
    if body.len() == 0 || !all_digits(body) {
        None
    } else if s[0] == '-' {
        Some(-digits_value(body))
    } else {
        Some(digits_value(body))
    }
}

/// The id that a field denotes: the integer it spells, where that fits in 32
/// bits with a sign.
pub open spec fn parse_id(s: Seq<char>) -> Option<int> {
    match parse_int(s) {
        Some(v) => if i32::MIN <= v <= i32::MAX { Some(v) } else { None },
        None => None,
    }
}

/// The notation of a natural number is made of digits and denotes that number.
pub proof fn lemma_dec_nat_value(n: nat)
    ensures
        dec_nat(n).len() >= 1,
        all_digits(dec_nat(n)),
        digits_value(dec_nat(n)) == n,
    decreases n,
{
    if n < 10 {
        assert(dec_nat(n).drop_last() =~= Seq::<char>::empty());
        assert(digits_value(dec_nat(n).drop_last()) == 0);
    } else {
        lemma_dec_nat_value(n / 10);
        let d = digit_char((n % 10) as int);
        assert(dec_nat(n).drop_last() =~= dec_nat(n / 10));
        assert(dec_nat(n).last() == d);
    }
}

/// The notation of a number below `10^k` has at most `k` characters; stated
/// here for the widths that a 32-bit id can take.
pub proof fn lemma_dec_nat_len(n: nat)
    ensures
        n < 10 ==> dec_nat(n).len() == 1,
        n < 100 ==> dec_nat(n).len() <= 2,
        n < 1_000 ==> dec_nat(n).len() <= 3,
        n < 10_000 ==> dec_nat(n).len() <= 4,
        n < 100_000 ==> dec_nat(n).len() <= 5,
        n < 1_000_000 ==> dec_nat(n).len() <= 6,
        n < 10_000_000 ==> dec_nat(n).len() <= 7,
        n < 100_000_000 ==> dec_nat(n).len() <= 8,
        n < 1_000_000_000 ==> dec_nat(n).len() <= 9,
        n < 10_000_000_000 ==> dec_nat(n).len() <= 10,
    decreases n,
{
    if n >= 10 {
        lemma_dec_nat_len(n / 10);
    }
}

/// Every character of an integer's notation is a digit or the minus sign.
pub proof fn lemma_dec_int_chars(i: int)
    ensures
        dec_int(i).len() >= 1,
        forall|k: int|
            0 <= k < dec_int(i).len() ==> is_digit(#[trigger] dec_int(i)[k]) || dec_int(i)[k]
                == '-',
{
    if i < 0 {
        lemma_dec_nat_value((-i) as nat);
    } else {
        lemma_dec_nat_value(i as nat);
    }
}

/// The notation of a 32-bit id has at most eleven characters.
pub proof fn lemma_dec_int_len(i: int)
    requires
        i32::MIN <= i <= i32::MAX,
    ensures
        1 <= dec_int(i).len() <= 11,
{
    if i < 0 {
        lemma_dec_nat_len((-i) as nat);
    } else {
        lemma_dec_nat_len(i as nat);
    }
}

/// A text that denotes an integer is made of digits and signs alone.
pub proof fn lemma_parsed_chars(s: Seq<char>)
    requires
        parse_int(s) is Some,
    ensures
        forall|k: int|
            0 <= k < s.len() ==> is_digit(#[trigger] s[k]) || s[k] == '-' || s[k] == '+',
{
    let body = if has_sign(s) { s.drop_first() } else { s };
    assert forall|k: int| 0 <= k < s.len() implies is_digit(#[trigger] s[k]) || s[k] == '-'
        || s[k] == '+' by {
        if has_sign(s) {
            if k > 0 {
                assert(body[k - 1] == s[k]);
            }
        } else {
            assert(body[k] == s[k]);
        }
    }
}

/// Reading back what was written gives the number that was written.
pub proof fn lemma_parse_dec_int(i: int)
    ensures
        parse_int(dec_int(i)) == Some(i),
{
    if i < 0 {
        let m = (-i) as nat;
        lemma_dec_nat_value(m);
        assert(dec_int(i).drop_first() =~= dec_nat(m));
    } else {
        lemma_dec_nat_value(i as nat);
        assert(is_digit(dec_int(i)[0]));
    }
}

/// Appends the notation of `n` to `out`.
fn push_dec_nat(out: &mut Vec<char>, n: u32)
    ensures
        final(out)@ == old(out)@ + dec_nat(n as nat),
    decreases n,
{
    if n >= 10 {
        push_dec_nat(out, n / 10);
    }
    let d: u8 = (n % 10) as u8;
    let c: char = (48u8 + d) as char;
    out.push(c);
    assert(c == digit_char((n % 10) as int));
    assert(out@ =~= old(out)@ + dec_nat(n as nat));
}

/// The decimal notation of `id`.
pub fn format_id(id: i32) -> (out: Vec<char>)
    ensures
        out@ == dec_int(id as int),
{
    let mut out: Vec<char> = Vec::new();
    if id < 0 {
        out.push('-');
        let m: u32 = (0 - (id as i64)) as u32;
        push_dec_nat(&mut out, m);
    } else {
        push_dec_nat(&mut out, id as u32);
    }
    assert(out@ =~= dec_int(id as int));
    out
}

/// Reads a field as an id, as `parse_id` defines it.
pub fn read_id(s: &Vec<char>) -> (r: Option<i32>)
    ensures
        match r {
            Some(v) => parse_id(s@) == Some(v as int),
            None => parse_id(s@) is None,
        },
{
    let n: usize = s.len();
    if n == 0 {
        return None;
    }
    let negative: bool = s[0] == '-';
    let start: usize = if s[0] == '-' || s[0] == '+' { 1 } else { 0 };
    if start == n {
        assert(s@.drop_first().len() == 0);
        return None;
    }
    let ghost body = if has_sign(s@) { s@.drop_first() } else { s@ };
    assert(body =~= s@.subrange(start as int, n as int));
    let mut acc: i64 = 0;
    let mut over: bool = false;
    let mut i: usize = start;
    while i < n
        invariant
            start <= i <= n,
            n == s.len(),
            body == s@.subrange(start as int, n as int),
            body == if has_sign(s@) { s@.drop_first() } else { s@ },
            all_digits(s@.subrange(start as int, i as int)),
            !over ==> acc == digits_value(s@.subrange(start as int, i as int)) && 0 <= acc
                <= 2147483648,
            over ==> digits_value(s@.subrange(start as int, i as int)) > 2147483648,
        decreases n - i,
    {
        let c: char = s[i];
        if !(c >= '0' && c <= '9') {
            assert(body[i - start] == c && !is_digit(body[i - start]));
            assert(!all_digits(body));
            return None;
        }
        let d: i64 = (c as u32 - 48) as i64;
        proof {
            let prev = s@.subrange(start as int, i as int);
            let next = s@.subrange(start as int, i + 1);
            assert(next.drop_last() =~= prev);
            assert(next.last() == c);
            assert(digits_value(next) == 10 * digits_value(prev) + d);
            assert forall|k: int| 0 <= k < next.len() implies is_digit(#[trigger] next[k]) by {
                if k < prev.len() {
                    assert(next[k] == prev[k]);
                }
            }
        }
        if !over {
            acc = acc * 10 + d;
            if acc > 2147483648 {
                over = true;
            }
        }
        i += 1;
    }
    assert(s@.subrange(start as int, i as int) == body);
    if over {
        None
    } else if negative {
        Some((0 - acc) as i32)
    } else if acc > 2147483647 {
        None
    } else {
        Some(acc as i32)
    }
}

} // verus!
