use vstd::prelude::*;

verus! {

/// Whether `c` is an ASCII decimal digit.
pub open spec fn is_digit(c: char) -> bool {
    '0' <= c && c <= '9'
}

/// The value of the decimal digit `c`.
pub open spec fn digit_value(c: char) -> int {
    (c as u32) as int - ('0' as u32) as int
}

/// Whether every character of `s` is a decimal digit.
pub open spec fn all_digits(s: Seq<char>) -> bool {
    forall|i: int| 0 <= i < s.len() ==> is_digit(#[trigger] s[i])
}

/// The value of the digit string `s`, most significant digit first.
pub open spec fn digits_value(s: Seq<char>) -> int
    decreases s.len(),
{
    if s.len() == 0 {
        0
    } else {
        10 * digits_value(s.drop_last()) + digit_value(s.last())
    }
}

/// The integer that `s` spells: one or more decimal digits, after an optional
/// `+` or `-` sign; `None` when `s` has any other form.
pub open spec fn numeral_value(s: Seq<char>) -> Option<int> {
    if s.len() > 0 && (s[0] == '-' || s[0] == '+') {
        let body = s.drop_first();
        if body.len() > 0 && all_digits(body) {
            Some(
                if s[0] == '-' {
                    -digits_value(body)
                } else {
                    digits_value(body)
                },
            )
        } else {
            None
        }
    } else if s.len() > 0 && all_digits(s) {
        Some(digits_value(s))
    } else {
        None
    }
}

/// The value of `s` read as an `i32`: its numeral value when that is in range.
pub open spec fn i32_value(s: Seq<char>) -> Option<int> {
    match numeral_value(s) {
        Some(v) => if i32::MIN <= v && v <= i32::MAX {
            Some(v)
        } else {
            None
        },
        None => None,
    }
}

/// The decimal digit character for `d`, where `d < 10`.
pub open spec fn digit_char(d: int) -> char {
    seq!['0', '1', '2', '3', '4', '5', '6', '7', '8', '9'][d]
}

/// The decimal numeral of `n`, without leading zeros.
pub open spec fn decimal(n: nat) -> Seq<char>
    decreases n,
{
    if n < 10 {
        seq![digit_char(n as int)]
    } else {
        decimal(n / 10).push(digit_char((n % 10) as int))
    }
}

/// The decimal numeral of `v`, with a leading `-` when it is negative.
pub open spec fn signed_decimal(v: int) -> Seq<char> {
    if v < 0 {
        seq!['-'] + decimal((-v) as nat)
    } else {
        decimal(v as nat)
    }
}

/// Reads `s` as an `i32` in the way `str::parse::<i32>` does: an optional sign
/// followed by at least one ASCII digit, with a value in range.
pub fn parse_i32(s: &str) -> (r: Option<i32>)
    ensures
        r is Some <==> i32_value(s@) is Some,
        r is Some ==> r->0 as int == i32_value(s@)->0,
{
    let n = s.unicode_len();
    if n == 0 {
        return None;
    }
    let first = s.get_char(0);
    let neg = first == '-';
    let k: usize = if first == '-' || first == '+' {
        1
    } else {
        0
    };
    if k >= n {
        return None;
    }
    let ghost body = s@.subrange(k as int, n as int);
    assert(k == 1 ==> body =~= s@.drop_first());
    assert(k == 0 ==> body =~= s@);
    let mut acc: i64 = 0;
    let mut big = false;
    let mut i: usize = k;
    assert(s@.subrange(k as int, k as int) =~= Seq::<char>::empty());
    while i < n
        invariant
            n == s@.len(),
            k <= i <= n,
            body == s@.subrange(k as int, n as int),
            k == 1 ==> body == s@.drop_first(),
            k == 0 ==> body == s@,
            k == 1 <==> (s@[0] == '-' || s@[0] == '+'),
            neg == (s@[0] == '-'),
            all_digits(s@.subrange(k as int, i as int)),
            !big ==> acc == digits_value(s@.subrange(k as int, i as int)) && 0 <= acc <= 0x8000_0000,
            big ==> digits_value(s@.subrange(k as int, i as int)) > 0x8000_0000,
        decreases n - i,
    {
        let c = s.get_char(i);
        if !('0' <= c && c <= '9') {
            assert(body[i - k] == c);
            assert(!is_digit(body[i - k]));
            assert(!all_digits(body));
            return None;
        }
        let d = (c as u32 - '0' as u32) as i64;
        let ghost prev = s@.subrange(k as int, i as int);
        let ghost next = s@.subrange(k as int, i + 1);
        assert(next.drop_last() =~= prev);
        assert(next.last() == c);
        assert(digits_value(next) == 10 * digits_value(prev) + d);
        if !big {
            if acc * 10 + d > 0x8000_0000 {
                big = true;
            } else {
                acc = acc * 10 + d;
            }
        }
        i += 1;
    }
    if big {
        return None;
    }
    if neg {
        Some((-acc) as i32)
    } else if acc > 0x7fff_ffff {
        None
    } else {
        Some(acc as i32)
    }
}

/// Appends the decimal numeral of `n` to `out`.
pub(crate) fn push_decimal(n: u64, out: &mut String)
    ensures
        final(out)@ == old(out)@ + decimal(n as nat),
    decreases n,
{
    if n >= 10 {
        push_decimal(n / 10, out);
    }
    let d = (n % 10) as usize;
    let digits = "0123456789";
    proof {
        reveal_strlit("0123456789");
    }
    out.append(digits.substring_char(d, d + 1));
    assert(digits@.subrange(d as int, d + 1) =~= seq![digit_char(d as int)]);
    assert(out@ =~= old(out)@ + decimal(n as nat));
}

/// The decimal numeral of `n`.
pub fn nat_to_string(n: u64) -> (r: String)
    ensures
        r@ == decimal(n as nat),
{
    let mut out = String::new();
    push_decimal(n, &mut out);
    assert(out@ =~= decimal(n as nat));
    out
}

/// The decimal numeral of `v`, signed when negative.
pub fn int_to_string(v: i64) -> (r: String)
    ensures
        r@ == signed_decimal(v as int),
{
    if v < 0 {
        let mut out = String::from_str("-");
        proof {
            reveal_strlit("-");
        }
        let m = (-(v as i128)) as u64;
        push_decimal(m, &mut out);
        out
    } else {
        nat_to_string(v as u64)
    }
}

} // verus!
