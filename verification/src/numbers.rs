use vstd::prelude::*;
use vstd::string::StrSliceExecFns;
use vstd::string::StringExecFns;

verus! {

/// `c` is a decimal digit, `'0'` through `'9'`.
pub open spec fn is_digit(c: char) -> bool {
    48 <= c as int && c as int <= 57
}

/// The numeric value of a digit character.
pub open spec fn digit_val(c: char) -> int {
    c as int - 48
}

/// Every character of `s` is a decimal digit.
pub open spec fn all_digits(s: Seq<char>) -> bool {
    forall|i: int| 0 <= i < s.len() ==> is_digit(#[trigger] s[i])
}

/// The value of a digit string read in base ten (leading zeroes allowed).
pub open spec fn digits_val(s: Seq<char>) -> int
    decreases s.len(),
{
    if s.len() == 0 {
        0
    } else {
        10 * digits_val(s.drop_last()) + digit_val(s.last())
    }
}

pub proof fn lemma_all_digits_drop_last(s: Seq<char>)
    requires
        all_digits(s),
        s.len() > 0,
    ensures
        all_digits(s.drop_last()),
{
    assert forall|i: int| 0 <= i < s.drop_last().len() implies is_digit(#[trigger] s.drop_last()[i]) by {
        assert(s.drop_last()[i] == s[i]);
    }
}

pub proof fn lemma_digits_val_nonneg(s: Seq<char>)
    requires
        all_digits(s),
    ensures
        digits_val(s) >= 0,
    decreases s.len(),
{
    if s.len() > 0 {
        lemma_all_digits_drop_last(s);
        lemma_digits_val_nonneg(s.drop_last());
        assert(is_digit(s.last()));
    }
}

/// Reading more digits can only keep or grow the value.
pub proof fn lemma_digits_val_prefix(s: Seq<char>, i: int)
    requires
        all_digits(s),
        0 <= i <= s.len(),
    ensures
        digits_val(s.take(i)) <= digits_val(s),
    decreases s.len(),
{
    if i == s.len() {
        assert(s.take(i) =~= s);
    } else {
        lemma_all_digits_drop_last(s);
        assert(s.take(i) =~= s.drop_last().take(i));
        lemma_digits_val_prefix(s.drop_last(), i);
        lemma_digits_val_nonneg(s.drop_last());
        assert(is_digit(s.last()));
    }
}

/// One step of reading a digit string from the left.
pub proof fn lemma_digits_val_step(s: Seq<char>, i: int)
    requires
        0 <= i < s.len(),
    ensures
        digits_val(s.take(i + 1)) == 10 * digits_val(s.take(i)) + digit_val(s[i]),
{
    assert(s.take(i + 1).drop_last() =~= s.take(i));
    assert(s.take(i + 1).last() == s[i]);
}

/// What parsing an unsigned 32-bit decimal out of `s` yields: one optional
/// leading plus, then digits (leading zeroes allowed), and the value must
/// be at most `u32::MAX`; nothing otherwise.
pub open spec fn parse_u32_spec(s: Seq<char>) -> Option<u32> {
    if s.len() >= 1 && s[0] == '+' {
        let mag = s.drop_first();
        if mag.len() > 0 && all_digits(mag) && digits_val(mag) <= u32::MAX {
            Some(digits_val(mag) as u32)
        } else {
            None
        }
    } else if s.len() > 0 && all_digits(s) && digits_val(s) <= u32::MAX {
        Some(digits_val(s) as u32)
    } else {
        None
    }
}

pub fn parse_u32(s: &str) -> (r: Option<u32>)
    ensures
        r == parse_u32_spec(s@),
{
    let n: usize = s.unicode_len();
    if n == 0 {
        return None;
    }
    let c0 = s.get_char(0);
    let signed: bool = c0 == '+';
    let start: usize = if signed {
        1
    } else {
        0
    };
    if start >= n {
        return None;
    }
    let ghost mag: Seq<char> = s@.subrange(start as int, n as int);
    proof {
        if signed {
            assert(mag =~= s@.drop_first());
        } else {
            assert(mag =~= s@);
        }
    }
    let mut acc: u64 = 0;
    let mut i: usize = start;
    while i < n
        invariant
            n == s@.len(),
            start <= i <= n,
            start < n,
            signed == (s@[0] == '+'),
            start == if signed { 1int } else { 0int },
            mag == s@.subrange(start as int, n as int),
            signed ==> mag == s@.drop_first(),
            !signed ==> mag == s@,
            all_digits(mag.take(i - start as int)),
            acc == digits_val(mag.take(i - start as int)),
            acc <= u32::MAX,
        decreases n - i,
    {
        let c = s.get_char(i);
        let u = c as u32;
        proof {
            assert(mag[i - start as int] == s@[i as int]);
        }
        if u < 48 || u > 57 {
            assert(!is_digit(mag[i - start as int]));
            return None;
        }
        proof {
            lemma_digits_val_step(mag, i - start as int);
        }
        acc = acc * 10 + (u - 48) as u64;
        assert forall|j: int| 0 <= j < i + 1 - start implies is_digit(#[trigger] mag.take(i + 1
            - start as int)[j]) by {
            if j < i - start {
                assert(mag.take(i + 1 - start as int)[j] == mag.take(i - start as int)[j]);
            } else {
                assert(mag.take(i + 1 - start as int)[j] == mag[i - start as int]);
            }
        }
        if acc > u32::MAX as u64 {
            proof {
                if all_digits(mag) {
                    lemma_digits_val_prefix(mag, i + 1 - start as int);
                }
            }
            return None;
        }
        i = i + 1;
    }
    proof {
        assert(mag.take(n - start as int) =~= mag);
    }
    Some(acc as u32)
}

/// What parsing a signed 32-bit decimal out of `s` yields: an optional
/// leading sign, then digits, and the value must fit the 32-bit range.
pub open spec fn parse_i32_spec(s: Seq<char>) -> Option<i32> {
    if s.len() >= 1 && (s[0] == '-' || s[0] == '+') {
        let mag = s.drop_first();
        if mag.len() > 0 && all_digits(mag) {
            if s[0] == '-' && -digits_val(mag) >= i32::MIN {
                Some((-digits_val(mag)) as i32)
            } else if s[0] == '+' && digits_val(mag) <= i32::MAX {
                Some(digits_val(mag) as i32)
            } else {
                None
            }
        } else {
            None
        }
    } else if s.len() > 0 && all_digits(s) && digits_val(s) <= i32::MAX {
        Some(digits_val(s) as i32)
    } else {
        None
    }
}

pub fn parse_i32(s: &str) -> (r: Option<i32>)
    ensures
        r == parse_i32_spec(s@),
{
    let n: usize = s.unicode_len();
    if n == 0 {
        return None;
    }
    let c0 = s.get_char(0);
    let signed: bool = c0 == '-' || c0 == '+';
    let neg: bool = c0 == '-';
    let start: usize = if signed { 1 } else { 0 };
    if start >= n {
        return None;
    }
    let ghost mag: Seq<char> = s@.subrange(start as int, n as int);
    proof {
        if signed {
            assert(mag =~= s@.drop_first());
        } else {
            assert(mag =~= s@);
        }
    }
    let mut acc: u64 = 0;
    let mut i: usize = start;
    while i < n
        invariant
            n == s@.len(),
            start <= i <= n,
            start < n,
            signed == (s@[0] == '-' || s@[0] == '+'),
            neg == (s@[0] == '-'),
            start == if signed { 1int } else { 0int },
            mag == s@.subrange(start as int, n as int),
            signed ==> mag == s@.drop_first(),
            !signed ==> mag == s@,
            all_digits(mag.take(i - start as int)),
            acc == digits_val(mag.take(i - start as int)),
            acc <= 2147483648u64,
        decreases n - i,
    {
        let c = s.get_char(i);
        let u = c as u32;
        proof {
            assert(mag[i - start as int] == s@[i as int]);
        }
        if u < 48 || u > 57 {
            assert(!is_digit(mag[i - start as int]));
            return None;
        }
        proof {
            lemma_digits_val_step(mag, i - start as int);
        }
        acc = acc * 10 + (u - 48) as u64;
        assert forall|j: int| 0 <= j < i + 1 - start implies is_digit(#[trigger] mag.take(i + 1 - start as int)[j]) by {
            if j < i - start {
                assert(mag.take(i + 1 - start as int)[j] == mag.take(i - start as int)[j]);
            } else {
                assert(mag.take(i + 1 - start as int)[j] == mag[i - start as int]);
            }
        }
        if acc > 2147483648u64 {
            proof {
                if all_digits(mag) {
                    lemma_digits_val_prefix(mag, i + 1 - start as int);
                }
            }
            return None;
        }
        i = i + 1;
    }
    proof {
        assert(mag.take(n - start as int) =~= mag);
    }
    if neg {
        Some((-(acc as i64)) as i32)
    } else {
        if acc > 2147483647u64 {
            return None;
        }
        Some(acc as i32)
    }
}

/// The decimal digit character for the value `d`.
pub open spec fn digit_char(d: int) -> char {
    if d == 0 { '0' }
    else if d == 1 { '1' }
    else if d == 2 { '2' }
    else if d == 3 { '3' }
    else if d == 4 { '4' }
    else if d == 5 { '5' }
    else if d == 6 { '6' }
    else if d == 7 { '7' }
    else if d == 8 { '8' }
    else { '9' }
}

/// The decimal rendering of `n`, most significant digit first.
pub open spec fn decimal(n: int) -> Seq<char>
    decreases n,
{
    if n < 10 {
        seq![digit_char(n)]
    } else {
        decimal(n / 10).push(digit_char(n % 10))
    }
}

pub fn u32_to_decimal(n: u32) -> (r: String)
    ensures
        r@ == decimal(n as int),
    decreases n,
{
    let d: u32 = n % 10;
    let ds: &str = if d == 0 { "0" }
        else if d == 1 { "1" }
        else if d == 2 { "2" }
        else if d == 3 { "3" }
        else if d == 4 { "4" }
        else if d == 5 { "5" }
        else if d == 6 { "6" }
        else if d == 7 { "7" }
        else if d == 8 { "8" }
        else { "9" };
    proof {
        reveal_strlit("0");
        reveal_strlit("1");
        reveal_strlit("2");
        reveal_strlit("3");
        reveal_strlit("4");
        reveal_strlit("5");
        reveal_strlit("6");
        reveal_strlit("7");
        reveal_strlit("8");
        reveal_strlit("9");
        assert(ds@ =~= seq![digit_char(d as int)]);
    }
    if n < 10 {
        let mut s = String::new();
        s.append(ds);
        proof {
            assert(s@ =~= decimal(n as int));
        }
        s
    } else {
        let mut s = u32_to_decimal(n / 10);
        s.append(ds);
        proof {
            assert(s@ =~= decimal(n as int));
        }
        s
    }
}

} // verus!
