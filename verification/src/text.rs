//! Text helpers on which the response bodies and the request parsing rest.

use vstd::prelude::*;
use vstd::utf8::*;

verus! {

broadcast use encode_utf8_decode_utf8;

/// Whether `s` holds exactly the text `expected`.
pub fn text_is(s: &str, expected: &str) -> (r: bool)
    ensures
        r == (s@ == expected@),
{
    let a = s.as_bytes();
    let b = expected.as_bytes();
    if a.len() != b.len() {
        proof {
            if s@ == expected@ {
                assert(a@ == b@);
            }
        }
        return false;
    }
    let mut i: usize = 0;
    while i < a.len()
        invariant
            a@ == encode_utf8(s@),
            b@ == encode_utf8(expected@),
            a.len() == b.len(),
            i <= a.len(),
            forall|j: int| 0 <= j < i ==> a@[j] == b@[j],
        decreases a.len() - i,
    {
        if a[i] != b[i] {
            proof {
                if s@ == expected@ {
                    assert(a@ == b@);
                }
            }
            return false;
        }
        i = i + 1;
    }
    proof {
        assert(a@ =~= b@);
        assert(decode_utf8(encode_utf8(s@)) == s@);
        assert(decode_utf8(encode_utf8(expected@)) == expected@);
    }
    true
}

} // verus!

verus! {

/// The character of the decimal digit `d`.
pub open spec fn digit_char(d: nat) -> char {
    (48 + d) as char
}

/// The decimal representation of `n`, without leading zeros.
pub open spec fn decimal(n: nat) -> Seq<char>
    decreases n,
{
    if n < 10 {
        seq![digit_char(n)]
    } else {
        decimal(n / 10).push(digit_char(n % 10))
    }
}

/// The decimal representation of a signed integer: a minus sign before the
/// digits of a negative number.
pub open spec fn signed_decimal(n: int) -> Seq<char> {
    if n < 0 {
        seq!['-'] + decimal((-n) as nat)
    } else {
        decimal(n as nat)
    }
}

fn digit_text(d: u64) -> (r: &'static str)
    requires
        d < 10,
    ensures
        r@ == seq![digit_char(d as nat)],
{
    proof {
        reveal_strlit("0");
        reveal_strlit("1");
        reveal_strlit("2");
        reveal_strlit("3");
        reveal_strlit("4");
        reveal_strlit("5");
        reveal_strlit("6");
        reveal_strlit("7");
        reveal_strlit("8");
        reveal_strlit("9");
    }
    match d {
        0 => "0",
        1 => "1",
        2 => "2",
        3 => "3",
        4 => "4",
        5 => "5",
        6 => "6",
        7 => "7",
        8 => "8",
        _ => "9",
    }
}

} // verus!

verus! {

/// The characters of the digits `ds`, stored least significant first, read
/// from the most significant one.
spec fn digits_text(ds: Seq<u64>) -> Seq<char>
    decreases ds.len(),
{
    if ds.len() == 0 {
        seq![]
    } else {
        seq![digit_char(ds.last() as nat)] + digits_text(ds.drop_last())
    }
}

/// The decimal text of `n`.
pub fn decimal_text(n: u64) -> (r: String)
    ensures
        r@ == decimal(n as nat),
{
    let mut m: u64 = n;
    let mut digits: Vec<u64> = Vec::new();
    loop
        invariant_except_break
            digits.len() == 0 ==> m == n,
            digits.len() > 0 ==> m > 0,
            digits.len() > 0 && m > 0 ==> decimal(n as nat) == decimal(m as nat) + digits_text(digits@),
        invariant
            forall|j: int| 0 <= j < digits.len() ==> digits@[j] < 10,
        ensures
            decimal(n as nat) == digits_text(digits@),
        decreases m,
    {
        let d = m % 10;
        let ghost before = digits@;
        digits.push(d);
        assert(digits@.drop_last() == before);
        assert(digits_text(digits@) == seq![digit_char(d as nat)] + digits_text(before));
        let ghost m_old = m;
        assert(m_old >= 10 ==> decimal(m_old as nat) == decimal((m_old / 10) as nat) + seq![digit_char(d as nat)]);
        assert(m_old < 10 ==> decimal(m_old as nat) == seq![digit_char(d as nat)]);
        m = m / 10;
        if m == 0 {
            assert(before.len() == 0 ==> digits_text(before) =~= Seq::<char>::empty());
            assert(decimal(n as nat) =~= digits_text(digits@));
            break;
        }
    }
    let mut s = String::new();
    let mut i: usize = digits.len();
    assert(digits@.subrange(0, i as int) == digits@);
    while i > 0
        invariant
            i <= digits.len(),
            forall|j: int| 0 <= j < digits.len() ==> digits@[j] < 10,
            digits_text(digits@) == s@ + digits_text(digits@.subrange(0, i as int)),
        decreases i,
    {
        let ghost prefix = digits@.subrange(0, i as int);
        assert(prefix.drop_last() == digits@.subrange(0, i - 1));
        i = i - 1;
        s.append(digit_text(digits[i]));
    }
    assert(digits@.subrange(0, 0) == Seq::<u64>::empty());
    s
}

/// The decimal text of a signed `n`.
pub fn signed_decimal_text(n: i64) -> (r: String)
    ensures
        r@ == signed_decimal(n as int),
{
    if n < 0 {
        let magnitude: u64 = (0i128 - (n as i128)) as u64;
        let mut s = String::new();
        proof {
            reveal_strlit("-");
        }
        s.append("-");
        s.append(decimal_text(magnitude).as_str());
        s
    } else {
        decimal_text(n as u64)
    }
}

} // verus!

verus! {

/// Whether the byte `b` is one of the ASCII digits `0` to `9`.
pub open spec fn is_digit_byte(b: u8) -> bool {
    48 <= b <= 57
}

/// The value of a run of ASCII digits read in base ten.
pub open spec fn digits_value(ds: Seq<u8>) -> int
    decreases ds.len(),
{
    if ds.len() == 0 {
        0
    } else {
        digits_value(ds.drop_last()) * 10 + (ds.last() - 48)
    }
}

/// The digits of `bs` after an optional leading `+` or `-`.
pub open spec fn unsigned_part(bs: Seq<u8>) -> Seq<u8> {
    if bs.len() > 0 && (bs[0] == 43 || bs[0] == 45) {
        bs.drop_first()
    } else {
        bs
    }
}

/// What `str::parse::<i64>` gives for the bytes `bs`: an optional `+` or
/// `-`, then one or more ASCII digits whose value, with the sign, lies in
/// the range of `i64`; anything else is refused.
pub open spec fn parsed_i64(bs: Seq<u8>) -> Option<int> {
    let ds = unsigned_part(bs);
    let magnitude = digits_value(ds);
    let v = if bs.len() > 0 && bs[0] == 45 { -magnitude } else { magnitude };
    if ds.len() == 0 || !(forall|i: int| 0 <= i < ds.len() ==> is_digit_byte(#[trigger] ds[i])) {
        None
    } else if i64::MIN <= v <= i64::MAX {
        Some(v)
    } else {
        None
    }
}

proof fn lemma_digits_value_grows(ds: Seq<u8>, k: int)
    requires
        0 <= k <= ds.len(),
        forall|i: int| 0 <= i < ds.len() ==> is_digit_byte(#[trigger] ds[i]),
    ensures
        digits_value(ds) >= digits_value(ds.subrange(0, k)),
        digits_value(ds) >= 0,
    decreases ds.len(),
{
    if ds.len() == 0 {
        assert(ds.subrange(0, k) =~= ds);
    } else if k == ds.len() {
        assert(ds.subrange(0, k) =~= ds);
        lemma_digits_value_grows(ds.drop_last(), 0);
    } else {
        lemma_digits_value_grows(ds.drop_last(), k);
        assert(ds.drop_last().subrange(0, k) =~= ds.subrange(0, k));
    }
}

/// Reads `s` as a signed 64-bit integer in base ten, as `str::parse::<i64>`
/// does: `None` where that parse fails.
pub fn parse_i64(s: &str) -> (r: Option<i64>)
    ensures
        match r {
            Some(v) => parsed_i64(encode_utf8(s@)) == Some(v as int),
            None => parsed_i64(encode_utf8(s@)) is None,
        },
{
    let bs = s.as_bytes();
    let ghost all = bs@;
    let n = bs.len();
    let mut start: usize = 0;
    let mut negative = false;
    if n > 0 && (bs[0] == 43 || bs[0] == 45) {
        negative = bs[0] == 45;
        start = 1;
    }
    let ghost ds = unsigned_part(all);
    assert(ds =~= all.subrange(start as int, n as int));
    if start == n {
        return None;
    }
    let limit: u128 = 9223372036854775808;
    let mut magnitude: u128 = 0;
    let mut i: usize = start;
    while i < n
        invariant
            bs@ == all,
            all == encode_utf8(s@),
            ds == unsigned_part(all),
            n == all.len(),
            start <= i <= n,
            ds =~= all.subrange(start as int, n as int),
            forall|j: int| 0 <= j < i - start ==> is_digit_byte(#[trigger] ds[j]),
            magnitude == digits_value(ds.subrange(0, i - start)),
            limit == 9223372036854775808u128,
            magnitude <= limit,
        decreases n - i,
    {
        let b = bs[i];
        assert(ds[i - start] == b);
        if b < 48 || b > 57 {
            assert(!is_digit_byte(ds[i - start]));
            return None;
        }
        let ghost prefix = ds.subrange(0, i + 1 - start);
        assert(prefix.drop_last() =~= ds.subrange(0, i - start));
        magnitude = magnitude * 10 + (b - 48) as u128;
        i = i + 1;
        if magnitude > limit {
            proof {
                if forall|j: int| 0 <= j < ds.len() ==> is_digit_byte(#[trigger] ds[j]) {
                    lemma_digits_value_grows(ds, i - start);
                }
            }
            return None;
        }
    }
    assert(ds.subrange(0, n - start) =~= ds);
    if negative {
        if magnitude == limit {
            Some(i64::MIN)
        } else {
            Some(0i64 - (magnitude as i64))
        }
    } else if magnitude == limit {
        None
    } else {
        Some(magnitude as i64)
    }
}

} // verus!

verus! {

/// The bytes of a run of ASCII characters.
spec fn ascii_bytes(s: Seq<char>) -> Seq<u8> {
    s.map_values(|c: char| c as u8)
}

proof fn lemma_digit_byte(d: nat)
    requires
        d < 10,
    ensures
        (digit_char(d) as u8) == 48 + d,
        (digit_char(d) as u32) == 48 + d,
        '\0' <= digit_char(d) <= '\u{7f}',
        '0' <= digit_char(d) <= '9',
{
}

proof fn lemma_decimal_is_digits(n: nat)
    ensures
        decimal(n).len() >= 1,
        forall|i: int| 0 <= i < decimal(n).len() ==> '\0' <= #[trigger] decimal(n)[i] <= '\u{7f}',
        forall|i: int| 0 <= i < decimal(n).len() ==> '0' <= #[trigger] decimal(n)[i] <= '9',
        digits_value(ascii_bytes(decimal(n))) == n,
        forall|i: int|
            0 <= i < decimal(n).len() ==> is_digit_byte(#[trigger] ascii_bytes(decimal(n))[i]),
    decreases n,
{
    let d = decimal(n);
    let bs = ascii_bytes(d);
    if n < 10 {
        lemma_digit_byte(n);
        assert(bs.len() == 1);
        assert(bs[0] == 48 + n);
        assert(bs.drop_last() =~= Seq::<u8>::empty());
        assert(digits_value(bs) == digits_value(bs.drop_last()) * 10 + (bs.last() - 48));
    } else {
        lemma_decimal_is_digits(n / 10);
        lemma_digit_byte(n % 10);
        let p = decimal(n / 10);
        assert(bs.drop_last() =~= ascii_bytes(p));
        assert(bs.last() == 48 + n % 10);
        assert(digits_value(bs) == digits_value(bs.drop_last()) * 10 + (bs.last() - 48));
        assert(n == (n / 10) * 10 + n % 10);
        assert forall|i: int| 0 <= i < d.len() implies '\0' <= #[trigger] d[i] <= '\u{7f}' && '0'
            <= d[i] <= '9' by {
            if i < p.len() {
                assert(d[i] == p[i]);
            }
        }
        assert forall|i: int| 0 <= i < d.len() implies is_digit_byte(#[trigger] bs[i]) by {
            if i < p.len() {
                assert(bs[i] == ascii_bytes(p)[i]);
            }
        }
    }
}

/// A decimal text is made of the ASCII digits `0` to `9` alone, and is
/// never empty.
pub proof fn decimal_is_ascii_digits(n: nat)
    ensures
        decimal(n).len() >= 1,
        forall|i: int| 0 <= i < decimal(n).len() ==> '0' <= #[trigger] decimal(n)[i] <= '9',
{
    lemma_decimal_is_digits(n);
}

/// A count reads back from its decimal text: `str::parse::<i64>` of the
/// digits that the bodies show gives the count again.
pub proof fn decimal_reads_back(n: nat)
    requires
        n <= i64::MAX,
    ensures
        parsed_i64(encode_utf8(decimal(n))) == Some(n as int),
{
    lemma_decimal_is_digits(n);
    let d = decimal(n);
    assert(is_ascii_chars(d));
    is_ascii_chars_encode_utf8(d);
    let bs = encode_utf8(d);
    assert(bs =~= ascii_bytes(d));
    assert(is_digit_byte(bs[0]));
    assert(unsigned_part(bs) == bs);
}

/// The value of a decimal text is the number it was written for, whatever
/// its size: the text is one or more ASCII digits, and read in base ten they
/// give `n` back.
pub proof fn decimal_value(n: nat)
    ensures
        decimal(n).len() >= 1,
        forall|i: int| 0 <= i < decimal(n).len() ==> '0' <= #[trigger] decimal(n)[i] <= '9',
        encode_utf8(decimal(n)).len() == decimal(n).len(),
        forall|i: int|
            0 <= i < encode_utf8(decimal(n)).len() ==> is_digit_byte(
                #[trigger] encode_utf8(decimal(n))[i],
            ),
        digits_value(encode_utf8(decimal(n))) == n,
{
    lemma_decimal_is_digits(n);
    let d = decimal(n);
    assert(is_ascii_chars(d));
    is_ascii_chars_encode_utf8(d);
    assert(encode_utf8(d) =~= ascii_bytes(d));
}

/// A signed number reads back from its decimal text: `str::parse::<i64>` of
/// `signed_decimal(n)` gives `n` for every `i64`, and a number that is not
/// negative is written as its plain digits.
pub proof fn signed_decimal_reads_back(n: int)
    requires
        i64::MIN <= n <= i64::MAX,
    ensures
        parsed_i64(encode_utf8(signed_decimal(n))) == Some(n),
        n >= 0 ==> signed_decimal(n) == decimal(n as nat),
        n < 0 ==> signed_decimal(n) == seq!['-'] + decimal((-n) as nat),
{
    if n >= 0 {
        decimal_reads_back(n as nat);
    } else {
        let m: nat = (-n) as nat;
        lemma_decimal_is_digits(m);
        let d = seq!['-'] + decimal(m);
        assert(d =~= signed_decimal(n));
        assert forall|i: int| 0 <= i < d.len() implies '\0' <= #[trigger] d[i] <= '\u{7f}' by {
            if i > 0 {
                assert(d[i] == decimal(m)[i - 1]);
            }
        }
        assert(is_ascii_chars(d));
        is_ascii_chars_encode_utf8(d);
        let bs = encode_utf8(d);
        assert(bs =~= ascii_bytes(d));
        assert(bs[0] == 45u8);
        assert(unsigned_part(bs) =~= ascii_bytes(decimal(m)));
        let ds = unsigned_part(bs);
        assert forall|i: int| 0 <= i < ds.len() implies is_digit_byte(#[trigger] ds[i]) by {
            assert(ds[i] == ascii_bytes(decimal(m))[i]);
        }
    }
}

} // verus!
