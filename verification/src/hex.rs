//! Hexadecimal notation of byte strings and numbers, and what reading it back gives.

use vstd::arithmetic::power::pow;
use vstd::prelude::*;

verus! {

/// The value of a hexadecimal digit of either case, or -1 for any other character.
pub open spec fn digit_value(c: char) -> int {
    if '0' <= c <= '9' {
        c as int - '0' as int
    } else if 'a' <= c <= 'f' {
        c as int - 'a' as int + 10
    } else if 'A' <= c <= 'F' {
        c as int - 'A' as int + 10
    } else {
        -1
    }
}

/// The small hexadecimal digit of `n`, for `n` below sixteen.
pub open spec fn hex_digit(n: int) -> char {
    if n < 10 {
        ('0' as int + n) as char
    } else {
        ('a' as int + n - 10) as char
    }
}

/// Two small digits for each of `bytes`.
pub open spec fn lower_hex(bytes: Seq<u8>) -> Seq<char> {
    Seq::new(
        2 * bytes.len(),
        |i: int|
            if i % 2 == 0 {
                hex_digit(bytes[i / 2] as int / 16)
            } else {
                hex_digit(bytes[i / 2] as int % 16)
            },
    )
}

/// `0x` and the digits of `bytes`.
pub open spec fn prefixed_hex(bytes: Seq<u8>) -> Seq<char> {
    seq!['0', 'x'] + lower_hex(bytes)
}

/// `digits` without the zeros at its start, but for the last one.
pub open spec fn without_leading_zeros(digits: Seq<char>) -> Seq<char>
    decreases digits.len(),
{
    if digits.len() > 1 && digits[0] == '0' {
        without_leading_zeros(digits.skip(1))
    } else {
        digits
    }
}

/// `0x` and the digits of the number that `bytes` hold, without leading zeros.
pub open spec fn short_hex(bytes: Seq<u8>) -> Seq<char> {
    seq!['0', 'x'] + without_leading_zeros(lower_hex(bytes))
}

/// `text` without a `0x` or `0X` at its start.
pub open spec fn hex_digits(text: Seq<char>) -> Seq<char> {
    if text.len() >= 2 && text[0] == '0' && (text[1] == 'x' || text[1] == 'X') {
        text.skip(2)
    } else {
        text
    }
}

/// `text` is an even number of hexadecimal digits, after an optional prefix.
pub open spec fn is_hex_bytes(text: Seq<char>) -> bool {
    &&& hex_digits(text).len() % 2 == 0
    &&& forall|i: int|
        0 <= i < hex_digits(text).len() ==> digit_value(#[trigger] hex_digits(text)[i]) >= 0
}

/// The bytes that pairs of digits stand for.
pub open spec fn decoded(digits: Seq<char>) -> Seq<u8> {
    Seq::new(
        digits.len() / 2,
        |i: int| (16 * digit_value(digits[2 * i]) + digit_value(digits[2 * i + 1])) as u8,
    )
}

/// The number that `bytes` hold, the most significant byte first.
pub open spec fn number(bytes: Seq<u8>) -> nat
    decreases bytes.len(),
{
    if bytes.len() == 0 {
        0
    } else {
        256 * number(bytes.drop_last()) + bytes.last() as nat
    }
}

/// The last `length` bytes of `n`, the most significant byte first.
pub open spec fn number_bytes(n: int, length: nat) -> Seq<u8>
    decreases length,
{
    if length == 0 {
        Seq::empty()
    } else {
        number_bytes(n / 256, (length - 1) as nat).push((n % 256) as u8)
    }
}

/// Each of `digits` is a hexadecimal digit or an underscore.
pub open spec fn is_numeral(digits: Seq<char>) -> bool {
    forall|i: int|
        0 <= i < digits.len() ==> digits[i] == '_' || digit_value(#[trigger] digits[i]) >= 0
}

/// The number that a numeral stands for; underscores do not count.
pub open spec fn numeral_value(digits: Seq<char>) -> int
    decreases digits.len(),
{
    if digits.len() == 0 {
        0
    } else if digits.last() == '_' {
        numeral_value(digits.drop_last())
    } else {
        16 * numeral_value(digits.drop_last()) + digit_value(digits.last())
    }
}

/// A digit has the value that it is written for, and is neither an underscore nor a line feed.
pub proof fn lemma_hex_digit(n: int)
    requires
        0 <= n < 16,
    ensures
        digit_value(hex_digit(n)) == n,
        hex_digit(n) != '_',
        hex_digit(n) != '\n',
{
}

/// Reading the digits of `bytes` gives `bytes`.
pub proof fn lemma_decoded_lower_hex(bytes: Seq<u8>)
    ensures
        decoded(lower_hex(bytes)) == bytes,
        is_hex_bytes(prefixed_hex(bytes)),
        hex_digits(prefixed_hex(bytes)) == lower_hex(bytes),
{
    let digits = lower_hex(bytes);
    assert forall|i: int| 0 <= i < bytes.len() implies decoded(digits)[i] == bytes[i] by {
        let b = bytes[i] as int;
        assert((2 * i) % 2 == 0 && (2 * i) / 2 == i);
        assert((2 * i + 1) % 2 == 1 && (2 * i + 1) / 2 == i);
        lemma_hex_digit(b / 16);
        lemma_hex_digit(b % 16);
        assert(digits[2 * i] == hex_digit(b / 16));
        assert(digits[2 * i + 1] == hex_digit(b % 16));
    }
    assert(decoded(digits) =~= bytes);
    assert(prefixed_hex(bytes).skip(2) =~= digits);
    assert forall|i: int| 0 <= i < digits.len() implies digit_value(#[trigger] digits[i]) >= 0 by {
        let b = bytes[i / 2] as int;
        lemma_hex_digit(b / 16);
        lemma_hex_digit(b % 16);
    }
}

/// The digits of `bytes` are a numeral for the number that `bytes` hold.
pub proof fn lemma_numeral_lower_hex(bytes: Seq<u8>)
    ensures
        is_numeral(lower_hex(bytes)),
        numeral_value(lower_hex(bytes)) == number(bytes),
    decreases bytes.len(),
{
    let digits = lower_hex(bytes);
    assert forall|i: int| 0 <= i < digits.len() implies digit_value(#[trigger] digits[i]) >= 0 by {
        let b = bytes[i / 2] as int;
        lemma_hex_digit(b / 16);
        lemma_hex_digit(b % 16);
    }
    if bytes.len() > 0 {
        let front = bytes.drop_last();
        let n = front.len() as int;
        lemma_numeral_lower_hex(front);
        let b = bytes.last() as int;
        lemma_hex_digit(b / 16);
        lemma_hex_digit(b % 16);
        assert((2 * n) % 2 == 0 && (2 * n) / 2 == n);
        assert((2 * n + 1) % 2 == 1 && (2 * n + 1) / 2 == n);
        assert(digits.drop_last().drop_last() =~= lower_hex(front));
        assert(digits.last() == hex_digit(b % 16));
        assert(digits.drop_last().last() == hex_digit(b / 16));
        assert(numeral_value(digits.drop_last()) == 16 * number(front) + b / 16);
    }
}

proof fn lemma_leading_zero(digits: Seq<char>)
    requires
        digits.len() > 0,
        digits[0] == '0',
    ensures
        numeral_value(digits.skip(1)) == numeral_value(digits),
    decreases digits.len(),
{
    if digits.len() == 1 {
        assert(digits.drop_last() =~= Seq::<char>::empty());
        assert(digits.skip(1) =~= Seq::<char>::empty());
        assert(numeral_value(digits.drop_last()) == 0);
        assert(numeral_value(digits.skip(1)) == 0);
    } else {
        lemma_leading_zero(digits.drop_last());
        assert(digits.skip(1).drop_last() =~= digits.drop_last().skip(1));
    }
}

/// Leading zeros do not change what a numeral stands for.
pub proof fn lemma_without_leading_zeros(digits: Seq<char>)
    requires
        is_numeral(digits),
        digits.len() > 0,
    ensures
        is_numeral(without_leading_zeros(digits)),
        numeral_value(without_leading_zeros(digits)) == numeral_value(digits),
        without_leading_zeros(digits).len() > 0,
    decreases digits.len(),
{
    if digits.len() > 1 && digits[0] == '0' {
        lemma_leading_zero(digits);
        assert forall|i: int| 0 <= i < digits.skip(1).len() implies digits.skip(1)[i] == '_'
            || digit_value(#[trigger] digits.skip(1)[i]) >= 0 by {
            assert(digits.skip(1)[i] == digits[i + 1]);
        }
        lemma_without_leading_zeros(digits.skip(1));
    }
}

/// `n` bytes hold numbers below the `n`-th power of 256.
pub proof fn lemma_number_bound(bytes: Seq<u8>)
    ensures
        number(bytes) < pow(256, bytes.len()),
    decreases bytes.len(),
{
    reveal(pow);
    if bytes.len() > 0 {
        lemma_number_bound(bytes.drop_last());
    }
}

/// Byte strings of one length hold the same number only where they are the same.
pub proof fn lemma_number_injective(a: Seq<u8>, b: Seq<u8>)
    requires
        a.len() == b.len(),
        number(a) == number(b),
    ensures
        a == b,
    decreases a.len(),
{
    if a.len() > 0 {
        lemma_number_injective(a.drop_last(), b.drop_last());
        assert(a =~= a.drop_last().push(a.last()));
        assert(b =~= b.drop_last().push(b.last()));
    } else {
        assert(a =~= b);
    }
}

/// A byte string is the bytes of the number that it holds.
pub proof fn lemma_number_bytes(bytes: Seq<u8>)
    ensures
        number_bytes(number(bytes) as int, bytes.len()) == bytes,
    decreases bytes.len(),
{
    if bytes.len() > 0 {
        let front = bytes.drop_last();
        lemma_number_bytes(front);
        assert((256 * number(front) + bytes.last()) / 256 == number(front));
        assert((256 * number(front) + bytes.last()) % 256 == bytes.last());
        assert(bytes =~= front.push(bytes.last()));
    } else {
        assert(bytes =~= Seq::<u8>::empty());
    }
}

/// A number is no smaller than the one that its leading bytes hold.
pub proof fn lemma_number_prefix(bytes: Seq<u8>, n: int)
    requires
        0 <= n <= bytes.len(),
    ensures
        number(bytes.take(n)) <= number(bytes),
    decreases bytes.len() - n,
{
    if n == bytes.len() {
        assert(bytes.take(n) =~= bytes);
    } else {
        lemma_number_prefix(bytes, n + 1);
        assert(bytes.take(n + 1).drop_last() =~= bytes.take(n));
    }
}

/// Byte strings stand to each other as their digits do.
pub proof fn lemma_prefixed_hex_keeps_order(a: Seq<u8>, b: Seq<u8>)
    requires
        crate::order::precedes(crate::order::bytes_code(a), crate::order::bytes_code(b)),
    ensures
        crate::order::precedes(
            crate::order::text_code(prefixed_hex(a)),
            crate::order::text_code(prefixed_hex(b)),
        ),
{
    let (s, t) = (crate::order::bytes_code(a), crate::order::bytes_code(b));
    let (x, y) = (prefixed_hex(a), prefixed_hex(b));
    let (u, v) = (crate::order::text_code(x), crate::order::text_code(y));
    let i = choose|i: int| #[trigger] crate::order::precedes_at(s, t, i);
    assert forall|j: int| 0 <= j < 2 * i + 2 implies u[j] == v[j] by {
        if j >= 2 {
            let k = (j - 2) / 2;
            assert(0 <= k < i);
            assert(s[k] == t[k]);
            assert(a[k] == b[k]);
        }
        assert(x[j] == y[j]);
    }
    if i == a.len() {
        assert(crate::order::precedes_at(u, v, 2 * i + 2));
    } else {
        let (p, q) = (a[i] as int, b[i] as int);
        assert(s[i] < t[i]);
        assert((2 * i) % 2 == 0 && (2 * i) / 2 == i);
        assert((2 * i + 1) % 2 == 1 && (2 * i + 1) / 2 == i);
        assert(x[2 * i + 2] == hex_digit(p / 16) && x[2 * i + 3] == hex_digit(p % 16));
        assert(y[2 * i + 2] == hex_digit(q / 16) && y[2 * i + 3] == hex_digit(q % 16));
        if p / 16 < q / 16 {
            assert(crate::order::precedes_at(u, v, 2 * i + 2));
        } else {
            assert(p / 16 == q / 16 && p % 16 < q % 16);
            assert(crate::order::precedes_at(u, v, 2 * i + 3));
        }
    }
}

} // verus!
