//! Addresses and words, read from and written in hexadecimal notation.

use crate::order::{rank_bytes, Key, Rank};
use crate::text::quoted;
use std::str::FromStr;
use vstd::prelude::*;

verus! {

/// An account address.
#[derive(Clone, Copy, Debug, PartialEq, Eq)]
pub struct Address {
    pub bytes: [u8; 20],
}

/// A 256-bit word, the most significant byte first.
#[derive(Clone, Copy, Debug, PartialEq, Eq)]
pub struct Word {
    pub bytes: [u8; 32],
}

impl View for Address {
    type V = Seq<u8>;

    open spec fn view(&self) -> Seq<u8> {
        self.bytes@
    }
}

impl View for Word {
    type V = Seq<u8>;

    open spec fn view(&self) -> Seq<u8> {
        self.bytes@
    }
}

impl Key for Address {
    open spec fn code(key: Seq<u8>) -> Seq<int> {
        crate::order::bytes_code(key)
    }

    fn rank(&self, other: &Self) -> (rank: Rank) {
        rank_bytes(self.bytes.as_slice(), other.bytes.as_slice())
    }
}

impl Key for Word {
    open spec fn code(key: Seq<u8>) -> Seq<int> {
        crate::order::bytes_code(key)
    }

    fn rank(&self, other: &Self) -> (rank: Rank) {
        rank_bytes(self.bytes.as_slice(), other.bytes.as_slice())
    }
}

impl Address {
    /// Whether two addresses are the same.
    pub fn same(&self, other: &Address) -> (same: bool)
        ensures
            same == (self@ == other@),
    {
        match self.rank(other) {
            Rank::Same => true,
            _ => {
                proof {
                    crate::order::lemma_precedes_irreflexive(crate::order::bytes_code(self@));
                }
                false
            },
        }
    }
}

impl Word {
    /// The number that the word holds.
    pub open spec fn value(self) -> nat {
        crate::hex::number(self@)
    }

    /// The word that holds zero.
    pub fn zero() -> (word: Word)
        ensures
            word.value() == 0,
    {
        let word = Word { bytes: [0u8; 32] };
        proof {
            lemma_zero_bytes(word@);
        }
        word
    }

    /// Whether two words hold the same number.
    pub fn same(&self, other: &Word) -> (same: bool)
        ensures
            same == (self.value() == other.value()),
    {
        match self.rank(other) {
            Rank::Same => true,
            _ => {
                proof {
                    crate::order::lemma_precedes_irreflexive(crate::order::bytes_code(self@));
                    if self.value() == other.value() {
                        crate::hex::lemma_number_injective(self@, other@);
                    }
                }
                false
            },
        }
    }

    /// The number that the word holds, where it fits 64 bits.
    pub fn to_u64(&self) -> (number: Option<u64>)
        ensures
            match number {
                Some(n) => self.value() == n,
                None => self.value() > u64::MAX,
            },
    {
        let mut number: u64 = 0;
        let mut i: usize = 0;
        assert(self@.take(0) =~= Seq::<u8>::empty());
        while i < 32
            invariant
                i <= 32,
                self@.len() == 32,
                number == crate::hex::number(self@.take(i as int)),
            decreases 32 - i,
        {
            proof {
                crate::hex::lemma_number_prefix(self@, i + 1);
                assert(self@.take(i + 1).drop_last() =~= self@.take(i as int));
            }
            if number > 0x00ff_ffff_ffff_ffff {
                return None;
            }
            number = 256 * number + self.bytes[i] as u64;
            i += 1;
        }
        assert(self@.take(32) =~= self@);
        Some(number)
    }
}

proof fn lemma_zero_bytes(bytes: Seq<u8>)
    requires
        forall|i: int| 0 <= i < bytes.len() ==> #[trigger] bytes[i] == 0,
    ensures
        crate::hex::number(bytes) == 0,
    decreases bytes.len(),
{
    if bytes.len() > 0 {
        lemma_zero_bytes(bytes.drop_last());
    }
}

/// What `FromHexError` says, in words, of a text that is no address.
pub uninterp spec fn address_error(text: Seq<char>) -> Seq<char>;

/// What `FromHexError` says, in words, of a text that is no byte string.
pub uninterp spec fn bytes_error(text: Seq<char>) -> Seq<char>;

/// What ruint's `ParseError` says, in words, of digits that are no 256-bit number.
pub uninterp spec fn quantity_error(digits: Seq<char>) -> Seq<char>;

/// The address that `text` stands for, or why it stands for none.
pub open spec fn address_of(text: Seq<char>) -> Result<Seq<u8>, Seq<char>> {
    if crate::hex::is_hex_bytes(text) && crate::hex::hex_digits(text).len() == 40 {
        Ok(crate::hex::decoded(crate::hex::hex_digits(text)))
    } else {
        Err(
            "invalid address "@ + crate::text::debug_text(text) + ": "@ + address_error(text),
        )
    }
}

/// The byte string that `text` stands for, or why it stands for none.
pub open spec fn bytes_of(text: Seq<char>) -> Result<Seq<u8>, Seq<char>> {
    if crate::hex::is_hex_bytes(text) {
        Ok(crate::hex::decoded(crate::hex::hex_digits(text)))
    } else {
        Err(
            "invalid byte string "@ + crate::text::debug_text(text) + ": "@ + bytes_error(text),
        )
    }
}

/// The digits of a quantity: `text` without a `0x` at its start, and `0` where nothing is left.
pub open spec fn quantity_digits(text: Seq<char>) -> Seq<char> {
    let digits = if text.len() >= 2 && text[0] == '0' && text[1] == 'x' {
        text.skip(2)
    } else {
        text
    };
    if digits.len() == 0 {
        "0"@
    } else {
        digits
    }
}

/// `digits` are a numeral for a number below the 256th power of two.
pub open spec fn is_quantity(digits: Seq<char>) -> bool {
    &&& crate::hex::is_numeral(digits)
    &&& crate::hex::numeral_value(digits) < vstd::arithmetic::power::pow(256, 32)
}

/// The number that `text` stands for, or why it stands for none.
pub open spec fn quantity_of(text: Seq<char>) -> Result<int, Seq<char>> {
    let digits = quantity_digits(text);
    if is_quantity(digits) {
        Ok(crate::hex::numeral_value(digits))
    } else {
        Err(
            "invalid hex quantity "@ + crate::text::debug_text(text) + ": "@ + quantity_error(
                digits,
            ),
        )
    }
}

/// The 64-bit number that `text` stands for, or why it stands for none.
pub open spec fn small_quantity_of(text: Seq<char>) -> Result<int, Seq<char>> {
    match quantity_of(text) {
        Ok(n) => if n <= u64::MAX {
            Ok(n)
        } else {
            Err("hex quantity "@ + crate::text::debug_text(text) + " overflows u64"@)
        },
        Err(problem) => Err(problem),
    }
}

/// Calls `<alloy_primitives::Address as FromStr>::from_str`: it reads forty hexadecimal digits of
/// either case, after an optional `0x` or `0X`, and refuses everything else. What its error says
/// is only named.
#[verifier::external_body]
fn read_address(text: &str) -> (read: Result<[u8; 20], String>)
    ensures
        match read {
            Ok(bytes) => {
                &&& crate::hex::is_hex_bytes(text@)
                &&& crate::hex::hex_digits(text@).len() == 40
                &&& bytes@ == crate::hex::decoded(crate::hex::hex_digits(text@))
            },
            Err(error) => {
                &&& !(crate::hex::is_hex_bytes(text@) && crate::hex::hex_digits(text@).len() == 40)
                &&& error@ == address_error(text@)
            },
        },
{
    match alloy_primitives::Address::from_str(text) {
        Ok(address) => Ok(address.into_array()),
        Err(error) => Err(error.to_string()),
    }
}

/// Calls `<alloy_primitives::Bytes as FromStr>::from_str`: it reads an even number of hexadecimal
/// digits of either case, after an optional `0x` or `0X`, and refuses everything else. What its
/// error says is only named.
#[verifier::external_body]
fn read_bytes(text: &str) -> (read: Result<Vec<u8>, String>)
    ensures
        match read {
            Ok(bytes) => {
                &&& crate::hex::is_hex_bytes(text@)
                &&& bytes@ == crate::hex::decoded(crate::hex::hex_digits(text@))
            },
            Err(error) => !crate::hex::is_hex_bytes(text@) && error@ == bytes_error(text@),
        },
{
    match alloy_primitives::Bytes::from_str(text) {
        Ok(bytes) => Ok(bytes.to_vec()),
        Err(error) => Err(error.to_string()),
    }
}

/// Calls `alloy_primitives::U256::from_str_radix` with radix sixteen: it reads hexadecimal digits
/// of either case, passes over underscores, and refuses other characters and numbers that 256 bits
/// do not hold. What its error says is only named.
#[verifier::external_body]
fn read_quantity(digits: &str) -> (read: Result<[u8; 32], String>)
    ensures
        match read {
            Ok(bytes) => is_quantity(digits@) && crate::hex::number(bytes@)
                == crate::hex::numeral_value(digits@),
            Err(error) => !is_quantity(digits@) && error@ == quantity_error(digits@),
        },
{
    match alloy_primitives::U256::from_str_radix(digits, 16) {
        Ok(number) => Ok(number.to_be_bytes::<32>()),
        Err(error) => Err(error.to_string()),
    }
}

/// Calls `alloy_primitives::hex::encode`: two small digits for each byte.
#[verifier::external_body]
pub(crate) fn encode_hex(bytes: &[u8]) -> (text: String)
    ensures
        text@ == crate::hex::lower_hex(bytes@),
{
    alloy_primitives::hex::encode(bytes)
}

/// Calls `LowerHex` of `alloy_primitives::Address` in its alternate form: `0x` and two small digits
/// for each byte.
#[verifier::external_body]
pub(crate) fn address_text(address: &Address) -> (text: String)
    ensures
        text@ == crate::hex::prefixed_hex(address@),
{
    format!("{:#x}", alloy_primitives::Address::from(address.bytes))
}

/// Calls `LowerHex` of `alloy_primitives::B256` in its alternate form: `0x` and two small digits
/// for each byte.
#[verifier::external_body]
pub(crate) fn hash_text(hash: &[u8; 32]) -> (text: String)
    ensures
        text@ == crate::hex::prefixed_hex(hash@),
{
    format!("{:#x}", alloy_primitives::B256::from(*hash))
}

/// Calls `LowerHex` of `alloy_primitives::U256` in its alternate form, filled with zeros to 66
/// characters: `0x` and all 64 digits of the number.
#[verifier::external_body]
pub(crate) fn full_text(word: &Word) -> (text: String)
    ensures
        text@ == crate::hex::prefixed_hex(word@),
{
    format!("{:#066x}", alloy_primitives::U256::from_be_bytes(word.bytes))
}

/// Calls `LowerHex` of `alloy_primitives::U256` in its alternate form: `0x` and the digits of the
/// number without leading zeros.
#[verifier::external_body]
pub(crate) fn short_text(word: &Word) -> (text: String)
    ensures
        text@ == crate::hex::short_hex(word@),
{
    format!("{:#x}", alloy_primitives::U256::from_be_bytes(word.bytes))
}

/// The address that `value` stands for.
pub fn parse_address(value: &str) -> (address: Result<Address, String>)
    ensures
        match address {
            Ok(address) => address_of(value@) == Ok::<Seq<u8>, Seq<char>>(address@),
            Err(problem) => address_of(value@) == Err::<Seq<u8>, Seq<char>>(problem@),
        },
{
    match read_address(value) {
        Ok(bytes) => Ok(Address { bytes }),
        Err(error) => {
            let mut problem = "invalid address ".to_owned();
            problem.append(quoted(value).as_str());
            problem.append(": ");
            problem.append(error.as_str());
            Err(problem)
        },
    }
}

/// The byte string that `value` stands for.
pub fn parse_bytes(value: &str) -> (bytes: Result<Vec<u8>, String>)
    ensures
        match bytes {
            Ok(bytes) => bytes_of(value@) == Ok::<Seq<u8>, Seq<char>>(bytes@),
            Err(problem) => bytes_of(value@) == Err::<Seq<u8>, Seq<char>>(problem@),
        },
{
    match read_bytes(value) {
        Ok(bytes) => Ok(bytes),
        Err(error) => {
            let mut problem = "invalid byte string ".to_owned();
            problem.append(quoted(value).as_str());
            problem.append(": ");
            problem.append(error.as_str());
            Err(problem)
        },
    }
}

/// The 256-bit number that `value` stands for.
pub fn parse_u256(value: &str) -> (word: Result<Word, String>)
    ensures
        match word {
            Ok(word) => quantity_of(value@) == Ok::<int, Seq<char>>(word.value() as int),
            Err(problem) => quantity_of(value@) == Err::<int, Seq<char>>(problem@),
        },
{
    let length: usize = value.unicode_len();
    let digits = if length >= 2 && value.get_char(0) == '0' && value.get_char(1) == 'x' {
        value.substring_char(2, length)
    } else {
        value
    };
    assert(length >= 2 ==> value@.subrange(2, length as int) =~= value@.skip(2));
    let digits = if digits.is_empty() {
        "0"
    } else {
        digits
    };
    match read_quantity(digits) {
        Ok(bytes) => Ok(Word { bytes }),
        Err(error) => {
            let mut problem = "invalid hex quantity ".to_owned();
            problem.append(quoted(value).as_str());
            problem.append(": ");
            problem.append(error.as_str());
            Err(problem)
        },
    }
}

/// The 64-bit number that `value` stands for.
pub fn parse_u64(value: &str) -> (number: Result<u64, String>)
    ensures
        match number {
            Ok(number) => small_quantity_of(value@) == Ok::<int, Seq<char>>(number as int),
            Err(problem) => small_quantity_of(value@) == Err::<int, Seq<char>>(problem@),
        },
{
    match parse_u256(value) {
        Ok(word) => match word.to_u64() {
            Some(number) => Ok(number),
            None => {
                let mut problem = "hex quantity ".to_owned();
                problem.append(quoted(value).as_str());
                problem.append(" overflows u64");
                Err(problem)
            },
        },
        Err(problem) => Err(problem),
    }
}

/// Reading an address as it is written gives the address.
pub proof fn law_address_round_trip(address: Address)
    ensures
        address_of(crate::hex::prefixed_hex(address@)) == Ok::<Seq<u8>, Seq<char>>(address@),
{
    crate::hex::lemma_decoded_lower_hex(address@);
}

/// Reading a byte string as it is written, with its prefix, gives the byte string.
pub proof fn law_bytes_round_trip(bytes: Seq<u8>)
    ensures
        bytes_of(crate::hex::prefixed_hex(bytes)) == Ok::<Seq<u8>, Seq<char>>(bytes),
{
    crate::hex::lemma_decoded_lower_hex(bytes);
}

/// Reading a word as it is written, with all its digits or without leading zeros, gives the number
/// that it holds.
pub proof fn law_quantity_round_trip(word: Word)
    ensures
        quantity_of(crate::hex::prefixed_hex(word@)) == Ok::<int, Seq<char>>(word.value() as int),
        quantity_of(crate::hex::short_hex(word@)) == Ok::<int, Seq<char>>(word.value() as int),
{
    let digits = crate::hex::lower_hex(word@);
    let short = crate::hex::without_leading_zeros(digits);
    crate::hex::lemma_numeral_lower_hex(word@);
    crate::hex::lemma_number_bound(word@);
    crate::hex::lemma_without_leading_zeros(digits);
    assert(crate::hex::prefixed_hex(word@).skip(2) =~= digits);
    assert(crate::hex::short_hex(word@).skip(2) =~= short);
}

/// `digits` are what is left of `text` without the prefix `0x` or `0X`, where it has one.
pub open spec fn are_digits_of(digits: Seq<char>, text: Seq<char>) -> bool {
    ||| text == seq!['0', 'x'] + digits
    ||| text == seq!['0', 'X'] + digits
    ||| text == digits && !(text.len() >= 2 && text[0] == '0' && (text[1] == 'x' || text[1] == 'X'))
}

/// Each of `digits` is a hexadecimal digit of either case.
pub open spec fn all_digits(digits: Seq<char>) -> bool {
    forall|i: int|
        0 <= i < digits.len() ==> '0' <= #[trigger] digits[i] <= '9' || 'a' <= digits[i] <= 'f'
            || 'A' <= digits[i] <= 'F'
}

proof fn lemma_digits_of(digits: Seq<char>, text: Seq<char>)
    requires
        are_digits_of(digits, text),
    ensures
        crate::hex::hex_digits(text) == digits,
        crate::hex::is_hex_bytes(text) <==> digits.len() % 2 == 0 && all_digits(digits),
{
    if text != digits {
        assert(text.skip(2) =~= digits);
    } else if text.len() >= 2 {
        assert(crate::hex::hex_digits(text) == text);
    }
    if text == seq!['0', 'x'] + digits {
        assert(text[0] == '0' && text[1] == 'x');
        assert(text.skip(2) =~= digits);
    }
    if text == seq!['0', 'X'] + digits {
        assert(text[0] == '0' && text[1] == 'X');
        assert(text.skip(2) =~= digits);
    }
    if all_digits(digits) {
        assert forall|i: int| 0 <= i < digits.len() implies crate::hex::digit_value(
            #[trigger] digits[i],
        ) >= 0 by {}
    }
    if crate::hex::is_hex_bytes(text) {
        assert forall|i: int| 0 <= i < digits.len() implies '0' <= #[trigger] digits[i] <= '9'
            || 'a' <= digits[i] <= 'f' || 'A' <= digits[i] <= 'F' by {
            assert(crate::hex::digit_value(crate::hex::hex_digits(text)[i]) >= 0);
        }
    }
}

proof fn lemma_decoded_at(digits: Seq<char>, i: int)
    requires
        all_digits(digits),
        0 <= i < digits.len() / 2,
    ensures
        crate::hex::decoded(digits)[i] as int == 16 * crate::hex::digit_value(digits[2 * i])
            + crate::hex::digit_value(digits[2 * i + 1]),
{
    assert(2 * i + 1 < digits.len());
    let (high, low) = (digits[2 * i], digits[2 * i + 1]);
    assert(0 <= crate::hex::digit_value(high) < 16);
    assert(0 <= crate::hex::digit_value(low) < 16);
}

/// An address is read from forty hexadecimal digits of either case, with or without a prefix, two
/// digits a byte; anything else is refused with the text.
pub proof fn law_addresses_are_read_digit_by_digit(text: Seq<char>, digits: Seq<char>, i: int)
    requires
        are_digits_of(digits, text),
    ensures
        digits.len() == 40 && all_digits(digits) ==> address_of(text) is Ok
            && address_of(text)->Ok_0.len() == 20,
        digits.len() == 40 && all_digits(digits) && 0 <= i < 20 ==> address_of(
            text,
        )->Ok_0[i] as int == 16 * crate::hex::digit_value(digits[2 * i])
            + crate::hex::digit_value(digits[2 * i + 1]),
        !(digits.len() == 40 && all_digits(digits)) ==> address_of(text) == Err::<
            Seq<u8>,
            Seq<char>,
        >("invalid address "@ + crate::text::debug_text(text) + ": "@ + address_error(text)),
{
    lemma_digits_of(digits, text);
    if digits.len() == 40 && all_digits(digits) && 0 <= i < 20 {
        lemma_decoded_at(digits, i);
    }
}

/// A byte string is read from an even number of hexadecimal digits of either case, with or without
/// a prefix, two digits a byte; anything else is refused with the text.
pub proof fn law_bytes_are_read_digit_by_digit(text: Seq<char>, digits: Seq<char>, i: int)
    requires
        are_digits_of(digits, text),
    ensures
        digits.len() % 2 == 0 && all_digits(digits) ==> bytes_of(text) is Ok && 2 * bytes_of(
            text,
        )->Ok_0.len() == digits.len(),
        digits.len() % 2 == 0 && all_digits(digits) && 0 <= i < digits.len() / 2 ==> bytes_of(
            text,
        )->Ok_0[i] as int == 16 * crate::hex::digit_value(digits[2 * i])
            + crate::hex::digit_value(digits[2 * i + 1]),
        !(digits.len() % 2 == 0 && all_digits(digits)) ==> bytes_of(text) == Err::<
            Seq<u8>,
            Seq<char>,
        >("invalid byte string "@ + crate::text::debug_text(text) + ": "@ + bytes_error(text)),
{
    lemma_digits_of(digits, text);
    if digits.len() % 2 == 0 && all_digits(digits) && 0 <= i < digits.len() / 2 {
        lemma_decoded_at(digits, i);
    }
}

/// A quantity is read from its digits, after a `0x` where it has one, and none at all stand for
/// zero; underscores do not count. What is no number, or none that 256 bits hold, is refused with
/// the text, and so is one that 64 bits do not hold where it has to fit them.
pub proof fn law_quantities_are_read_from_their_digits(text: Seq<char>)
    ensures
        ({
            let digits = if text.len() >= 2 && text[0] == '0' && text[1] == 'x' {
                text.skip(2)
            } else {
                text
            };
            let good = crate::hex::is_numeral(digits) && crate::hex::numeral_value(digits)
                < vstd::arithmetic::power::pow(256, 32);
            let refusal = "invalid hex quantity "@ + crate::text::debug_text(text) + ": "@
                + quantity_error(digits);
            &&& digits.len() == 0 ==> quantity_of(text) == Ok::<int, Seq<char>>(0)
            &&& digits.len() > 0 && good ==> quantity_of(text) == Ok::<int, Seq<char>>(
                crate::hex::numeral_value(digits),
            )
            &&& digits.len() > 0 && !good ==> quantity_of(text) == Err::<int, Seq<char>>(refusal)
            &&& quantity_of(text) is Err ==> small_quantity_of(text) == quantity_of(text)
            &&& quantity_of(text) is Ok && quantity_of(text)->Ok_0 <= u64::MAX
                ==> small_quantity_of(text) == quantity_of(text)
            &&& quantity_of(text) is Ok && quantity_of(text)->Ok_0 > u64::MAX ==> small_quantity_of(
                text,
            ) == Err::<int, Seq<char>>(
                "hex quantity "@ + crate::text::debug_text(text) + " overflows u64"@,
            )
        }),
{
    reveal_strlit("0");
    let zero = "0"@;
    assert(zero.drop_last() =~= Seq::empty());
    assert(crate::hex::numeral_value(zero.drop_last()) == 0);
    assert(crate::hex::numeral_value(zero) == 0);
    assert(vstd::arithmetic::power::pow(256, 32) > 0) by {
        vstd::arithmetic::power::lemma_pow_positive(256, 32);
    }
}

/// Parsing an address gives the bytes that its forty digits stand for, and refuses everything else.
pub proof fn law_parsing_addresses(
    value: &str,
    digits: Seq<char>,
    result: Result<Address, String>,
    i: int,
)
    requires
        call_ensures(parse_address, (value,), result),
        are_digits_of(digits, value@),
    ensures
        result is Ok <==> digits.len() == 40 && all_digits(digits),
        result is Ok && 0 <= i < 20 ==> result->Ok_0@[i] as int == 16 * crate::hex::digit_value(
            digits[2 * i],
        ) + crate::hex::digit_value(digits[2 * i + 1]),
        result is Err ==> result->Err_0@ == "invalid address "@ + crate::text::debug_text(value@)
            + ": "@ + address_error(value@),
{
    law_addresses_are_read_digit_by_digit(value@, digits, i);
}

/// Parsing a byte string gives the bytes that its digits stand for, two a byte, and refuses
/// everything else.
pub proof fn law_parsing_bytes(
    value: &str,
    digits: Seq<char>,
    result: Result<Vec<u8>, String>,
    i: int,
)
    requires
        call_ensures(parse_bytes, (value,), result),
        are_digits_of(digits, value@),
    ensures
        result is Ok <==> digits.len() % 2 == 0 && all_digits(digits),
        result is Ok ==> 2 * result->Ok_0@.len() == digits.len(),
        result is Ok && 0 <= i < digits.len() / 2 ==> result->Ok_0@[i] as int == 16
            * crate::hex::digit_value(digits[2 * i]) + crate::hex::digit_value(digits[2 * i + 1]),
        result is Err ==> result->Err_0@ == "invalid byte string "@ + crate::text::debug_text(
            value@,
        ) + ": "@ + bytes_error(value@),
{
    law_bytes_are_read_digit_by_digit(value@, digits, i);
}

/// Parsing a quantity gives the number that its digits stand for, after a `0x` where it has one;
/// where it has to fit 64 bits, it is refused where it does not.
pub proof fn law_parsing_quantities(
    value: &str,
    digits: Seq<char>,
    word: Result<Word, String>,
    number: Result<u64, String>,
)
    requires
        call_ensures(parse_u256, (value,), word),
        call_ensures(parse_u64, (value,), number),
        digits.len() > 0,
        value@ == seq!['0', 'x'] + digits || value@ == digits && !(digits.len() >= 2 && digits[0]
            == '0' && digits[1] == 'x'),
    ensures
        word is Ok <==> crate::hex::is_numeral(digits) && crate::hex::numeral_value(digits)
            < vstd::arithmetic::power::pow(256, 32),
        word is Ok ==> word->Ok_0.value() == crate::hex::numeral_value(digits),
        word is Err ==> word->Err_0@ == "invalid hex quantity "@ + crate::text::debug_text(value@)
            + ": "@ + quantity_error(digits),
        number is Ok <==> word is Ok && crate::hex::numeral_value(digits) <= u64::MAX,
        number is Ok ==> number->Ok_0 == crate::hex::numeral_value(digits),
        number is Err && word is Ok ==> number->Err_0@ == "hex quantity "@
            + crate::text::debug_text(value@) + " overflows u64"@,
        number is Err && word is Err ==> number->Err_0@ == word->Err_0@,
{
    law_quantities_are_read_from_their_digits(value@);
    if value@ == seq!['0', 'x'] + digits {
        assert(value@[0] == '0' && value@[1] == 'x');
        assert(value@.skip(2) =~= digits);
    }
}

} // verus!
