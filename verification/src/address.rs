//! Contract addresses: elements of the Starknet prime field.

use std::str::FromStr;

use crate::text::strip_prefix;
use starknet_crypto::Felt;
use vstd::prelude::*;

verus! {

/// The upper half of the field's prime, 2^251 + 17 * 2^192 + 1.
pub const PRIME_HIGH: u128 = 0x0800_0000_0000_0011_0000_0000_0000_0000;

/// The lower half of the field's prime.
pub const PRIME_LOW: u128 = 1;

/// The number with these upper and lower 128 bits.
pub open spec fn wide(high: u128, low: u128) -> nat {
    (high * 0x1_0000_0000_0000_0000_0000_0000_0000_0000 + low) as nat
}

/// The field's prime: addresses are the numbers below it.
pub open spec fn felt_prime() -> nat {
    wide(PRIME_HIGH, PRIME_LOW)
}

/// The lower case hexadecimal digit for a number below 16.
pub open spec fn hex_digit(value: nat) -> char {
    if value < 10 {
        ('0' as u32 + value) as char
    } else {
        ('a' as u32 + (value - 10)) as char
    }
}

/// A number in lower case hexadecimal, without leading zeros.
pub open spec fn hex_digits(value: nat) -> Seq<char>
    decreases value,
{
    if value < 16 {
        seq![hex_digit(value)]
    } else {
        hex_digits(value / 16).push(hex_digit(value % 16))
    }
}

/// The text of an address in answers: `0x` and its hexadecimal digits.
pub open spec fn hex_text(value: nat) -> Seq<char> {
    seq!['0', 'x'] + hex_digits(value)
}

/// What a digit stands for, in either case.
pub open spec fn digit_value(digit: char) -> Option<nat> {
    if '0' <= digit <= '9' {
        Some((digit as u32 - '0' as u32) as nat)
    } else if 'a' <= digit <= 'f' {
        Some((digit as u32 - 'a' as u32 + 10) as nat)
    } else if 'A' <= digit <= 'F' {
        Some((digit as u32 - 'A' as u32 + 10) as nat)
    } else {
        None
    }
}

/// The number that a row of digits stands for in a base; none where one of the
/// characters is no digit of that base.
pub open spec fn numeral_value(digits: Seq<char>, base: nat) -> Option<nat>
    decreases digits.len(),
{
    if digits.len() == 0 {
        Some(0)
    } else {
        match (numeral_value(digits.drop_last(), base), digit_value(digits.last())) {
            (Some(front), Some(digit)) if digit < base => Some(front * base + digit),
            _ => None,
        }
    }
}

/// The message of a text that is not read as an address.
pub open spec fn unreadable(cause: Seq<char>) -> Result<nat, Seq<char>> {
    Err("failed to create Felt from string: "@ + cause)
}

/// What a text is read as: hexadecimal behind `0x`, with up to 64 digits and up
/// to the prime itself; or else decimal, with or without a minus sign, below
/// 2^256. Numbers count modulo the prime. The error is a message.
pub open spec fn read_address(text: Seq<char>) -> Result<nat, Seq<char>> {
    if "0x"@.is_prefix_of(text) {
        match numeral_value(text.skip(2), 16) {
            Some(value) => if text.len() == 2 {
                unreadable("invalid hex string"@)
            } else if text.len() > 66 {
                unreadable("hex string too big"@)
            } else if value > felt_prime() {
                unreadable("representative out of range"@)
            } else {
                Ok(value % felt_prime())
            },
            None => unreadable("invalid hex string"@),
        }
    } else {
        let negative = "-"@.is_prefix_of(text);
        let digits = if negative {
            text.skip(1)
        } else {
            text
        };
        match numeral_value(digits, 10) {
            Some(value) => if digits.len() == 0 || value >= two_to_the_256() {
                unreadable("invalid dec string"@)
            } else if negative {
                Ok(((felt_prime() - value % felt_prime()) % felt_prime() as int) as nat)
            } else {
                Ok(value % felt_prime())
            },
            None => unreadable("invalid dec string"@),
        }
    }
}

/// 2^256.
pub open spec fn two_to_the_256() -> nat {
    0x1_0000_0000_0000_0000_0000_0000_0000_0000_0000_0000_0000_0000_0000_0000_0000_0000nat
}

/// A row of digits without its leading zeros.
pub open spec fn without_zeros(digits: Seq<char>) -> Seq<char>
    decreases digits.len(),
{
    if digits.len() > 0 && digits[0] == '0' {
        without_zeros(digits.skip(1))
    } else {
        digits
    }
}

/// The first 77 of the 78 decimal digits of 2^256.
pub open spec fn decimal_brink() -> Seq<char> {
    "11579208923731619542357098500868790785326998466564056403945758400791312963993"@
}

/// Whether a decimal text, with or without a sign, begins with one of the four
/// numerals from 2^256 on that ten times a 256 bit number and one digit can
/// reach. The field's own parser overflows on them.
pub open spec fn decimal_overflows(text: Seq<char>) -> bool {
    let unsigned = if text.len() > 0 && text[0] == '-' {
        text.skip(1)
    } else {
        text
    };
    let digits = without_zeros(unsigned);
    &&& digits.len() >= 78
    &&& digits.take(77) == decimal_brink()
    &&& '6' <= digits[77] <= '9'
}

/// Whether a text is one of the decimal texts that no address may be read from.
pub fn overflows_as_decimal(text: &str) -> (overflows: bool)
    ensures
        overflows == decimal_overflows(text@),
{
    let len: usize = text.unicode_len();
    let mut start: usize = 0;
    if len > 0 && text.get_char(0) == '-' {
        start = 1;
    }
    let ghost unsigned = text@.skip(start as int);
    assert(start == 0 ==> unsigned =~= text@);
    while start < len && text.get_char(start) == '0'
        invariant
            start <= len,
            len == text@.len(),
            without_zeros(unsigned) == without_zeros(text@.skip(start as int)),
        decreases len - start,
    {
        assert(text@.skip(start as int)[0] == text@[start as int]);
        assert(text@.skip(start as int).skip(1) =~= text@.skip(start + 1));
        start = start + 1;
    }
    let digits = text.substring_char(start, len);
    assert(digits@ =~= text@.skip(start as int));
    assert(without_zeros(unsigned) == digits@);
    let brink = "11579208923731619542357098500868790785326998466564056403945758400791312963993";
    proof {
        reveal_strlit(
            "11579208923731619542357098500868790785326998466564056403945758400791312963993",
        );
        assert(decimal_brink().len() == 77);
    }
    match strip_prefix(digits, brink) {
        Some(rest) => {
            assert(digits@.take(77) =~= decimal_brink());
            if rest.is_empty() {
                false
            } else {
                let next = rest.get_char(0);
                assert(next == digits@[77]);
                '6' <= next && next <= '9'
            }
        },
        None => {
            proof {
                if digits@.len() >= 78 && digits@.take(77) == decimal_brink() {
                    assert(decimal_brink().is_prefix_of(digits@));
                }
            }
            false
        },
    }
}

/// Calls `starknet_crypto::Felt::from_str` and hands out the upper and lower
/// 128 bits of the number that it reads, or the message of its error.
///
/// Believed of it: it reads a text as `read_address` says, with these messages
/// for what it refuses. It is not called on the decimal texts on which its
/// addition overflows.
#[verifier::external_body]
fn parse_felt(text: &str) -> (result: Result<(u128, u128), String>)
    requires
        !decimal_overflows(text@),
    ensures
        match result {
            Ok(parts) => read_address(text@) == Ok::<nat, Seq<char>>(wide(parts.0, parts.1)),
            Err(message) => read_address(text@) == Err::<nat, Seq<char>>(message@),
        },
{
    let felt = Felt::from_str(text).map_err(|error| error.to_string())?;
    let bytes = felt.to_bytes_be();
    let high = u128::from_be_bytes(bytes[..16].try_into().unwrap());
    let low = u128::from_be_bytes(bytes[16..].try_into().unwrap());
    Ok((high, low))
}

/// Formats the field element with these upper and lower 128 bits by
/// `format!("{:#x}", felt)`, that is by `LowerHex` for `starknet_crypto::Felt`.
///
/// Believed of it: the text is `0x` and the number's hexadecimal digits, in
/// lower case and without leading zeros.
#[verifier::external_body]
fn format_felt(high: u128, low: u128) -> (text: String)
    requires
        wide(high, low) < felt_prime(),
    ensures
        text@ == hex_text(wide(high, low)),
{
    let mut bytes = [0u8; 32];
    bytes[..16].copy_from_slice(&high.to_be_bytes());
    bytes[16..].copy_from_slice(&low.to_be_bytes());
    format!("{:#x}", Felt::from_bytes_be(&bytes))
}

/// A contract address: a number below the field's prime.
#[derive(Debug, Clone, Copy, PartialEq, Eq)]
pub struct Address {
    high: u128,
    low: u128,
}

impl View for Address {
    type V = nat;

    closed spec fn view(&self) -> nat {
        wide(self.high, self.low)
    }
}

impl Address {
    #[verifier::type_invariant]
    spec fn below_prime(self) -> bool {
        wide(self.high, self.low) < felt_prime()
    }

    /// The address with these upper and lower 128 bits; none from the prime on.
    pub fn new(high: u128, low: u128) -> (address: Option<Address>)
        ensures
            match address {
                Some(address) => address@ == wide(high, low) && wide(high, low) < felt_prime(),
                None => wide(high, low) >= felt_prime(),
            },
    {
        if high < PRIME_HIGH || (high == PRIME_HIGH && low < PRIME_LOW) {
            Some(Address { high, low })
        } else {
            None
        }
    }

    /// The upper and lower 128 bits.
    pub fn parts(&self) -> (parts: (u128, u128))
        ensures
            wide(parts.0, parts.1) == self@,
            self@ < felt_prime(),
    {
        proof {
            use_type_invariant(self);
        }
        (self.high, self.low)
    }

    /// Whether two addresses are the same number.
    pub fn same(&self, other: &Address) -> (same: bool)
        ensures
            same == (self@ == other@),
    {
        self.high == other.high && self.low == other.low
    }

    /// The address in hexadecimal.
    pub fn to_hex(&self) -> (text: String)
        ensures
            text@ == hex_text(self@),
    {
        proof {
            use_type_invariant(self);
        }
        format_felt(self.high, self.low)
    }

    /// Reads an address from hexadecimal (behind `0x`) or decimal text; the
    /// error is the field's own message.
    pub fn parse(text: &str) -> (result: Result<Address, String>)
        requires
            !decimal_overflows(text@),
        ensures
            crate::text::result_view(result) == read_address(text@),
    {
        match parse_felt(text) {
            Ok(parts) => Ok(Address { high: parts.0, low: parts.1 }),
            Err(message) => Err(message),
        }
    }
}

/// The hexadecimal digits of a number read as that number.
proof fn lemma_hex_digits_value(value: nat)
    ensures
        numeral_value(hex_digits(value), 16) == Some(value),
        hex_digits(value).len() > 0,
    decreases value,
{
    let digits = hex_digits(value);
    assert(digit_value(hex_digit(value % 16)) == Some(value % 16));
    if value < 16 {
        assert(digits.drop_last() =~= Seq::<char>::empty());
        assert(numeral_value(digits.drop_last(), 16) == Some(0nat));
    } else {
        lemma_hex_digits_value(value / 16);
        assert(digits.drop_last() =~= hex_digits(value / 16));
        assert(value / 16 * 16 + value % 16 == value);
    }
}

/// A number below 16^count has at most `count` hexadecimal digits.
proof fn lemma_hex_digits_len(value: nat, count: nat)
    requires
        count > 0,
        value < vstd::arithmetic::power::pow(16, count),
    ensures
        hex_digits(value).len() <= count,
    decreases count,
{
    reveal(vstd::arithmetic::power::pow);
    if value >= 16 {
        let rest = vstd::arithmetic::power::pow(16, (count - 1) as nat);
        assert(vstd::arithmetic::power::pow(16, count) == 16 * rest);
        assert(vstd::arithmetic::power::pow(16, 0) == 1);
        lemma_hex_digits_len(value / 16, (count - 1) as nat);
    }
}

/// The text that an address is shown as reads back as that address.
pub proof fn law_shown_address_reads_back(value: nat)
    requires
        value < felt_prime(),
    ensures
        !decimal_overflows(hex_text(value)),
        read_address(hex_text(value)) == Ok::<nat, Seq<char>>(value),
{
    let text = hex_text(value);
    lemma_hex_digits_value(value);
    assert(value < vstd::arithmetic::power::pow(16, 64)) by {
        let quarter = vstd::arithmetic::power::pow(16, 16);
        let half = vstd::arithmetic::power::pow(16, 32);
        reveal_with_fuel(vstd::arithmetic::power::pow, 17);
        vstd::arithmetic::power::lemma_pow_adds(16, 16, 16);
        vstd::arithmetic::power::lemma_pow_adds(16, 32, 32);
        assert(half == 0x1_0000_0000_0000_0000_0000_0000_0000_0000) by (nonlinear_arith)
            requires
                quarter == 0x1_0000_0000_0000_0000,
                half == quarter * quarter,
        ;
        assert(felt_prime() < half * half) by (nonlinear_arith)
            requires
                half == 0x1_0000_0000_0000_0000_0000_0000_0000_0000,
        ;
    }
    lemma_hex_digits_len(value, 64);
    assert(text.skip(2) =~= hex_digits(value));
    reveal_strlit("0x");
    assert("0x"@.is_prefix_of(text));
    vstd::arithmetic::div_mod::lemma_small_mod(value, felt_prime());
    assert(without_zeros(text) == text.skip(1)) by {
        assert(text.skip(1)[0] == 'x');
        assert(without_zeros(text.skip(1)) == text.skip(1));
    }
    reveal_strlit("11579208923731619542357098500868790785326998466564056403945758400791312963993");
    assert(text.skip(1).len() >= 77 ==> text.skip(1).take(77)[0] == 'x');
}

/// A number is its upper 128 bits times 2^128 and its lower 128 bits, the prime is
/// 2^251 + 17 * 2^192 + 1, and decimal texts are read below 2^256.
pub proof fn law_numbers_of_the_field(high: u128, low: u128)
    ensures
        wide(high, low) == high * 340282366920938463463374607431768211456 + low,
        felt_prime()
            == 3618502788666131213697322783095070105623107215331596699973092056135872020481,
        two_to_the_256()
            == 115792089237316195423570985008687907853269984665640564039457584007913129639936,
{
}

/// An address is the number that its two halves make up.
proof fn law_address_is_made_of_its_halves(address: Address)
    ensures
        address@ == address.high * 340282366920938463463374607431768211456 + address.low,
{
}

/// There is an address for just the numbers below the prime. It gives back the
/// halves that it was made of, and two addresses are the same just where their
/// numbers are.
pub proof fn law_addresses_are_the_numbers_below_the_prime(
    high: u128,
    low: u128,
    address: &Address,
    other: &Address,
)
    ensures
        forall|made: Option<Address>| #[trigger]
            call_ensures(Address::new, (high, low), made) ==> {
                let value = high * 340282366920938463463374607431768211456 + low;
                &&& made is Some <==> value
                    < 3618502788666131213697322783095070105623107215331596699973092056135872020481
                &&& made is Some ==> made->0@ == value
            },
        forall|parts: (u128, u128)| #[trigger]
            call_ensures(Address::parts, (address,), parts) ==> {
                &&& parts.0 * 340282366920938463463374607431768211456 + parts.1 == address@
                &&& address@
                    < 3618502788666131213697322783095070105623107215331596699973092056135872020481
            },
        forall|same: bool| #[trigger]
            call_ensures(Address::same, (address, other), same) ==> (same <==> address@ == other@),
{
}

/// Whether a character is the digit for a number, in either case.
pub open spec fn stands_for(digit: char, value: nat) -> bool {
    ||| value < 10 && digit == (48 + value) as char
    ||| 10 <= value < 16 && digit == (87 + value) as char
    ||| 10 <= value < 16 && digit == (55 + value) as char
}

/// Whether a character is no digit of a base.
pub open spec fn no_digit(digit: char, base: nat) -> bool {
    forall|value: nat| value < base ==> !#[trigger] stands_for(digit, value)
}

/// Whether a text is these digits, in either case.
pub open spec fn spells(text: Seq<char>, digits: Seq<nat>) -> bool {
    &&& text.len() == digits.len()
    &&& forall|i: int| 0 <= i < text.len() ==> stands_for(#[trigger] text[i], digits[i])
}

/// The number with these digits in a base.
pub open spec fn positional(digits: Seq<nat>, base: nat) -> nat {
    digits.fold_left(0, |front: nat, digit: nat| front * base + digit)
}

/// A row of digits stands for the number with these digits in its base, and a row
/// that holds anything else for none.
pub proof fn law_digits_count_by_their_place(text: Seq<char>, digits: Seq<nat>, base: nat)
    requires
        base <= 16,
    ensures
        spells(text, digits) && (forall|i: int| 0 <= i < digits.len() ==> #[trigger] digits[i] < base)
            ==> numeral_value(text, base) == Some(positional(digits, base)),
        (exists|i: int|
            0 <= i < text.len() && no_digit(#[trigger] text[i], base)) ==> numeral_value(text, base)
            is None,
    decreases text.len(),
{
    if spells(text, digits) && (forall|i: int|
        0 <= i < digits.len() ==> #[trigger] digits[i] < base) {
        if text.len() > 0 {
            let front = digits.drop_last();
            assert forall|i: int| 0 <= i < text.drop_last().len() implies stands_for(
                #[trigger] text.drop_last()[i],
                front[i],
            ) by {
                assert(text.drop_last()[i] == text[i]);
            }
            assert forall|i: int| 0 <= i < front.len() implies #[trigger] front[i] < base by {
                assert(front[i] == digits[i]);
            }
            law_digits_count_by_their_place(text.drop_last(), front, base);
            assert(stands_for(text[text.len() - 1], digits[digits.len() - 1]));
            assert(digits[digits.len() - 1] < base);
            assert(digit_value(text.last()) == Some(digits.last()));
        }
    }
    if exists|i: int|
        0 <= i < text.len() && no_digit(#[trigger] text[i], base) {
        let i = choose|i: int|
            0 <= i < text.len() && no_digit(#[trigger] text[i], base);
        if i < text.len() - 1 {
            assert(text.drop_last()[i] == text[i]);
            law_digits_count_by_their_place(text.drop_last(), digits, base);
        } else {
            let last = digit_value(text.last());
            if last is Some && last->0 < base {
                assert(stands_for(text[i], last->0));
            }
        }
    }
}

/// Behind `0x`, up to 64 hexadecimal digits in either case are read as the number
/// that they stand for, below the prime, and the prime itself as zero. Anything
/// more, and anything that is not a digit, is refused with the reason.
pub proof fn law_hexadecimal_is_read_by_its_digits(text: Seq<char>, digits: Seq<nat>)
    ensures
        ({
            let value = positional(digits, 16);
            let read = read_address("0x"@ + text);
            let prime =
                3618502788666131213697322783095070105623107215331596699973092056135872020481nat;
            &&& spells(text, digits) && 1 <= text.len() <= 64 && value < prime ==> read == Ok::<
                nat,
                Seq<char>,
            >(value)
            &&& spells(text, digits) && 1 <= text.len() <= 64 && value == prime ==> read == Ok::<
                nat,
                Seq<char>,
            >(0)
            &&& spells(text, digits) && 1 <= text.len() <= 64 && value > prime ==> read == Err::<
                nat,
                Seq<char>,
            >("failed to create Felt from string: "@ + "representative out of range"@)
            &&& spells(text, digits) && text.len() > 64 ==> read == Err::<nat, Seq<char>>(
                "failed to create Felt from string: "@ + "hex string too big"@,
            )
            &&& text.len() == 0 ==> read == Err::<nat, Seq<char>>(
                "failed to create Felt from string: "@ + "invalid hex string"@,
            )
            &&& (exists|i: int|
                0 <= i < text.len() && no_digit(#[trigger] text[i], 16)) ==> read == Err::<
                nat,
                Seq<char>,
            >("failed to create Felt from string: "@ + "invalid hex string"@)
        }),
{
    let whole = "0x"@ + text;
    let value = positional(digits, 16);
    reveal_strlit("0x");
    assert("0x"@.is_prefix_of(whole));
    assert(whole.skip(2) =~= text);
    if spells(text, digits) {
        assert forall|i: int| 0 <= i < digits.len() implies #[trigger] digits[i] < 16 by {
            assert(stands_for(text[i], digits[i]));
        }
    }
    law_digits_count_by_their_place(text, digits, 16);
    if value < felt_prime() {
        vstd::arithmetic::div_mod::lemma_small_mod(value, felt_prime());
    }
    assert(felt_prime() % felt_prime() == 0) by {
        vstd::arithmetic::div_mod::lemma_mod_self_0(felt_prime() as int);
    }
}

/// Decimal digits below 2^256 are read as the number that they stand for, modulo
/// the prime, and behind a minus sign as what is left of the prime. No digits at
/// all, a larger number, and anything that is not a digit are refused.
pub proof fn law_decimal_is_read_by_its_digits(text: Seq<char>, digits: Seq<nat>)
    ensures
        ({
            let value = positional(digits, 10);
            let decimal = spells(text, digits) && forall|i: int|
                0 <= i < digits.len() ==> #[trigger] digits[i] < 10;
            let read = read_address(text);
            let negative = read_address("-"@ + text);
            let refused = Err::<nat, Seq<char>>(
                "failed to create Felt from string: "@ + "invalid dec string"@,
            );
            let prime =
                3618502788666131213697322783095070105623107215331596699973092056135872020481nat;
            let limit =
                115792089237316195423570985008687907853269984665640564039457584007913129639936nat;
            &&& decimal && text.len() > 0 && value < limit ==> read == Ok::<nat, Seq<char>>(
                value % prime,
            )
            &&& decimal && text.len() > 0 && value < limit ==> negative is Ok && negative->Ok_0
                < prime && (negative->Ok_0 + value) % prime == 0
            &&& decimal && value >= limit ==> read == refused && negative == refused
            &&& text.len() == 0 ==> read == refused && negative == refused
            &&& (exists|i: int| 0 <= i < text.len() && no_digit(#[trigger] text[i], 10)) ==> {
                &&& negative == refused
                &&& !("0x"@.is_prefix_of(text)) && !("-"@.is_prefix_of(text)) ==> read == refused
            }
        }),
{
    let value = positional(digits, 10);
    let whole = "-"@ + text;
    let prime = felt_prime();
    reveal_strlit("0x");
    reveal_strlit("-");
    assert(whole[0] == '-');
    assert(!("0x"@.is_prefix_of(whole)));
    assert("-"@.is_prefix_of(whole));
    assert(whole.skip(1) =~= text);
    law_digits_count_by_their_place(text, digits, 10);
    let decimal = spells(text, digits) && forall|i: int|
        0 <= i < digits.len() ==> #[trigger] digits[i] < 10;
    if decimal && text.len() > 0 {
        assert(stands_for(text[0], digits[0]) && digits[0] < 10);
        assert(text[0] != '-');
        if "0x"@.is_prefix_of(text) {
            assert("0x"@[1] == text[1]);
            assert(stands_for(text[1], digits[1]) && digits[1] < 10);
        }
    }
    let rest = (prime - value % prime) % prime as int;
    assert(0 <= rest < prime && (rest + value) % prime as int == 0) by {
        vstd::arithmetic::div_mod::lemma_mod_bound(prime - value % prime, prime as int);
        vstd::arithmetic::div_mod::lemma_add_mod_noop(
            prime - value % prime,
            value as int,
            prime as int,
        );
        vstd::arithmetic::div_mod::lemma_add_mod_noop(rest, value as int, prime as int);
        vstd::arithmetic::div_mod::lemma_mod_twice(prime - value % prime, prime as int);
        vstd::arithmetic::div_mod::lemma_fundamental_div_mod(value as int, prime as int);
        let times = value as int / prime as int;
        assert(prime - value % prime + value == prime * (1 + times)) by (nonlinear_arith)
            requires
                value as int == prime * times + value as int % prime as int,
        ;
        vstd::arithmetic::div_mod::lemma_mod_multiples_basic(1 + times, prime as int);
        assert((1 + times) * prime == prime * (1 + times)) by (nonlinear_arith);
    }
}

/// An address is shown as `0x` and lower case hexadecimal digits that stand for
/// its number, without leading zeros: there is but one such text.
pub proof fn law_shown_digits_stand_for_the_address(address: &Address)
    ensures
        forall|text: String| #[trigger]
            call_ensures(Address::to_hex, (address,), text) ==> shows(text@, address@),
        shows(hex_text(address@), address@),
{
    lemma_shows(address@);
}

/// Whether a text is `0x` and lower case hexadecimal digits that stand for a
/// number, the first of them zero only where it is the only one.
pub open spec fn shows(text: Seq<char>, value: nat) -> bool {
    exists|digits: Seq<nat>|
        {
            &&& text.len() == digits.len() + 2
            &&& text[0] == '0'
            &&& text[1] == 'x'
            &&& digits.len() > 0
            &&& forall|i: int|
                0 <= i < digits.len() ==> (#[trigger] digits[i]) < 16 && text[i + 2] == (
                if digits[i] < 10 {
                    (48 + digits[i]) as char
                } else {
                    (87 + digits[i]) as char
                })
            &&& #[trigger] positional(digits, 16) == value
            &&& digits[0] == 0 ==> digits.len() == 1
        }
}

proof fn lemma_hex_places(value: nat) -> (digits: Seq<nat>)
    ensures
        digits.len() == hex_digits(value).len(),
        digits.len() > 0,
        forall|i: int|
            0 <= i < digits.len() ==> (#[trigger] digits[i]) < 16 && hex_digits(value)[i]
                == (if digits[i] < 10 {
                (48 + digits[i]) as char
            } else {
                (87 + digits[i]) as char
            }),
        positional(digits, 16) == value,
        digits[0] == 0 ==> value == 0 && digits.len() == 1,
    decreases value,
{
    let step = |front: nat, digit: nat| front * 16 + digit;
    if value < 16 {
        let digits = seq![value];
        assert(digits.drop_last() =~= Seq::<nat>::empty());
        assert(digits.drop_last().fold_left(0nat, step) == 0nat);
        assert(digits.fold_left(0nat, step) == step(0nat, value));
        digits
    } else {
        let front = lemma_hex_places(value / 16);
        let digits = front.push(value % 16);
        assert(digits.drop_last() =~= front);
        assert(digits.fold_left(0nat, step) == step(front.fold_left(0nat, step), value % 16));
        assert(digits[0] == front[0]);
        digits
    }
}

/// A number is shown by its digits.
pub proof fn lemma_shows(value: nat)
    ensures
        shows(hex_text(value), value),
{
    let digits = lemma_hex_places(value);
    assert(positional(digits, 16) == value);
    let text = hex_text(value);
    assert forall|i: int| 0 <= i < digits.len() implies (#[trigger] digits[i]) < 16 && text[i
        + 2] == (if digits[i] < 10 {
        (48 + digits[i]) as char
    } else {
        (87 + digits[i]) as char
    }) by {
        assert(text[i + 2] == hex_digits(value)[i]);
    }
}

/// Different numbers are shown differently.
pub proof fn law_shown_addresses_can_be_told_apart(value: nat, other: nat)
    requires
        hex_text(value) == hex_text(other),
    ensures
        value == other,
{
    lemma_hex_digits_value(value);
    lemma_hex_digits_value(other);
    assert(hex_text(value).skip(2) =~= hex_digits(value));
    assert(hex_text(other).skip(2) =~= hex_digits(other));
}

/// A text is parsed to the address that it reads as, or to the reason why it does
/// not.
pub proof fn law_parsed_address_is_what_was_read(text: &str)
    ensures
        forall|result: Result<Address, String>| #[trigger]
            call_ensures(Address::parse, (text,), result) ==> {
                &&& result is Ok <==> read_address(text@) is Ok
                &&& result is Ok ==> result->Ok_0@ == read_address(text@)->Ok_0
                &&& result is Err ==> result->Err_0@ == read_address(text@)->Err_0
            },
{
    assert forall|result: Result<Address, String>| #[trigger]
        call_ensures(Address::parse, (text,), result) implies {
        &&& result is Ok <==> read_address(text@) is Ok
        &&& result is Ok ==> result->Ok_0@ == read_address(text@)->Ok_0
        &&& result is Err ==> result->Err_0@ == read_address(text@)->Err_0
    } by {
        crate::text::law_result_view_keeps_the_kind(result);
    }
}

/// Whether, behind a minus sign or none and any zeros, the first 77 digits of 2^256
/// stand here and a digit above its last but one follows.
pub open spec fn brink_at(text: Seq<char>, start: int) -> bool {
    &&& 0 <= start
    &&& start + 78 <= text.len()
    &&& forall|i: int| 0 <= i < start ==> #[trigger] text[i] == '0' || (i == 0 && text[i] == '-')
    &&& text.subrange(start, start + 77)
        == "11579208923731619542357098500868790785326998466564056403945758400791312963993"@
    &&& '6' <= text[start + 77] <= '9'
}

proof fn lemma_without_zeros(digits: Seq<char>) -> (count: int)
    ensures
        0 <= count <= digits.len(),
        forall|i: int| 0 <= i < count ==> #[trigger] digits[i] == '0',
        count < digits.len() ==> digits[count] != '0',
        without_zeros(digits) == digits.skip(count),
    decreases digits.len(),
{
    if digits.len() > 0 && digits[0] == '0' {
        let rest = digits.skip(1);
        let count = lemma_without_zeros(rest);
        assert forall|i: int| 0 <= i < count + 1 implies #[trigger] digits[i] == '0' by {
            if i > 0 {
                assert(digits[i] == rest[i - 1]);
            }
        }
        assert(rest.skip(count) =~= digits.skip(count + 1));
        count + 1
    } else {
        assert(digits.skip(0) =~= digits);
        0
    }
}

/// The decimal texts that no address may be read from are just those that reach
/// 2^256 in their 78th digit.
pub proof fn law_overflow_is_at_the_brink(text: &str)
    ensures
        forall|overflows: bool| #[trigger]
            call_ensures(overflows_as_decimal, (text,), overflows) ==> (overflows <==> exists|
                start: int,
            | #[trigger] brink_at(text@, start)),
{
    lemma_overflow_is_at_the_brink(text@);
}

proof fn lemma_overflow_is_at_the_brink(text: Seq<char>)
    ensures
        decimal_overflows(text) <==> exists|start: int| #[trigger] brink_at(text, start),
{
    reveal_strlit("11579208923731619542357098500868790785326998466564056403945758400791312963993");
    let sign: int = if text.len() > 0 && text[0] == '-' {
        1
    } else {
        0
    };
    let unsigned = text.skip(sign);
    assert(text.skip(0) =~= text);
    let count = lemma_without_zeros(unsigned);
    let digits = without_zeros(unsigned);
    assert(digits =~= text.skip(sign + count));
    if decimal_overflows(text) {
        let start = sign + count;
        assert(text.subrange(start, start + 77) =~= digits.take(77));
        assert forall|i: int| 0 <= i < start implies #[trigger] text[i] == '0' || (i == 0 && text[i]
            == '-') by {
            if i >= sign {
                assert(text[i] == unsigned[i - sign]);
            }
        }
        assert(text[start + 77] == digits[77]);
        assert(brink_at(text, start));
    }
    if exists|start: int| #[trigger] brink_at(text, start) {
        let start = choose|start: int| #[trigger] brink_at(text, start);
        let brink = text.subrange(start, start + 77);
        assert(brink[0] == '1');
        assert(text[start] == '1');
        assert(start >= sign);
        if start < sign + count {
            assert(unsigned[start - sign] == text[start]);
        }
        if start > sign + count {
            assert(unsigned[count] == text[sign + count]);
        }
        assert(start == sign + count);
        assert(digits.take(77) =~= brink);
        assert(digits[77] == text[start + 77]);
    }
}

} // verus!
