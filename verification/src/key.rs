//! Record keys: decimal numerals that count up.

use crate::store::pairs_view;
use vstd::prelude::*;
use vstd::utf8::*;

verus! {

/// The byte `b` is one of the ASCII digits `0` to `9`.
pub open spec fn is_digit(b: u8) -> bool {
    48 <= b <= 57
}

/// Every byte of `s` is an ASCII digit.
pub open spec fn all_digits(s: Seq<u8>) -> bool {
    forall|i: int| 0 <= i < s.len() ==> is_digit(#[trigger] s[i])
}

/// The number that the digits `s` spell in base ten, the first digit weighing most.
pub open spec fn digits_value(s: Seq<u8>) -> nat
    decreases s.len(),
{
    if s.len() == 0 {
        0
    } else {
        digits_value(s.drop_last()) * 10 + (s.last() - 48) as nat
    }
}

/// The digits of a key: the key itself, or what follows one leading `+`.
pub open spec fn digits_of(key: Seq<u8>) -> Seq<u8> {
    if key.len() > 0 && key[0] == 43 {
        key.skip(1)
    } else {
        key
    }
}

/// The number that a key denotes: an optional `+`, then one or more decimal digits that spell a
/// number of at most 64 bits. Any other key denotes none.
pub open spec fn number_of(key: Seq<u8>) -> Option<u64> {
    let digits = digits_of(key);
    if digits.len() > 0 && all_digits(digits) && digits_value(digits) <= u64::MAX {
        Some(digits_value(digits) as u64)
    } else {
        None
    }
}

/// The character for the digit `d`.
pub open spec fn digit_char(d: nat) -> char {
    ((d + 48) as u8) as char
}

/// The decimal numeral of `n`, without leading zeros.
pub open spec fn decimal(n: nat) -> Seq<char>
    decreases n,
{
    if n < 10 {
        seq![digit_char(n)]
    } else {
        decimal(n / 10).push(digit_char(n % 10))
    }
}

/// The bytes of the decimal numeral of `n`.
pub open spec fn decimal_bytes(n: nat) -> Seq<u8>
    decreases n,
{
    if n < 10 {
        seq![(n + 48) as u8]
    } else {
        decimal_bytes(n / 10).push((n % 10 + 48) as u8)
    }
}

/// The greatest number that a key of a listing denotes, and 0 where none denotes a number.
pub open spec fn greatest_in(listing: Seq<(Seq<u8>, Seq<u8>)>) -> u64
    decreases listing.len(),
{
    if listing.len() == 0 {
        0
    } else {
        let front = greatest_in(listing.drop_last());
        match number_of(listing.last().0) {
            Some(n) => if n > front {
                n
            } else {
                front
            },
            None => front,
        }
    }
}

/// The number of the key that follows, where `greatest` is the greatest number in use: one
/// more. There is none after the greatest number of 64 bits.
pub open spec fn next_number(greatest: u64) -> Option<u64> {
    if greatest < u64::MAX {
        Some((greatest + 1) as u64)
    } else {
        None
    }
}

/// No key of a listing denotes a greater number than `greatest_in` gives, and one of them
/// denotes that number unless it is 0.
pub proof fn lemma_greatest_in(listing: Seq<(Seq<u8>, Seq<u8>)>)
    ensures
        forall|i: int|
            0 <= i < listing.len() ==> (number_of((#[trigger] listing[i]).0) matches Some(n) ==> n
                <= greatest_in(listing)),
        greatest_in(listing) == 0 || exists|i: int|
            0 <= i < listing.len() && number_of((#[trigger] listing[i]).0) == Some(
                greatest_in(listing),
            ),
    decreases listing.len(),
{
    if listing.len() > 0 {
        let front = listing.drop_last();
        lemma_greatest_in(front);
        assert forall|i: int| 0 <= i < listing.len() implies (number_of(
            (#[trigger] listing[i]).0,
        ) matches Some(n) ==> n <= greatest_in(listing)) by {
            if i < listing.len() - 1 {
                assert(front[i] == listing[i]);
            }
        }
        if greatest_in(listing) != 0 {
            if number_of(listing.last().0) == Some(greatest_in(listing)) {
                assert(listing[listing.len() - 1] == listing.last());
            } else {
                let i = choose|i: int|
                    0 <= i < front.len() && number_of((#[trigger] front[i]).0) == Some(
                        greatest_in(front),
                    );
                assert(front[i] == listing[i]);
            }
        }
    }
}

/// A longer run of digits spells no smaller number than its beginning.
pub proof fn lemma_digits_value_grows(s: Seq<u8>, n: int)
    requires
        0 <= n <= s.len(),
    ensures
        digits_value(s.take(n)) <= digits_value(s),
    decreases s.len(),
{
    if n == s.len() {
        assert(s.take(n) == s);
    } else {
        lemma_digits_value_grows(s.drop_last(), n);
        assert(s.drop_last().take(n) == s.take(n));
    }
}

/// The decimal numeral is made of digits, and they spell the number.
pub proof fn lemma_decimal_bytes_spell(n: nat)
    ensures
        decimal_bytes(n).len() > 0,
        all_digits(decimal_bytes(n)),
        digits_value(decimal_bytes(n)) == n,
        decimal_bytes(n)[0] != 43,
    decreases n,
{
    if n < 10 {
        assert(digits_value(decimal_bytes(n).drop_last()) == 0);
    } else {
        lemma_decimal_bytes_spell(n / 10);
        assert(decimal_bytes(n).drop_last() == decimal_bytes(n / 10));
    }
}

/// A key written by `format_key` denotes the number it was written for.
pub proof fn lemma_number_of_decimal(n: u64)
    ensures
        number_of(decimal_bytes(n as nat)) == Some(n),
{
    lemma_decimal_bytes_spell(n as nat);
}

/// The decimal numeral is plain ASCII: as a string it is stored in the bytes `decimal_bytes`.
pub proof fn lemma_decimal_encoding(n: nat)
    ensures
        is_ascii_chars(decimal(n)),
        encode_utf8(decimal(n)) == decimal_bytes(n),
        decimal(n).len() == decimal_bytes(n).len(),
    decreases n,
{
    let text = decimal(n);
    if n >= 10 {
        lemma_decimal_encoding(n / 10);
    }
    is_ascii_chars_encode_utf8(text);
    assert forall|i: int| 0 <= i < text.len() implies (#[trigger] text[i]) as u8 == decimal_bytes(
        n,
    )[i] by {
        if n >= 10 {
            is_ascii_chars_encode_utf8(decimal(n / 10));
        }
    }
}

/// The number that `key` denotes, if it denotes one.
pub fn parse_key(key: &[u8]) -> (r: Option<u64>)
    ensures
        r == number_of(key@),
{
    let start: usize = if key.len() > 0 && key[0] == 43 {
        1
    } else {
        0
    };
    let ghost digits = digits_of(key@);
    if start == key.len() {
        return None;
    }
    let mut value: u64 = 0;
    let mut i: usize = start;
    while i < key.len()
        invariant
            start <= i <= key.len(),
            digits == digits_of(key@),
            digits == key@.skip(start as int),
            all_digits(digits.take(i - start)),
            value == digits_value(digits.take(i - start)),
        decreases key.len() - i,
    {
        let b: u8 = key[i];
        let ghost before = digits.take(i - start);
        let ghost upto = digits.take(i - start + 1);
        proof {
            assert(upto.drop_last() == before);
        }
        if b < 48 || b > 57 {
            assert(!is_digit(digits[i - start]));
            return None;
        }
        let grown = match value.checked_mul(10) {
            Some(scaled) => scaled.checked_add((b - 48) as u64),
            None => None,
        };
        match grown {
            Some(next) => {
                value = next;
            },
            None => {
                proof {
                    lemma_digits_value_grows(digits, i - start + 1);
                }
                return None;
            },
        }
        i = i + 1;
    }
    assert(digits.take(i - start) == digits);
    Some(value)
}

/// The one-character string for the digit `d`.
fn digit_str(d: u64) -> (r: &'static str)
    requires
        d < 10,
    ensures
        r@ == seq![digit_char(d as nat)],
{
    proof {
        reveal_strlit("0");
        reveal_strlit("1");
        reveal_strlit("2");
        reveal_strlit("3");
        reveal_strlit("4");
        reveal_strlit("5");
        reveal_strlit("6");
        reveal_strlit("7");
        reveal_strlit("8");
        reveal_strlit("9");
    }
    if d == 0 {
        "0"
    } else if d == 1 {
        "1"
    } else if d == 2 {
        "2"
    } else if d == 3 {
        "3"
    } else if d == 4 {
        "4"
    } else if d == 5 {
        "5"
    } else if d == 6 {
        "6"
    } else if d == 7 {
        "7"
    } else if d == 8 {
        "8"
    } else {
        "9"
    }
}

/// The key for the number `n`: its decimal numeral.
pub fn format_key(n: u64) -> (key: String)
    ensures
        key@ == decimal(n as nat),
    decreases n,
{
    if n < 10 {
        digit_str(n).to_owned()
    } else {
        let mut key = format_key(n / 10);
        key.append(digit_str(n % 10));
        key
    }
}

/// The greatest number that a key among the entries `pairs` denotes, and 0 where none denotes
/// a number.
pub fn greatest_key_number(pairs: &Vec<(Vec<u8>, Vec<u8>)>) -> (greatest: u64)
    ensures
        greatest == greatest_in(pairs_view(pairs@)),
{
    let ghost listing = pairs_view(pairs@);
    let mut greatest: u64 = 0;
    let mut i: usize = 0;
    while i < pairs.len()
        invariant
            i <= pairs.len(),
            listing == pairs_view(pairs@),
            greatest == greatest_in(listing.take(i as int)),
        decreases pairs.len() - i,
    {
        proof {
            assert(listing.take(i + 1).drop_last() == listing.take(i as int));
            assert(listing.take(i + 1).last().0 == pairs@[i as int].0@);
        }
        match parse_key(pairs[i].0.as_slice()) {
            Some(n) => {
                if n > greatest {
                    greatest = n;
                }
            },
            None => {},
        }
        i = i + 1;
    }
    assert(listing.take(i as int) == listing);
    greatest
}

/// The key to give to a new record, where `greatest` is the greatest number in use: the
/// numeral of the next number, or `None` where there is no next number.
pub fn successor_key(greatest: u64) -> (r: Option<String>)
    ensures
        match next_number(greatest) {
            Some(n) => r matches Some(key) && key@ == decimal(n as nat),
            None => r is None,
        },
{
    if greatest < u64::MAX {
        Some(format_key(greatest + 1))
    } else {
        None
    }
}

} // verus!
