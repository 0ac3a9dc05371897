//! The grammar of the fields of a row: kinds by name, identifiers and
//! amounts in decimal.

use crate::record::RecordType;
use vstd::prelude::*;

verus! {

broadcast use vstd::string::is_ascii_spec_bytes;

/// The byte of the digit `0`.
pub const ZERO: u8 = 48;

/// The byte of the digit `9`.
pub const NINE: u8 = 57;

/// The byte of the decimal point.
pub const POINT: u8 = 46;

/// The byte of the letter `A`.
pub const UPPER_A: u8 = 65;

/// The byte of the letter `Z`.
pub const UPPER_Z: u8 = 90;

/// Whether a byte is one of the digits `0` to `9`.
pub open spec fn is_digit(byte: u8) -> bool {
    ZERO <= byte <= NINE
}

/// Whether a field is made of digits only.
pub open spec fn all_digits(field: Seq<u8>) -> bool {
    forall|i: int| 0 <= i < field.len() ==> is_digit(#[trigger] field[i])
}

/// The number that a run of digits writes, 0 for none.
pub open spec fn digits_value(field: Seq<u8>) -> nat
    decreases field.len(),
{
    if field.len() == 0 {
        0
    } else {
        digits_value(field.drop_last()) * 10 + (field.last() - ZERO) as nat
    }
}

/// The number that a field writes: one digit or more, and a value of at
/// most `limit`.
pub open spec fn number(field: Seq<u8>, limit: u64) -> Option<u64> {
    if field.len() > 0 && all_digits(field) && digits_value(field) <= limit {
        Some(digits_value(field) as u64)
    } else {
        None
    }
}

/// Whether `at` is where the first byte equal to `byte` stands in `field`,
/// or the length of `field` if there is none.
pub open spec fn is_first_at(field: Seq<u8>, byte: u8, at: int) -> bool {
    &&& 0 <= at <= field.len()
    &&& forall|i: int| 0 <= i < at ==> #[trigger] field[i] != byte
    &&& at < field.len() ==> field[at] == byte
}

/// Where the first byte equal to `byte` stands in `field`, or the length of
/// `field` if there is none.
pub open spec fn first_at(field: Seq<u8>, byte: u8) -> int {
    choose|at: int| is_first_at(field, byte, at)
}

/// What stands before the first point of a field: all of it if there is no
/// point.
pub open spec fn before_point(field: Seq<u8>) -> Seq<u8> {
    field.take(first_at(field, POINT))
}

/// What stands behind the first point of a field: nothing if there is no
/// point.
pub open spec fn behind_point(field: Seq<u8>) -> Seq<u8> {
    if first_at(field, POINT) < field.len() {
        field.skip(first_at(field, POINT) + 1)
    } else {
        Seq::empty()
    }
}

/// The digits of an amount with the point taken out and the part behind it
/// filled up to four places.
pub open spec fn amount_digits(field: Seq<u8>) -> Seq<u8> {
    before_point(field) + behind_point(field) + Seq::new(
        (4 - behind_point(field).len()) as nat,
        |i: int| ZERO,
    )
}

/// Whether a field has the shape of an amount: one digit or more, then
/// perhaps a point and up to four digits.
pub open spec fn is_amount(field: Seq<u8>) -> bool {
    &&& before_point(field).len() > 0
    &&& all_digits(before_point(field))
    &&& all_digits(behind_point(field))
    &&& behind_point(field).len() <= 4
}

/// The amount that a field writes, in ten-thousandths of a unit.
pub open spec fn amount(field: Seq<u8>) -> Option<u64> {
    if is_amount(field) {
        number(amount_digits(field), u64::MAX)
    } else {
        None
    }
}

/// A letter in lower case; any other byte as it is.
pub open spec fn lower(byte: u8) -> u8 {
    if UPPER_A <= byte <= UPPER_Z {
        (byte + 32) as u8
    } else {
        byte
    }
}

/// The bytes of a word of plain letters.
pub open spec fn bytes_of(word: Seq<char>) -> Seq<u8> {
    Seq::new(word.len(), |i: int| word[i] as u8)
}

/// Whether a field spells a word, upper and lower case taken as one.
pub open spec fn spells(field: Seq<u8>, word: Seq<char>) -> bool {
    field.map_values(|byte: u8| lower(byte)) == bytes_of(word)
}

/// The kind that a field names. The two sentinels have no name here.
pub open spec fn kind_named(field: Seq<u8>) -> Option<RecordType> {
    if spells(field, "deposit"@) {
        Some(RecordType::Deposit)
    } else if spells(field, "withdrawal"@) {
        Some(RecordType::Withdrawal)
    } else if spells(field, "dispute"@) {
        Some(RecordType::Dispute)
    } else if spells(field, "resolve"@) {
        Some(RecordType::Resolve)
    } else if spells(field, "chargeback"@) {
        Some(RecordType::Chargeback)
    } else {
        None
    }
}

/// The first place of a byte is one place only.
pub proof fn lemma_first_at(field: Seq<u8>, byte: u8, at: int)
    requires
        is_first_at(field, byte, at),
    ensures
        first_at(field, byte) == at,
{
    let other = first_at(field, byte);
    assert(is_first_at(field, byte, other));
    if other < at {
        assert(field[other] != byte);
    } else if at < other {
        assert(field[at] != byte);
    }
}

/// With digits only, the first digits never write more than all of them.
pub proof fn lemma_digits_grow(field: Seq<u8>, count: int)
    requires
        all_digits(field),
        0 <= count <= field.len(),
    ensures
        digits_value(field.take(count)) <= digits_value(field),
    decreases field.len() - count,
{
    if count == field.len() {
        assert(field.take(count) =~= field);
    } else {
        lemma_digits_grow(field, count + 1);
        assert(field.take(count + 1).drop_last() =~= field.take(count));
    }
}

/// Where the first byte equal to `byte` stands in `field`, or the length of
/// `field` if there is none.
pub fn find_first(field: &[u8], byte: u8) -> (at: usize)
    ensures
        at == first_at(field@, byte),
        is_first_at(field@, byte, at as int),
{
    let mut at: usize = 0;
    while at < field.len() && field[at] != byte
        invariant
            at <= field.len(),
            forall|i: int| 0 <= i < at ==> #[trigger] field@[i] != byte,
        decreases field.len() - at,
    {
        at = at + 1;
    }
    proof {
        lemma_first_at(field@, byte, at as int);
    }
    at
}

/// Reads a number of at most `limit` from a field of digits.
pub fn parse_number(field: &[u8], limit: u64) -> (value: Option<u64>)
    ensures
        value == number(field@, limit),
{
    if field.len() == 0 {
        return None;
    }
    let mut value: u64 = 0;
    let mut done: usize = 0;
    assert(field@.take(0) =~= Seq::empty());
    while done < field.len()
        invariant
            done <= field.len(),
            all_digits(field@.take(done as int)),
            value == digits_value(field@.take(done as int)),
            value <= limit,
        decreases field.len() - done,
    {
        let byte = field[done];
        proof {
            assert(field@.take(done + 1).drop_last() =~= field@.take(done as int));
            assert(field@.take(done + 1).last() == byte);
        }
        if byte < ZERO || byte > NINE {
            assert(!is_digit(field@[done as int]));
            return None;
        }
        let next: u128 = value as u128 * 10 + (byte - ZERO) as u128;
        if next > limit as u128 {
            proof {
                if all_digits(field@) {
                    lemma_digits_grow(field@, done + 1);
                }
            }
            return None;
        }
        value = next as u64;
        done = done + 1;
    }
    assert(field@.take(done as int) =~= field@);
    Some(value)
}

/// Reads an amount in ten-thousandths of a unit from a field of the shape
/// `12`, `12.` or `12.3456`, with at most four digits behind the point.
pub fn parse_amount(field: &[u8]) -> (value: Option<u64>)
    ensures
        value == amount(field@),
{
    let point = find_first(field, POINT);
    if point == 0 {
        return None;
    }
    let behind: usize = if point < field.len() {
        field.len() - point - 1
    } else {
        0
    };
    if behind > 4 {
        return None;
    }
    let mut digits: Vec<u8> = Vec::new();
    let mut at: usize = 0;
    while at < point
        invariant
            at <= point <= field.len(),
            digits@ == field@.take(at as int),
        decreases point - at,
    {
        digits.push(field[at]);
        at = at + 1;
        assert(digits@ =~= field@.take(at as int));
    }
    let ghost skipped = behind_point(field@);
    let mut copied: usize = 0;
    while copied < behind
        invariant
            copied <= behind,
            behind == skipped.len(),
            skipped == behind_point(field@),
            point == first_at(field@, POINT),
            point + 1 + behind == field.len() || behind == 0,
            digits@ == field@.take(point as int) + skipped.take(copied as int),
        decreases behind - copied,
    {
        digits.push(field[point + 1 + copied]);
        copied = copied + 1;
        assert(digits@ =~= field@.take(point as int) + skipped.take(copied as int));
    }
    assert(skipped.take(behind as int) =~= skipped);
    let mut filled: usize = behind;
    while filled < 4
        invariant
            behind <= filled <= 4,
            digits@ == field@.take(point as int) + skipped + Seq::new(
                (filled - behind) as nat,
                |i: int| ZERO,
            ),
        decreases 4 - filled,
    {
        digits.push(ZERO);
        filled = filled + 1;
        assert(digits@ =~= field@.take(point as int) + skipped + Seq::new(
            (filled - behind) as nat,
            |i: int| ZERO,
        ));
    }
    assert(digits@ == amount_digits(field@));
    let value = parse_number(digits.as_slice(), u64::MAX);
    proof {
        if value is Some {
            let whole = field@.take(point as int);
            assert forall|i: int| 0 <= i < whole.len() implies is_digit(#[trigger] whole[i]) by {
                assert(digits@[i] == whole[i]);
            }
            assert forall|i: int| 0 <= i < skipped.len() implies is_digit(
                #[trigger] skipped[i],
            ) by {
                assert(digits@[whole.len() + i] == skipped[i]);
            }
        } else if is_amount(field@) {
            let whole = field@.take(point as int);
            assert forall|i: int| 0 <= i < digits@.len() implies is_digit(#[trigger] digits@[i]) by {
                if i < whole.len() {
                    assert(digits@[i] == whole[i]);
                } else if i < whole.len() + skipped.len() {
                    assert(digits@[i] == skipped[i - whole.len()]);
                }
            }
        }
    }
    value
}

/// Whether a field spells a word of plain letters, upper and lower case
/// taken as one.
pub fn spells_word(field: &[u8], word: &str) -> (same: bool)
    requires
        word.is_ascii(),
        forall|i: int| 0 <= i < word@.len() ==> lower(#[trigger] word@[i] as u8) == word@[i] as u8,
    ensures
        same == spells(field@, word@),
{
    let letters = word.as_bytes();
    assert(letters@ =~= bytes_of(word@));
    if field.len() != letters.len() {
        assert(field@.map_values(|byte: u8| lower(byte)).len() != bytes_of(word@).len());
        return false;
    }
    let mut at: usize = 0;
    while at < field.len()
        invariant
            at <= field.len(),
            field.len() == letters.len(),
            letters@ == bytes_of(word@),
            forall|i: int| 0 <= i < at ==> lower(#[trigger] field@[i]) == letters@[i],
        decreases field.len() - at,
    {
        let byte = field[at];
        let lowered: u8 = if byte >= UPPER_A && byte <= UPPER_Z {
            byte + 32
        } else {
            byte
        };
        if lowered != letters[at] {
            assert(field@.map_values(|byte: u8| lower(byte))[at as int] != bytes_of(word@)[at as int]);
            return false;
        }
        at = at + 1;
    }
    assert(field@.map_values(|byte: u8| lower(byte)) =~= bytes_of(word@));
    true
}

/// Whether a field is a word of plain letters, letter for letter.
pub fn is_word(field: &[u8], word: &str) -> (same: bool)
    requires
        word.is_ascii(),
    ensures
        same == (field@ == bytes_of(word@)),
{
    let letters = word.as_bytes();
    assert(letters@ =~= bytes_of(word@));
    if field.len() != letters.len() {
        return false;
    }
    let mut at: usize = 0;
    while at < field.len()
        invariant
            at <= field.len(),
            field.len() == letters.len(),
            letters@ == bytes_of(word@),
            forall|i: int| 0 <= i < at ==> #[trigger] field@[i] == letters@[i],
        decreases field.len() - at,
    {
        if field[at] != letters[at] {
            assert(field@[at as int] != letters@[at as int]);
            return false;
        }
        at = at + 1;
    }
    assert(field@ =~= letters@);
    true
}

/// Reads the kind that a field names, whatever the case of its letters.
pub fn parse_kind(field: &[u8]) -> (kind: Option<RecordType>)
    ensures
        kind == kind_named(field@),
{
    proof {
        reveal_strlit("deposit");
        reveal_strlit("withdrawal");
        reveal_strlit("dispute");
        reveal_strlit("resolve");
        reveal_strlit("chargeback");
    }
    if spells_word(field, "deposit") {
        Some(RecordType::Deposit)
    } else if spells_word(field, "withdrawal") {
        Some(RecordType::Withdrawal)
    } else if spells_word(field, "dispute") {
        Some(RecordType::Dispute)
    } else if spells_word(field, "resolve") {
        Some(RecordType::Resolve)
    } else if spells_word(field, "chargeback") {
        Some(RecordType::Chargeback)
    } else {
        None
    }
}

} // verus!
