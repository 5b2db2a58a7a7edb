//! The texts of the identifiers that a timeline gives to its items.
use vstd::prelude::*;

use crate::item::read_marker_id;

verus! {

/// The decimal digit with the given value.
pub open spec fn digit(value: nat) -> char
    recommends
        value < 10,
{
    (('0' as int) + value) as char
}

/// A number in decimal notation, without leading zeros.
pub open spec fn decimal(number: nat) -> Seq<char>
    decreases number,
{
    if number < 10 {
        seq![digit(number)]
    } else {
        decimal(number / 10).push(digit(number % 10))
    }
}

/// The text of the identifier with the given number, in a timeline with the given prefix.
pub open spec fn unique_id_text(prefix: Option<Seq<char>>, number: u64) -> Seq<char> {
    match prefix {
        Some(prefix) => prefix + decimal(number as nat),
        None => decimal(number as nat),
    }
}

/// Formats a text and a number one behind the other with std's `format!`, which writes a `u64` in
/// decimal notation, without leading zeros.
#[verifier::external_body]
pub(crate) fn format_id(prefix: &str, number: u64) -> (id: String)
    ensures
        id@ == prefix@ + decimal(number as nat),
{
    format!("{prefix}{number}")
}

/// Two numbers with the same notation are the same.
proof fn lemma_decimal_injective(a: nat, b: nat)
    requires
        decimal(a) == decimal(b),
    ensures
        a == b,
    decreases a,
{
    assert(decimal(a).last() == digit(a % 10));
    assert(decimal(b).last() == digit(b % 10));
    lemma_decimal_not_empty(a / 10);
    lemma_decimal_not_empty(b / 10);
    if a >= 10 && b >= 10 {
        assert(decimal(a).drop_last() == decimal(a / 10));
        assert(decimal(b).drop_last() == decimal(b / 10));
        lemma_decimal_injective(a / 10, b / 10);
    }
}

/// A number takes at least one digit.
proof fn lemma_decimal_not_empty(number: nat)
    ensures
        decimal(number).len() > 0,
        decimal(number).last() == digit(number % 10),
{
}

/// Identifiers with different numbers differ, in one timeline.
pub proof fn law_unique_ids_differ(prefix: Option<Seq<char>>, a: u64, b: u64)
    requires
        a != b,
    ensures
        unique_id_text(prefix, a) != unique_id_text(prefix, b),
{
    if unique_id_text(prefix, a) == unique_id_text(prefix, b) {
        if let Some(text) = prefix {
            let whole_a = text + decimal(a as nat);
            let whole_b = text + decimal(b as nat);
            assert(decimal(a as nat) == whole_a.skip(text.len() as int));
            assert(decimal(b as nat) == whole_b.skip(text.len() as int));
        }
        lemma_decimal_injective(a as nat, b as nat);
    }
}

/// No item that is given a number has the identifier of the read marker.
pub proof fn law_unique_id_is_no_read_marker_id(prefix: Option<Seq<char>>, number: u64)
    ensures
        unique_id_text(prefix, number) != read_marker_id(),
{
    reveal_strlit("__read_marker");
    lemma_decimal_not_empty(number as nat);
    assert(unique_id_text(prefix, number).last() == digit(number as nat % 10));
    assert(read_marker_id().last() == 'r');
}

/// The number that decimal digits stand for.
pub open spec fn number_of(digits: Seq<char>) -> int
    decreases digits.len(),
{
    if digits.len() == 0 {
        0
    } else {
        10 * number_of(digits.drop_last()) + (digits.last() as int - '0' as int)
    }
}

/// A decimal notation is made of digits, stands for its number, and has no leading zero.
proof fn lemma_decimal(number: nat)
    ensures
        number_of(decimal(number)) == number,
        forall|i: int| 0 <= i < decimal(number).len() ==> '0' <= #[trigger] decimal(number)[i] <= '9',
        decimal(number).len() > 0,
        number > 0 ==> decimal(number)[0] != '0',
        number == 0 ==> decimal(number).len() == 1,
    decreases number,
{
    reveal_with_fuel(number_of, 2);
    if number < 10 {
        assert(decimal(number).drop_last() == Seq::<char>::empty());
    } else {
        lemma_decimal(number / 10);
        assert(decimal(number).drop_last() == decimal(number / 10));
    }
}

/// An identifier is the prefix, if there is one, followed by its number in decimal digits.
pub proof fn law_unique_ids_tell_their_number(prefix: Option<Seq<char>>, number: u64)
    ensures
        ({
            let text = unique_id_text(prefix, number);
            let start = match prefix {
                Some(prefix) => prefix,
                None => Seq::empty(),
            };
            let digits = text.skip(start.len() as int);
            &&& start.is_prefix_of(text)
            &&& digits.len() > 0
            &&& forall|i: int| 0 <= i < digits.len() ==> '0' <= #[trigger] digits[i] <= '9'
            &&& number_of(digits) == number
            &&& digits[0] == '0' ==> digits.len() == 1
        }),
{
    lemma_decimal(number as nat);
    let text = unique_id_text(prefix, number);
    match prefix {
        Some(start) => {
            assert(text.skip(start.len() as int) == decimal(number as nat));
        },
        None => {
            assert(text.skip(0) == decimal(number as nat));
        },
    }
}

} // verus!
