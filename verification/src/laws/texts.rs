//! What the library's texts say when they are read back.
use crate::binary64::{Binary64, COUNTS};
use crate::notice::Notice;
use vstd::prelude::*;

verus! {

/// The number that decimal digits stand for.
pub open spec fn read_decimal(text: Seq<char>) -> int
    decreases text.len(),
{
    if text.len() == 0 {
        0
    } else {
        10 * read_decimal(text.drop_last()) + (text.last() as int - '0' as int)
    }
}

/// Whether this is one of the ten digits.
pub open spec fn is_digit(c: char) -> bool {
    '0' <= c && c <= '9'
}

/// Whether this is a number in decimal, without leading zeros.
pub open spec fn is_decimal(text: Seq<char>) -> bool {
    &&& text.len() > 0
    &&& forall|i: int| 0 <= i < text.len() ==> is_digit(#[trigger] text[i])
    &&& text.len() > 1 ==> text[0] != '0'
}

/// Whether this is a number with one digit after the point.
pub open spec fn has_one_decimal(text: Seq<char>) -> bool {
    &&& text.len() >= 3
    &&& is_decimal(text.take(text.len() - 2))
    &&& text[text.len() - 2] == '.'
    &&& is_digit(text.last())
}

/// The tenths that such a number stands for.
pub open spec fn read_tenths(text: Seq<char>) -> int {
    10 * read_decimal(text.take(text.len() - 2)) + (text.last() as int - '0' as int)
}

/// Whether `text` is the percentage that `used` is of `budget`, to the nearest
/// tenth and up to one part in two to the power of 48; of no budget, it is zero.
pub open spec fn shows_percentage(text: Seq<char>, used: nat, budget: nat) -> bool {
    &&& has_one_decimal(text)
    &&& if budget == 0 {
        read_tenths(text) == 0
    } else {
        0x0002_0000_0000_0000 * crate::laws::numbers::apart(read_tenths(text) * budget, 1_000 * used as int)
            <= 0x0001_0000_0000_0000 * budget + 1_000 * used
    }
}

/// A number in decimal reads back as that number.
pub proof fn law_decimals_read_back(n: nat)
    ensures
        is_decimal(crate::text::digits(n)),
        read_decimal(crate::text::digits(n)) == n,
        crate::text::digits(n)[0] == '0' ==> n == 0,
    decreases n,
{
    let text = crate::text::digits(n);
    if n < 10 {
        assert(text.drop_last() =~= Seq::<char>::empty());
        assert(read_decimal(text.drop_last()) == 0);
    } else {
        law_decimals_read_back(n / 10);
        let rest = crate::text::digits(n / 10);
        assert(text.drop_last() =~= rest);
        assert forall|i: int| 0 <= i < text.len() implies is_digit(#[trigger] text[i]) by {
            if i < rest.len() {
                assert(text[i] == rest[i]);
            }
        }
        assert(text[0] == rest[0]);
    }
}

/// A percentage has one digit after the point, and reads back as the tenths of 100
/// times the fraction.
pub proof fn law_percentages_read_back(units: nat)
    ensures
        has_one_decimal(crate::text::percentage(units)),
        read_tenths(crate::text::percentage(units)) == Binary64::tenths_of(Binary64::percent_units(units)),
{
    let t = Binary64::tenths_of(Binary64::percent_units(units));
    let text = crate::text::percentage(units);
    law_decimals_read_back(t / 10);
    assert(text.take(text.len() - 2) =~= crate::text::digits(t / 10));
}

/// What is printed of a fraction shows what percentage of the budget was used.
pub proof fn law_percentages_show_the_fraction(used: nat, budget: nat)
    requires
        budget < COUNTS,
    ensures
        shows_percentage(crate::text::percentage(Binary64::ratio_units(used, budget)), used, budget),
{
    let units = Binary64::ratio_units(used, budget);
    law_percentages_read_back(units);
    if budget > 0 {
        crate::laws::numbers::law_tenths_are_accurate(used, budget);
    } else {
        let zero = Binary64::percent_units(0);
        Binary64::lemma_nearest_integer_exact(0, 1);
        assert(zero == 0);
        vstd::arithmetic::power2::lemma_pow2_pos(1074);
        assert(0 * Binary64::one() == 0);
        Binary64::lemma_nearest_integer_exact(0, Binary64::one());
        assert(Binary64::tenths_of(0) == 0);
    }
}

/// The texts of a list are those of its strings, one for one.
pub proof fn law_lists_are_read_one_by_one(labels: Seq<String>, notices: Seq<Notice>, i: int)
    ensures
        crate::guardian::texts(labels).len() == labels.len(),
        0 <= i < labels.len() ==> crate::guardian::texts(labels)[i] == labels[i]@,
        crate::guardian::contents(notices).len() == notices.len(),
        0 <= i < notices.len() ==> crate::guardian::contents(notices)[i] == (notices[i].level, notices[i].message@),
{
}

} // verus!
