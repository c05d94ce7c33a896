//! Laws on numerals, joining and trimming.

use vstd::prelude::*;

use crate::text::{
    characters, join, parse_hex, trim_end, write_decimal, write_signed_decimal, write_upper_hex,
};

verus! {

/// What a digit is worth.
pub open spec fn worth(c: char) -> Option<nat> {
    if '0' <= c <= '9' {
        Some((c as int - '0' as int) as nat)
    } else if 'A' <= c <= 'F' {
        Some((c as int - 'A' as int + 10) as nat)
    } else if 'a' <= c <= 'f' {
        Some((c as int - 'a' as int + 10) as nat)
    } else {
        None
    }
}

/// What a row of digits is worth in `base`: the sum of its digits, each times the
/// power of `base` that its place stands for.
pub open spec fn worth_of(digits: Seq<char>, base: nat) -> nat
    decreases digits.len(),
{
    if digits.len() == 0 {
        0
    } else {
        worth_of(digits.drop_last(), base) * base + worth(digits.last()).unwrap_or(0)
    }
}

/// Whether `digits` is a numeral for `n`: digits below `base` in upper case,
/// worth `n`, without a zero at the front unless that is all.
pub open spec fn spells(digits: Seq<char>, n: nat, base: nat) -> bool {
    &&& digits.len() > 0
    &&& worth_of(digits, base) == n
    &&& digits.len() > 1 ==> digits[0] != '0'
    &&& forall|i: int|
        0 <= i < digits.len() ==> !('a' <= #[trigger] digits[i] <= 'f') && (worth(
            digits[i],
        ) matches Some(d) && d < base)
}

/// A numeral of the library spells its number.
proof fn lemma_numeral_spells(n: nat, base: nat)
    requires
        2 <= base <= 16,
    ensures
        spells(crate::text::numeral(n, base), n, base),
        n > 0 ==> crate::text::numeral(n, base)[0] != '0',
    decreases n,
{
    let digits = crate::text::numeral(n, base);
    if n < base {
        assert(digits.drop_last() == Seq::<char>::empty());
        assert(worth_of(digits.drop_last(), base) == 0);
        assert(worth_of(digits, base) == 0 * base + worth(digits.last()).unwrap_or(0));
    } else {
        vstd::arithmetic::div_mod::lemma_div_decreases(n as int, base as int);
        vstd::arithmetic::div_mod::lemma_fundamental_div_mod(n as int, base as int);
        vstd::arithmetic::mul::lemma_mul_is_commutative(base as int, n as int / base as int);
        assert(n / base >= 1) by (nonlinear_arith)
            requires
                n >= base,
                base >= 2,
        ;
        vstd::arithmetic::div_mod::lemma_mod_bound(n as int, base as int);
        lemma_numeral_spells(n / base, base);
        let head = crate::text::numeral(n / base, base);
        assert(digits.drop_last() == head);
        assert forall|i: int| 0 <= i < digits.len() implies !('a' <= #[trigger] digits[i] <= 'f') && (
        worth(digits[i]) matches Some(d) && d < base) by {
            if i < head.len() {
                assert(digits[i] == head[i]);
            }
        }
    }
}

/// Writing in hexadecimal spells the number, in upper case.
pub proof fn hexadecimal_spells_the_number(n: u64, text: String)
    requires
        call_ensures(write_upper_hex, (n,), text),
    ensures
        spells(text@, n as nat, 16),
{
    lemma_numeral_spells(n as nat, 16);
}

/// Writing in decimal spells the number.
pub proof fn decimal_spells_the_number(n: u64, text: String)
    requires
        call_ensures(write_decimal, (n,), text),
    ensures
        spells(text@, n as nat, 10),
{
    lemma_numeral_spells(n as nat, 10);
}

/// Writing a signed number spells how large it is, after a minus sign where it
/// is below zero.
pub proof fn signed_decimal_spells_the_number(i: i32, text: String)
    requires
        call_ensures(write_signed_decimal, (i,), text),
    ensures
        i >= 0 ==> spells(text@, i as nat, 10),
        i < 0 ==> text@.len() > 0 && text@[0] == '-' && spells(
            text@.skip(1),
            (-(i as int)) as nat,
            10,
        ),
{
    if i >= 0 {
        lemma_numeral_spells(i as nat, 10);
    } else {
        let magnitude = (-(i as int)) as nat;
        lemma_numeral_spells(magnitude, 10);
        assert(text@.skip(1) == crate::text::numeral(magnitude, 10));
    }
}

/// What is written in hexadecimal is read as the same number.
pub proof fn hexadecimal_reads_back(n: u64, text: String, again: &str, read: Option<u64>)
    requires
        call_ensures(write_upper_hex, (n,), text),
        again@ == text@,
        call_ensures(parse_hex, (again,), read),
    ensures
        read == Some(n),
{
    crate::text::upper_hex_reads_back(n);
}

/// Nothing is read from an empty text, or from a plus sign alone.
pub proof fn no_digits_are_no_number(s: &str, read: Option<u64>)
    requires
        call_ensures(parse_hex, (s,), read),
        s@.len() == 0 || s@ == seq!['+'],
    ensures
        read is None,
{
    if s@.len() > 0 {
        assert(s@.skip(1).len() == 0);
    }
}

/// One digit, of either case, is read as what it is worth; any other character
/// is not read.
pub proof fn digit_is_read_as_its_worth(s: &str, c: char, read: Option<u64>)
    requires
        call_ensures(parse_hex, (s,), read),
        s@ == seq![c],
    ensures
        match worth(c) {
            Some(d) => read == Some(d as u64),
            None => read is None,
        },
{
    assert(s@.drop_last() == Seq::<char>::empty());
    assert(crate::text::hex_number(s@.drop_last()) == Some(0nat));
    if c == '+' {
        assert(s@.skip(1).len() == 0);
    }
}

/// A digit more makes sixteen times the number, and the digit, where that fits;
/// nothing else makes a number.
pub proof fn digit_more_makes_sixteen_times_the_number(
    s: &str,
    longer: &str,
    c: char,
    read: Option<u64>,
    read_longer: Option<u64>,
)
    requires
        call_ensures(parse_hex, (s,), read),
        call_ensures(parse_hex, (longer,), read_longer),
        s@.len() > 0,
        s@ != seq!['+'],
        longer@ == s@.push(c),
    ensures
        match (read, worth(c)) {
            (Some(n), Some(d)) => read_longer == if 16 * n + d <= u64::MAX {
                Some((16 * n + d) as u64)
            } else {
                None
            },
            _ => read_longer is None,
        },
{
    let digits = crate::text::without_plus(s@);
    if s@[0] == '+' {
        assert(longer@[0] == '+');
        if digits.len() == 0 {
            assert(s@ == seq!['+']);
        }
        assert(longer@.skip(1) == digits.push(c));
    } else {
        assert(longer@[0] == s@[0]);
        assert(longer@ == digits.push(c));
    }
    assert(digits.push(c).drop_last() == digits);
}

/// A plus sign in front of digits changes nothing.
pub proof fn plus_sign_changes_nothing(
    s: &str,
    signed: &str,
    read: Option<u64>,
    read_signed: Option<u64>,
)
    requires
        call_ensures(parse_hex, (s,), read),
        call_ensures(parse_hex, (signed,), read_signed),
        s@.len() > 0,
        s@[0] != '+',
        signed@ == seq!['+'] + s@,
    ensures
        read_signed == read,
{
    assert(signed@.skip(1) == s@);
}

/// The text of one part is the part, and no parts make an empty text.
pub proof fn one_part_is_itself(parts: Vec<String>, separator: &str, text: String)
    requires
        call_ensures(join, (&parts, separator), text),
        parts@.len() <= 1,
    ensures
        parts@.len() == 1 ==> text@ == parts@[0]@,
        parts@.len() == 0 ==> text@.len() == 0,
{
}

/// Parts can be joined in two groups: the separator then stands between the
/// groups.
pub proof fn parts_are_joined_in_groups(
    first: Vec<String>,
    second: Vec<String>,
    all: Vec<String>,
    separator: &str,
    first_text: String,
    second_text: String,
    text: String,
)
    requires
        call_ensures(join, (&first, separator), first_text),
        call_ensures(join, (&second, separator), second_text),
        call_ensures(join, (&all, separator), text),
        all@ == first@ + second@,
        first@.len() > 0,
        second@.len() > 0,
    ensures
        text@ == first_text@ + separator@ + second_text@,
{
    let a = crate::text::texts(first@);
    let b = crate::text::texts(second@);
    assert(crate::text::texts(all@) == a + b);
    lemma_joined_in_groups(a, b, separator@);
}

/// Texts can be joined in two groups.
proof fn lemma_joined_in_groups(a: Seq<Seq<char>>, b: Seq<Seq<char>>, separator: Seq<char>)
    requires
        a.len() > 0,
        b.len() > 0,
    ensures
        crate::text::joined(a + b, separator) == crate::text::joined(a, separator) + separator
            + crate::text::joined(b, separator),
    decreases b.len(),
{
    let all = a + b;
    assert(all.last() == b.last());
    assert(all.drop_last() == a + b.drop_last());
    if b.len() == 1 {
        assert(all.drop_last() == a);
    } else {
        lemma_joined_in_groups(a, b.drop_last(), separator);
    }
    assert(crate::text::joined(all, separator) =~= crate::text::joined(a, separator) + separator
        + crate::text::joined(b, separator));
}

/// Trimming takes off every trailing match, and nothing else.
pub proof fn trimming_takes_off_the_trailing_matches(s: &str, c: char, text: String)
    requires
        call_ensures(trim_end, (s, c), text),
    ensures
        text@.len() <= s@.len(),
        forall|i: int| 0 <= i < text@.len() ==> text@[i] == #[trigger] s@[i],
        forall|i: int| text@.len() <= i < s@.len() ==> #[trigger] s@[i] == c,
        text@.len() > 0 ==> text@.last() != c,
{
    crate::text::trimmed_end_is_exact(s@, c);
    let kept = crate::text::trimmed_end(s@, c);
    assert forall|i: int| 0 <= i < text@.len() implies text@[i] == #[trigger] s@[i] by {
        assert(s@.take(kept.len() as int)[i] == s@[i]);
    }
}

/// The characters of a text are those of the text, in order.
pub proof fn characters_make_the_text(s: &str, chars: Vec<char>)
    requires
        call_ensures(characters, (s,), chars),
    ensures
        chars@ == s@,
{
}

} // verus!
