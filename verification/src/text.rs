//! Small text building blocks: numerals, joining and trimming.

use vstd::arithmetic::div_mod::lemma_div_decreases;
use vstd::prelude::*;

verus! {

/// The character for the digit `d`, upper case from ten on.
pub open spec fn digit_char(d: int) -> char {
    if d < 10 {
        ('0' as int + d) as char
    } else {
        ('A' as int + d - 10) as char
    }
}

/// `n` written in `base`, most significant digit first, without leading zeros.
pub open spec fn numeral(n: nat, base: nat) -> Seq<char>
    decreases n,
{
    if n < base || base < 2 {
        seq![digit_char(n as int)]
    } else {
        proof {
            lemma_div_decreases(n as int, base as int);
        }
        numeral(n / base, base).push(digit_char((n % base) as int))
    }
}

/// `n` in upper-case hexadecimal.
pub open spec fn upper_hex(n: u64) -> Seq<char> {
    numeral(n as nat, 16)
}

/// `n` in decimal.
pub open spec fn decimal(n: u64) -> Seq<char> {
    numeral(n as nat, 10)
}

/// `i` in decimal, with a leading minus sign where it is negative.
pub open spec fn signed_decimal(i: i32) -> Seq<char> {
    if i < 0 {
        seq!['-'] + numeral((-(i as int)) as nat, 10)
    } else {
        numeral(i as nat, 10)
    }
}

/// The value of a hexadecimal digit of either case.
pub open spec fn hex_digit(c: char) -> Option<nat> {
    if '0' <= c <= '9' {
        Some((c as int - '0' as int) as nat)
    } else if 'a' <= c <= 'f' {
        Some((c as int - 'a' as int + 10) as nat)
    } else if 'A' <= c <= 'F' {
        Some((c as int - 'A' as int + 10) as nat)
    } else {
        None
    }
}

/// The number that a row of hexadecimal digits stands for; the empty row is zero.
pub open spec fn hex_number(digits: Seq<char>) -> Option<nat>
    decreases digits.len(),
{
    if digits.len() == 0 {
        Some(0)
    } else {
        match (hex_number(digits.drop_last()), hex_digit(digits.last())) {
            (Some(head), Some(digit)) => Some(16 * head + digit),
            _ => None,
        }
    }
}

/// `s` without the one plus sign that it may begin with.
pub open spec fn without_plus(s: Seq<char>) -> Seq<char> {
    if s.len() > 0 && s[0] == '+' {
        s.skip(1)
    } else {
        s
    }
}

/// The `u64` that `s` spells in hexadecimal: an optional plus sign, then one or
/// more digits whose value fits.
pub open spec fn parsed_hex(s: Seq<char>) -> Option<u64> {
    let digits = without_plus(s);
    if digits.len() == 0 {
        None
    } else {
        match hex_number(digits) {
            Some(value) => if value <= u64::MAX {
                Some(value as u64)
            } else {
                None
            },
            None => None,
        }
    }
}

/// The texts in order, with `separator` between neighbours.
pub open spec fn joined(parts: Seq<Seq<char>>, separator: Seq<char>) -> Seq<char>
    decreases parts.len(),
{
    if parts.len() == 0 {
        Seq::empty()
    } else if parts.len() == 1 {
        parts[0]
    } else {
        joined(parts.drop_last(), separator) + separator + parts.last()
    }
}

/// `s` without the run of `c` that it ends in.
pub open spec fn trimmed_end(s: Seq<char>, c: char) -> Seq<char>
    decreases s.len(),
{
    if s.len() > 0 && s.last() == c {
        trimmed_end(s.drop_last(), c)
    } else {
        s
    }
}

/// The texts that strings hold.
pub open spec fn texts(strings: Seq<String>) -> Seq<Seq<char>> {
    strings.map_values(|s: String| s@)
}

/// The text of one digit.
fn digit_text(d: u64) -> (text: &'static str)
    requires
        d < 16,
    ensures
        text@ == seq![digit_char(d as int)],
{
    proof {
        reveal_strlit("0");
        reveal_strlit("1");
        reveal_strlit("2");
        reveal_strlit("3");
        reveal_strlit("4");
        reveal_strlit("5");
        reveal_strlit("6");
        reveal_strlit("7");
        reveal_strlit("8");
        reveal_strlit("9");
        reveal_strlit("A");
        reveal_strlit("B");
        reveal_strlit("C");
        reveal_strlit("D");
        reveal_strlit("E");
        reveal_strlit("F");
    }
    match d {
        0 => "0",
        1 => "1",
        2 => "2",
        3 => "3",
        4 => "4",
        5 => "5",
        6 => "6",
        7 => "7",
        8 => "8",
        9 => "9",
        10 => "A",
        11 => "B",
        12 => "C",
        13 => "D",
        14 => "E",
        _ => "F",
    }
}

/// Writes `n` in `base`.
fn write_numeral(n: u64, base: u64) -> (text: String)
    requires
        2 <= base <= 16,
    ensures
        text@ == numeral(n as nat, base as nat),
    decreases n,
{
    if n < base {
        digit_text(n).to_owned()
    } else {
        proof {
            lemma_div_decreases(n as int, base as int);
        }
        let head = write_numeral(n / base, base);
        let text = head.concat(digit_text(n % base));
        assert(text@ == numeral(n as nat, base as nat));
        text
    }
}

/// Writes `n` in upper-case hexadecimal.
pub fn write_upper_hex(n: u64) -> (text: String)
    ensures
        text@ == upper_hex(n),
{
    write_numeral(n, 16)
}

/// Writes `n` in decimal.
pub fn write_decimal(n: u64) -> (text: String)
    ensures
        text@ == decimal(n),
{
    write_numeral(n, 10)
}

/// Writes `i` in decimal.
pub fn write_signed_decimal(i: i32) -> (text: String)
    ensures
        text@ == signed_decimal(i),
{
    let wide: i64 = i as i64;
    if wide < 0 {
        proof {
            reveal_strlit("-");
        }
        let magnitude = write_numeral((-wide) as u64, 10);
        let sign = "-".to_owned();
        let text = sign.concat(magnitude.as_str());
        assert(text@ == signed_decimal(i));
        text
    } else {
        write_numeral(wide as u64, 10)
    }
}

/// The value of a hexadecimal digit of either case.
fn read_hex_digit(c: char) -> (digit: Option<u64>)
    ensures
        match digit {
            Some(d) => hex_digit(c) == Some(d as nat) && d < 16,
            None => hex_digit(c) is None,
        },
{
    let code: u32 = c as u32;
    if '0' <= c && c <= '9' {
        Some((code - 48) as u64)
    } else if 'a' <= c && c <= 'f' {
        Some((code - 87) as u64)
    } else if 'A' <= c && c <= 'F' {
        Some((code - 55) as u64)
    } else {
        None
    }
}

/// A row of digits is worth at least as much as any row that it begins with,
/// and is no number where that one is none.
proof fn lemma_hex_prefix(digits: Seq<char>, end: int)
    requires
        0 <= end <= digits.len(),
    ensures
        hex_number(digits) matches Some(whole) ==> (hex_number(digits.take(end)) matches Some(part)
            && part <= whole),
    decreases digits.len() - end,
{
    if end < digits.len() {
        lemma_hex_prefix(digits, end + 1);
        assert(digits.take(end + 1).drop_last() == digits.take(end));
    } else {
        assert(digits.take(end) == digits);
    }
}

/// Reads an unsigned hexadecimal number.
pub fn parse_hex(s: &str) -> (value: Option<u64>)
    ensures
        value == parsed_hex(s@),
{
    let len: usize = s.unicode_len();
    let mut i: usize = 0;
    if len > 0 && s.get_char(0) == '+' {
        i = 1;
    }
    let start: usize = i;
    let ghost digits = without_plus(s@);
    if i == len {
        return None;
    }
    let mut value: u64 = 0;
    assert(digits.take(0) == Seq::<char>::empty());
    while i < len
        invariant
            start <= i <= len,
            len == s@.len(),
            start < len,
            digits == without_plus(s@),
            digits == s@.skip(start as int),
            digits.len() == len - start,
            hex_number(digits.take(i - start)) == Some(value as nat),
        decreases len - i,
    {
        let c: char = s.get_char(i);
        proof {
            assert(digits.take(i - start + 1).drop_last() == digits.take(i - start));
            assert(digits.take(i - start + 1).last() == c);
            lemma_hex_prefix(digits, i - start + 1);
        }
        match read_hex_digit(c) {
            None => {
                return None;
            },
            Some(digit) => {
                let next: u128 = 16 * (value as u128) + digit as u128;
                if next > u64::MAX as u128 {
                    return None;
                }
                value = next as u64;
            },
        }
        i += 1;
    }
    assert(digits.take(len - start) == digits);
    Some(value)
}

/// Joins the strings with `separator` between neighbours.
pub fn join(parts: &Vec<String>, separator: &str) -> (text: String)
    ensures
        text@ == joined(texts(parts@), separator@),
{
    let mut text = String::new();
    let mut i: usize = 0;
    assert(texts(parts@).take(0) == Seq::<Seq<char>>::empty());
    while i < parts.len()
        invariant
            i <= parts.len(),
            text@ == joined(texts(parts@).take(i as int), separator@),
        decreases parts.len() - i,
    {
        if i > 0 {
            text.append(separator);
        }
        text.append(parts[i].as_str());
        proof {
            let longer = texts(parts@).take(i + 1);
            assert(longer.drop_last() == texts(parts@).take(i as int));
            assert(longer.last() == parts@[i as int]@);
        }
        i += 1;
    }
    assert(texts(parts@).take(parts.len() as int) == texts(parts@));
    text
}

/// Drops the run of `c` that `s` ends in.
pub fn trim_end(s: &str, c: char) -> (text: String)
    ensures
        text@ == trimmed_end(s@, c),
{
    let len: usize = s.unicode_len();
    let mut end: usize = len;
    assert(s@.take(len as int) == s@);
    while end > 0 && s.get_char(end - 1) == c
        invariant
            end <= len,
            len == s@.len(),
            trimmed_end(s@, c) == trimmed_end(s@.take(end as int), c),
        decreases end,
    {
        assert(s@.take(end as int).drop_last() == s@.take(end - 1));
        end -= 1;
    }
    s.substring_char(0, end).to_owned()
}

/// The characters of a text.
pub fn characters(s: &str) -> (chars: Vec<char>)
    ensures
        chars@ == s@,
{
    let mut chars: Vec<char> = Vec::new();
    for c in all: s.chars()
        invariant
            all.seq() == s@,
            chars@ == s@.take(all.index() as int),
    {
        chars.push(c);
    }
    chars
}

/// No numeral is empty or begins with a plus sign.
proof fn lemma_numeral_start(n: nat, base: nat)
    requires
        2 <= base <= 16,
    ensures
        numeral(n, base).len() > 0,
        numeral(n, base)[0] != '+',
    decreases n,
{
    if n >= base {
        lemma_div_decreases(n as int, base as int);
        lemma_numeral_start(n / base, base);
    }
}

/// Read in hexadecimal, a numeral of `base` is worth its number where `base` is
/// sixteen, and more than that where `base` is smaller and there is more than
/// one digit.
proof fn lemma_numeral_in_hex(n: nat, base: nat)
    requires
        2 <= base <= 16,
    ensures
        hex_number(numeral(n, base)) matches Some(value) && n <= value && (value == n <==> n < base
            || base == 16),
    decreases n,
{
    if n < base {
        let text = numeral(n, base);
        assert(text.drop_last() == Seq::<char>::empty());
        assert(hex_number(text.drop_last()) == Some(0nat));
        assert(hex_digit(digit_char(n as int)) == Some(n));
    } else {
        lemma_div_decreases(n as int, base as int);
        let head = n / base;
        let last = n % base;
        lemma_numeral_in_hex(head, base);
        assert(numeral(n, base).drop_last() == numeral(head, base));
        assert(hex_digit(digit_char(last as int)) == Some(last));
        let value = hex_number(numeral(head, base))->0;
        assert(n == base * head + last && head >= 1 && (base < 16 ==> n < 16 * head + last) && (base
            == 16 ==> n == 16 * head + last)) by (nonlinear_arith)
            requires
                n >= base,
                2 <= base <= 16,
                head == n / base,
                last == n % base,
        ;
        assert(hex_number(numeral(n, base)) == Some(16 * value + last));
    }
}

/// A number written in upper-case hexadecimal reads back as itself.
pub proof fn upper_hex_reads_back(n: u64)
    ensures
        parsed_hex(upper_hex(n)) == Some(n),
{
    lemma_numeral_start(n as nat, 16);
    lemma_numeral_in_hex(n as nat, 16);
}

/// Different numbers have different upper-case hexadecimal numerals.
pub proof fn upper_hex_is_injective(a: u64, b: u64)
    requires
        upper_hex(a) == upper_hex(b),
    ensures
        a == b,
{
    upper_hex_reads_back(a);
    upper_hex_reads_back(b);
}

/// A number written in decimal reads back as itself in hexadecimal where it has
/// one digit, and only there.
pub proof fn decimal_reads_back_as_hex(n: u64)
    ensures
        parsed_hex(decimal(n)) == Some(n) <==> n < 10,
{
    lemma_numeral_start(n as nat, 10);
    lemma_numeral_in_hex(n as nat, 10);
}

/// Trimming leaves nothing to trim, and takes away nothing but the trimmed
/// character.
pub proof fn trimmed_end_is_exact(s: Seq<char>, c: char)
    ensures
        trimmed_end(s, c).len() <= s.len(),
        trimmed_end(s, c) == s.take(trimmed_end(s, c).len() as int),
        forall|i: int| trimmed_end(s, c).len() <= i < s.len() ==> s[i] == c,
        trimmed_end(s, c).len() > 0 ==> trimmed_end(s, c).last() != c,
    decreases s.len(),
{
    if s.len() > 0 && s.last() == c {
        trimmed_end_is_exact(s.drop_last(), c);
        let kept = trimmed_end(s, c);
        assert(s.drop_last().take(kept.len() as int) == s.take(kept.len() as int));
        assert forall|i: int| kept.len() <= i < s.len() implies s[i] == c by {
            if i < s.len() - 1 {
                assert(s.drop_last()[i] == c);
            }
        }
    } else {
        assert(s.take(s.len() as int) == s);
    }
}

} // verus!
