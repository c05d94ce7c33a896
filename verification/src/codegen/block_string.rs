//! Block strings: where they stand in a document, and how their indentation is
//! taken off.

use vstd::prelude::*;

use crate::text;

verus! {

/// White space.
pub open spec fn is_space(c: char) -> bool {
    c == ' ' || '\t' <= c <= '\r' || c == '\u{85}' || c == '\u{a0}' || c == '\u{1680}'
        || '\u{2000}' <= c <= '\u{200a}' || c == '\u{2028}' || c == '\u{2029}' || c == '\u{202f}' || c
        == '\u{205f}' || c == '\u{3000}'
}

/// How many bytes a character takes.
pub open spec fn width(c: char) -> nat {
    if c <= '\u{7f}' {
        1
    } else if c <= '\u{7ff}' {
        2
    } else if c <= '\u{ffff}' {
        3
    } else {
        4
    }
}

/// How many bytes a text takes.
pub open spec fn bytes(text: Seq<char>) -> nat
    decreases text.len(),
{
    if text.len() == 0 {
        0
    } else {
        bytes(text.drop_last()) + width(text.last())
    }
}

/// The lines of a text.
pub open spec fn lines(text: Seq<char>) -> Seq<Seq<char>>
    decreases text.len(),
{
    if text.len() == 0 {
        seq![Seq::empty()]
    } else {
        let before = lines(text.drop_last());
        if text.last() == '\n' {
            before.push(Seq::empty())
        } else {
            before.drop_last().push(before.last().push(text.last()))
        }
    }
}

/// Whether a line begins with `n` characters of white space, and goes on with
/// another character.
pub open spec fn is_indented(line: Seq<char>, n: int) -> bool {
    0 <= n < line.len() && !is_space(line[n]) && forall|k: int|
        0 <= k < n ==> is_space(#[trigger] line[k])
}

/// Whether one of the lines is indented by `cut` bytes.
pub open spec fn has_indentation(lines: Seq<Seq<char>>, cut: nat) -> bool {
    exists|i: int, n: int|
        0 <= i < lines.len() && #[trigger] is_indented(lines[i], n) && bytes(lines[i].take(n)) == cut
}

/// Whether `cut` is what is taken off the lines: the least indentation, in
/// bytes, of those that are not blank, and nothing where all of them are blank.
pub open spec fn is_cut(lines: Seq<Seq<char>>, cut: nat) -> bool {
    if exists|other: nat| has_indentation(lines, other) {
        has_indentation(lines, cut) && forall|other: nat| #[trigger]
            has_indentation(lines, other) ==> cut <= other
    } else {
        cut == 0
    }
}

/// Whether the line has no more than `cut` bytes, or a character begins after
/// `cut` bytes.
pub open spec fn cuts_at(line: Seq<char>, cut: nat) -> bool {
    bytes(line) <= cut || exists|m: int|
        0 <= m <= line.len() && #[trigger] bytes(line.take(m)) == cut
}

/// Whether taking the indentation off the lines of a block string, the first one
/// left aside, cuts none of them inside a character.
pub open spec fn block_cuts_cleanly(block: Seq<char>) -> bool {
    let indented = lines(block).drop_first();
    forall|cut: nat, i: int|
        #![trigger is_cut(indented, cut), indented[i]]
        is_cut(indented, cut) && 0 <= i < indented.len() ==> cuts_at(indented[i], cut)
}

/// Whether three quotes begin at position `i`.
pub open spec fn quotes_at(text: Seq<char>, i: int) -> bool {
    0 <= i && i + 2 < text.len() && text[i] == '"' && text[i + 1] == '"' && text[i + 2] == '"'
}

/// Where the block string ends whose text begins at `start`: the first three
/// quotes, from `i` on, that have no backslash before them.
pub open spec fn block_end(text: Seq<char>, start: int, i: int) -> Option<int>
    decreases text.len() - i,
{
    if i + 2 >= text.len() {
        None
    } else if !quotes_at(text, i) {
        block_end(text, start, i + 1)
    } else if i > start && text[i - 1] == '\\' {
        block_end(text, start, i + 3)
    } else {
        Some(i)
    }
}

/// Where a string ends, from `i` on: the first quote that is not escaped, on the
/// same line.
pub open spec fn string_end(text: Seq<char>, i: int, escaped: bool) -> Option<int>
    decreases text.len() - i,
{
    if i >= text.len() || text[i] == '\n' {
        None
    } else if text[i] == '"' && !escaped {
        Some(i)
    } else {
        string_end(text, i + 1, !escaped && text[i] == '\\')
    }
}

/// Where a comment ends, from `i` on: at the end of its line.
pub open spec fn comment_end(text: Seq<char>, i: int) -> int
    decreases text.len() - i,
{
    if i >= text.len() || text[i] == '\n' || text[i] == '\r' {
        i
    } else {
        comment_end(text, i + 1)
    }
}

/// A decimal digit.
pub open spec fn is_digit(c: char) -> bool {
    '0' <= c <= '9'
}

/// What a name begins with.
pub open spec fn is_name_start(c: char) -> bool {
    'a' <= c <= 'z' || 'A' <= c <= 'Z' || c == '_'
}

/// What stands between tokens and has no meaning.
pub open spec fn is_ignored(c: char) -> bool {
    c == ' ' || c == '\t' || c == '\n' || c == '\r' || c == ',' || c == '\u{feff}'
}

/// A punctuator of one character.
pub open spec fn is_punctuator(c: char) -> bool {
    c == '!' || c == '$' || c == ':' || c == '=' || c == '@' || c == '|' || c == '&' || c == '('
        || c == ')' || c == '[' || c == ']' || c == '{' || c == '}'
}

/// Whether a number can end before position `i`.
pub open spec fn may_end_number(text: Seq<char>, i: int) -> bool {
    i >= text.len() || is_punctuator(text[i]) || text[i] == '#' || (is_ignored(text[i]) && text[i]
        != '\u{feff}')
}

/// Where a row of digits ends, from `i` on.
pub open spec fn digits_end(text: Seq<char>, i: int) -> int
    decreases text.len() - i,
{
    if i < text.len() && is_digit(text[i]) {
        digits_end(text, i + 1)
    } else {
        i
    }
}

/// Where a name ends, from `i` on.
pub open spec fn name_end(text: Seq<char>, i: int) -> int
    decreases text.len() - i,
{
    if i < text.len() && (is_name_start(text[i]) || is_digit(text[i])) {
        name_end(text, i + 1)
    } else {
        i
    }
}

/// Where the whole part of a number ends whose digits begin at `i`: there are
/// some, and no zero before others.
pub open spec fn whole_end(text: Seq<char>, i: int) -> Option<int> {
    let end = digits_end(text, i);
    if end == i || (text[i] == '0' && end > i + 1) {
        None
    } else {
        Some(end)
    }
}

/// Where the fraction of a number ends, where there is one at `i`: a point and
/// digits.
pub open spec fn fraction_end(text: Seq<char>, i: int) -> Option<int> {
    if i < text.len() && text[i] == '.' {
        let end = digits_end(text, i + 1);
        if end == i + 1 {
            None
        } else {
            Some(end)
        }
    } else {
        Some(i)
    }
}

/// Where the exponent of a number ends, where there is one at `i`: its letter, a
/// sign or a digit from one to eight, and digits.
pub open spec fn exponent_end(text: Seq<char>, i: int) -> Option<int> {
    if i < text.len() && (text[i] == 'e' || text[i] == 'E') {
        if i + 1 < text.len() && (text[i + 1] == '-' || text[i + 1] == '+' || '1' <= text[i + 1]
            <= '8') {
            Some(digits_end(text, i + 2))
        } else {
            None
        }
    } else {
        Some(i)
    }
}

/// Where the number ends that begins at `i`.
pub open spec fn number_end(text: Seq<char>, i: int) -> Option<int> {
    let digits = if text[i] == '-' {
        i + 1
    } else {
        i
    };
    match whole_end(text, digits) {
        Some(whole) => match fraction_end(text, whole) {
            Some(fraction) => match exponent_end(text, fraction) {
                Some(end) => if may_end_number(text, end) {
                    Some(end)
                } else {
                    None
                },
                None => None,
            },
            None => None,
        },
        None => None,
    }
}

/// Where the token ends that begins at `i`, or what is ignored there; nothing
/// where no token begins.
pub open spec fn token_end(text: Seq<char>, i: int) -> Option<int> {
    if quotes_at(text, i) {
        match block_end(text, i + 3, i + 3) {
            Some(end) => Some(end + 3),
            None => None,
        }
    } else if text[i] == '"' {
        match string_end(text, i + 1, false) {
            Some(end) => Some(end + 1),
            None => None,
        }
    } else if text[i] == '#' {
        Some(comment_end(text, i + 1))
    } else if is_name_start(text[i]) {
        Some(name_end(text, i + 1))
    } else if text[i] == '-' || is_digit(text[i]) {
        number_end(text, i)
    } else if text[i] == '.' {
        if i + 2 < text.len() && text[i + 1] == '.' && text[i + 2] == '.' {
            Some(i + 3)
        } else {
            None
        }
    } else if is_punctuator(text[i]) || is_ignored(text[i]) {
        Some(i + 1)
    } else {
        None
    }
}

/// Whether every block string cuts cleanly that is read from position `i` on,
/// token by token, up to where no token begins.
pub open spec fn cuts_cleanly_from(text: Seq<char>, i: int) -> bool
    decreases text.len() - i,
{
    if i < 0 || i >= text.len() {
        true
    } else {
        match token_end(text, i) {
            Some(end) => {
                proof {
                    lemma_token_end(text, i);
                }
                (quotes_at(text, i) ==> block_cuts_cleanly(text.subrange(i + 3, end - 3)))
                    && cuts_cleanly_from(text, end)
            },
            None => true,
        }
    }
}

/// Whether every block string of a document cuts cleanly.
pub open spec fn cuts_cleanly(text: Seq<char>) -> bool {
    cuts_cleanly_from(text, 0)
}

/// A block string ends with three quotes, where it begins or later.
proof fn lemma_block_end(text: Seq<char>, start: int, i: int)
    ensures
        block_end(text, start, i) matches Some(end) ==> i <= end && end + 3 <= text.len(),
    decreases text.len() - i,
{
    if i + 2 < text.len() {
        if !quotes_at(text, i) {
            lemma_block_end(text, start, i + 1);
        } else if i > start && text[i - 1] == '\\' {
            lemma_block_end(text, start, i + 3);
        }
    }
}

/// A string ends where it begins or later.
proof fn lemma_string_end(text: Seq<char>, i: int, escaped: bool)
    ensures
        string_end(text, i, escaped) matches Some(end) ==> i <= end < text.len(),
    decreases text.len() - i,
{
    if i < text.len() && text[i] != '\n' && !(text[i] == '"' && !escaped) {
        lemma_string_end(text, i + 1, !escaped && text[i] == '\\');
    }
}

/// A comment ends where it begins or later, at the end of the text at the latest.
proof fn lemma_comment_end(text: Seq<char>, i: int)
    ensures
        i <= comment_end(text, i),
        i <= text.len() ==> comment_end(text, i) <= text.len(),
    decreases text.len() - i,
{
    if i < text.len() && text[i] != '\n' && text[i] != '\r' {
        lemma_comment_end(text, i + 1);
    }
}

/// A row of digits ends where it begins or later.
proof fn lemma_digits_end(text: Seq<char>, i: int)
    requires
        i <= text.len(),
    ensures
        i <= digits_end(text, i) <= text.len(),
    decreases text.len() - i,
{
    if i < text.len() && is_digit(text[i]) {
        lemma_digits_end(text, i + 1);
    }
}

/// A name ends where it begins or later.
proof fn lemma_name_end(text: Seq<char>, i: int)
    requires
        i <= text.len(),
    ensures
        i <= name_end(text, i) <= text.len(),
    decreases text.len() - i,
{
    if i < text.len() && (is_name_start(text[i]) || is_digit(text[i])) {
        lemma_name_end(text, i + 1);
    }
}

/// A number has at least one character.
proof fn lemma_number_end(text: Seq<char>, i: int)
    requires
        0 <= i < text.len(),
    ensures
        number_end(text, i) matches Some(end) ==> i < end <= text.len(),
{
    let digits = if text[i] == '-' {
        i + 1
    } else {
        i
    };
    lemma_digits_end(text, digits);
    if let Some(whole) = whole_end(text, digits) {
        if whole < text.len() {
            lemma_digits_end(text, whole + 1);
        }
        if let Some(fraction) = fraction_end(text, whole) {
            if fraction + 1 < text.len() {
                lemma_digits_end(text, fraction + 2);
            }
        }
    }
}

/// A token has at least one character, and a block string its quotes.
pub proof fn lemma_token_end(text: Seq<char>, i: int)
    requires
        0 <= i < text.len(),
    ensures
        token_end(text, i) matches Some(end) ==> i < end <= text.len() && (quotes_at(text, i) ==> i
            + 6 <= end),
{
    lemma_block_end(text, i + 3, i + 3);
    lemma_string_end(text, i + 1, false);
    lemma_comment_end(text, i + 1);
    lemma_name_end(text, i + 1);
    lemma_number_end(text, i);
}

/// A longer part of a text takes as many bytes as a shorter one, and more.
proof fn lemma_bytes_grow(text: Seq<char>, a: int, b: int)
    requires
        0 <= a <= b <= text.len(),
    ensures
        bytes(text.take(a)) + (b - a) <= bytes(text.take(b)) <= bytes(text.take(a)) + 4 * (b - a),
    decreases b - a,
{
    if a < b {
        lemma_bytes_grow(text, a, b - 1);
        assert(text.take(b).drop_last() == text.take(b - 1));
    }
}

/// A text has at most one indentation.
proof fn lemma_one_indentation(line: Seq<char>, a: int, b: int)
    requires
        is_indented(line, a),
        is_indented(line, b),
    ensures
        a == b,
{
    if a < b {
        assert(is_space(line[a]));
    } else if b < a {
        assert(is_space(line[b]));
    }
}

/// A line more has the indentations of the lines before it, and its own.
proof fn lemma_indentation_of_more(before: Seq<Seq<char>>, line: Seq<char>, cut: nat)
    ensures
        has_indentation(before.push(line), cut) <==> has_indentation(before, cut) || (exists|n: int|
            #[trigger] is_indented(line, n) && bytes(line.take(n)) == cut),
{
    let all = before.push(line);
    if has_indentation(all, cut) {
        let (i, n) = choose|i: int, n: int|
            0 <= i < all.len() && #[trigger] is_indented(all[i], n) && bytes(all[i].take(n)) == cut;
        if i < before.len() {
            assert(is_indented(before[i], n));
        } else {
            assert(is_indented(line, n));
        }
    }
    if has_indentation(before, cut) {
        let (i, n) = choose|i: int, n: int|
            0 <= i < before.len() && #[trigger] is_indented(before[i], n) && bytes(
                before[i].take(n),
            ) == cut;
        assert(is_indented(all[i], n));
    }
    if exists|n: int| #[trigger] is_indented(line, n) && bytes(line.take(n)) == cut {
        let n = choose|n: int| #[trigger] is_indented(line, n) && bytes(line.take(n)) == cut;
        assert(is_indented(all[before.len() as int], n));
    }
}

/// Whether `c` is white space.
fn space(c: char) -> (yes: bool)
    ensures
        yes == is_space(c),
{
    c == ' ' || ('\t' <= c && c <= '\r') || c == '\u{85}' || c == '\u{a0}' || c == '\u{1680}' || (
    '\u{2000}' <= c && c <= '\u{200a}') || c == '\u{2028}' || c == '\u{2029}' || c == '\u{202f}' || c
        == '\u{205f}' || c == '\u{3000}'
}

/// Whether `c` is a decimal digit.
fn digit(c: char) -> (yes: bool)
    ensures
        yes == is_digit(c),
{
    '0' <= c && c <= '9'
}

/// Whether a name can begin with `c`.
fn name_start(c: char) -> (yes: bool)
    ensures
        yes == is_name_start(c),
{
    ('a' <= c && c <= 'z') || ('A' <= c && c <= 'Z') || c == '_'
}

/// Whether `c` has no meaning between tokens.
fn ignored(c: char) -> (yes: bool)
    ensures
        yes == is_ignored(c),
{
    c == ' ' || c == '\t' || c == '\n' || c == '\r' || c == ',' || c == '\u{feff}'
}

/// Whether `c` is a punctuator.
fn punctuator(c: char) -> (yes: bool)
    ensures
        yes == is_punctuator(c),
{
    c == '!' || c == '$' || c == ':' || c == '=' || c == '@' || c == '|' || c == '&' || c == '(' || c
        == ')' || c == '[' || c == ']' || c == '{' || c == '}'
}

/// How many bytes `c` takes.
fn char_width(c: char) -> (n: u128)
    ensures
        n == width(c),
{
    if c <= '\u{7f}' {
        1
    } else if c <= '\u{7ff}' {
        2
    } else if c <= '\u{ffff}' {
        3
    } else {
        4
    }
}

/// What each of the lines holds.
spec fn line_views(lines: Seq<Vec<char>>) -> Seq<Seq<char>> {
    lines.map_values(|line: Vec<char>| line@)
}

/// The lines of a part of a text.
fn split_lines(chars: &Vec<char>, from: usize, to: usize) -> (split: Vec<Vec<char>>)
    requires
        from <= to <= chars.len(),
    ensures
        line_views(split@) == lines(chars@.subrange(from as int, to as int)),
        split.len() > 0,
{
    let mut split: Vec<Vec<char>> = Vec::new();
    let mut line: Vec<char> = Vec::new();
    let mut i: usize = from;
    assert(chars@.subrange(from as int, from as int) == Seq::<char>::empty());
    assert(line_views(split@).push(line@) == seq![Seq::<char>::empty()]);
    while i < to
        invariant
            from <= i <= to <= chars.len(),
            line_views(split@).push(line@) == lines(chars@.subrange(from as int, i as int)),
        decreases to - i,
    {
        let c: char = chars[i];
        let ghost before = line_views(split@).push(line@);
        proof {
            let longer = chars@.subrange(from as int, i + 1);
            assert(longer.drop_last() == chars@.subrange(from as int, i as int));
            assert(longer.last() == c);
            assert(before.drop_last() == line_views(split@));
        }
        if c == '\n' {
            split.push(line);
            line = Vec::new();
            assert(line_views(split@).push(line@) == before.push(Seq::<char>::empty()));
        } else {
            line.push(c);
        }
        i += 1;
    }
    let ghost before = line_views(split@).push(line@);
    split.push(line);
    assert(line_views(split@) == before);
    split
}

/// How many bytes a line is indented by, where it is not blank.
fn indentation(line: &Vec<char>) -> (indentation: Option<u128>)
    ensures
        match indentation {
            Some(cut) => exists|n: int| #[trigger]
                is_indented(line@, n) && bytes(line@.take(n)) == cut,
            None => forall|n: int| !#[trigger] is_indented(line@, n),
        },
{
    let mut cut: u128 = 0;
    let mut i: usize = 0;
    assert(line@.take(0) == Seq::<char>::empty());
    while i < line.len()
        invariant
            i <= line.len(),
            forall|k: int| 0 <= k < i ==> is_space(#[trigger] line@[k]),
            cut == bytes(line@.take(i as int)),
            cut <= 4 * i,
        decreases line.len() - i,
    {
        let c: char = line[i];
        if !space(c) {
            assert(is_indented(line@, i as int));
            return Some(cut);
        }
        assert(line@.take(i + 1).drop_last() == line@.take(i as int));
        cut = cut + char_width(c);
        i += 1;
    }
    None
}

/// What is taken off the lines after the first.
fn least_indentation(split: &Vec<Vec<char>>) -> (cut: u128)
    requires
        split.len() > 0,
    ensures
        is_cut(line_views(split@).drop_first(), cut as nat),
{
    let ghost views = line_views(split@);
    let mut least: Option<u128> = None;
    let mut i: usize = 1;
    while i < split.len()
        invariant
            1 <= i <= split.len(),
            views == line_views(split@),
            match least {
                Some(cut) => has_indentation(views.subrange(1, i as int), cut as nat) && forall|
                    other: nat,
                | #[trigger]
                    has_indentation(views.subrange(1, i as int), other) ==> cut <= other,
                None => forall|other: nat|
                    !#[trigger] has_indentation(views.subrange(1, i as int), other),
            },
        decreases split.len() - i,
    {
        let own = indentation(&split[i]);
        proof {
            let before = views.subrange(1, i as int);
            let line = split@[i as int]@;
            assert(views.subrange(1, i + 1) == before.push(line));
            assert forall|cut: nat| #[trigger]
                has_indentation(views.subrange(1, i + 1), cut) <==> has_indentation(before, cut) || (
                own is Some && own->0 == cut) by {
                lemma_indentation_of_more(before, line, cut);
                if own is Some {
                    let n = choose|n: int| #[trigger]
                        is_indented(line, n) && bytes(line.take(n)) == own->0;
                    if exists|m: int| #[trigger] is_indented(line, m) && bytes(line.take(m)) == cut {
                        let m = choose|m: int| #[trigger]
                            is_indented(line, m) && bytes(line.take(m)) == cut;
                        lemma_one_indentation(line, n, m);
                    }
                }
            }
            if least is Some {
                assert(has_indentation(views.subrange(1, i + 1), least->0 as nat));
            }
            if own is Some {
                assert(has_indentation(views.subrange(1, i + 1), own->0 as nat));
            }
        }
        least = match (least, own) {
            (Some(a), Some(b)) => if b < a {
                Some(b)
            } else {
                Some(a)
            },
            (Some(a), None) => Some(a),
            (None, own) => own,
        };
        i += 1;
    }
    assert(views.subrange(1, views.len() as int) == views.drop_first());
    match least {
        Some(cut) => cut,
        None => 0,
    }
}

/// Whether a line has no more than `cut` bytes, or a character begins after
/// `cut` bytes.
fn can_cut_at(line: &Vec<char>, cut: u128) -> (clean: bool)
    ensures
        clean == cuts_at(line@, cut as nat),
{
    let mut n: u128 = 0;
    let mut i: usize = 0;
    assert(line@.take(0) == Seq::<char>::empty());
    while i < line.len() && n < cut
        invariant
            i <= line.len(),
            n == bytes(line@.take(i as int)),
            n <= 4 * i,
            i > 0 ==> bytes(line@.take(i - 1)) < cut,
        decreases line.len() - i,
    {
        assert(line@.take(i + 1).drop_last() == line@.take(i as int));
        n = n + char_width(line[i]);
        i += 1;
    }
    proof {
        assert(line@.take(line.len() as int) == line@);
        lemma_bytes_grow(line@, i as int, line.len() as int);
        if n > cut {
            assert forall|m: int| 0 <= m <= line.len() implies #[trigger] bytes(line@.take(m))
                != cut by {
                if m < i {
                    lemma_bytes_grow(line@, m, i - 1);
                } else {
                    lemma_bytes_grow(line@, i as int, m);
                }
            }
        }
    }
    n <= cut
}

/// Whether the block string that is a part of a text cuts cleanly.
fn block_is_clean(chars: &Vec<char>, from: usize, to: usize) -> (clean: bool)
    requires
        from <= to <= chars.len(),
    ensures
        clean == block_cuts_cleanly(chars@.subrange(from as int, to as int)),
{
    let split = split_lines(chars, from, to);
    let cut: u128 = least_indentation(&split);
    let ghost indented = line_views(split@).drop_first();
    assert forall|other: nat| #[trigger] is_cut(indented, other) implies other == cut by {
        if exists|any: nat| has_indentation(indented, any) {
            assert(has_indentation(indented, other));
            assert(has_indentation(indented, cut as nat));
        }
    }
    let mut i: usize = 1;
    while i < split.len()
        invariant
            1 <= i <= split.len(),
            indented == line_views(split@).drop_first(),
            forall|k: int| 0 <= k < i - 1 ==> cuts_at(#[trigger] indented[k], cut as nat),
            is_cut(indented, cut as nat),
            lines(chars@.subrange(from as int, to as int)) == line_views(split@),
        decreases split.len() - i,
    {
        assert(indented[i - 1] == split@[i as int]@);
        if !can_cut_at(&split[i], cut) {
            return false;
        }
        i += 1;
    }
    true
}

/// Whether three quotes begin at position `i`.
fn has_quotes(chars: &Vec<char>, i: usize) -> (yes: bool)
    requires
        i < chars.len(),
    ensures
        yes == quotes_at(chars@, i as int),
{
    chars.len() - i > 2 && chars[i] == '"' && chars[i + 1] == '"' && chars[i + 2] == '"'
}

/// Where the block string ends whose text begins at `start`.
fn find_block_end(chars: &Vec<char>, start: usize) -> (end: Option<usize>)
    requires
        start <= chars.len(),
    ensures
        match end {
            Some(end) => block_end(chars@, start as int, start as int) == Some(end as int),
            None => block_end(chars@, start as int, start as int) is None,
        },
{
    let mut i: usize = start;
    while chars.len() - i > 2
        invariant
            start <= i <= chars.len(),
            block_end(chars@, start as int, i as int) == block_end(
                chars@,
                start as int,
                start as int,
            ),
        decreases chars.len() - i,
    {
        if !has_quotes(chars, i) {
            i += 1;
        } else if i > start && chars[i - 1] == '\\' {
            i += 3;
        } else {
            return Some(i);
        }
    }
    None
}

/// Where the string ends whose text begins at `start`.
fn find_string_end(chars: &Vec<char>, start: usize) -> (end: Option<usize>)
    requires
        start <= chars.len(),
    ensures
        match end {
            Some(end) => string_end(chars@, start as int, false) == Some(end as int),
            None => string_end(chars@, start as int, false) is None,
        },
{
    let mut i: usize = start;
    let mut escaped = false;
    while i < chars.len()
        invariant
            start <= i <= chars.len(),
            string_end(chars@, i as int, escaped) == string_end(chars@, start as int, false),
        decreases chars.len() - i,
    {
        let c: char = chars[i];
        if c == '\n' {
            return None;
        }
        if c == '"' && !escaped {
            return Some(i);
        }
        escaped = !escaped && c == '\\';
        i += 1;
    }
    None
}

/// Where the comment ends whose text begins at `start`.
fn find_comment_end(chars: &Vec<char>, start: usize) -> (end: usize)
    requires
        start <= chars.len(),
    ensures
        end == comment_end(chars@, start as int),
{
    let mut i: usize = start;
    while i < chars.len() && chars[i] != '\n' && chars[i] != '\r'
        invariant
            start <= i <= chars.len(),
            comment_end(chars@, i as int) == comment_end(chars@, start as int),
        decreases chars.len() - i,
    {
        i += 1;
    }
    i
}

/// Where the row of digits ends that begins at `start`.
fn find_digits_end(chars: &Vec<char>, start: usize) -> (end: usize)
    requires
        start <= chars.len(),
    ensures
        end == digits_end(chars@, start as int),
        start <= end <= chars.len(),
{
    let mut i: usize = start;
    while i < chars.len() && digit(chars[i])
        invariant
            start <= i <= chars.len(),
            digits_end(chars@, i as int) == digits_end(chars@, start as int),
        decreases chars.len() - i,
    {
        i += 1;
    }
    i
}

/// Where the name ends that goes on at `start`.
fn find_name_end(chars: &Vec<char>, start: usize) -> (end: usize)
    requires
        start <= chars.len(),
    ensures
        end == name_end(chars@, start as int),
{
    let mut i: usize = start;
    while i < chars.len() && (name_start(chars[i]) || digit(chars[i]))
        invariant
            start <= i <= chars.len(),
            name_end(chars@, i as int) == name_end(chars@, start as int),
        decreases chars.len() - i,
    {
        i += 1;
    }
    i
}

/// A position in a text.
spec fn position(i: Option<usize>) -> Option<int> {
    match i {
        Some(i) => Some(i as int),
        None => None,
    }
}

/// Where the number ends that begins at `start`.
fn find_number_end(chars: &Vec<char>, start: usize) -> (end: Option<usize>)
    requires
        start < chars.len(),
    ensures
        position(end) == number_end(chars@, start as int),
{
    let digits: usize = if chars[start] == '-' {
        start + 1
    } else {
        start
    };
    let mut end: usize = find_digits_end(chars, digits);
    if end == digits || (chars[digits] == '0' && end - digits > 1) {
        return None;
    }
    if end < chars.len() && chars[end] == '.' {
        let point: usize = end;
        end = find_digits_end(chars, point + 1);
        if end == point + 1 {
            return None;
        }
    }
    if end < chars.len() && (chars[end] == 'e' || chars[end] == 'E') {
        if chars.len() - end < 2 {
            return None;
        }
        let first: char = chars[end + 1];
        if !(first == '-' || first == '+' || ('1' <= first && first <= '8')) {
            return None;
        }
        end = find_digits_end(chars, end + 2);
    }
    if end == chars.len() {
        return Some(end);
    }
    let c: char = chars[end];
    if punctuator(c) || c == '#' || (ignored(c) && c != '\u{feff}') {
        Some(end)
    } else {
        None
    }
}

/// Where the token ends that begins at `i`, or what is ignored there.
fn find_token_end(chars: &Vec<char>, i: usize) -> (end: Option<usize>)
    requires
        i < chars.len(),
    ensures
        position(end) == token_end(chars@, i as int),
{
    proof {
        lemma_token_end(chars@, i as int);
    }
    let c: char = chars[i];
    if has_quotes(chars, i) {
        match find_block_end(chars, i + 3) {
            Some(end) => Some(end + 3),
            None => None,
        }
    } else if c == '"' {
        match find_string_end(chars, i + 1) {
            Some(end) => Some(end + 1),
            None => None,
        }
    } else if c == '#' {
        Some(find_comment_end(chars, i + 1))
    } else if name_start(c) {
        Some(find_name_end(chars, i + 1))
    } else if c == '-' || digit(c) {
        find_number_end(chars, i)
    } else if c == '.' {
        if chars.len() - i > 2 && chars[i + 1] == '.' && chars[i + 2] == '.' {
            Some(i + 3)
        } else {
            None
        }
    } else if punctuator(c) || ignored(c) {
        Some(i + 1)
    } else {
        None
    }
}

/// Whether every block string of a document cuts cleanly.
pub fn can_be_cut(text: &str) -> (cleanly: bool)
    ensures
        cleanly == cuts_cleanly(text@),
{
    let chars = text::characters(text);
    let mut i: usize = 0;
    while i < chars.len()
        invariant
            i <= chars.len(),
            chars@ == text@,
            cuts_cleanly_from(text@, i as int) == cuts_cleanly(text@),
        decreases chars.len() - i,
    {
        proof {
            lemma_token_end(text@, i as int);
        }
        match find_token_end(&chars, i) {
            Some(end) => {
                if has_quotes(&chars, i) && !block_is_clean(&chars, i + 3, end - 3) {
                    return false;
                }
                i = end;
            },
            None => return true,
        }
    }
    true
}

/// White space takes one byte.
pub open spec fn is_narrow(text: Seq<char>) -> bool {
    forall|k: int| 0 <= k < text.len() && is_space(#[trigger] text[k]) ==> width(text[k]) == 1
}

/// The lines of a text have no other white space than the text.
proof fn lemma_narrow_lines(text: Seq<char>)
    requires
        is_narrow(text),
    ensures
        lines(text).len() > 0,
        forall|i: int| 0 <= i < lines(text).len() ==> is_narrow(#[trigger] lines(text)[i]),
    decreases text.len(),
{
    if text.len() > 0 {
        let head = text.drop_last();
        assert forall|k: int| 0 <= k < head.len() && is_space(#[trigger] head[k]) implies width(
            head[k],
        ) == 1 by {
            assert(head[k] == text[k]);
        }
        lemma_narrow_lines(head);
        let before = lines(head);
        assert forall|i: int| 0 <= i < lines(text).len() implies is_narrow(
            #[trigger] lines(text)[i],
        ) by {
            let line = lines(text)[i];
            if i < before.len() - 1 {
                assert(line == before[i]);
            } else if i == before.len() - 1 {
                let last = before[i];
                assert(is_narrow(last));
                assert forall|k: int| 0 <= k < line.len() && is_space(#[trigger] line[k]) implies width(
                    line[k],
                ) == 1 by {
                    if k < last.len() {
                        assert(line[k] == last[k]);
                    } else {
                        assert(line[k] == text[text.len() - 1]);
                    }
                }
            }
        }
    }
}

/// Narrow white space takes as many bytes as it has characters.
proof fn lemma_narrow_bytes(line: Seq<char>, n: int)
    requires
        is_narrow(line),
        0 <= n <= line.len(),
        forall|k: int| 0 <= k < n ==> is_space(#[trigger] line[k]),
    ensures
        bytes(line.take(n)) == n,
    decreases n,
{
    if n > 0 {
        lemma_narrow_bytes(line, n - 1);
        assert(line.take(n).drop_last() == line.take(n - 1));
    }
}

/// A line is indented or blank.
proof fn lemma_indented_or_blank(line: Seq<char>, n: int)
    requires
        0 <= n <= line.len(),
        forall|k: int| 0 <= k < n ==> is_space(#[trigger] line[k]),
    ensures
        (exists|m: int| is_indented(line, m)) || (forall|k: int|
            0 <= k < line.len() ==> is_space(#[trigger] line[k])),
    decreases line.len() - n,
{
    if n < line.len() {
        if is_space(line[n]) {
            lemma_indented_or_blank(line, n + 1);
        } else {
            assert(is_indented(line, n));
        }
    }
}

/// A block string whose white space is narrow cuts cleanly.
proof fn lemma_narrow_block(block: Seq<char>)
    requires
        is_narrow(block),
    ensures
        block_cuts_cleanly(block),
{
    lemma_narrow_lines(block);
    let indented = lines(block).drop_first();
    assert forall|cut: nat, i: int|
        #![trigger is_cut(indented, cut), indented[i]]
        is_cut(indented, cut) && 0 <= i < indented.len() implies cuts_at(indented[i], cut) by {
        let line = indented[i];
        assert(line == lines(block)[i + 1]);
        lemma_indented_or_blank(line, 0);
        if exists|m: int| is_indented(line, m) {
            let m = choose|m: int| is_indented(line, m);
            lemma_narrow_bytes(line, m);
            assert(is_indented(indented[i], m));
            assert(has_indentation(indented, m as nat));
            lemma_narrow_bytes(line, cut as int);
        } else {
            lemma_narrow_bytes(line, line.len() as int);
            assert(line.take(line.len() as int) == line);
            if bytes(line) > cut {
                lemma_narrow_bytes(line, cut as int);
            }
        }
    }
}

/// A document whose white space is all ASCII can be cut.
pub proof fn ascii_white_space_can_be_cut(text: Seq<char>)
    requires
        is_narrow(text),
    ensures
        cuts_cleanly(text),
{
    lemma_narrow_from(text, 0);
}

/// A document whose white space is narrow cuts cleanly from any position on.
proof fn lemma_narrow_from(text: Seq<char>, i: int)
    requires
        is_narrow(text),
    ensures
        cuts_cleanly_from(text, i),
    decreases text.len() - i,
{
    if 0 <= i < text.len() {
        lemma_token_end(text, i);
        if let Some(end) = token_end(text, i) {
            if quotes_at(text, i) {
                let block = text.subrange(i + 3, end - 3);
                assert forall|k: int| 0 <= k < block.len() && is_space(
                    #[trigger] block[k],
                ) implies width(block[k]) == 1 by {
                    assert(block[k] == text[i + 3 + k]);
                }
                lemma_narrow_block(block);
            }
            lemma_narrow_from(text, end);
        }
    }
}

} // verus!
