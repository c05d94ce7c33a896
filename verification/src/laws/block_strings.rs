//! Laws on taking the indentation off block strings.

use vstd::prelude::*;

use crate::codegen::block_string::{
    block_cuts_cleanly, block_end, bytes, can_be_cut, cuts_at, cuts_cleanly_from, has_indentation,
    is_cut, is_indented, is_space, lemma_token_end, lines, quotes_at, token_end,
};

verus! {

/// White space.
pub open spec fn is_white(c: char) -> bool {
    let n = c as int;
    n == 0x20 || 0x9 <= n <= 0xd || n == 0x85 || n == 0xa0 || n == 0x1680 || 0x2000 <= n <= 0x200a
        || n == 0x2028 || n == 0x2029 || n == 0x202f || n == 0x205f || n == 0x3000
}

/// How many bytes a text takes in UTF-8.
pub open spec fn size(text: Seq<char>) -> nat
    decreases text.len(),
{
    if text.len() == 0 {
        0
    } else {
        let n = text.last() as int;
        size(text.drop_last()) + if n < 0x80 {
            1nat
        } else if n < 0x800 {
            2
        } else if n < 0x10000 {
            3
        } else {
            4
        }
    }
}

/// Whether a line, not the first, goes from `b` to `e`.
pub open spec fn is_later_line(block: Seq<char>, b: int, e: int) -> bool {
    0 < b <= e <= block.len() && block[b - 1] == '\n' && (e == block.len() || block[e] == '\n')
        && forall|k: int| b <= k < e ==> #[trigger] block[k] != '\n'
}

/// Whether a line, not the first, begins at `b`, is not blank, and is indented up
/// to `k`.
pub open spec fn is_indented_to(block: Seq<char>, b: int, k: int) -> bool {
    exists|e: int| #[trigger]
        is_later_line(block, b, e) && b <= k < e && !is_white(block[k]) && forall|m: int|
            b <= m < k ==> is_white(#[trigger] block[m])
}

/// Whether the line from `b`, indented to `k`, is one of the least indented ones,
/// and taking as much off the line from `c` to `d` cuts a character of it.
pub open spec fn is_miscut(block: Seq<char>, b: int, k: int, c: int, d: int) -> bool {
    let cut = size(block.subrange(b, k));
    &&& is_indented_to(block, b, k)
    &&& forall|b2: int, k2: int| #[trigger]
        is_indented_to(block, b2, k2) ==> cut <= size(block.subrange(b2, k2))
    &&& is_later_line(block, c, d)
    &&& size(block.subrange(c, d)) > cut
    &&& forall|m: int| c <= m <= d ==> #[trigger] size(block.subrange(c, m)) != cut
}

/// Whether taking the indentation off a block string cuts a character.
pub open spec fn has_miscut(block: Seq<char>) -> bool {
    exists|b: int, k: int, c: int, d: int| is_miscut(block, b, k, c, d)
}

/// A text that is refused has a block string that is cut inside a character.
pub proof fn only_miscut_block_strings_are_refused(text: &str, can: bool)
    requires
        call_ensures(can_be_cut, (text,), can),
        !can,
    ensures
        exists|start: int, end: int|
            quotes_at(text@, start - 3) && quotes_at(text@, end) && start <= end && has_miscut(
                #[trigger] text@.subrange(start, end),
            ),
{
    lemma_refused(text@, 0);
}

/// A text that is one block string is refused exactly where the block string is
/// cut inside a character.
pub proof fn miscut_block_string_is_refused(text: &str, block: Seq<char>, can: bool)
    requires
        call_ensures(can_be_cut, (text,), can),
        text@ == seq!['"', '"', '"'] + block + seq!['"', '"', '"'],
        !block.contains('"'),
        block.len() > 0 ==> block.last() != '\\',
    ensures
        can <==> !has_miscut(block),
{
    let all = text@;
    let end: int = 3 + block.len() as int;
    lemma_block_ends(all, block, 3);
    assert(quotes_at(all, 0));
    assert(token_end(all, 0) == Some(end + 3));
    assert(all.subrange(3, end) == block);
    assert(cuts_cleanly_from(all, end + 3));
    lemma_miscut(block);
}

/// A text without quotes is never refused.
pub proof fn text_without_quotes_can_be_cut(text: &str, can: bool)
    requires
        call_ensures(can_be_cut, (text,), can),
        !text@.contains('"'),
    ensures
        can,
{
    if !can {
        lemma_refused(text@, 0);
        let (start, end) = choose|start: int, end: int|
            quotes_at(text@, start - 3) && quotes_at(text@, end) && start <= end && has_miscut(
                #[trigger] text@.subrange(start, end),
            );
        assert(text@[end] == '"');
    }
}

/// The block string ends with the quotes after it.
proof fn lemma_block_ends(all: Seq<char>, block: Seq<char>, i: int)
    requires
        all == seq!['"', '"', '"'] + block + seq!['"', '"', '"'],
        !block.contains('"'),
        block.len() > 0 ==> block.last() != '\\',
        3 <= i <= 3 + block.len(),
    ensures
        block_end(all, 3, i) == Some(3 + block.len() as int),
    decreases 3 + block.len() - i,
{
    if i < 3 + block.len() {
        assert(all[i] == block[i - 3]);
        assert(block.contains(block[i - 3]));
        lemma_block_ends(all, block, i + 1);
    } else {
        assert(quotes_at(all, i));
        if block.len() > 0 {
            assert(all[i - 1] == block.last());
        }
    }
}

/// What is refused from some position on is refused for a block string.
proof fn lemma_refused(text: Seq<char>, i: int)
    requires
        !cuts_cleanly_from(text, i),
    ensures
        exists|start: int, end: int|
            quotes_at(text, start - 3) && quotes_at(text, end) && start <= end && has_miscut(
                #[trigger] text.subrange(start, end),
            ),
    decreases text.len() - i,
{
    lemma_token_end(text, i);
    let end = token_end(text, i)->0;
    if quotes_at(text, i) && !block_cuts_cleanly(text.subrange(i + 3, end - 3)) {
        lemma_quotes_at_end(text, i + 3, i + 3);
        lemma_miscut(text.subrange(i + 3, end - 3));
    } else {
        lemma_refused(text, end);
    }
}

/// A block string ends with quotes.
proof fn lemma_quotes_at_end(text: Seq<char>, start: int, i: int)
    ensures
        block_end(text, start, i) matches Some(end) ==> quotes_at(text, end),
    decreases text.len() - i,
{
    if i + 2 < text.len() {
        if !quotes_at(text, i) {
            lemma_quotes_at_end(text, start, i + 1);
        } else if i > start && text[i - 1] == '\\' {
            lemma_quotes_at_end(text, start, i + 3);
        }
    }
}

/// The sizes of texts are counted alike.
proof fn lemma_size(text: Seq<char>)
    ensures
        size(text) == bytes(text),
    decreases text.len(),
{
    if text.len() > 0 {
        lemma_size(text.drop_last());
    }
}

/// Whether line `i` goes from `b` to `e`.
spec fn is_line_at(block: Seq<char>, i: int, b: int, e: int) -> bool {
    &&& 0 <= i < lines(block).len()
    &&& 0 <= b <= e <= block.len()
    &&& lines(block)[i] == block.subrange(b, e)
    &&& if i == 0 {
        b == 0
    } else {
        b > 0 && block[b - 1] == '\n'
    }
    &&& if i == lines(block).len() - 1 {
        e == block.len()
    } else {
        e < block.len() && block[e] == '\n'
    }
    &&& forall|k: int| b <= k < e ==> #[trigger] block[k] != '\n'
}

/// Where a line goes.
proof fn lemma_line_at(block: Seq<char>, i: int) -> (place: (int, int))
    requires
        0 <= i < lines(block).len(),
    ensures
        is_line_at(block, i, place.0, place.1),
    decreases block.len(),
{
    if block.len() == 0 {
        assert(block.subrange(0, 0) == Seq::<char>::empty());
        (0, 0)
    } else {
        let head = block.drop_last();
        let last = block.len() - 1;
        if block.last() == '\n' {
            if i == lines(block).len() - 1 {
                assert(block.subrange(last + 1, last + 1) == Seq::<char>::empty());
                lemma_some_lines(head);
                (last + 1, last + 1)
            } else {
                let place = lemma_line_at(head, i);
                assert(head.subrange(place.0, place.1) == block.subrange(place.0, place.1));
                assert forall|k: int| place.0 <= k < place.1 implies #[trigger] block[k] != '\n' by {
                    assert(head[k] == block[k]);
                }
                place
            }
        } else {
            lemma_some_lines(head);
            let place = lemma_line_at(head, i);
            if i == lines(block).len() - 1 {
                assert(block.subrange(place.0, last + 1) == head.subrange(place.0, last).push(
                    block.last(),
                ));
                assert forall|k: int| place.0 <= k < last + 1 implies #[trigger] block[k] != '\n' by {
                    if k < last {
                        assert(head[k] == block[k]);
                    }
                }
                (place.0, last + 1)
            } else {
                assert(head.subrange(place.0, place.1) == block.subrange(place.0, place.1));
                assert forall|k: int| place.0 <= k < place.1 implies #[trigger] block[k] != '\n' by {
                    assert(head[k] == block[k]);
                }
                place
            }
        }
    }
}

/// A text has lines.
proof fn lemma_some_lines(block: Seq<char>)
    ensures
        lines(block).len() > 0,
    decreases block.len(),
{
    if block.len() > 0 {
        lemma_some_lines(block.drop_last());
    }
}

/// Which line goes from `b` to `e`.
proof fn lemma_line_index(block: Seq<char>, b: int, e: int) -> (i: int)
    requires
        0 <= b <= e <= block.len(),
        b == 0 || block[b - 1] == '\n',
        e == block.len() || block[e] == '\n',
        forall|k: int| b <= k < e ==> #[trigger] block[k] != '\n',
    ensures
        is_line_at(block, i, b, e),
    decreases block.len(),
{
    lemma_some_lines(block);
    if block.len() == 0 {
        assert(block.subrange(0, 0) == Seq::<char>::empty());
        0
    } else {
        let head = block.drop_last();
        let last = block.len() - 1;
        lemma_some_lines(head);
        if block.last() == '\n' {
            if b == last + 1 {
                assert(block.subrange(last + 1, last + 1) == Seq::<char>::empty());
                lines(block).len() - 1
            } else {
                if e == last + 1 {
                    assert(block[last] == '\n');
                }
                assert forall|k: int| b <= k < e implies #[trigger] head[k] != '\n' by {
                    assert(head[k] == block[k]);
                }
                let i = lemma_line_index(head, b, e);
                assert(head.subrange(b, e) == block.subrange(b, e));
                i
            }
        } else {
            let short = if e == last + 1 {
                last
            } else {
                e
            };
            assert(b <= short) by {
                if b == last + 1 {
                    assert(block[b - 1] == block.last());
                }
            }
            if e == last {
                assert(block[e] == block.last());
            }
            assert forall|k: int| b <= k < short implies #[trigger] head[k] != '\n' by {
                assert(head[k] == block[k]);
            }
            let i = lemma_line_index(head, b, short);
            if e == last + 1 {
                assert(block.subrange(b, last + 1) == head.subrange(b, last).push(block.last()));
            } else {
                assert(head.subrange(b, e) == block.subrange(b, e));
            }
            i
        }
    }
}

/// A block string cuts cleanly exactly where no character of it is cut.
proof fn lemma_miscut(block: Seq<char>)
    ensures
        block_cuts_cleanly(block) <==> !has_miscut(block),
{
    lemma_some_lines(block);
    let indented = lines(block).drop_first();
    if !block_cuts_cleanly(block) {
        let (cut, i) = choose|cut: nat, i: int|
            #![trigger is_cut(indented, cut), indented[i]]
            is_cut(indented, cut) && 0 <= i < indented.len() && !cuts_at(indented[i], cut);
        lemma_miscut_of_line(block, cut, i);
    }
    if has_miscut(block) {
        let (b, k, c, d) = choose|b: int, k: int, c: int, d: int| is_miscut(block, b, k, c, d);
        let cut = size(block.subrange(b, k));
        lemma_least_is_cut(block, b, k);
        let i = lemma_line_index(block, c, d);
        let line = indented[i - 1];
        assert(line == block.subrange(c, d));
        lemma_size(line);
        assert forall|m: int| 0 <= m <= line.len() implies #[trigger] bytes(line.take(m)) != cut by {
            assert(line.take(m) == block.subrange(c, c + m));
            lemma_size(block.subrange(c, c + m));
            assert(size(block.subrange(c, c + m)) != cut);
        }
        assert(!cuts_at(indented[i - 1], cut));
        assert(is_cut(indented, cut));
    }
}

/// A later line that is indented has an indentation among those of the lines.
proof fn lemma_has_indentation(block: Seq<char>, b: int, k: int)
    requires
        is_indented_to(block, b, k),
    ensures
        has_indentation(lines(block).drop_first(), size(block.subrange(b, k))),
{
    lemma_some_lines(block);
    let indented = lines(block).drop_first();
    let e = choose|e: int| #[trigger]
        is_later_line(block, b, e) && b <= k < e && !is_white(block[k]) && forall|m: int|
            b <= m < k ==> is_white(#[trigger] block[m]);
    let i = lemma_line_index(block, b, e);
    let line = indented[i - 1];
    assert(line == block.subrange(b, e));
    assert(line.take(k - b) == block.subrange(b, k));
    lemma_size(block.subrange(b, k));
    assert forall|m: int| 0 <= m < k - b implies is_space(#[trigger] line[m]) by {
        assert(line[m] == block[b + m]);
        assert(is_white(block[b + m]));
    }
    assert(line[k - b] == block[k]);
    assert(is_indented(indented[i - 1], k - b));
}

/// An indentation among those of the lines is that of a later line.
proof fn lemma_indentation_of(block: Seq<char>, cut: nat) -> (place: (int, int))
    requires
        has_indentation(lines(block).drop_first(), cut),
    ensures
        is_indented_to(block, place.0, place.1),
        size(block.subrange(place.0, place.1)) == cut,
{
    lemma_some_lines(block);
    let indented = lines(block).drop_first();
    let (i, n) = choose|i: int, n: int|
        0 <= i < indented.len() && #[trigger] is_indented(indented[i], n) && bytes(
            indented[i].take(n),
        ) == cut;
    let line = indented[i];
    assert(line == lines(block)[i + 1]);
    let (b, e) = lemma_line_at(block, i + 1);
    assert(is_later_line(block, b, e));
    assert(line.take(n) == block.subrange(b, b + n));
    lemma_size(block.subrange(b, b + n));
    assert forall|m: int| b <= m < b + n implies is_white(#[trigger] block[m]) by {
        assert(line[m - b] == block[m]);
        assert(is_space(line[m - b]));
    }
    assert(line[n] == block[b + n]);
    assert(is_indented_to(block, b, b + n));
    (b, b + n)
}

/// The indentation of a least indented line is what is taken off.
proof fn lemma_least_is_cut(block: Seq<char>, b: int, k: int)
    requires
        is_indented_to(block, b, k),
        forall|b2: int, k2: int| #[trigger]
            is_indented_to(block, b2, k2) ==> size(block.subrange(b, k)) <= size(
                block.subrange(b2, k2),
            ),
    ensures
        is_cut(lines(block).drop_first(), size(block.subrange(b, k))),
{
    let indented = lines(block).drop_first();
    lemma_has_indentation(block, b, k);
    assert forall|other: nat| #[trigger] has_indentation(indented, other) implies size(
        block.subrange(b, k),
    ) <= other by {
        let place = lemma_indentation_of(block, other);
        assert(is_indented_to(block, place.0, place.1));
    }
}

/// A line that does not cut cleanly is cut inside a character.
proof fn lemma_miscut_of_line(block: Seq<char>, cut: nat, i: int)
    requires
        is_cut(lines(block).drop_first(), cut),
        0 <= i < lines(block).drop_first().len(),
        !cuts_at(lines(block).drop_first()[i], cut),
    ensures
        has_miscut(block),
{
    let indented = lines(block).drop_first();
    let line = indented[i];
    assert(line == lines(block)[i + 1]);
    assert(line.take(0) == Seq::<char>::empty());
    assert(bytes(line.take(0)) == 0);
    assert(cut != 0);
    assert(has_indentation(indented, cut));
    let (b, k) = lemma_indentation_of(block, cut);
    let (c, d) = lemma_line_at(block, i + 1);
    assert(is_later_line(block, c, d));
    lemma_size(line);
    assert forall|b2: int, k2: int| #[trigger] is_indented_to(block, b2, k2) implies cut <= size(
        block.subrange(b2, k2),
    ) by {
        lemma_has_indentation(block, b2, k2);
    }
    assert forall|m: int| c <= m <= d implies #[trigger] size(block.subrange(c, m)) != cut by {
        assert(line.take(m - c) == block.subrange(c, m));
        lemma_size(block.subrange(c, m));
        assert(bytes(line.take(m - c)) != cut);
    }
    assert(is_miscut(block, b, k, c, d));
}

} // verus!
