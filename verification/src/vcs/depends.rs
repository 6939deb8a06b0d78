//! Dependencies written out in an issue's body.
//!
//! Where GitHub's own issue dependencies are switched off, a line such as
//! `Depends on #12, #15` in the body names them.

use vstd::prelude::*;

use crate::numbers::parse_u64;
use crate::text::{chars_of, split};

verus! {

/// Whether `c` is `letter`, in either case where `letter` is one of `a` to
/// `z`.
pub open spec fn is_case_of(c: char, letter: char) -> bool {
    c == letter || ('a' <= letter <= 'z' && c as nat + 32 == letter as nat)
}

/// Whether `phrase` stands in `line` at position `at`, in any case.
pub open spec fn stands_at(line: Seq<char>, phrase: Seq<char>, at: int) -> bool {
    &&& 0 <= at
    &&& at + phrase.len() <= line.len()
    &&& forall|k: int| 0 <= k < phrase.len() ==> is_case_of(#[trigger] line[at + k], phrase[k])
}

/// Whether `phrase` stands anywhere in `line`, in any case.
pub open spec fn mentions(line: Seq<char>, phrase: Seq<char>) -> bool {
    exists|at: int| #[trigger] stands_at(line, phrase, at)
}

/// The decimal digits at the start of `text`.
pub open spec fn leading_digits(text: Seq<char>) -> Seq<char>
    decreases text.len(),
{
    if text.len() > 0 && crate::numbers::is_digit(text[0]) {
        seq![text[0]] + leading_digits(text.skip(1))
    } else {
        Seq::empty()
    }
}

/// The number that follows a `#`, where one does.
pub open spec fn reference_number(after: Seq<char>) -> Option<u64> {
    crate::numbers::parsed_u64(leading_digits(after))
}

/// The numbers that follow a `#` in `line`, in order.
pub open spec fn references_in(line: Seq<char>) -> Seq<u64> {
    crate::text::pieces(line, '#').skip(1).filter_map(|after: Seq<char>| reference_number(after))
}

/// The numbers that a line names as dependencies.
pub open spec fn dependencies_in(line: Seq<char>) -> Seq<u64> {
    if mentions(line, "depends on"@) {
        references_in(line)
    } else {
        Seq::empty()
    }
}

/// The numbers that an issue's body names as dependencies, in order.
pub open spec fn body_dependencies(body: Seq<char>) -> Seq<u64> {
    crate::text::pieces(body, '\n').flat_map(|line: Seq<char>| dependencies_in(line))
}

/// Whether `c` is `letter` in either case.
fn same_letter(c: char, letter: char) -> (same: bool)
    ensures
        same == is_case_of(c, letter),
{
    c == letter || ('a' <= letter && letter <= 'z' && c as u32 + 32 == letter as u32)
}

/// Whether `phrase` stands anywhere in `line`, in any case.
fn line_mentions(line: &str, phrase: &str) -> (found: bool)
    ensures
        found == mentions(line@, phrase@),
{
    let chars = chars_of(line);
    let wanted = chars_of(phrase);
    if wanted.len() == 0 {
        assert(stands_at(line@, phrase@, 0));
        return true;
    }
    let mut at: usize = 0;
    while at < chars.len()
        invariant
            chars@ == line@,
            wanted@ == phrase@,
            wanted@.len() > 0,
            at <= chars@.len(),
            forall|k: int| 0 <= k < at ==> !stands_at(line@, phrase@, k),
        decreases chars@.len() - at,
    {
        let mut k: usize = 0;
        while k < wanted.len() && k < chars.len() - at && same_letter(chars[at + k], wanted[k])
            invariant
                chars@ == line@,
                wanted@ == phrase@,
                at <= chars@.len(),
                k <= wanted@.len(),
                at + k <= chars@.len(),
                forall|m: int| 0 <= m < k ==> is_case_of(#[trigger] line@[at + m], phrase@[m]),
            decreases wanted@.len() - k,
        {
            k += 1;
        }
        if k == wanted.len() {
            assert(stands_at(line@, phrase@, at as int));
            return true;
        }
        proof {
            if stands_at(line@, phrase@, at as int) {
                assert(is_case_of(line@[at + k], phrase@[k as int]));
            }
        }
        at += 1;
    }
    proof {
        assert forall|k: int| !stands_at(line@, phrase@, k) by {}
    }
    false
}

/// The digits at the start of `text`.
fn digits_prefix<'a>(text: &'a str) -> (digits: &'a str)
    ensures
        digits@ == leading_digits(text@),
{
    let chars = chars_of(text);
    let mut end: usize = 0;
    proof {
        assert(text@.take(0) =~= Seq::<char>::empty());
        assert(text@.skip(0) =~= text@);
        assert(text@.take(0) + leading_digits(text@.skip(0)) =~= leading_digits(text@));
    }
    while end < chars.len() && '0' <= chars[end] && chars[end] <= '9'
        invariant
            chars@ == text@,
            end <= chars@.len(),
            text@.take(end as int) + leading_digits(text@.skip(end as int)) == leading_digits(
                text@,
            ),
        decreases chars@.len() - end,
    {
        proof {
            let rest = text@.skip(end as int);
            assert(rest.skip(1) =~= text@.skip(end + 1));
            assert(text@.take(end as int) + (seq![rest[0]] + leading_digits(rest.skip(1)))
                =~= text@.take(end + 1) + leading_digits(text@.skip(end + 1)));
        }
        end += 1;
    }
    let digits = text.substring_char(0, end);
    assert(digits@ =~= text@.take(end as int) + Seq::<char>::empty());
    digits
}

/// Adds the numbers that follow a `#` in `line`.
fn add_references(line: &str, numbers: &mut Vec<u64>)
    ensures
        final(numbers)@ == old(numbers)@ + references_in(line@),
{
    let parts = split(line, '#');
    let ghost all = crate::text::pieces(line@, '#');
    let ghost after_mark = all.skip(1);
    let ghost read = |after: Seq<char>| reference_number(after);
    let ghost before = numbers@;
    proof {
        crate::text::pieces_nonempty(line@, '#');
        assert(after_mark.take(0) =~= Seq::<Seq<char>>::empty());
        assert(numbers@ =~= before + after_mark.take(0).filter_map(read));
    }
    let mut i: usize = 1;
    while i < parts.len()
        invariant
            1 <= i <= parts@.len(),
            crate::text::slices(parts@) == all,
            after_mark == all.skip(1),
            read == (|after: Seq<char>| reference_number(after)),
            numbers@ == before + after_mark.take(i - 1).filter_map(read),
        decreases parts@.len() - i,
    {
        proof {
            assert(after_mark[i - 1] == all[i as int]);
            assert(all[i as int] == parts@[i as int]@);
            after_mark.lemma_filter_map_take_succ(read, i - 1);
        }
        if let Some(number) = parse_u64(digits_prefix(parts[i])) {
            numbers.push(number);
        }
        assert(numbers@ =~= before + after_mark.take(i as int).filter_map(read));
        i += 1;
    }
    assert(after_mark.take(i - 1) =~= after_mark);
}

/// Parses `Depends on #N` edges out of an issue body.
///
/// Only a `#N` on a line that mentions "depends on" counts, so that an
/// unrelated cross-reference elsewhere is not mistaken for a dependency.
pub fn parse_depends_on(body: &str) -> (numbers: Vec<u64>)
    ensures
        numbers@ == body_dependencies(body@),
{
    let lines = split(body, '\n');
    let ghost all = crate::text::pieces(body@, '\n');
    let ghost read = |line: Seq<char>| dependencies_in(line);
    let mut numbers: Vec<u64> = Vec::new();
    let mut i: usize = 0;
    assert(numbers@ =~= all.take(0).flat_map(read));
    while i < lines.len()
        invariant
            i <= lines@.len(),
            crate::text::slices(lines@) == all,
            read == (|line: Seq<char>| dependencies_in(line)),
            numbers@ == all.take(i as int).flat_map(read),
        decreases lines@.len() - i,
    {
        proof {
            assert(all[i as int] == lines@[i as int]@);
            all.lemma_flat_map_take_append(read, i as int);
        }
        if line_mentions(lines[i], "depends on") {
            add_references(lines[i], &mut numbers);
        } else {
            assert(numbers@ + Seq::<u64>::empty() =~= numbers@);
        }
        i += 1;
    }
    assert(all.take(i as int) =~= all);
    numbers
}

/// `c` as a small letter, where it is one of `A` to `Z`.
pub open spec fn small(c: char) -> char {
    if 'A' <= c && c <= 'Z' {
        ((c as u32) + 32) as char
    } else {
        c
    }
}

/// A phrase in small letters is found wherever the line spells it, whatever
/// letters it capitalizes, and nowhere else.
pub proof fn the_phrase_is_found_in_any_case(line: Seq<char>, at: int)
    ensures
        stands_at(line, "depends on"@, at) <==> 0 <= at && at + 10 <= line.len() && line.subrange(
            at,
            at + 10,
        ).map_values(|c: char| small(c)) == "depends on"@,
        stands_at(line, "depends on"@, at) ==> mentions(line, "depends on"@),
{
    reveal_strlit("depends on");
    let phrase = "depends on"@;
    if 0 <= at && at + 10 <= line.len() {
        let found = line.subrange(at, at + 10).map_values(|c: char| small(c));
        assert forall|k: int| 0 <= k < 10 implies (is_case_of(#[trigger] line[at + k], phrase[k])
            <==> found[k] == phrase[k]) by {
            assert(line.subrange(at, at + 10)[k] == line[at + k]);
            let (c, letter) = (line[at + k], phrase[k]);
            assert(found[k] == small(c));
            assert(letter == ' ' || ('a' <= letter && letter <= 'z'));
        }
        if stands_at(line, phrase, at) {
            assert forall|k: int| 0 <= k < 10 implies found[k] == phrase[k] by {
                assert(is_case_of(line[at + k], phrase[k]));
            }
            assert(found =~= phrase);
        }
        if found == phrase {
            assert forall|k: int| 0 <= k < phrase.len() implies is_case_of(
                #[trigger] line[at + k],
                phrase[k],
            ) by {
                assert(found[k] == phrase[k]);
            }
        }
    }
}

/// The digits at the start of a text end where another character stands.
proof fn leading_digits_of_row(row: Seq<char>, after: Seq<char>)
    requires
        crate::numbers::all_digits(row),
        after.len() == 0 || !crate::numbers::is_digit(after[0]),
    ensures
        leading_digits(row + after) == row,
    decreases row.len(),
{
    let text = row + after;
    if row.len() == 0 {
        assert(text =~= after);
    } else {
        assert(crate::numbers::is_digit(row[0]));
        assert(text[0] == row[0]);
        let rest = row.skip(1);
        assert forall|i: int| 0 <= i < rest.len() implies crate::numbers::is_digit(
            #[trigger] rest[i],
        ) by {
            assert(rest[i] == row[i + 1]);
        }
        leading_digits_of_row(rest, after);
        assert(text.skip(1) =~= rest + after);
        assert(seq![row[0]] + rest =~= row);
    }
}

/// What stands behind the last `#` of a line decides what it adds.
proof fn last_reference(before: Seq<char>, after: Seq<char>)
    requires
        !after.contains('#'),
    ensures
        references_in(before.push('#') + after) == match reference_number(after) {
            Some(number) => references_in(before).push(number),
            None => references_in(before),
        },
{
    let read = |after: Seq<char>| reference_number(after);
    let parts = crate::text::pieces(before, '#');
    crate::text::pieces_of_join(before, '#', after);
    crate::text::unmarked_text_is_one_piece(after, '#');
    crate::text::pieces_nonempty(before, '#');
    let all = crate::text::pieces(before.push('#') + after, '#').skip(1);
    let front = parts.skip(1);
    assert(all =~= front.push(after));
    all.lemma_filter_map_take_succ(read, front.len() as int);
    assert(all.take(front.len() as int) =~= front);
    assert(all.take(front.len() as int + 1) =~= all);
}

/// Every `#` with a number behind it adds that number at the end; one without
/// adds nothing, and neither does any other text.
pub proof fn numbers_follow_their_hash(before: Seq<char>, number: u64, after: Seq<char>)
    requires
        !after.contains('#'),
        after.len() == 0 || !crate::numbers::is_digit(after[0]),
    ensures
        references_in(before + "#"@ + crate::numbers::decimal(number as nat) + after)
            == references_in(before).push(number),
        references_in(before + "#"@ + after) == references_in(before),
        references_in(after) == Seq::<u64>::empty(),
{
    reveal_strlit("#");
    let row = crate::numbers::decimal(number as nat);
    crate::numbers::decimal_read_back(number as nat);
    crate::numbers::parse_of_decimal(number);
    leading_digits_of_row(row, after);
    leading_digits_of_row(Seq::empty(), after);
    assert(Seq::<char>::empty() + after =~= after);
    let tail = row + after;
    assert(!tail.contains('#')) by {
        if tail.contains('#') {
            let i = tail.index_of('#');
            if i < row.len() {
                assert(crate::numbers::is_digit(row[i]));
            } else {
                assert(after[i - row.len()] == '#');
            }
        }
    }
    last_reference(before, tail);
    last_reference(before, after);
    assert(before + "#"@ + row + after =~= before.push('#') + tail);
    assert(before + "#"@ + after =~= before.push('#') + after);
    crate::text::unmarked_text_is_one_piece(after, '#');
    let none = crate::text::pieces(after, '#').skip(1);
    assert(none =~= Seq::<Seq<char>>::empty());
    reveal(Seq::filter_map);
}

/// What several sequences give adds up.
proof fn gives_add_up<A, B>(a: Seq<A>, b: Seq<A>, give: spec_fn(A) -> Seq<B>)
    ensures
        (a + b).flat_map(give) == a.flat_map(give) + b.flat_map(give),
    decreases b.len(),
{
    if b.len() == 0 {
        assert(a + b =~= a);
        assert(b.flat_map(give) =~= Seq::<B>::empty());
    } else {
        let rest = b.drop_last();
        gives_add_up(a, rest, give);
        rest.lemma_flat_map_push(give, b.last());
        (a + rest).lemma_flat_map_push(give, b.last());
        assert(rest.push(b.last()) =~= b);
        assert((a + rest).push(b.last()) =~= a + b);
        assert((a + b).flat_map(give) =~= a.flat_map(give) + b.flat_map(give));
    }
}

/// A body is read line by line: the dependencies of two parts that a line end
/// divides are those of the one and then those of the other; and a line names
/// its references where it says `depends on`, and nothing where it does not.
pub proof fn bodies_are_read_line_by_line(before: Seq<char>, after: Seq<char>, line: Seq<char>)
    requires
        !line.contains('\n'),
    ensures
        body_dependencies(before + "\n"@ + after) == body_dependencies(before)
            + body_dependencies(after),
        mentions(line, "depends on"@) ==> body_dependencies(line) == references_in(line),
        !mentions(line, "depends on"@) ==> body_dependencies(line) == Seq::<u64>::empty(),
{
    reveal_strlit("\n");
    let give = |line: Seq<char>| dependencies_in(line);
    crate::text::pieces_of_join(before, '\n', after);
    assert(before + "\n"@ + after =~= before.push('\n') + after);
    gives_add_up(crate::text::pieces(before, '\n'), crate::text::pieces(after, '\n'), give);
    crate::text::unmarked_text_is_one_piece(line, '\n');
    seq![line].lemma_flat_map_singleton(give);
}

} // verus!
