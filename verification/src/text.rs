//! Strings as sequences of characters: comparison, prefixes, numbers and
//! whitespace.
//!
//! Every function here is stated over the view of a string, `Seq<char>`, so
//! that the rest of the crate can speak of labels, paths and templates without
//! mentioning bytes.

use vstd::prelude::*;

verus! {

/// The contents of each of several strings.
pub open spec fn texts(strings: Seq<String>) -> Seq<Seq<char>> {
    strings.map_values(|s: String| s@)
}

/// The contents of an optional string.
pub open spec fn text_view(text: Option<String>) -> Option<Seq<char>> {
    match text {
        Some(text) => Some(text@),
        None => None,
    }
}

/// Strings with the same contents as `strings`.
pub fn clone_texts(strings: &Vec<String>) -> (copy: Vec<String>)
    ensures
        texts(copy@) == texts(strings@),
{
    let copy = strings.clone();
    assert(texts(copy@) =~= texts(strings@));
    copy
}

/// Whether two strings hold the same characters.
pub fn str_eq(a: &str, b: &str) -> (equal: bool)
    ensures
        equal == (a@ == b@),
{
    let mut left = a.chars();
    let mut right = b.chars();
    let ghost mut done: int = 0;
    loop
        invariant
            0 <= done <= a@.len(),
            done <= b@.len(),
            vstd::std_specs::iter::IteratorSpec::remaining(&left) == a@.skip(done),
            vstd::std_specs::iter::IteratorSpec::remaining(&right) == b@.skip(done),
            a@.take(done) == b@.take(done),
        decreases a@.len() - done,
    {
        match (left.next(), right.next()) {
            (Some(x), Some(y)) => {
                assert(x == a@[done] && y == b@[done]);
                if x != y {
                    return false;
                }
                proof {
                    assert(a@.take(done + 1) == a@.take(done).push(x));
                    assert(b@.take(done + 1) == b@.take(done).push(y));
                    assert(a@.skip(done).drop_first() == a@.skip(done + 1));
                    assert(b@.skip(done).drop_first() == b@.skip(done + 1));
                    done = done + 1;
                }
            },
            (None, None) => {
                assert(a@.take(done) == a@);
                assert(b@.take(done) == b@);
                return true;
            },
            (Some(_), None) => {
                assert(a@.len() != b@.len());
                return false;
            },
            (None, Some(_)) => {
                assert(a@.len() != b@.len());
                return false;
            },
        }
    }
}

/// Whether `wanted` is one of `values`.
pub fn holds(values: &Vec<String>, wanted: &str) -> (found: bool)
    ensures
        found == texts(values@).contains(wanted@),
{
    let ghost all = texts(values@);
    let mut i: usize = 0;
    while i < values.len()
        invariant
            i <= values@.len(),
            all == texts(values@),
            forall|k: int| 0 <= k < i ==> all[k] != wanted@,
        decreases values@.len() - i,
    {
        assert(all[i as int] == values@[i as int]@);
        if str_eq(values[i].as_str(), wanted) {
            return true;
        }
        i += 1;
    }
    false
}

/// The characters of `text`, in order.
pub fn chars_of(text: &str) -> (chars: Vec<char>)
    ensures
        chars@ == text@,
{
    let mut chars: Vec<char> = Vec::new();
    for c in it: text.chars()
        invariant
            chars@ == it.seq().take(it.index() as int),
            it.seq() == text@,
    {
        chars.push(c);
    }
    chars
}

/// Whether `text` begins with `prefix`.
pub fn starts_with(text: &str, prefix: &str) -> (yes: bool)
    ensures
        yes == prefix@.is_prefix_of(text@),
{
    let mut left = text.chars();
    let mut right = prefix.chars();
    let ghost mut done: int = 0;
    loop
        invariant
            0 <= done <= text@.len(),
            done <= prefix@.len(),
            vstd::std_specs::iter::IteratorSpec::remaining(&left) == text@.skip(done),
            vstd::std_specs::iter::IteratorSpec::remaining(&right) == prefix@.skip(done),
            text@.take(done) == prefix@.take(done),
        decreases text@.len() - done,
    {
        match right.next() {
            None => {
                assert(prefix@.take(done) == prefix@);
                return true;
            },
            Some(y) => {
                assert(y == prefix@[done]);
                match left.next() {
                    None => {
                        return false;
                    },
                    Some(x) => {
                        assert(x == text@[done]);
                        if x != y {
                            proof {
                                if prefix@.is_prefix_of(text@) {
                                    assert(text@.subrange(0, prefix@.len() as int)[done] == x);
                                }
                            }
                            return false;
                        }
                        proof {
                            assert(text@.take(done + 1) == text@.take(done).push(x));
                            assert(prefix@.take(done + 1) == prefix@.take(done).push(y));
                            assert(text@.skip(done).drop_first() == text@.skip(done + 1));
                            assert(prefix@.skip(done).drop_first() == prefix@.skip(done + 1));
                            done = done + 1;
                        }
                    },
                }
            },
        }
    }
}

/// What follows `prefix` in `text`, where `text` begins with it.
pub open spec fn after_prefix(text: Seq<char>, prefix: Seq<char>) -> Option<Seq<char>> {
    if prefix.is_prefix_of(text) {
        Some(text.skip(prefix.len() as int))
    } else {
        None
    }
}

/// `text` without `prefix`, or `None` where `text` does not begin with it.
pub fn strip_prefix<'a>(text: &'a str, prefix: &str) -> (rest: Option<&'a str>)
    ensures
        match rest {
            Some(rest) => after_prefix(text@, prefix@) == Some(rest@),
            None => after_prefix(text@, prefix@) is None,
        },
{
    if starts_with(text, prefix) {
        let from: usize = prefix.unicode_len();
        let to: usize = text.unicode_len();
        let rest = text.substring_char(from, to);
        assert(rest@ == text@.skip(from as int));
        Some(rest)
    } else {
        None
    }
}

/// Text that begins with `prefix` splits back into `prefix` and the rest.
pub proof fn after_prefix_of_concat(prefix: Seq<char>, rest: Seq<char>)
    ensures
        after_prefix(prefix + rest, prefix) == Some(rest),
{
    assert((prefix + rest).subrange(0, prefix.len() as int) =~= prefix);
    assert((prefix + rest).skip(prefix.len() as int) =~= rest);
}

/// The part of `text` before its last `mark` and the part after it.
pub open spec fn around_last(text: Seq<char>, mark: char) -> Option<(Seq<char>, Seq<char>)>
    decreases text.len(),
{
    if text.len() == 0 {
        None
    } else if text.last() == mark {
        Some((text.drop_last(), Seq::empty()))
    } else {
        match around_last(text.drop_last(), mark) {
            Some((before, after)) => Some((before, after.push(text.last()))),
            None => None,
        }
    }
}

/// Two texts joined by `mark` split back at it, provided that the second does
/// not hold `mark` itself.
pub proof fn around_last_of_join(before: Seq<char>, mark: char, after: Seq<char>)
    requires
        !after.contains(mark),
    ensures
        around_last(before.push(mark) + after, mark) == Some((before, after)),
    decreases after.len(),
{
    let text = before.push(mark) + after;
    if after.len() == 0 {
        assert(text =~= before.push(mark));
        assert(text.drop_last() =~= before);
        assert(after =~= Seq::<char>::empty());
    } else {
        assert(after.contains(after.last()));
        let shorter = after.drop_last();
        assert forall|i: int| 0 <= i < shorter.len() implies shorter[i] != mark by {
            assert(after.contains(after[i]));
        }
        around_last_of_join(before, mark, shorter);
        assert(text.drop_last() =~= before.push(mark) + shorter);
        assert(shorter.push(after.last()) =~= after);
    }
}

/// Where the last `mark` stands decides both parts.
proof fn around_last_at(text: Seq<char>, mark: char, at: int)
    requires
        0 <= at < text.len(),
        text[at] == mark,
        forall|i: int| at < i < text.len() ==> text[i] != mark,
    ensures
        around_last(text, mark) == Some((text.take(at), text.skip(at + 1))),
{
    let after = text.skip(at + 1);
    assert forall|i: int| 0 <= i < after.len() implies after[i] != mark by {
        assert(after[i] == text[at + 1 + i]);
    }
    around_last_of_join(text.take(at), mark, after);
    assert(text.take(at).push(mark) + after =~= text);
}

/// A text without `mark` does not split at it.
proof fn around_last_absent(text: Seq<char>, mark: char)
    requires
        forall|i: int| 0 <= i < text.len() ==> text[i] != mark,
    ensures
        around_last(text, mark) is None,
    decreases text.len(),
{
    if text.len() > 0 {
        around_last_absent(text.drop_last(), mark);
    }
}

/// Splits `text` at its last `mark`, or `None` where there is none.
pub fn rsplit_once<'a>(text: &'a str, mark: char) -> (parts: Option<(&'a str, &'a str)>)
    ensures
        match parts {
            Some((before, after)) => around_last(text@, mark) == Some((before@, after@)),
            None => around_last(text@, mark) is None,
        },
{
    let chars = chars_of(text);
    let mut i: usize = chars.len();
    while i > 0
        invariant
            chars@ == text@,
            i <= chars@.len(),
            forall|k: int| i <= k < chars@.len() ==> chars@[k] != mark,
        decreases i,
    {
        i -= 1;
        if chars[i] == mark {
            let before = text.substring_char(0, i);
            let after = text.substring_char(i + 1, chars.len());
            proof {
                around_last_at(text@, mark, i as int);
                assert(before@ =~= text@.take(i as int));
                assert(after@ =~= text@.skip(i + 1));
            }
            return Some((before, after));
        }
    }
    proof {
        around_last_absent(text@, mark);
    }
    None
}

/// The part of `text` before its first `mark` and the part after it.
pub open spec fn around_first(text: Seq<char>, mark: char) -> Option<(Seq<char>, Seq<char>)>
    decreases text.len(),
{
    if text.len() == 0 {
        None
    } else if text[0] == mark {
        Some((Seq::empty(), text.skip(1)))
    } else {
        match around_first(text.skip(1), mark) {
            Some((before, after)) => Some((seq![text[0]] + before, after)),
            None => None,
        }
    }
}

/// Where the first `mark` stands decides both parts.
pub proof fn around_first_at(text: Seq<char>, mark: char, at: int)
    requires
        0 <= at < text.len(),
        text[at] == mark,
        forall|i: int| 0 <= i < at ==> text[i] != mark,
    ensures
        around_first(text, mark) == Some((text.take(at), text.skip(at + 1))),
    decreases at,
{
    if at == 0 {
        assert(text.take(0) =~= Seq::<char>::empty());
    } else {
        let rest = text.skip(1);
        around_first_at(rest, mark, at - 1);
        assert(seq![text[0]] + rest.take(at - 1) =~= text.take(at));
        assert(rest.skip(at) =~= text.skip(at + 1));
    }
}

/// A text without `mark` does not split at it.
pub proof fn around_first_absent(text: Seq<char>, mark: char)
    requires
        forall|i: int| 0 <= i < text.len() ==> text[i] != mark,
    ensures
        around_first(text, mark) is None,
    decreases text.len(),
{
    if text.len() > 0 {
        around_first_absent(text.skip(1), mark);
    }
}

/// The parts around the first mark make up the text, and the first of them does
/// not hold the mark.
pub proof fn around_first_parts(text: Seq<char>, mark: char)
    ensures
        match around_first(text, mark) {
            Some((before, after)) => before.len() + after.len() + 1 == text.len() && text
                == before.push(mark) + after && !before.contains(mark),
            None => true,
        },
    decreases text.len(),
{
    if text.len() > 0 {
        if text[0] == mark {
            assert(Seq::<char>::empty().push(mark) + text.skip(1) =~= text);
        } else {
            around_first_parts(text.skip(1), mark);
            if let Some((before, after)) = around_first(text.skip(1), mark) {
                let longer = seq![text[0]] + before;
                assert(longer.push(mark) + after =~= text) by {
                    assert(text.skip(1) =~= before.push(mark) + after);
                    assert(text =~= seq![text[0]] + text.skip(1));
                }
                assert(!longer.contains(mark)) by {
                    if longer.contains(mark) {
                        let k = choose|k: int| 0 <= k < longer.len() && longer[k] == mark;
                        if k > 0 {
                            assert(before[k - 1] == mark);
                        }
                    }
                }
            }
        }
    }
}

/// Splits `text` at its first `mark`, or `None` where there is none.
pub fn split_once<'a>(text: &'a str, mark: char) -> (parts: Option<(&'a str, &'a str)>)
    ensures
        match parts {
            Some((before, after)) => around_first(text@, mark) == Some((before@, after@)),
            None => around_first(text@, mark) is None,
        },
{
    let chars = chars_of(text);
    let mut i: usize = 0;
    while i < chars.len()
        invariant
            chars@ == text@,
            i <= chars@.len(),
            forall|k: int| 0 <= k < i ==> chars@[k] != mark,
        decreases chars@.len() - i,
    {
        if chars[i] == mark {
            let before = text.substring_char(0, i);
            let after = text.substring_char(i + 1, chars.len());
            proof {
                around_first_at(text@, mark, i as int);
                assert(before@ =~= text@.take(i as int));
                assert(after@ =~= text@.skip(i + 1));
            }
            return Some((before, after));
        }
        i += 1;
    }
    proof {
        around_first_absent(text@, mark);
    }
    None
}

/// The parts of `text` between one `mark` and the next: one part more than
/// there are marks.
pub open spec fn pieces(text: Seq<char>, mark: char) -> Seq<Seq<char>>
    decreases text.len(),
{
    if text.len() == 0 {
        seq![Seq::empty()]
    } else {
        let rest = pieces(text.drop_last(), mark);
        if text.last() == mark {
            rest.push(Seq::empty())
        } else {
            rest.drop_last().push(rest.last().push(text.last()))
        }
    }
}

/// The contents of several string slices.
pub open spec fn slices(strings: Seq<&str>) -> Seq<Seq<char>> {
    strings.map_values(|s: &str| s@)
}

/// There is always at least one part.
pub proof fn pieces_nonempty(text: Seq<char>, mark: char)
    ensures
        pieces(text, mark).len() > 0,
    decreases text.len(),
{
    if text.len() > 0 {
        pieces_nonempty(text.drop_last(), mark);
    }
}

/// Splits `text` at every `mark`.
pub fn split<'a>(text: &'a str, mark: char) -> (parts: Vec<&'a str>)
    ensures
        slices(parts@) == pieces(text@, mark),
{
    let chars = chars_of(text);
    let mut parts: Vec<&'a str> = Vec::new();
    let mut start: usize = 0;
    let mut i: usize = 0;
    proof {
        assert(text@.take(0) =~= Seq::<char>::empty());
        assert(text@.subrange(0, 0) =~= Seq::<char>::empty());
        assert(slices(parts@).push(text@.subrange(0, 0)) =~= pieces(text@.take(0), mark));
    }
    while i < chars.len()
        invariant
            chars@ == text@,
            start <= i <= chars@.len(),
            slices(parts@).push(text@.subrange(start as int, i as int)) == pieces(
                text@.take(i as int),
                mark,
            ),
        decreases chars@.len() - i,
    {
        let ghost before = slices(parts@);
        let ghost open = text@.subrange(start as int, i as int);
        proof {
            assert(text@.take(i + 1).drop_last() =~= text@.take(i as int));
            assert(text@.take(i + 1).last() == chars@[i as int]);
            assert(pieces(text@.take(i as int), mark).drop_last() =~= before);
            assert(pieces(text@.take(i as int), mark).last() == open);
        }
        if chars[i] == mark {
            let part: &'a str = text.substring_char(start, i);
            parts.push(part);
            start = i + 1;
            proof {
                assert(slices(parts@) =~= before.push(open));
                assert(text@.subrange(i + 1, i + 1) =~= Seq::<char>::empty());
            }
        } else {
            assert(text@.subrange(start as int, i + 1) =~= open.push(chars@[i as int]));
        }
        i += 1;
    }
    let part: &'a str = text.substring_char(start, chars.len());
    let ghost before = slices(parts@);
    parts.push(part);
    proof {
        assert(slices(parts@) =~= before.push(part@));
        assert(text@.take(i as int) =~= text@);
    }
    parts
}

/// Whether `c` has Unicode's `White_Space` property.
pub open spec fn is_white_space(c: char) -> bool {
    ||| '\u{9}' <= c <= '\u{d}'
    ||| c == '\u{20}'
    ||| c == '\u{85}'
    ||| c == '\u{a0}'
    ||| c == '\u{1680}'
    ||| '\u{2000}' <= c <= '\u{200a}'
    ||| c == '\u{2028}'
    ||| c == '\u{2029}'
    ||| c == '\u{202f}'
    ||| c == '\u{205f}'
    ||| c == '\u{3000}'
}

/// Whether `c` is white space.
pub fn white_space(c: char) -> (yes: bool)
    ensures
        yes == is_white_space(c),
{
    ('\u{9}' <= c && c <= '\u{d}') || c == '\u{20}' || c == '\u{85}' || c == '\u{a0}' || c
        == '\u{1680}' || ('\u{2000}' <= c && c <= '\u{200a}') || c == '\u{2028}' || c == '\u{2029}'
        || c == '\u{202f}' || c == '\u{205f}' || c == '\u{3000}'
}

/// `text` without the white space at its end.
pub open spec fn trimmed_end(text: Seq<char>) -> Seq<char>
    decreases text.len(),
{
    if text.len() > 0 && is_white_space(text.last()) {
        trimmed_end(text.drop_last())
    } else {
        text
    }
}

/// `text` without the white space at its start.
pub open spec fn trimmed_start(text: Seq<char>) -> Seq<char>
    decreases text.len(),
{
    if text.len() > 0 && is_white_space(text[0]) {
        trimmed_start(text.skip(1))
    } else {
        text
    }
}

/// `text` without the white space at either end.
pub open spec fn trimmed(text: Seq<char>) -> Seq<char> {
    trimmed_start(trimmed_end(text))
}

/// Removes the white space at the end of `text`.
pub fn trim_end<'a>(text: &'a str) -> (rest: &'a str)
    ensures
        rest@ == trimmed_end(text@),
{
    let chars = chars_of(text);
    let mut end: usize = chars.len();
    assert(text@.take(end as int) =~= text@);
    while end > 0 && white_space(chars[end - 1])
        invariant
            chars@ == text@,
            end <= chars@.len(),
            trimmed_end(text@.take(end as int)) == trimmed_end(text@),
        decreases end,
    {
        assert(text@.take(end as int).drop_last() =~= text@.take(end - 1));
        end -= 1;
    }
    let rest = text.substring_char(0, end);
    assert(rest@ =~= text@.take(end as int));
    rest
}

/// Removes the white space at either end of `text`.
pub fn trim<'a>(text: &'a str) -> (rest: &'a str)
    ensures
        rest@ == trimmed(text@),
{
    let body: &'a str = trim_end(text);
    let chars = chars_of(body);
    let mut start: usize = 0;
    assert(body@.skip(0) =~= body@);
    while start < chars.len() && white_space(chars[start])
        invariant
            chars@ == body@,
            start <= chars@.len(),
            trimmed_start(body@.skip(start as int)) == trimmed_start(body@),
        decreases chars@.len() - start,
    {
        assert(body@.skip(start as int).skip(1) =~= body@.skip(start + 1));
        start += 1;
    }
    let rest: &'a str = body.substring_char(start, chars.len());
    assert(rest@ =~= body@.skip(start as int));
    rest
}

/// A prefix comes off exactly where the text is that prefix and the rest.
pub proof fn prefix_and_rest_make_the_text(text: Seq<char>, prefix: Seq<char>, rest: Seq<char>)
    ensures
        after_prefix(text, prefix) == Some(rest) <==> text == prefix + rest,
{
    if after_prefix(text, prefix) == Some(rest) {
        assert(text.subrange(0, prefix.len() as int) =~= prefix);
        assert(text =~= prefix + rest);
    }
    if text == prefix + rest {
        after_prefix_of_concat(prefix, rest);
    }
}

/// A text without the mark is one piece.
pub proof fn unmarked_text_is_one_piece(text: Seq<char>, mark: char)
    requires
        !text.contains(mark),
    ensures
        pieces(text, mark) == seq![text],
    decreases text.len(),
{
    if text.len() > 0 {
        let shorter = text.drop_last();
        assert forall|i: int| 0 <= i < shorter.len() implies shorter[i] != mark by {
            assert(text.contains(text[i]));
        }
        assert(text.contains(text.last()));
        unmarked_text_is_one_piece(shorter, mark);
        assert(shorter.push(text.last()) =~= text);
        assert(pieces(text, mark) =~= seq![text]);
    } else {
        assert(text =~= Seq::<char>::empty());
    }
}

/// The pieces of two texts joined by the mark are those of the one and then
/// those of the other.
pub proof fn pieces_of_join(before: Seq<char>, mark: char, after: Seq<char>)
    ensures
        pieces(before.push(mark) + after, mark) == pieces(before, mark) + pieces(after, mark),
    decreases after.len(),
{
    let text = before.push(mark) + after;
    if after.len() == 0 {
        assert(text =~= before.push(mark));
        assert(text.drop_last() =~= before);
        assert(pieces(text, mark) =~= pieces(before, mark) + pieces(after, mark));
    } else {
        let shorter = after.drop_last();
        pieces_of_join(before, mark, shorter);
        pieces_nonempty(shorter, mark);
        assert(text.drop_last() =~= before.push(mark) + shorter);
        assert(text.last() == after.last());
        assert(pieces(text, mark) =~= pieces(before, mark) + pieces(after, mark));
    }
}

/// White space is the tab, the line ends, the space, and Unicode's wider
/// separators, by their code points.
pub proof fn white_space_by_code_point(c: char)
    ensures
        is_white_space(c) <==> ({
            let code = c as u32;
            ||| code == 9 || code == 10 || code == 11 || code == 12 || code == 13
            ||| code == 32 || code == 133 || code == 160
            ||| code == 5760
            ||| 8192 <= code <= 8202
            ||| code == 8232 || code == 8233 || code == 8239 || code == 8287
            ||| code == 12288
        }),
{
}

/// White space at the end is cut off, and nothing else.
pub proof fn only_white_space_is_cut_off_the_end(text: Seq<char>)
    ensures
        trimmed_end(text).len() <= text.len(),
        text.take(trimmed_end(text).len() as int) == trimmed_end(text),
        trimmed_end(text).len() > 0 ==> !is_white_space(trimmed_end(text).last()),
        forall|i: int|
            trimmed_end(text).len() <= i < text.len() ==> is_white_space(#[trigger] text[i]),
    decreases text.len(),
{
    if text.len() > 0 && is_white_space(text.last()) {
        let shorter = text.drop_last();
        only_white_space_is_cut_off_the_end(shorter);
        let n = trimmed_end(text).len() as int;
        assert(text.take(n) =~= shorter.take(n));
        assert forall|i: int| n <= i < text.len() implies is_white_space(#[trigger] text[i]) by {
            if i < shorter.len() {
                assert(shorter[i] == text[i]);
            }
        }
    } else {
        assert(text.take(text.len() as int) =~= text);
    }
}

/// White space at the start is cut off, and nothing else.
pub proof fn only_white_space_is_cut_off_the_start(text: Seq<char>)
    ensures
        trimmed_start(text).len() <= text.len(),
        text.skip(text.len() - trimmed_start(text).len()) == trimmed_start(text),
        trimmed_start(text).len() > 0 ==> !is_white_space(trimmed_start(text)[0]),
        forall|i: int|
            0 <= i < text.len() - trimmed_start(text).len() ==> is_white_space(#[trigger] text[i]),
    decreases text.len(),
{
    if text.len() > 0 && is_white_space(text[0]) {
        let shorter = text.skip(1);
        only_white_space_is_cut_off_the_start(shorter);
        let n = text.len() - trimmed_start(text).len();
        assert(text.skip(n) =~= shorter.skip(n - 1));
        assert forall|i: int| 0 <= i < n implies is_white_space(#[trigger] text[i]) by {
            if i > 0 {
                assert(shorter[i - 1] == text[i]);
            }
        }
    } else {
        assert(text.skip(0) =~= text);
    }
}

/// A trimmed text is what stands between white space: text is white space, the
/// trimmed text, and white space again, and the trimmed text neither begins nor
/// ends with any.
pub proof fn trimming_cuts_off_white_space_alone(text: Seq<char>)
    ensures
        trimmed(text).len() > 0 ==> !is_white_space(trimmed(text)[0]) && !is_white_space(
            trimmed(text).last(),
        ),
        exists|front: Seq<char>, back: Seq<char>|
            {
                &&& #[trigger] (front + trimmed(text) + back) == text
                &&& forall|i: int| 0 <= i < front.len() ==> is_white_space(#[trigger] front[i])
                &&& forall|i: int| 0 <= i < back.len() ==> is_white_space(#[trigger] back[i])
            },
{
    let body = trimmed_end(text);
    only_white_space_is_cut_off_the_end(text);
    only_white_space_is_cut_off_the_start(body);
    let n = body.len() - trimmed(text).len();
    let front = body.take(n);
    let back = text.skip(body.len() as int);
    assert forall|i: int| 0 <= i < front.len() implies is_white_space(#[trigger] front[i]) by {
        assert(body[i] == front[i]);
    }
    assert forall|i: int| 0 <= i < back.len() implies is_white_space(#[trigger] back[i]) by {
        assert(text[body.len() + i] == back[i]);
    }
    assert(front + trimmed(text) =~= body);
    assert(body + back =~= text);
    assert(front + trimmed(text) + back == text);
}

} // verus!
