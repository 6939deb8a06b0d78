//! JSON documents, read by `serde_json` one level at a time.
//!
//! A [`Json`] is the text of one JSON value. [`parse`] has `serde_json` hold a
//! whole document to JSON's grammar, and each accessor has it decode no more
//! than it is asked for, so that what nobody asks for need only be well-formed.
//! [`parsed`], [`string_of`], [`number_of`], [`elements_of`] and [`leading`]
//! name what `serde_json` makes of a text.
//!
//! The maps that `serde_json` fills keep one of several members of the same
//! name. To see each of them, [`Json::members`] has the keys and values read
//! one after another and steps over the marks between them.

use vstd::prelude::*;

verus! {

/// The text of a JSON value, without white space around it.
#[derive(Debug, Eq, PartialEq)]
pub struct Json {
    text: String,
}

impl View for Json {
    type V = Seq<char>;

    closed spec fn view(&self) -> Seq<char> {
        self.text@
    }
}

/// The texts of several values.
pub open spec fn list_view(items: Seq<Json>) -> Seq<Seq<char>> {
    items.map_values(|item: Json| item@)
}

/// The value that a document is, as it stands there, or the parser's own
/// description of why the text is no document.
pub uninterp spec fn parsed(text: Seq<char>) -> Result<Seq<char>, Seq<char>>;

/// What a value holds that is a string of Unicode characters.
pub uninterp spec fn string_of(value: Seq<char>) -> Option<Seq<char>>;

/// What a value holds that is a whole number of at most 64 bits.
pub uninterp spec fn number_of(value: Seq<char>) -> Option<u64>;

/// The elements of an array, each as it stands there.
pub uninterp spec fn elements_of(value: Seq<char>) -> Option<Seq<Seq<char>>>;

/// The value at the start of a text, as it stands there, and what follows it.
pub uninterp spec fn leading(text: Seq<char>) -> Option<(Seq<char>, Seq<char>)>;

/// Calls `serde_json::from_str` for a [`serde_json::value::RawValue`].
///
/// Trusted: whether the text is a JSON document, and the value that it holds,
/// depend on the text alone. An error is kept as its description.
#[verifier::external_body]
fn raw_document(text: &str) -> (result: Result<String, String>)
    ensures
        match result {
            Ok(value) => parsed(text@) == Ok::<Seq<char>, Seq<char>>(value@),
            Err(message) => parsed(text@) == Err::<Seq<char>, Seq<char>>(message@),
        },
{
    serde_json::from_str::<&serde_json::value::RawValue>(text)
        .map(|value| value.get().to_string())
        .map_err(|error| error.to_string())
}

/// Calls `serde_json::from_str` for a `String`.
///
/// Trusted: whether the value is a string that decodes, and its contents,
/// depend on the value's text alone.
#[verifier::external_body]
fn raw_string(value: &str) -> (found: Option<String>)
    ensures
        crate::text::text_view(found) == string_of(value@),
{
    serde_json::from_str::<String>(value).ok()
}

/// Calls `serde_json::from_str` for a `u64`.
///
/// Trusted: whether the value is such a number, and which, depends on the
/// value's text alone.
#[verifier::external_body]
fn raw_number(value: &str) -> (found: Option<u64>)
    ensures
        found == number_of(value@),
{
    serde_json::from_str::<u64>(value).ok()
}

/// Calls `serde_json::from_str` for a `Vec` of
/// [`serde_json::value::RawValue`]s.
///
/// Trusted: whether the value is an array, and its elements, depend on the
/// value's text alone.
#[verifier::external_body]
fn raw_elements(value: &str) -> (found: Option<Vec<String>>)
    ensures
        match found {
            Some(elements) => elements_of(value@) == Some(crate::text::texts(elements@)),
            None => elements_of(value@) is None,
        },
{
    serde_json::from_str::<Vec<&serde_json::value::RawValue>>(value)
        .map(|elements| elements.iter().map(|element| element.get().to_string()).collect())
        .ok()
}

/// Calls `serde_json::StreamDeserializer::next` for a
/// [`serde_json::value::RawValue`], and `byte_offset` for where it stopped.
///
/// Trusted: whether the text starts with a JSON value, and which, depends on
/// the text alone. That value, which is not empty, and what follows it are the
/// end of the text.
#[verifier::external_body]
fn raw_leading(text: &str) -> (found: Option<(&str, &str)>)
    ensures
        match found {
            Some((value, rest)) => leading(text@) == Some((value@, rest@)) && value@.len() > 0
                && (value@ + rest@).is_suffix_of(text@),
            None => leading(text@) is None,
        },
{
    let values = serde_json::Deserializer::from_str(text);
    let mut values = values.into_iter::<&serde_json::value::RawValue>();
    match values.next() {
        Some(Ok(value)) => Some((value.get(), &text[values.byte_offset()..])),
        _ => None,
    }
}

/// Whether `c` is white space between the tokens of a JSON text.
pub open spec fn is_blank(c: char) -> bool {
    c == ' ' || c == '\n' || c == '\t' || c == '\r'
}

/// What follows `mark`, where that is the next token of `text`.
pub open spec fn after_mark(text: Seq<char>, mark: char) -> Option<Seq<char>>
    decreases text.len(),
{
    if text.len() == 0 {
        None
    } else if text[0] == mark {
        Some(text.skip(1))
    } else if is_blank(text[0]) {
        after_mark(text.skip(1), mark)
    } else {
        None
    }
}

/// Steps over `mark`, where that is the next token of `text`.
fn skip_mark<'a>(text: &'a str, mark: char) -> (rest: Option<&'a str>)
    ensures
        match rest {
            Some(rest) => after_mark(text@, mark) == Some(rest@) && rest@.len() < text@.len(),
            None => after_mark(text@, mark) is None,
        },
{
    let end: usize = text.unicode_len();
    let mut at: usize = 0;
    assert(text@.skip(0) =~= text@);
    while at < end
        invariant
            at <= end == text@.len(),
            after_mark(text@, mark) == after_mark(text@.skip(at as int), mark),
        decreases end - at,
    {
        let c: char = text.get_char(at);
        assert(text@.skip(at as int)[0] == c);
        assert(text@.skip(at as int).skip(1) =~= text@.skip(at + 1));
        if c == mark {
            let rest = text.substring_char(at + 1, end);
            assert(rest@ =~= text@.skip(at + 1));
            return Some(rest);
        }
        if !(c == ' ' || c == '\n' || c == '\t' || c == '\r') {
            return None;
        }
        at += 1;
    }
    None
}

/// The member at the start of a text, and what follows it: a string, a colon
/// and a value.
pub open spec fn leading_member(text: Seq<char>) -> Option<
    ((Seq<char>, Seq<char>), Seq<char>),
> {
    match leading(text) {
        None => None,
        Some((key, rest)) => match (string_of(key), after_mark(rest, ':')) {
            (Some(key), Some(rest)) => match leading(rest) {
                None => None,
                Some((value, rest)) => Some(((key, value), rest)),
            },
            _ => None,
        },
    }
}

/// The members that a text starts with, up to the brace that closes them: each
/// key, and the text of its value.
pub open spec fn leading_members(text: Seq<char>) -> Option<Seq<(Seq<char>, Seq<char>)>>
    decreases text.len(),
{
    match leading_member(text) {
        None => None,
        Some((member, rest)) => match after_mark(rest, ',') {
            Some(more) => if more.len() < text.len() {
                match leading_members(more) {
                    Some(others) => Some(seq![member] + others),
                    None => None,
                }
            } else {
                None
            },
            None => if after_mark(rest, '}') is Some {
                Some(seq![member])
            } else {
                None
            },
        },
    }
}

/// The members of an object whose keys all decode, in order, a repeated one as
/// often as it stands there: each key, and the text of its value.
pub open spec fn members_of(value: Seq<char>) -> Option<Seq<(Seq<char>, Seq<char>)>> {
    match after_mark(value, '{') {
        None => None,
        Some(rest) => if after_mark(rest, '}') is Some {
            Some(Seq::empty())
        } else {
            leading_members(rest)
        },
    }
}

/// The values under `key` among `members`, in order.
pub open spec fn values_of(members: Seq<(Seq<char>, Seq<char>)>, key: Seq<char>) -> Seq<Seq<char>>
    decreases members.len(),
{
    if members.len() == 0 {
        Seq::empty()
    } else {
        let earlier = values_of(members.drop_last(), key);
        if members.last().0 == key {
            earlier.push(members.last().1)
        } else {
            earlier
        }
    }
}

/// A member under another key does not change what stands under this one.
pub proof fn other_members_do_not_count(
    before: Seq<(Seq<char>, Seq<char>)>,
    other: (Seq<char>, Seq<char>),
    after: Seq<(Seq<char>, Seq<char>)>,
    key: Seq<char>,
)
    requires
        other.0 != key,
    ensures
        values_of(before.push(other) + after, key) == values_of(before + after, key),
    decreases after.len(),
{
    if after.len() == 0 {
        assert(before.push(other) + after =~= before.push(other));
        assert(before.push(other).drop_last() =~= before);
        assert(before + after =~= before);
    } else {
        other_members_do_not_count(before, other, after.drop_last(), key);
        assert((before.push(other) + after).drop_last() =~= before.push(other)
            + after.drop_last());
        assert((before + after).drop_last() =~= before + after.drop_last());
    }
}

/// A member stands under its key, behind those that stand there already.
pub proof fn members_stand_under_their_keys(
    members: Seq<(Seq<char>, Seq<char>)>,
    key: Seq<char>,
    value: Seq<char>,
)
    ensures
        values_of(Seq::empty(), key).len() == 0,
        values_of(members.push((key, value)), key) == values_of(members, key).push(value),
{
    assert(members.push((key, value)).drop_last() =~= members);
}

/// A member of an object: its key and its value.
pub struct Member {
    /// The key, decoded.
    pub key: String,
    /// The value.
    pub value: Json,
}

impl View for Member {
    type V = (Seq<char>, Seq<char>);

    open spec fn view(&self) -> (Seq<char>, Seq<char>) {
        (self.key@, self.value@)
    }
}

/// What several members hold.
pub open spec fn members_view(members: Seq<Member>) -> Seq<(Seq<char>, Seq<char>)> {
    members.map_values(|member: Member| member@)
}

/// Reads the member at the start of a text.
fn read_member<'a>(text: &'a str) -> (found: Option<(Member, &'a str)>)
    ensures
        match found {
            Some((member, rest)) => leading_member(text@) == Some((member@, rest@)) && rest@.len()
                < text@.len(),
            None => leading_member(text@) is None,
        },
{
    let (key, rest) = match raw_leading(text) {
        Some(found) => found,
        None => return None,
    };
    let key = match raw_string(key) {
        Some(key) => key,
        None => return None,
    };
    let rest = match skip_mark(rest, ':') {
        Some(rest) => rest,
        None => return None,
    };
    match raw_leading(rest) {
        Some((value, rest)) => Some((Member { key, value: Json { text: value.to_string() } }, rest)),
        None => None,
    }
}

/// `found`, with `others` behind it where there are any to be had.
spec fn before<T>(found: Seq<T>, others: Option<Seq<T>>) -> Option<Seq<T>> {
    match others {
        Some(others) => Some(found + others),
        None => None,
    }
}

impl Json {
    /// Whether the value is `null`.
    pub fn is_null(&self) -> (null: bool)
        ensures
            null == (self@ == "null"@),
    {
        crate::text::str_eq(self.text.as_str(), "null")
    }

    /// The contents of a string.
    pub fn string(&self) -> (found: Option<String>)
        ensures
            crate::text::text_view(found) == string_of(self@),
    {
        raw_string(self.text.as_str())
    }

    /// The value of a whole number that fits in 64 bits.
    pub fn number(&self) -> (found: Option<u64>)
        ensures
            found == number_of(self@),
    {
        raw_number(self.text.as_str())
    }

    /// The elements of an array.
    pub fn elements(&self) -> (found: Option<Vec<Json>>)
        ensures
            match found {
                Some(items) => elements_of(self@) == Some(list_view(items@)),
                None => elements_of(self@) is None,
            },
    {
        let texts = match raw_elements(self.text.as_str()) {
            Some(texts) => texts,
            None => return None,
        };
        let mut items: Vec<Json> = Vec::new();
        let mut i: usize = 0;
        while i < texts.len()
            invariant
                i <= texts@.len(),
                i == items@.len(),
                forall|k: int| 0 <= k < i ==> (#[trigger] items@[k])@ == texts@[k]@,
            decreases texts@.len() - i,
        {
            items.push(Json { text: texts[i].clone() });
            i += 1;
        }
        assert(list_view(items@) =~= crate::text::texts(texts@));
        Some(items)
    }

    /// The members of an object.
    pub fn members(&self) -> (found: Option<Vec<Member>>)
        ensures
            match found {
                Some(members) => members_of(self@) == Some(members_view(members@)),
                None => members_of(self@) is None,
            },
    {
        let mut members: Vec<Member> = Vec::new();
        let start = match skip_mark(self.text.as_str(), '{') {
            Some(rest) => rest,
            None => return None,
        };
        if skip_mark(start, '}').is_some() {
            assert(members_view(members@) =~= Seq::empty());
            return Some(members);
        }
        let mut text = start;
        proof {
            if let Some(all) = leading_members(start@) {
                assert(members_view(members@) + all =~= all);
            }
        }
        loop
            invariant
                leading_members(start@) == before(members_view(members@), leading_members(text@)),
                members_of(self@) == leading_members(start@),
            decreases text@.len(),
        {
            let ghost earlier = members_view(members@);
            let (member, rest) = match read_member(text) {
                Some(found) => found,
                None => return None,
            };
            members.push(member);
            assert(members_view(members@) =~= earlier + seq![member@]);
            match skip_mark(rest, ',') {
                Some(more) => {
                    proof {
                        if let Some(others) = leading_members(more@) {
                            assert(earlier + (seq![member@] + others) =~= members_view(members@)
                                + others);
                        }
                    }
                    text = more;
                },
                None => {
                    if skip_mark(rest, '}').is_some() {
                        return Some(members);
                    }
                    return None;
                },
            }
        }
    }
}

/// Reads `text` as a JSON document.
pub fn parse(text: &str) -> (result: Result<Json, String>)
    ensures
        match result {
            Ok(json) => parsed(text@) == Ok::<Seq<char>, Seq<char>>(json@),
            Err(message) => parsed(text@) == Err::<Seq<char>, Seq<char>>(message@),
        },
{
    match raw_document(text) {
        Ok(text) => Ok(Json { text }),
        Err(message) => Err(message),
    }
}

/// A mark is the next token of a text where nothing but spaces, tabs and line
/// ends stand before it; what follows it is the rest.
pub proof fn blanks_stand_before_marks(blanks: Seq<char>, mark: char, rest: Seq<char>, c: char)
    requires
        forall|i: int|
            0 <= i < blanks.len() ==> ((#[trigger] blanks[i]) == '\u{20}' || blanks[i] == '\u{9}'
                || blanks[i] == '\u{a}' || blanks[i] == '\u{d}') && blanks[i] != mark,
    ensures
        after_mark(blanks.push(mark) + rest, mark) == Some(rest),
        after_mark(blanks, mark) is None,
        c != mark && c != '\u{20}' && c != '\u{9}' && c != '\u{a}' && c != '\u{d}'
            ==> after_mark(blanks.push(c) + rest, mark) is None,
    decreases blanks.len(),
{
    let text = blanks.push(mark) + rest;
    let other = blanks.push(c) + rest;
    if blanks.len() == 0 {
        assert(text[0] == mark);
        assert(text.skip(1) =~= rest);
        assert(other[0] == c);
    } else {
        let shorter = blanks.skip(1);
        assert forall|i: int| 0 <= i < shorter.len() implies ((#[trigger] shorter[i]) == '\u{20}'
            || shorter[i] == '\u{9}' || shorter[i] == '\u{a}' || shorter[i] == '\u{d}')
            && shorter[i] != mark by {
            assert(shorter[i] == blanks[i + 1]);
        }
        blanks_stand_before_marks(shorter, mark, rest, c);
        assert(is_blank(blanks[0]));
        assert(text[0] == blanks[0] && other[0] == blanks[0]);
        assert(text.skip(1) =~= shorter.push(mark) + rest);
        assert(other.skip(1) =~= shorter.push(c) + rest);
    }
}

/// An object is a brace, its members with commas between them, and a brace; a
/// member is a string, a colon and a value.
pub proof fn objects_are_members_in_braces(
    key: Seq<char>,
    name: Seq<char>,
    value: Seq<char>,
    text: Seq<char>,
    behind_key: Seq<char>,
    behind_value: Seq<char>,
)
    ensures
        leading(text) == Some((key, ":"@ + behind_key)) && string_of(key) == Some(name) && leading(
            behind_key,
        ) == Some((value, behind_value)) ==> {
            &&& leading_member(text) == Some(((name, value), behind_value))
            &&& "}"@.is_prefix_of(behind_value) ==> leading_members(text) == Some(
                seq![(name, value)],
            )
            &&& "}"@.is_prefix_of(behind_value) && after_mark(text, '}') is None ==> members_of(
                "{"@ + text,
            ) == Some(seq![(name, value)])
        },
        members_of("{}"@) == Some(Seq::<(Seq<char>, Seq<char>)>::empty()),
{
    reveal_strlit(":");
    reveal_strlit("}");
    reveal_strlit("{");
    reveal_strlit("{}");
    let none = Seq::<char>::empty();
    assert(":"@ + behind_key =~= none.push(':') + behind_key);
    blanks_stand_before_marks(none, ':', behind_key, ' ');
    if "}"@.is_prefix_of(behind_value) {
        assert(behind_value.subrange(0, 1)[0] == '}');
        let rest = behind_value.skip(1);
        assert(behind_value =~= none.push('}') + rest);
        blanks_stand_before_marks(none, '}', rest, ' ');
        blanks_stand_before_marks(none, ',', rest, '}');
    }
    assert("{"@ + text =~= none.push('{') + text);
    blanks_stand_before_marks(none, '{', text, ' ');
    assert("{}"@ =~= none.push('{') + "}"@);
    assert("}"@ =~= none.push('}') + none);
    blanks_stand_before_marks(none, '{', "}"@, ' ');
    blanks_stand_before_marks(none, '}', none, ' ');
}

/// Members follow one another behind commas, none of them lost.
pub proof fn members_follow_commas(
    text: Seq<char>,
    member: (Seq<char>, Seq<char>),
    more: Seq<char>,
    c: char,
    rest: Seq<char>,
)
    ensures
        leading_member(text) == Some((member, ","@ + more)) && more.len() < text.len() ==> (
        match leading_members(more) {
            Some(others) => leading_members(text) == Some(seq![member] + others),
            None => leading_members(text) is None,
        }),
        leading_member(text) == Some((member, seq![c] + rest)) && c != ',' && c != '}' && !is_blank(
            c,
        ) ==> leading_members(text) is None,
        leading_member(text) is None ==> leading_members(text) is None,
{
    reveal_strlit(",");
    let none = Seq::<char>::empty();
    assert(","@ + more =~= none.push(',') + more);
    blanks_stand_before_marks(none, ',', more, ' ');
    assert(seq![c] + rest =~= none.push(c) + rest);
    if c != ',' && c != '}' && !is_blank(c) {
        blanks_stand_before_marks(none, ',', rest, c);
        blanks_stand_before_marks(none, '}', rest, c);
    }
}

} // verus!
