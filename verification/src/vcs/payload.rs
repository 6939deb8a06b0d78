//! The JSON payloads that `gh` prints, decoded.
//!
//! A decoder gives `None` for a payload of another shape. A record is an object
//! that names none of its fields twice, or an array of its fields in order.
//! Members that are not asked for are ignored, and an optional member may be
//! absent or `null`.

use vstd::prelude::*;

use crate::json::{Json, Member};
use crate::text::str_eq;
use crate::vcs::{
    CiConclusion, IssueRef, IssueRefView, IssueRelationships, IssueRelationshipsView, IssueState,
    PullRequestRef, PullRequestRefView, PullRequestState,
};

verus! {

/// The field at position `at` of a record of `of` fields: the member under
/// `key` of an object that has it once, or the element at that position of an
/// array of exactly that many.
pub open spec fn field_of(json: Seq<char>, key: Seq<char>, at: int, of: int) -> Option<Seq<char>> {
    match crate::json::members_of(json) {
        Some(members) => {
            let values = crate::json::values_of(members, key);
            if values.len() == 1 {
                Some(values[0])
            } else {
                None
            }
        },
        None => match crate::json::elements_of(json) {
            Some(items) => if items.len() == of {
                Some(items[at])
            } else {
                None
            },
            None => None,
        },
    }
}

/// The string in a field.
pub open spec fn text_field(json: Seq<char>, key: Seq<char>, at: int, of: int) -> Option<
    Seq<char>,
> {
    match field_of(json, key, at, of) {
        Some(value) => crate::json::string_of(value),
        None => None,
    }
}

/// The whole number in a field.
pub open spec fn number_field(json: Seq<char>, key: Seq<char>, at: int, of: int) -> Option<u64> {
    match field_of(json, key, at, of) {
        Some(value) => crate::json::number_of(value),
        None => None,
    }
}

/// The elements of the array in a field.
pub open spec fn list_field(json: Seq<char>, key: Seq<char>, at: int, of: int) -> Option<
    Seq<Seq<char>>,
> {
    match field_of(json, key, at, of) {
        Some(value) => crate::json::elements_of(value),
        None => None,
    }
}

/// Whether `json` is an object without a member under `key`.
pub open spec fn lacks_member(json: Seq<char>, key: Seq<char>) -> bool {
    match crate::json::members_of(json) {
        Some(members) => crate::json::values_of(members, key).len() == 0,
        None => false,
    }
}

/// What an optional field holds: `Some(None)` where it is `null`, or where an
/// object has no such member; `None` where `json` is no such record.
pub open spec fn optional_field(json: Seq<char>, key: Seq<char>, at: int, of: int) -> Option<
    Option<Seq<char>>,
> {
    match field_of(json, key, at, of) {
        Some(value) => if value == "null"@ {
            Some(None)
        } else {
            Some(Some(value))
        },
        None => if lacks_member(json, key) {
            Some(None)
        } else {
            None
        },
    }
}

/// The name of a variant without contents: a string, or an object whose only
/// member has that name and is `null`.
pub open spec fn variant_name(json: Seq<char>) -> Option<Seq<char>> {
    match crate::json::string_of(json) {
        Some(name) => Some(name),
        None => match crate::json::members_of(json) {
            Some(members) => if members.len() == 1 && members[0].1 == "null"@ {
                Some(members[0].0)
            } else {
                None
            },
            None => None,
        },
    }
}

/// The name of the variant in a field.
pub open spec fn variant_field(json: Seq<char>, key: Seq<char>, at: int, of: int) -> Option<
    Seq<char>,
> {
    match field_of(json, key, at, of) {
        Some(value) => variant_name(value),
        None => None,
    }
}

/// A field that an object names more than once is refused, an optional one
/// included.
pub proof fn repeated_fields_are_refused(
    json: Seq<char>,
    members: Seq<(Seq<char>, Seq<char>)>,
    key: Seq<char>,
    at: int,
    of: int,
)
    requires
        crate::json::members_of(json) == Some(members),
        crate::json::values_of(members, key).len() > 1,
    ensures
        field_of(json, key, at, of) is None,
        optional_field(json, key, at, of) is None,
{
}

/// Every item decoded, or `None` where one of them does not decode.
pub open spec fn decoded_all<T>(
    items: Seq<Seq<char>>,
    decode: spec_fn(Seq<char>) -> Option<T>,
) -> Option<Seq<T>>
    decreases items.len(),
{
    if items.len() == 0 {
        Some(Seq::empty())
    } else {
        match (decoded_all(items.drop_last(), decode), decode(items.last())) {
            (Some(rest), Some(item)) => Some(rest.push(item)),
            _ => None,
        }
    }
}

/// An item that does not decode spoils every list that holds it.
proof fn decoded_all_fails<T>(
    items: Seq<Seq<char>>,
    decode: spec_fn(Seq<char>) -> Option<T>,
    at: int,
)
    requires
        0 <= at < items.len(),
        decode(items[at]) is None,
    ensures
        decoded_all(items, decode) is None,
    decreases items.len(),
{
    if at < items.len() - 1 {
        decoded_all_fails(items.drop_last(), decode, at);
    }
}

/// Further members take no value away.
proof fn values_only_grow(members: Seq<(Seq<char>, Seq<char>)>, key: Seq<char>, upto: int)
    requires
        0 <= upto <= members.len(),
    ensures
        crate::json::values_of(members.take(upto), key).len() <= crate::json::values_of(
            members,
            key,
        ).len(),
    decreases members.len(),
{
    if upto == members.len() {
        assert(members.take(upto) =~= members);
    } else {
        values_only_grow(members.drop_last(), key, upto);
        assert(members.drop_last().take(upto) =~= members.take(upto));
    }
}

/// What looking for a member comes to.
enum Lookup {
    /// The object has it once.
    Found(Json),
    /// The object does not have it.
    Absent,
    /// The object has it more than once.
    Repeated,
}

/// Looks for the value under `key` among `members`.
fn find_value(members: Vec<Member>, key: &str) -> (found: Lookup)
    ensures
        ({
            let values = crate::json::values_of(crate::json::members_view(members@), key@);
            match found {
                Lookup::Found(value) => values == seq![value@],
                Lookup::Absent => values.len() == 0,
                Lookup::Repeated => values.len() > 1,
            }
        }),
{
    let ghost all = crate::json::members_view(members@);
    let mut first: Option<usize> = None;
    let mut i: usize = 0;
    assert(all.take(0) =~= Seq::empty());
    while i < members.len()
        invariant
            i <= members@.len(),
            all == crate::json::members_view(members@),
            match first {
                Some(at) => at < i && crate::json::values_of(all.take(i as int), key@)
                    == seq![all[at as int].1],
                None => crate::json::values_of(all.take(i as int), key@) == Seq::<
                    Seq<char>,
                >::empty(),
            },
        decreases members@.len() - i,
    {
        assert(all[i as int] == members@[i as int]@);
        assert(all.take(i + 1).drop_last() =~= all.take(i as int));
        if str_eq(members[i].key.as_str(), key) {
            if first.is_some() {
                proof {
                    assert(all.take(i + 1).last() == all[i as int]);
                    values_only_grow(all, key@, i + 1);
                }
                return Lookup::Repeated;
            }
            first = Some(i);
        }
        i += 1;
    }
    assert(all.take(i as int) =~= all);
    match first {
        Some(at) => {
            let mut members = members;
            assert(all[at as int] == members@[at as int]@);
            Lookup::Found(members.swap_remove(at).value)
        },
        None => Lookup::Absent,
    }
}

/// Reads a field.
fn get_field(value: &Json, key: &str, at: usize, of: usize) -> (found: Option<Json>)
    requires
        at < of,
    ensures
        match found {
            Some(inner) => field_of(value@, key@, at as int, of as int) == Some(inner@),
            None => field_of(value@, key@, at as int, of as int) is None,
        },
{
    match value.members() {
        Some(members) => match find_value(members, key) {
            Lookup::Found(inner) => Some(inner),
            _ => None,
        },
        None => match value.elements() {
            Some(items) => {
                let mut items = items;
                if items.len() == of {
                    assert(crate::json::list_view(items@)[at as int] == items@[at as int]@);
                    Some(items.swap_remove(at))
                } else {
                    None
                }
            },
            None => None,
        },
    }
}

/// Reads the string in a field.
fn get_text(value: &Json, key: &str, at: usize, of: usize) -> (found: Option<String>)
    requires
        at < of,
    ensures
        crate::text::text_view(found) == text_field(value@, key@, at as int, of as int),
{
    match get_field(value, key, at, of) {
        Some(inner) => inner.string(),
        None => None,
    }
}

/// Reads the whole number in a field.
fn get_number(value: &Json, key: &str, at: usize, of: usize) -> (found: Option<u64>)
    requires
        at < of,
    ensures
        found == number_field(value@, key@, at as int, of as int),
{
    match get_field(value, key, at, of) {
        Some(inner) => inner.number(),
        None => None,
    }
}

/// Reads the elements of the array in a field.
fn get_list(value: &Json, key: &str, at: usize, of: usize) -> (found: Option<Vec<Json>>)
    requires
        at < of,
    ensures
        match found {
            Some(items) => list_field(value@, key@, at as int, of as int) == Some(
                crate::json::list_view(items@),
            ),
            None => list_field(value@, key@, at as int, of as int) is None,
        },
{
    match get_field(value, key, at, of) {
        Some(inner) => inner.elements(),
        None => None,
    }
}

/// Reads an optional field.
fn get_optional(value: &Json, key: &str, at: usize, of: usize) -> (found: Option<Option<Json>>)
    requires
        at < of,
    ensures
        match found {
            Some(Some(inner)) => optional_field(value@, key@, at as int, of as int) == Some(
                Some(inner@),
            ),
            Some(None) => optional_field(value@, key@, at as int, of as int) == Some(
                None::<Seq<char>>,
            ),
            None => optional_field(value@, key@, at as int, of as int) is None,
        },
{
    if let Some(members) = value.members() {
        if let Lookup::Absent = find_value(members, key) {
            return Some(None);
        }
    }
    match get_field(value, key, at, of) {
        Some(inner) => if inner.is_null() {
            Some(None)
        } else {
            Some(Some(inner))
        },
        None => None,
    }
}

/// Reads the name of the variant in a field.
fn get_variant(value: &Json, key: &str, at: usize, of: usize) -> (found: Option<String>)
    requires
        at < of,
    ensures
        crate::text::text_view(found) == variant_field(value@, key@, at as int, of as int),
{
    let inner = match get_field(value, key, at, of) {
        Some(inner) => inner,
        None => return None,
    };
    if let Some(name) = inner.string() {
        return Some(name);
    }
    match inner.members() {
        Some(members) => {
            if members.len() == 1 {
                let ghost all = crate::json::members_view(members@);
                assert(all[0] == members@[0]@);
                if members[0].value.is_null() {
                    return Some(members[0].key.clone());
                }
            }
            None
        },
        None => None,
    }
}

/// The numbers of several `{"number": ..}` items.
pub open spec fn decoded_numbers(items: Seq<Seq<char>>) -> Option<Seq<u64>> {
    decoded_all(items, |item: Seq<char>| number_field(item, "number"@, 0, 1))
}

/// Decodes the numbers of several `{"number": ..}` items.
pub fn decode_numbers(items: &Vec<Json>) -> (numbers: Option<Vec<u64>>)
    ensures
        match numbers {
            Some(numbers) => decoded_numbers(crate::json::list_view(items@)) == Some(numbers@),
            None => decoded_numbers(crate::json::list_view(items@)) is None,
        },
{
    let ghost all = crate::json::list_view(items@);
    let ghost decode = |item: Seq<char>| number_field(item, "number"@, 0, 1);
    let mut numbers: Vec<u64> = Vec::new();
    let mut i: usize = 0;
    assert(all.take(0) =~= Seq::<Seq<char>>::empty());
    while i < items.len()
        invariant
            i <= items@.len(),
            all == crate::json::list_view(items@),
            decode == (|item: Seq<char>| number_field(item, "number"@, 0, 1)),
            decoded_all(all.take(i as int), decode) == Some(numbers@),
        decreases items@.len() - i,
    {
        assert(all[i as int] == items@[i as int]@);
        match get_number(&items[i], "number", 0, 1) {
            Some(number) => {
                numbers.push(number);
            },
            None => {
                proof {
                    decoded_all_fails(all, decode, i as int);
                }
                return None;
            },
        }
        assert(all.take(i + 1).drop_last() =~= all.take(i as int));
        i += 1;
    }
    assert(all.take(i as int) =~= all);
    Some(numbers)
}

/// The names of several `{"name": ..}` items.
pub open spec fn decoded_names(items: Seq<Seq<char>>) -> Option<Seq<Seq<char>>> {
    decoded_all(items, |item: Seq<char>| text_field(item, "name"@, 0, 1))
}

/// Decodes the names of several `{"name": ..}` items.
pub fn decode_names(items: &Vec<Json>) -> (names: Option<Vec<String>>)
    ensures
        match names {
            Some(names) => decoded_names(crate::json::list_view(items@)) == Some(
                crate::text::texts(names@),
            ),
            None => decoded_names(crate::json::list_view(items@)) is None,
        },
{
    let ghost all = crate::json::list_view(items@);
    let ghost decode = |item: Seq<char>| text_field(item, "name"@, 0, 1);
    let mut names: Vec<String> = Vec::new();
    let mut i: usize = 0;
    proof {
        assert(all.take(0) =~= Seq::<Seq<char>>::empty());
        assert(crate::text::texts(names@) =~= Seq::<Seq<char>>::empty());
    }
    while i < items.len()
        invariant
            i <= items@.len(),
            all == crate::json::list_view(items@),
            decode == (|item: Seq<char>| text_field(item, "name"@, 0, 1)),
            decoded_all(all.take(i as int), decode) == Some(crate::text::texts(names@)),
        decreases items@.len() - i,
    {
        assert(all[i as int] == items@[i as int]@);
        let ghost before = names@;
        match get_text(&items[i], "name", 0, 1) {
            Some(name) => {
                names.push(name);
                assert(crate::text::texts(names@) =~= crate::text::texts(before).push(name@));
            },
            None => {
                proof {
                    decoded_all_fails(all, decode, i as int);
                }
                return None;
            },
        }
        assert(all.take(i + 1).drop_last() =~= all.take(i as int));
        i += 1;
    }
    assert(all.take(i as int) =~= all);
    Some(names)
}

/// The issue that a `gh issue view` payload holds.
pub open spec fn decoded_issue(json: Seq<char>) -> Option<IssueRefView> {
    match (
        number_field(json, "number"@, 0, 5),
        text_field(json, "title"@, 1, 5),
        text_field(json, "body"@, 2, 5),
        match list_field(json, "labels"@, 3, 5) {
            Some(items) => decoded_names(items),
            None => None,
        },
        match variant_field(json, "state"@, 4, 5) {
            Some(state) => if state == "OPEN"@ {
                Some(IssueState::Open)
            } else if state == "CLOSED"@ {
                Some(IssueState::Closed)
            } else {
                None
            },
            None => None,
        },
    ) {
        (Some(number), Some(title), Some(body), Some(labels), Some(state)) => Some(
            IssueRefView { number, title, body, labels, state },
        ),
        _ => None,
    }
}

/// Decodes a `gh issue view` payload.
pub fn decode_issue(value: &Json) -> (issue: Option<IssueRef>)
    ensures
        match issue {
            Some(issue) => decoded_issue(value@) == Some(issue@),
            None => decoded_issue(value@) is None,
        },
{
    let number: u64 = match get_number(value, "number", 0, 5) {
        Some(number) => number,
        None => return None,
    };
    let title = match get_text(value, "title", 1, 5) {
        Some(title) => title,
        None => return None,
    };
    let body = match get_text(value, "body", 2, 5) {
        Some(body) => body,
        None => return None,
    };
    let items = match get_list(value, "labels", 3, 5) {
        Some(items) => items,
        None => return None,
    };
    let labels = match decode_names(&items) {
        Some(labels) => labels,
        None => return None,
    };
    let state = match get_variant(value, "state", 4, 5) {
        Some(state) => if str_eq(state.as_str(), "OPEN") {
            IssueState::Open
        } else if str_eq(state.as_str(), "CLOSED") {
            IssueState::Closed
        } else {
            return None;
        },
        None => return None,
    };
    Some(IssueRef { number, title, body, labels, state })
}

/// The pull request that a payload with `number`, `url` and `headRefName`
/// holds.
pub open spec fn decoded_pull_request(json: Seq<char>) -> Option<PullRequestRefView> {
    match (
        number_field(json, "number"@, 0, 3),
        text_field(json, "url"@, 1, 3),
        text_field(json, "headRefName"@, 2, 3),
    ) {
        (Some(number), Some(url), Some(branch)) => Some(
            PullRequestRefView { number, url, branch },
        ),
        _ => None,
    }
}

/// Decodes a payload with `number`, `url` and `headRefName`.
pub fn decode_pull_request(value: &Json) -> (pr: Option<PullRequestRef>)
    ensures
        match pr {
            Some(pr) => decoded_pull_request(value@) == Some(pr@),
            None => decoded_pull_request(value@) is None,
        },
{
    let number: u64 = match get_number(value, "number", 0, 3) {
        Some(number) => number,
        None => return None,
    };
    let url = match get_text(value, "url", 1, 3) {
        Some(url) => url,
        None => return None,
    };
    match get_text(value, "headRefName", 2, 3) {
        Some(branch) => Some(PullRequestRef { number, url, branch }),
        None => None,
    }
}

/// Several pull request payloads.
pub open spec fn decoded_pull_requests(items: Seq<Seq<char>>) -> Option<Seq<PullRequestRefView>> {
    decoded_all(items, |item: Seq<char>| decoded_pull_request(item))
}

/// Decodes several pull request payloads.
pub fn decode_pull_requests(items: &Vec<Json>) -> (refs: Option<Vec<PullRequestRef>>)
    ensures
        match refs {
            Some(refs) => decoded_pull_requests(crate::json::list_view(items@)) == Some(
                crate::vcs::pull_requests_view(refs@),
            ),
            None => decoded_pull_requests(crate::json::list_view(items@)) is None,
        },
{
    let ghost all = crate::json::list_view(items@);
    let ghost decode = |item: Seq<char>| decoded_pull_request(item);
    let mut refs: Vec<PullRequestRef> = Vec::new();
    let mut i: usize = 0;
    proof {
        assert(all.take(0) =~= Seq::<Seq<char>>::empty());
        assert(crate::vcs::pull_requests_view(refs@) =~= Seq::<PullRequestRefView>::empty());
    }
    while i < items.len()
        invariant
            i <= items@.len(),
            all == crate::json::list_view(items@),
            decode == (|item: Seq<char>| decoded_pull_request(item)),
            decoded_all(all.take(i as int), decode) == Some(
                crate::vcs::pull_requests_view(refs@),
            ),
        decreases items@.len() - i,
    {
        assert(all[i as int] == items@[i as int]@);
        let ghost before = refs@;
        match decode_pull_request(&items[i]) {
            Some(pr) => {
                refs.push(pr);
                assert(crate::vcs::pull_requests_view(refs@)
                    =~= crate::vcs::pull_requests_view(before).push(pr@));
            },
            None => {
                proof {
                    decoded_all_fails(all, decode, i as int);
                }
                return None;
            },
        }
        assert(all.take(i + 1).drop_last() =~= all.take(i as int));
        i += 1;
    }
    assert(all.take(i as int) =~= all);
    Some(refs)
}

/// The node under `key` of a GraphQL response's repository: `Some(None)` where
/// there is no such repository or no such node.
pub open spec fn repository_node(json: Seq<char>, key: Seq<char>) -> Option<Option<Seq<char>>> {
    match field_of(json, "data"@, 0, 1) {
        None => None,
        Some(data) => match optional_field(data, "repository"@, 0, 1) {
            None => None,
            Some(None) => Some(None),
            Some(Some(repository)) => optional_field(repository, key, 0, 1),
        },
    }
}

/// Reads the node under `key` of a GraphQL response's repository.
fn get_repository_node(value: &Json, key: &str) -> (found: Option<Option<Json>>)
    ensures
        match found {
            Some(Some(node)) => repository_node(value@, key@) == Some(
                Some(node@),
            ),
            Some(None) => repository_node(value@, key@) == Some(
                None::<Seq<char>>,
            ),
            None => repository_node(value@, key@) is None,
        },
{
    match get_field(value, "data", 0, 1) {
        None => None,
        Some(data) => match get_optional(&data, "repository", 0, 1) {
            None => None,
            Some(None) => Some(None),
            Some(Some(repository)) => get_optional(&repository, key, 0, 1),
        },
    }
}

/// Whether a merge-queue response names a queue; `None` for another shape.
pub open spec fn decoded_merge_queue(json: Seq<char>) -> Option<bool> {
    match repository_node(json, "mergeQueue"@) {
        None => None,
        Some(None) => Some(false),
        Some(Some(queue)) => match text_field(queue, "id"@, 0, 1) {
            Some(_) => Some(true),
            None => None,
        },
    }
}

/// Decodes a merge-queue response.
pub fn decode_merge_queue(value: &Json) -> (enabled: Option<bool>)
    ensures
        enabled == decoded_merge_queue(value@),
{
    match get_repository_node(value, "mergeQueue") {
        None => None,
        Some(None) => Some(false),
        Some(Some(queue)) => match get_text(&queue, "id", 0, 1) {
            Some(_) => Some(true),
            None => None,
        },
    }
}

/// The issue numbers of the connection in a field of an issue node.
pub open spec fn connection_numbers(json: Seq<char>, key: Seq<char>, at: int) -> Option<Seq<u64>> {
    match field_of(json, key, at, 4) {
        None => None,
        Some(connection) => match list_field(connection, "nodes"@, 0, 1) {
            None => None,
            Some(nodes) => decoded_numbers(nodes),
        },
    }
}

/// Reads the issue numbers of the connection in a field of an issue node.
fn get_connection_numbers(value: &Json, key: &str, at: usize) -> (numbers: Option<Vec<u64>>)
    requires
        at < 4,
    ensures
        match numbers {
            Some(numbers) => connection_numbers(value@, key@, at as int) == Some(numbers@),
            None => connection_numbers(value@, key@, at as int) is None,
        },
{
    match get_field(value, key, at, 4) {
        None => None,
        Some(connection) => match get_list(&connection, "nodes", 0, 1) {
            None => None,
            Some(nodes) => decode_numbers(&nodes),
        },
    }
}

/// The number of the optional parent.
pub open spec fn parent_number(json: Seq<char>) -> Option<Option<u64>> {
    match optional_field(json, "parent"@, 0, 4) {
        None => None,
        Some(None) => Some(None),
        Some(Some(parent)) => match number_field(parent, "number"@, 0, 1) {
            Some(number) => Some(Some(number)),
            None => None,
        },
    }
}

/// The edges that an issue node holds.
pub open spec fn decoded_edges(json: Seq<char>) -> Option<IssueRelationshipsView> {
    match (
        parent_number(json),
        connection_numbers(json, "subIssues"@, 1),
        connection_numbers(json, "blockedBy"@, 2),
        connection_numbers(json, "blocking"@, 3),
    ) {
        (Some(parent), Some(sub_issues), Some(blocked_by), Some(blocking)) => Some(
            IssueRelationshipsView { blocked_by, blocking, parent, sub_issues },
        ),
        _ => None,
    }
}

/// The edges that a relationships response holds: none at all where it
/// resolved no such issue.
pub open spec fn decoded_relationships(json: Seq<char>) -> Option<IssueRelationshipsView> {
    match repository_node(json, "issue"@) {
        None => None,
        Some(None) => Some(crate::vcs::no_relationships()),
        Some(Some(issue)) => decoded_edges(issue),
    }
}

/// Decodes a relationships response.
pub fn decode_relationships(value: &Json) -> (edges: Option<IssueRelationships>)
    ensures
        match edges {
            Some(edges) => decoded_relationships(value@) == Some(edges@),
            None => decoded_relationships(value@) is None,
        },
{
    let issue = match get_repository_node(value, "issue") {
        None => return None,
        Some(None) => return Some(IssueRelationships::default()),
        Some(Some(issue)) => issue,
    };
    let parent: Option<u64> = match get_optional(&issue, "parent", 0, 4) {
        None => return None,
        Some(None) => None,
        Some(Some(parent)) => match get_number(&parent, "number", 0, 1) {
            Some(number) => Some(number),
            None => return None,
        },
    };
    let sub_issues = match get_connection_numbers(&issue, "subIssues", 1) {
        Some(numbers) => numbers,
        None => return None,
    };
    let blocked_by = match get_connection_numbers(&issue, "blockedBy", 2) {
        Some(numbers) => numbers,
        None => return None,
    };
    let blocking = match get_connection_numbers(&issue, "blocking", 3) {
        Some(numbers) => numbers,
        None => return None,
    };
    Some(IssueRelationships { blocked_by, blocking, parent, sub_issues })
}

/// The pull requests that a linked-pull-request response holds: none where it
/// resolved no such issue.
pub open spec fn decoded_linked(json: Seq<char>) -> Option<Seq<PullRequestRefView>> {
    match repository_node(json, "issue"@) {
        None => None,
        Some(None) => Some(Seq::empty()),
        Some(Some(issue)) => match field_of(
            issue,
            "closedByPullRequestsReferences"@,
            0,
            1,
        ) {
            None => None,
            Some(connection) => match list_field(connection, "nodes"@, 0, 1) {
                None => None,
                Some(nodes) => decoded_pull_requests(nodes),
            },
        },
    }
}

/// Decodes a linked-pull-request response.
pub fn decode_linked(value: &Json) -> (refs: Option<Vec<PullRequestRef>>)
    ensures
        match refs {
            Some(refs) => decoded_linked(value@) == Some(
                crate::vcs::pull_requests_view(refs@),
            ),
            None => decoded_linked(value@) is None,
        },
{
    match get_repository_node(value, "issue") {
        None => None,
        Some(None) => {
            let refs: Vec<PullRequestRef> = Vec::new();
            assert(crate::vcs::pull_requests_view(refs@) =~= Seq::<PullRequestRefView>::empty());
            Some(refs)
        },
        Some(Some(issue)) => match get_field(&issue, "closedByPullRequestsReferences", 0, 1) {
            None => None,
            Some(connection) => match get_list(&connection, "nodes", 0, 1) {
                None => None,
                Some(nodes) => decode_pull_requests(&nodes),
            },
        },
    }
}

/// What a pull-request-status response says of a pull request.
#[derive(Clone, Copy, Debug, Eq, PartialEq, Structural)]
pub struct PullRequestSignals {
    /// Open, closed, or merged.
    pub state: PullRequestState,
    /// The aggregated CI conclusion.
    pub ci: CiConclusion,
    /// Whether it holds a merge-queue entry.
    pub in_merge_queue: bool,
}

/// The state that GitHub's name for it means.
pub open spec fn decoded_pull_request_state(name: Seq<char>) -> Option<PullRequestState> {
    if name == "OPEN"@ {
        Some(PullRequestState::Open)
    } else if name == "CLOSED"@ {
        Some(PullRequestState::Closed)
    } else if name == "MERGED"@ {
        Some(PullRequestState::Merged)
    } else {
        None
    }
}

/// The CI conclusion that GitHub's name for a rollup's state means.
pub open spec fn decoded_rollup_state(name: Seq<char>) -> Option<CiConclusion> {
    if name == "EXPECTED"@ || name == "PENDING"@ {
        Some(CiConclusion::Pending)
    } else if name == "ERROR"@ || name == "FAILURE"@ {
        Some(CiConclusion::Failure)
    } else if name == "SUCCESS"@ {
        Some(CiConclusion::Success)
    } else {
        None
    }
}

/// The CI conclusion of a commit node: pending where no check has reported.
pub open spec fn decoded_commit(node: Seq<char>) -> Option<CiConclusion> {
    match field_of(node, "commit"@, 0, 1) {
        None => None,
        Some(commit) => match optional_field(commit, "statusCheckRollup"@, 0, 1) {
            None => None,
            Some(None) => Some(CiConclusion::Pending),
            Some(Some(rollup)) => match variant_field(rollup, "state"@, 0, 1) {
                None => None,
                Some(name) => decoded_rollup_state(name),
            },
        },
    }
}

/// The CI conclusion of the first of several commit nodes: pending where there
/// is none.
pub open spec fn decoded_commits(nodes: Seq<Seq<char>>) -> Option<CiConclusion> {
    match decoded_all(nodes, |node: Seq<char>| decoded_commit(node)) {
        None => None,
        Some(conclusions) => if conclusions.len() > 0 {
            Some(conclusions[0])
        } else {
            Some(CiConclusion::Pending)
        },
    }
}

/// Whether a pull request node holds a merge-queue entry.
pub open spec fn decoded_queue_entry(node: Seq<char>) -> Option<bool> {
    match optional_field(node, "mergeQueueEntry"@, 1, 3) {
        None => None,
        Some(None) => Some(false),
        Some(Some(entry)) => match text_field(entry, "state"@, 0, 1) {
            Some(_) => Some(true),
            None => None,
        },
    }
}

/// What a pull request node says.
pub open spec fn decoded_signals(node: Seq<char>) -> Option<PullRequestSignals> {
    match (
        match variant_field(node, "state"@, 0, 3) {
            Some(name) => decoded_pull_request_state(name),
            None => None,
        },
        decoded_queue_entry(node),
        match field_of(node, "commits"@, 2, 3) {
            Some(commits) => match list_field(commits, "nodes"@, 0, 1) {
                Some(nodes) => decoded_commits(nodes),
                None => None,
            },
            None => None,
        },
    ) {
        (Some(state), Some(in_merge_queue), Some(ci)) => Some(
            PullRequestSignals { state, ci, in_merge_queue },
        ),
        _ => None,
    }
}

/// What a pull-request-status response says: `Some(None)` where it resolved no
/// such pull request.
pub open spec fn decoded_status(json: Seq<char>) -> Option<Option<PullRequestSignals>> {
    match repository_node(json, "pullRequest"@) {
        None => None,
        Some(None) => Some(None),
        Some(Some(node)) => match decoded_signals(node) {
            Some(signals) => Some(Some(signals)),
            None => None,
        },
    }
}

/// Decodes a commit node.
fn decode_commit(node: &Json) -> (ci: Option<CiConclusion>)
    ensures
        ci == decoded_commit(node@),
{
    let commit = match get_field(node, "commit", 0, 1) {
        Some(commit) => commit,
        None => return None,
    };
    let rollup = match get_optional(&commit, "statusCheckRollup", 0, 1) {
        None => return None,
        Some(None) => return Some(CiConclusion::Pending),
        Some(Some(rollup)) => rollup,
    };
    match get_variant(&rollup, "state", 0, 1) {
        None => None,
        Some(name) => if str_eq(name.as_str(), "EXPECTED") || str_eq(name.as_str(), "PENDING") {
            Some(CiConclusion::Pending)
        } else if str_eq(name.as_str(), "ERROR") || str_eq(name.as_str(), "FAILURE") {
            Some(CiConclusion::Failure)
        } else if str_eq(name.as_str(), "SUCCESS") {
            Some(CiConclusion::Success)
        } else {
            None
        },
    }
}

/// Decodes several commit nodes to the conclusion of the first.
fn decode_commits(nodes: &Vec<Json>) -> (ci: Option<CiConclusion>)
    ensures
        ci == decoded_commits(crate::json::list_view(nodes@)),
{
    let ghost all = crate::json::list_view(nodes@);
    let ghost decode = |node: Seq<char>| decoded_commit(node);
    let mut conclusions: Vec<CiConclusion> = Vec::new();
    let mut i: usize = 0;
    assert(all.take(0) =~= Seq::<Seq<char>>::empty());
    while i < nodes.len()
        invariant
            i <= nodes@.len(),
            all == crate::json::list_view(nodes@),
            decode == (|node: Seq<char>| decoded_commit(node)),
            decoded_all(all.take(i as int), decode) == Some(conclusions@),
        decreases nodes@.len() - i,
    {
        assert(all[i as int] == nodes@[i as int]@);
        match decode_commit(&nodes[i]) {
            Some(ci) => {
                conclusions.push(ci);
            },
            None => {
                proof {
                    decoded_all_fails(all, decode, i as int);
                }
                return None;
            },
        }
        assert(all.take(i + 1).drop_last() =~= all.take(i as int));
        i += 1;
    }
    assert(all.take(i as int) =~= all);
    if conclusions.len() > 0 {
        Some(conclusions[0])
    } else {
        Some(CiConclusion::Pending)
    }
}

/// Decodes a pull-request-status response.
pub fn decode_status(value: &Json) -> (signals: Option<Option<PullRequestSignals>>)
    ensures
        signals == decoded_status(value@),
{
    let node = match get_repository_node(value, "pullRequest") {
        None => return None,
        Some(None) => return Some(None),
        Some(Some(node)) => node,
    };
    let state = match get_variant(&node, "state", 0, 3) {
        None => return None,
        Some(name) => if str_eq(name.as_str(), "OPEN") {
            PullRequestState::Open
        } else if str_eq(name.as_str(), "CLOSED") {
            PullRequestState::Closed
        } else if str_eq(name.as_str(), "MERGED") {
            PullRequestState::Merged
        } else {
            return None;
        },
    };
    let in_merge_queue = match get_optional(&node, "mergeQueueEntry", 1, 3) {
        None => return None,
        Some(None) => false,
        Some(Some(entry)) => match get_text(&entry, "state", 0, 1) {
            Some(_) => true,
            None => return None,
        },
    };
    let commits = match get_field(&node, "commits", 2, 3) {
        Some(commits) => commits,
        None => return None,
    };
    let nodes = match get_list(&commits, "nodes", 0, 1) {
        Some(nodes) => nodes,
        None => return None,
    };
    match decode_commits(&nodes) {
        Some(ci) => Some(Some(PullRequestSignals { state, ci, in_merge_queue })),
        None => None,
    }
}

/// Decodes a `{"nameWithOwner": ..}` payload.
pub fn decode_slug(value: &Json) -> (slug: Option<String>)
    ensures
        crate::text::text_view(slug) == text_field(value@, "nameWithOwner"@, 0, 1),
{
    match get_text(value, "nameWithOwner", 0, 1) {
        Some(slug) => Some(slug),
        None => None,
    }
}

/// Whether `json` is an object with exactly one member under `key`, and `value`
/// is the text of it.
pub open spec fn has_once(json: Seq<char>, key: Seq<char>, value: Seq<char>) -> bool {
    crate::json::members_of(json) matches Some(members) && crate::json::values_of(members, key)
        == seq![value]
}

/// A list decodes to what each of its items decodes to, in order, and not at all
/// where one of them does not.
pub proof fn lists_decode_item_by_item<T>(
    items: Seq<Seq<char>>,
    decode: spec_fn(Seq<char>) -> Option<T>,
)
    ensures
        match decoded_all(items, decode) {
            Some(values) => values.len() == items.len() && forall|i: int|
                0 <= i < items.len() ==> decode(#[trigger] items[i]) == Some(values[i]),
            None => exists|i: int| 0 <= i < items.len() && decode(#[trigger] items[i]) is None,
        },
    decreases items.len(),
{
    if items.len() > 0 {
        let rest = items.drop_last();
        lists_decode_item_by_item(rest, decode);
        match decoded_all(rest, decode) {
            Some(values) => {
                if let Some(value) = decode(items.last()) {
                    let longer = values.push(value);
                    assert forall|i: int| 0 <= i < items.len() implies decode(#[trigger] items[i])
                        == Some(longer[i]) by {
                        if i < rest.len() {
                            assert(rest[i] == items[i]);
                        }
                    }
                } else {
                    assert(decode(items[items.len() - 1]) is None);
                }
            },
            None => {
                let i = choose|i: int| 0 <= i < rest.len() && decode(#[trigger] rest[i]) is None;
                assert(items[i] == rest[i]);
            },
        }
    }
}

/// The name of a label is its `name`.
pub proof fn labels_are_read_by_name(items: Seq<Seq<char>>, names: Seq<Seq<char>>, i: int)
    requires
        decoded_names(items) == Some(names),
        0 <= i < items.len(),
    ensures
        names.len() == items.len(),
        forall|value: Seq<char>| #[trigger]
            has_once(items[i], "name"@, value) ==> crate::json::string_of(value) == Some(names[i]),
{
    let decode = |item: Seq<char>| text_field(item, "name"@, 0, 1);
    lists_decode_item_by_item(items, decode);
    assert(decode(items[i]) == Some(names[i]));
    assert forall|value: Seq<char>| #[trigger] has_once(items[i], "name"@, value) implies
        crate::json::string_of(value) == Some(names[i]) by {
        let values = crate::json::values_of(crate::json::members_of(items[i])->0, "name"@);
        assert(values[0] == value);
    }
}

/// The number of an item is its `number`.
pub proof fn items_are_read_by_number(items: Seq<Seq<char>>, numbers: Seq<u64>, i: int)
    requires
        decoded_numbers(items) == Some(numbers),
        0 <= i < items.len(),
    ensures
        numbers.len() == items.len(),
        forall|value: Seq<char>| #[trigger]
            has_once(items[i], "number"@, value) ==> crate::json::number_of(value) == Some(
                numbers[i],
            ),
{
    let decode = |item: Seq<char>| number_field(item, "number"@, 0, 1);
    lists_decode_item_by_item(items, decode);
    assert(decode(items[i]) == Some(numbers[i]));
    assert forall|value: Seq<char>| #[trigger] has_once(items[i], "number"@, value) implies
        crate::json::number_of(value) == Some(numbers[i]) by {
        let values = crate::json::values_of(crate::json::members_of(items[i])->0, "number"@);
        assert(values[0] == value);
    }
}

/// A field that is there once is read, whatever its place in the object.
proof fn once_is_read(json: Seq<char>, key: Seq<char>, value: Seq<char>, at: int, of: int)
    requires
        has_once(json, key, value),
    ensures
        field_of(json, key, at, of) == Some(value),
        !lacks_member(json, key),
{
    let values = crate::json::values_of(crate::json::members_of(json)->0, key);
    assert(values.len() == 1 && values[0] == value);
}

/// An issue is read member by member: its `number`, `title`, `body`, the names
/// of its `labels`, and its `state`, which is `OPEN` or `CLOSED`.
pub proof fn issues_are_read_member_by_member(
    json: Seq<char>,
    number: Seq<char>,
    title: Seq<char>,
    body: Seq<char>,
    labels: Seq<char>,
    state: Seq<char>,
    issue: IssueRefView,
    items: Seq<Seq<char>>,
    name: Seq<char>,
)
    requires
        has_once(json, "number"@, number),
        has_once(json, "title"@, title),
        has_once(json, "body"@, body),
        has_once(json, "labels"@, labels),
        has_once(json, "state"@, state),
        crate::json::number_of(number) == Some(issue.number),
        crate::json::string_of(title) == Some(issue.title),
        crate::json::string_of(body) == Some(issue.body),
        crate::json::elements_of(labels) == Some(items),
        decoded_names(items) == Some(issue.labels),
        crate::json::string_of(state) == Some(name),
    ensures
        name == "OPEN"@ && issue.state is Open ==> decoded_issue(json) == Some(issue),
        name == "CLOSED"@ && issue.state is Closed ==> decoded_issue(json) == Some(issue),
        name != "OPEN"@ && name != "CLOSED"@ ==> decoded_issue(json) is None,
{
    reveal_strlit("OPEN");
    reveal_strlit("CLOSED");
    assert("OPEN"@.len() == 4 && "CLOSED"@.len() == 6);
    once_is_read(json, "number"@, number, 0, 5);
    once_is_read(json, "title"@, title, 1, 5);
    once_is_read(json, "body"@, body, 2, 5);
    once_is_read(json, "labels"@, labels, 3, 5);
    once_is_read(json, "state"@, state, 4, 5);
}

/// A pull request is read member by member: its `number`, its `url`, and its
/// branch, which is its `headRefName`.
pub proof fn pull_requests_are_read_member_by_member(
    json: Seq<char>,
    number: Seq<char>,
    url: Seq<char>,
    branch: Seq<char>,
    pr: PullRequestRefView,
)
    requires
        has_once(json, "number"@, number),
        has_once(json, "url"@, url),
        has_once(json, "headRefName"@, branch),
        crate::json::number_of(number) == Some(pr.number),
        crate::json::string_of(url) == Some(pr.url),
        crate::json::string_of(branch) == Some(pr.branch),
    ensures
        decoded_pull_request(json) == Some(pr),
{
    once_is_read(json, "number"@, number, 0, 3);
    once_is_read(json, "url"@, url, 1, 3);
    once_is_read(json, "headRefName"@, branch, 2, 3);
}

/// Whether a GraphQL response has `node` under `key` of its repository.
pub open spec fn answers_with(
    json: Seq<char>,
    data: Seq<char>,
    repository: Seq<char>,
    key: Seq<char>,
    node: Seq<char>,
) -> bool {
    &&& has_once(json, "data"@, data)
    &&& has_once(data, "repository"@, repository)
    &&& repository != "null"@
    &&& has_once(repository, key, node)
}

/// The node that a response has under a key of its repository is found, and one
/// that is `null` counts for none.
proof fn node_is_found(
    json: Seq<char>,
    data: Seq<char>,
    repository: Seq<char>,
    key: Seq<char>,
    node: Seq<char>,
)
    requires
        answers_with(json, data, repository, key, node),
    ensures
        node != "null"@ ==> repository_node(json, key) == Some(Some(node)),
        node == "null"@ ==> repository_node(json, key) == Some(None::<Seq<char>>),
{
    once_is_read(json, "data"@, data, 0, 1);
    once_is_read(data, "repository"@, repository, 0, 1);
    once_is_read(repository, key, node, 0, 1);
}

/// A response whose repository is `null` found none, whatever was asked for.
pub proof fn no_repository_means_nothing_found(json: Seq<char>, data: Seq<char>)
    requires
        has_once(json, "data"@, data),
        has_once(data, "repository"@, "null"@),
    ensures
        decoded_merge_queue(json) == Some(false),
        decoded_relationships(json) == Some(
            IssueRelationshipsView {
                blocked_by: Seq::empty(),
                blocking: Seq::empty(),
                parent: None,
                sub_issues: Seq::empty(),
            },
        ),
        decoded_linked(json) == Some(Seq::<PullRequestRefView>::empty()),
        decoded_status(json) == Some(None::<PullRequestSignals>),
{
    once_is_read(json, "data"@, data, 0, 1);
    once_is_read(data, "repository"@, "null"@, 0, 1);
}

/// A branch has a merge queue exactly where the response has one that is not
/// `null`.
pub proof fn a_merge_queue_that_is_there_is_found(
    json: Seq<char>,
    data: Seq<char>,
    repository: Seq<char>,
    queue: Seq<char>,
    id: Seq<char>,
)
    requires
        answers_with(json, data, repository, "mergeQueue"@, queue),
    ensures
        queue == "null"@ ==> decoded_merge_queue(json) == Some(false),
        queue != "null"@ && has_once(queue, "id"@, id) && crate::json::string_of(id) is Some
            ==> decoded_merge_queue(json) == Some(true),
{
    node_is_found(json, data, repository, "mergeQueue"@, queue);
    if has_once(queue, "id"@, id) {
        once_is_read(queue, "id"@, id, 0, 1);
    }
}

/// Whether `connection` is an object whose `nodes` are these items.
pub open spec fn connects(connection: Seq<char>, items: Seq<Seq<char>>) -> bool {
    exists|nodes: Seq<char>| #[trigger]
        has_once(connection, "nodes"@, nodes) && crate::json::elements_of(nodes) == Some(items)
}

/// The nodes of a connection are the elements of its one `nodes`.
proof fn nodes_are_listed(connection: Seq<char>, items: Seq<Seq<char>>)
    requires
        connects(connection, items),
    ensures
        list_field(connection, "nodes"@, 0, 1) == Some(items),
{
    let nodes = choose|nodes: Seq<char>| #[trigger]
        has_once(connection, "nodes"@, nodes) && crate::json::elements_of(nodes) == Some(items);
    once_is_read(connection, "nodes"@, nodes, 0, 1);
}

/// Each kind of edge is read from the connection of its own name: what blocks an
/// issue from `blockedBy`, what it blocks from `blocking`, its sub-issues from
/// `subIssues`, and its parent from `parent`, which may be `null`.
pub proof fn edges_are_read_by_their_names(
    json: Seq<char>,
    data: Seq<char>,
    repository: Seq<char>,
    issue: Seq<char>,
    parent: Seq<char>,
    sub_issues: Seq<char>,
    blocked_by: Seq<char>,
    blocking: Seq<char>,
    edges: IssueRelationshipsView,
    below: Seq<Seq<char>>,
    before: Seq<Seq<char>>,
    behind: Seq<Seq<char>>,
    number: Seq<char>,
)
    requires
        answers_with(json, data, repository, "issue"@, issue),
        issue != "null"@,
        has_once(issue, "parent"@, parent),
        has_once(issue, "subIssues"@, sub_issues),
        has_once(issue, "blockedBy"@, blocked_by),
        has_once(issue, "blocking"@, blocking),
        connects(sub_issues, below),
        connects(blocked_by, before),
        connects(blocking, behind),
        decoded_numbers(below) == Some(edges.sub_issues),
        decoded_numbers(before) == Some(edges.blocked_by),
        decoded_numbers(behind) == Some(edges.blocking),
        edges.parent is None ==> parent == "null"@,
        edges.parent is Some ==> parent != "null"@ && has_once(parent, "number"@, number)
            && crate::json::number_of(number) == edges.parent,
    ensures
        decoded_relationships(json) == Some(edges),
{
    node_is_found(json, data, repository, "issue"@, issue);
    once_is_read(issue, "parent"@, parent, 0, 4);
    once_is_read(issue, "subIssues"@, sub_issues, 1, 4);
    once_is_read(issue, "blockedBy"@, blocked_by, 2, 4);
    once_is_read(issue, "blocking"@, blocking, 3, 4);
    nodes_are_listed(sub_issues, below);
    nodes_are_listed(blocked_by, before);
    nodes_are_listed(blocking, behind);
    if edges.parent is Some {
        once_is_read(parent, "number"@, number, 0, 1);
    }
}

/// The pull requests that would close an issue are the nodes of its
/// `closedByPullRequestsReferences`, in order; an issue that is `null` has none.
pub proof fn linked_pull_requests_are_read_in_order(
    json: Seq<char>,
    data: Seq<char>,
    repository: Seq<char>,
    issue: Seq<char>,
    references: Seq<char>,
    items: Seq<Seq<char>>,
    i: int,
)
    requires
        answers_with(json, data, repository, "issue"@, issue),
    ensures
        issue == "null"@ ==> decoded_linked(json) == Some(Seq::<PullRequestRefView>::empty()),
        issue != "null"@ && has_once(issue, "closedByPullRequestsReferences"@, references)
            && connects(references, items) ==> match decoded_linked(json) {
            Some(refs) => refs.len() == items.len() && (0 <= i < items.len()
                ==> decoded_pull_request(items[i]) == Some(refs[i])),
            None => exists|k: int|
                0 <= k < items.len() && decoded_pull_request(#[trigger] items[k]) is None,
        },
{
    node_is_found(json, data, repository, "issue"@, issue);
    if issue != "null"@ && has_once(issue, "closedByPullRequestsReferences"@, references)
        && connects(references, items) {
        let decode = |item: Seq<char>| decoded_pull_request(item);
        once_is_read(issue, "closedByPullRequestsReferences"@, references, 0, 1);
        nodes_are_listed(references, items);
        lists_decode_item_by_item(items, decode);
        if decoded_linked(json) is None {
            let k = choose|k: int| 0 <= k < items.len() && decode(#[trigger] items[k]) is None;
            assert(decoded_pull_request(items[k]) is None);
        } else if 0 <= i < items.len() {
            assert(decode(items[i]) == Some((decoded_linked(json)->0)[i]));
        }
    }
}

/// A commit is green exactly where the state of its checks is `SUCCESS`; it is
/// red where that is `FAILURE` or `ERROR`, pending where it is `PENDING` or
/// `EXPECTED`, and pending where no check has reported.
pub proof fn only_success_is_green(
    node: Seq<char>,
    commit: Seq<char>,
    rollup: Seq<char>,
    state: Seq<char>,
    name: Seq<char>,
)
    requires
        has_once(node, "commit"@, commit),
        has_once(commit, "statusCheckRollup"@, rollup),
    ensures
        rollup == "null"@ ==> decoded_commit(node) == Some(CiConclusion::Pending),
        rollup != "null"@ && has_once(rollup, "state"@, state) && crate::json::string_of(state)
            == Some(name) ==> {
            &&& decoded_commit(node) == Some(CiConclusion::Success) <==> name == "SUCCESS"@
            &&& decoded_commit(node) == Some(CiConclusion::Failure) <==> (name == "FAILURE"@ || name
                == "ERROR"@)
            &&& decoded_commit(node) == Some(CiConclusion::Pending) <==> (name == "PENDING"@ || name
                == "EXPECTED"@)
        },
{
    reveal_strlit("EXPECTED");
    reveal_strlit("PENDING");
    reveal_strlit("ERROR");
    reveal_strlit("FAILURE");
    reveal_strlit("SUCCESS");
    once_is_read(node, "commit"@, commit, 0, 1);
    once_is_read(commit, "statusCheckRollup"@, rollup, 0, 1);
    assert("PENDING"@[0] == 'P' && "FAILURE"@[0] == 'F' && "SUCCESS"@[0] == 'S');
    assert("EXPECTED"@.len() == 8 && "ERROR"@.len() == 5 && "PENDING"@.len() == 7);
    assert("FAILURE"@.len() == 7 && "SUCCESS"@.len() == 7);
    if has_once(rollup, "state"@, state) {
        once_is_read(rollup, "state"@, state, 0, 1);
    }
}

/// A commit without a rollup of its checks is pending.
pub proof fn no_checks_are_pending(node: Seq<char>, commit: Seq<char>)
    requires
        has_once(node, "commit"@, commit),
        lacks_member(commit, "statusCheckRollup"@),
    ensures
        decoded_commit(node) == Some(CiConclusion::Pending),
{
    once_is_read(node, "commit"@, commit, 0, 1);
    let values = crate::json::values_of(
        crate::json::members_of(commit)->0,
        "statusCheckRollup"@,
    );
    assert(values.len() == 0);
}

/// The first commit decides; without one, nothing has been checked yet.
pub proof fn the_first_commit_decides(nodes: Seq<Seq<char>>)
    ensures
        nodes.len() == 0 ==> decoded_commits(nodes) == Some(CiConclusion::Pending),
        nodes.len() > 0 && decoded_commits(nodes) is Some ==> decoded_commits(nodes)
            == decoded_commit(nodes[0]),
        decoded_commits(nodes) is None <==> exists|i: int|
            0 <= i < nodes.len() && decoded_commit(#[trigger] nodes[i]) is None,
{
    let decode = |node: Seq<char>| decoded_commit(node);
    lists_decode_item_by_item(nodes, decode);
    if decoded_all(nodes, decode) is Some {
        if nodes.len() > 0 {
            assert(decode(nodes[0]) == Some((decoded_all(nodes, decode)->0)[0]));
        }
        assert forall|i: int| 0 <= i < nodes.len() implies !(decoded_commit(
            #[trigger] nodes[i],
        ) is None) by {
            assert(decode(nodes[i]) is Some);
        }
    } else {
        let i = choose|i: int| 0 <= i < nodes.len() && decode(#[trigger] nodes[i]) is None;
        assert(decoded_commit(nodes[i]) is None);
    }
}

/// A pull request's status is read member by member: its `state`, which is
/// `OPEN`, `CLOSED` or `MERGED`; whether it has a `mergeQueueEntry` that is not
/// `null`; and what its commits come to.
pub proof fn statuses_are_read_member_by_member(
    json: Seq<char>,
    data: Seq<char>,
    repository: Seq<char>,
    node: Seq<char>,
    state: Seq<char>,
    name: Seq<char>,
    entry: Seq<char>,
    entry_state: Seq<char>,
    commits: Seq<char>,
    items: Seq<Seq<char>>,
    ci: CiConclusion,
)
    requires
        answers_with(json, data, repository, "pullRequest"@, node),
        node != "null"@,
        has_once(node, "state"@, state),
        crate::json::string_of(state) == Some(name),
        has_once(node, "mergeQueueEntry"@, entry),
        entry == "null"@ || (has_once(entry, "state"@, entry_state) && crate::json::string_of(
            entry_state,
        ) is Some),
        has_once(node, "commits"@, commits),
        connects(commits, items),
        decoded_commits(items) == Some(ci),
    ensures
        decoded_status(json) matches Some(Some(signals)) ==> {
            &&& signals.ci == ci
            &&& signals.in_merge_queue == (entry != "null"@)
            &&& signals.state is Open <==> name == "OPEN"@
            &&& signals.state is Closed <==> name == "CLOSED"@
            &&& signals.state is Merged <==> name == "MERGED"@
        },
        decoded_status(json) is Some <==> (name == "OPEN"@ || name == "CLOSED"@ || name
            == "MERGED"@),
        decoded_status(json) != Some(None::<PullRequestSignals>),
{
    reveal_strlit("OPEN");
    reveal_strlit("CLOSED");
    reveal_strlit("MERGED");
    assert("CLOSED"@[0] == 'C' && "MERGED"@[0] == 'M');
    node_is_found(json, data, repository, "pullRequest"@, node);
    once_is_read(node, "state"@, state, 0, 3);
    once_is_read(node, "mergeQueueEntry"@, entry, 1, 3);
    once_is_read(node, "commits"@, commits, 2, 3);
    nodes_are_listed(commits, items);
    if entry != "null"@ {
        once_is_read(entry, "state"@, entry_state, 0, 1);
    }
}

/// A pull request that is `null` was not found.
pub proof fn a_missing_pull_request_has_no_status(
    json: Seq<char>,
    data: Seq<char>,
    repository: Seq<char>,
)
    requires
        answers_with(json, data, repository, "pullRequest"@, "null"@),
    ensures
        decoded_status(json) == Some(None::<PullRequestSignals>),
{
    node_is_found(json, data, repository, "pullRequest"@, "null"@);
}

/// A record may also be an array of its fields, in the order in which they are
/// named above, and of exactly as many.
pub proof fn records_may_be_arrays(
    json: Seq<char>,
    items: Seq<Seq<char>>,
    key: Seq<char>,
    at: int,
    of: int,
)
    requires
        crate::json::members_of(json) is None,
        crate::json::elements_of(json) == Some(items),
        0 <= at < of,
    ensures
        items.len() == of ==> field_of(json, key, at, of) == Some(items[at]),
        items.len() != of ==> field_of(json, key, at, of) is None,
{
}

} // verus!
