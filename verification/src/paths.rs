//! Unix paths as text.
//!
//! Two spellings of a path mean the same where they have the same components:
//! repeated and trailing separators do not count, nor does a `.` that is not
//! the first component.

use vstd::prelude::*;

use crate::text::{split, starts_with, str_eq};

verus! {

/// Whether `part` names a component of its own.
pub open spec fn is_named(part: Seq<char>) -> bool {
    part.len() > 0 && part != "."@
}

/// The components of `path`: the root where it has one, a leading `.`
/// otherwise, and every named part in order.
pub open spec fn path_components(path: Seq<char>) -> Seq<Seq<char>> {
    let parts = crate::text::pieces(path, '/');
    let first = if path.len() > 0 && path[0] == '/' {
        seq!["/"@]
    } else if parts[0] == "."@ {
        seq!["."@]
    } else {
        Seq::empty()
    };
    first + parts.filter(|part: Seq<char>| is_named(part))
}

/// `part` below `base`; `part` itself where it is absolute.
pub open spec fn joined(base: Seq<char>, part: Seq<char>) -> Seq<char> {
    if part.len() > 0 && part[0] == '/' {
        part
    } else if base.len() == 0 || base.last() == '/' {
        base + part
    } else {
        base + "/"@ + part
    }
}

/// Whether `base` is `path` or one of the directories above it.
pub open spec fn is_within(path: Seq<char>, base: Seq<char>) -> bool {
    path_components(base).is_prefix_of(path_components(path))
}

/// Whether two spellings mean the same path.
pub open spec fn same_path(a: Seq<char>, b: Seq<char>) -> bool {
    path_components(a) == path_components(b)
}

/// Whether the first `len` characters of `path` spell the directory above it.
pub open spec fn is_parent_len(path: Seq<char>, len: int) -> bool {
    path_components(path.take(len)) == path_components(path).drop_last()
}

/// The directory above `path`: the shortest start of `path` that has every
/// component of it but the last. The root and the empty path have none.
pub open spec fn parent_of(path: Seq<char>) -> Option<Seq<char>> {
    let components = path_components(path);
    if components.len() == 0 || components.last() == "/"@ {
        None
    } else if exists|len: int| 0 <= len <= path.len() && #[trigger] is_parent_len(path, len) {
        let len = choose|len: int|
            {
                &&& 0 <= len <= path.len()
                &&& #[trigger] is_parent_len(path, len)
                &&& forall|other: int|
                    0 <= other < len ==> !(#[trigger] is_parent_len(path, other))
            };
        Some(path.take(len))
    } else {
        None
    }
}

/// The last component of `path`, where it names a file or directory.
pub open spec fn file_name_of(path: Seq<char>) -> Option<Seq<char>> {
    let components = path_components(path);
    if components.len() == 0 {
        None
    } else if components.last() == "/"@ || components.last() == "."@ || components.last()
        == ".."@ {
        None
    } else {
        Some(components.last())
    }
}

/// The components of `path`.
pub fn components(path: &str) -> (parts: Vec<String>)
    ensures
        crate::text::texts(parts@) == path_components(path@),
{
    let named = split(path, '/');
    let ghost all = crate::text::pieces(path@, '/');
    let ghost keep = |part: Seq<char>| is_named(part);
    let mut parts: Vec<String> = Vec::new();
    proof {
        reveal_strlit("/");
        crate::text::pieces_nonempty(path@, '/');
    }
    if starts_with(path, "/") {
        assert(path@.subrange(0, 1)[0] == '/');
        parts.push("/".to_string());
    } else {
        proof {
            if path@.len() > 0 && path@[0] == '/' {
                assert(path@.subrange(0, 1) =~= "/"@);
            }
            assert(crate::text::slices(named@)[0] == named@[0]@);
        }
        if str_eq(named[0], ".") {
            parts.push(".".to_string());
        }
    }
    let ghost first = crate::text::texts(parts@);
    let mut i: usize = 0;
    proof {
        reveal(Seq::filter);
        assert(first =~= first + all.take(0).filter(keep));
    }
    while i < named.len()
        invariant
            i <= named@.len(),
            crate::text::slices(named@) == all,
            keep == (|part: Seq<char>| is_named(part)),
            crate::text::texts(parts@) == first + all.take(i as int).filter(keep),
        decreases named@.len() - i,
    {
        let part = named[i];
        let ghost before = parts@;
        proof {
            assert(all[i as int] == part@);
            assert(all.take(i + 1) =~= all.take(i as int).push(part@));
            all.take(i as int).lemma_filter_push(part@, keep);
        }
        if !part.is_empty() && !str_eq(part, ".") {
            parts.push(part.to_string());
            assert(crate::text::texts(parts@) =~= crate::text::texts(before).push(part@));
        }
        assert(crate::text::texts(parts@) =~= first + all.take(i + 1).filter(keep));
        i += 1;
    }
    proof {
        assert(all.take(i as int) =~= all);
        assert(first =~= (if path@.len() > 0 && path@[0] == '/' {
            seq!["/"@]
        } else if all[0] == "."@ {
            seq!["."@]
        } else {
            Seq::empty()
        }));
    }
    parts
}

/// Whether the first parts of `longer` are those of `shorter`.
fn begins_with(longer: &Vec<String>, shorter: &Vec<String>) -> (yes: bool)
    ensures
        yes == crate::text::texts(shorter@).is_prefix_of(crate::text::texts(longer@)),
{
    if shorter.len() > longer.len() {
        return false;
    }
    let ghost long = crate::text::texts(longer@);
    let ghost short = crate::text::texts(shorter@);
    let mut i: usize = 0;
    while i < shorter.len()
        invariant
            i <= shorter@.len() <= longer@.len(),
            long == crate::text::texts(longer@),
            short == crate::text::texts(shorter@),
            forall|k: int| 0 <= k < i ==> long[k] == short[k],
        decreases shorter@.len() - i,
    {
        if !str_eq(longer[i].as_str(), shorter[i].as_str()) {
            proof {
                if short.is_prefix_of(long) {
                    assert(long.subrange(0, short.len() as int)[i as int] == long[i as int]);
                }
                assert(long[i as int] == longer@[i as int]@);
                assert(short[i as int] == shorter@[i as int]@);
            }
            return false;
        }
        assert(long[i as int] == longer@[i as int]@);
        assert(short[i as int] == shorter@[i as int]@);
        i += 1;
    }
    assert(long.subrange(0, short.len() as int) =~= short);
    true
}

/// Whether `base` is `path` or one of the directories above it.
pub fn within(path: &str, base: &str) -> (yes: bool)
    ensures
        yes == is_within(path@, base@),
{
    begins_with(&components(path), &components(base))
}

/// Whether two spellings mean the same path.
pub fn paths_equal(a: &str, b: &str) -> (yes: bool)
    ensures
        yes == same_path(a@, b@),
{
    let left = components(a);
    let right = components(b);
    let yes = left.len() == right.len() && begins_with(&left, &right);
    proof {
        let long = crate::text::texts(left@);
        let short = crate::text::texts(right@);
        assert(long.subrange(0, long.len() as int) =~= long);
    }
    yes
}

/// `part` below `base`; `part` itself where it is absolute.
pub fn join(base: &str, part: &str) -> (path: String)
    ensures
        path@ == joined(base@, part@),
{
    proof {
        reveal_strlit("/");
    }
    if starts_with(part, "/") {
        assert(part@.subrange(0, 1)[0] == '/');
        return part.to_string();
    }
    proof {
        if part@.len() > 0 && part@[0] == '/' {
            assert(part@.subrange(0, 1) =~= "/"@);
        }
    }
    let len: usize = base.unicode_len();
    if len == 0 || base.get_char(len - 1) == '/' {
        base.to_string().concat(part)
    } else {
        base.to_string().concat("/").concat(part)
    }
}

/// The directory above `path`.
pub fn parent<'a>(path: &'a str) -> (above: Option<&'a str>)
    ensures
        match above {
            Some(above) => parent_of(path@) == Some(above@),
            None => parent_of(path@) is None,
        },
{
    let mut wanted = components(path);
    if wanted.len() == 0 {
        return None;
    }
    let ghost all = path_components(path@);
    assert(all.last() == wanted@.last()@);
    if str_eq(wanted[wanted.len() - 1].as_str(), "/") {
        return None;
    }
    wanted.pop();
    proof {
        assert(crate::text::texts(wanted@) =~= all.drop_last());
    }
    let len: usize = path.unicode_len();
    let mut end: usize = 0;
    loop
        invariant
            end <= len,
            len == path@.len(),
            all == path_components(path@),
            all.len() > 0,
            all.last() != "/"@,
            crate::text::texts(wanted@) == all.drop_last(),
            forall|other: int| 0 <= other < end ==> !(#[trigger] is_parent_len(path@, other)),
        decreases len - end,
    {
        let above: &'a str = path.substring_char(0, end);
        let found = components(above);
        assert(above@ =~= path@.take(end as int));
        let matches = found.len() == wanted.len() && begins_with(&found, &wanted);
        proof {
            let long = crate::text::texts(found@);
            assert(long.subrange(0, long.len() as int) =~= long);
            assert(matches == is_parent_len(path@, end as int));
        }
        if matches {
            return Some(above);
        }
        if end == len {
            return None;
        }
        end += 1;
    }
}

/// The last component of `path`, where it names a file or directory.
pub fn file_name(path: &str) -> (name: Option<String>)
    ensures
        crate::text::text_view(name) == file_name_of(path@),
{
    let mut parts = components(path);
    if parts.len() == 0 {
        return None;
    }
    let ghost all = path_components(path@);
    assert(all.last() == parts@.last()@);
    let last = parts.remove(parts.len() - 1);
    if str_eq(last.as_str(), "/") || str_eq(last.as_str(), ".") || str_eq(last.as_str(), "..") {
        None
    } else {
        Some(last)
    }
}

/// Whether `name` can stand between two separators and name something there.
pub open spec fn is_plain_name(name: Seq<char>) -> bool {
    name.len() > 0 && !name.contains('/') && name != "."@
}

/// The named parts of a path.
spec fn named_parts(path: Seq<char>) -> Seq<Seq<char>> {
    crate::text::pieces(path, '/').filter(|part: Seq<char>| is_named(part))
}

/// A plain name has itself for its only named part; empty text and `.` have
/// none.
proof fn named_parts_of_a_name(name: Seq<char>)
    ensures
        is_plain_name(name) ==> named_parts(name) == seq![name],
        named_parts(Seq::empty()) == Seq::<Seq<char>>::empty(),
        named_parts("."@) == Seq::<Seq<char>>::empty(),
{
    reveal_strlit(".");
    let keep = |part: Seq<char>| is_named(part);
    let none = Seq::<Seq<char>>::empty();
    assert(none.filter(keep) =~= none) by {
        reveal(Seq::filter);
    }
    if is_plain_name(name) {
        crate::text::unmarked_text_is_one_piece(name, '/');
        none.lemma_filter_push(name, keep);
        assert(none.push(name) =~= seq![name]);
    }
    crate::text::unmarked_text_is_one_piece(Seq::empty(), '/');
    crate::text::unmarked_text_is_one_piece("."@, '/');
    none.lemma_filter_push(Seq::empty(), keep);
    none.lemma_filter_push("."@, keep);
    assert(none.push(Seq::<char>::empty()) =~= seq![Seq::<char>::empty()]);
    assert(none.push("."@) =~= seq!["."@]);
}

/// What stands behind a separator adds its named parts.
proof fn separator_adds_named_parts(base: Seq<char>, part: Seq<char>)
    ensures
        path_components(base.push('/') + part) == path_components(base.push('/')) + named_parts(
            part,
        ),
{
    let keep = |part: Seq<char>| is_named(part);
    let longer = base.push('/') + part;
    let shorter = base.push('/') + Seq::empty();
    assert(shorter =~= base.push('/'));
    crate::text::pieces_of_join(base, '/', part);
    crate::text::pieces_of_join(base, '/', Seq::empty());
    crate::text::pieces_nonempty(base, '/');
    let parts = crate::text::pieces(base, '/');
    Seq::filter_distributes_over_add(parts, crate::text::pieces(part, '/'), keep);
    Seq::filter_distributes_over_add(parts, crate::text::pieces(Seq::empty(), '/'), keep);
    named_parts_of_a_name(part);
    assert(longer[0] == shorter[0]);
    assert(crate::text::pieces(longer, '/')[0] == parts[0]);
    assert(crate::text::pieces(shorter, '/')[0] == parts[0]);
    assert(path_components(longer) =~= path_components(shorter) + named_parts(part));
}

/// A separator at the end does not count.
proof fn last_separator_adds_nothing(base: Seq<char>)
    requires
        base.len() > 0,
    ensures
        path_components(base.push('/')) == path_components(base),
{
    let keep = |part: Seq<char>| is_named(part);
    let longer = base.push('/') + Seq::empty();
    assert(longer =~= base.push('/'));
    crate::text::pieces_of_join(base, '/', Seq::empty());
    crate::text::pieces_nonempty(base, '/');
    let parts = crate::text::pieces(base, '/');
    Seq::filter_distributes_over_add(parts, crate::text::pieces(Seq::empty(), '/'), keep);
    named_parts_of_a_name(base);
    assert(longer[0] == base[0]);
    assert(crate::text::pieces(longer, '/')[0] == parts[0]);
    assert(path_components(longer) =~= path_components(base));
}

/// Repeated and trailing separators do not count, nor does a `.` between two of
/// them.
pub proof fn spelling_does_not_count(a: Seq<char>, b: Seq<char>)
    requires
        a.len() > 0,
    ensures
        same_path(a + "/"@, a),
        same_path(a + "//"@ + b, a + "/"@ + b),
        same_path(a + "/./"@ + b, a + "/"@ + b),
{
    reveal_strlit("/");
    reveal_strlit("//");
    reveal_strlit("/./");
    reveal_strlit(".");
    let once = a.push('/');
    let twice = once.push('/');
    let dotted = once + "."@;
    assert(a + "/"@ =~= once);
    assert(a + "/"@ + b =~= once + b);
    assert(a + "//"@ + b =~= twice + b);
    assert(a + "/./"@ + b =~= dotted.push('/') + b);
    last_separator_adds_nothing(a);
    last_separator_adds_nothing(once);
    last_separator_adds_nothing(dotted);
    separator_adds_named_parts(a, b);
    separator_adds_named_parts(once, b);
    separator_adds_named_parts(dotted, b);
    separator_adds_named_parts(a, "."@);
    named_parts_of_a_name(b);
    assert(path_components(dotted) =~= path_components(once));
}

/// The root, the empty path, a leading `.` and a plain name are their own
/// components, and what is below the root has the root for its first one.
pub proof fn components_of_the_simplest_paths(name: Seq<char>)
    requires
        is_plain_name(name),
    ensures
        path_components("/"@) == seq!["/"@],
        path_components("."@) == seq!["."@],
        path_components(Seq::empty()) == Seq::<Seq<char>>::empty(),
        path_components(name) == seq![name],
        path_components("/"@ + name) == seq!["/"@, name],
{
    reveal_strlit("/");
    reveal_strlit(".");
    let nothing = Seq::<char>::empty();
    named_parts_of_a_name(name);
    crate::text::unmarked_text_is_one_piece(name, '/');
    crate::text::unmarked_text_is_one_piece(nothing, '/');
    crate::text::unmarked_text_is_one_piece("."@, '/');
    assert(name.contains(name[0]));
    assert(path_components(nothing) =~= Seq::<Seq<char>>::empty());
    assert(path_components("."@) =~= seq!["."@]);
    assert(path_components(name) =~= seq![name]);
    assert("/"@ =~= nothing.push('/'));
    assert("/"@ + name =~= nothing.push('/') + name);
    crate::text::pieces_of_join(nothing, '/', nothing);
    Seq::filter_distributes_over_add(
        crate::text::pieces(nothing, '/'),
        crate::text::pieces(nothing, '/'),
        |part: Seq<char>| is_named(part),
    );
    assert(nothing.push('/') + nothing =~= "/"@);
    assert(path_components("/"@) =~= seq!["/"@]);
    separator_adds_named_parts(nothing, name);
    assert(path_components("/"@ + name) =~= seq!["/"@, name]);
}

/// What is joined to a directory is one component below it, named last; and an
/// absolute path stays what it is.
pub proof fn what_is_joined_is_below(base: Seq<char>, name: Seq<char>, rest: Seq<char>)
    requires
        base.len() > 0,
        is_plain_name(name),
    ensures
        base.last() != '/' ==> joined(base, name) == base + "/"@ + name,
        path_components(joined(base, name)) == path_components(base).push(name),
        is_within(joined(base, name), base),
        !same_path(joined(base, name), base),
        file_name_of(joined(base, name)) == if name == ".."@ {
            None
        } else {
            Some(name)
        },
        joined(base, "/"@ + rest) == "/"@ + rest,
{
    reveal_strlit("/");
    named_parts_of_a_name(name);
    assert(name.contains(name[0]));
    if base.last() == '/' {
        let shorter = base.drop_last();
        assert(shorter.push('/') =~= base);
        separator_adds_named_parts(shorter, name);
    } else {
        last_separator_adds_nothing(base);
        separator_adds_named_parts(base, name);
        assert(base + "/"@ + name =~= base.push('/') + name);
    }
    let all = path_components(joined(base, name));
    let above = path_components(base);
    assert(all =~= above.push(name));
    assert(all.subrange(0, above.len() as int) =~= above);
    if name == "/"@ {
        assert(name[0] == '/');
    }
    assert(("/"@ + rest)[0] == '/');
}

/// Different names below one directory stand for different paths, neither of
/// which is within the other, however the names begin.
pub proof fn siblings_are_apart(base: Seq<char>, name: Seq<char>, other: Seq<char>)
    requires
        base.len() > 0,
        is_plain_name(name),
        is_plain_name(other),
        name != other,
    ensures
        !same_path(joined(base, name), joined(base, other)),
        !is_within(joined(base, name), joined(base, other)),
        !is_within(base, joined(base, name)),
{
    what_is_joined_is_below(base, name, Seq::empty());
    what_is_joined_is_below(base, other, Seq::empty());
    let n = path_components(base).len() as int;
    let one = path_components(joined(base, name));
    let two = path_components(joined(base, other));
    assert(one[n] == name && two[n] == other);
    if two.is_prefix_of(one) {
        assert(one.subrange(0, two.len() as int)[n] == one[n]);
    }
}

/// Where the directory above can be spelled, there is a shortest spelling.
proof fn shortest_parent(path: Seq<char>, len: int)
    requires
        0 <= len <= path.len(),
        is_parent_len(path, len),
    ensures
        exists|least: int|
            {
                &&& 0 <= least <= path.len()
                &&& #[trigger] is_parent_len(path, least)
                &&& forall|other: int|
                    0 <= other < least ==> !(#[trigger] is_parent_len(path, other))
            },
    decreases len,
{
    if exists|other: int| 0 <= other < len && #[trigger] is_parent_len(path, other) {
        let other = choose|other: int| 0 <= other < len && #[trigger] is_parent_len(path, other);
        shortest_parent(path, other);
    }
}

/// The directory above what is joined to a directory is that directory, spelled
/// as the path spells it and no longer than need be. The root and the empty
/// path have none above them.
pub proof fn the_directory_above_is_where_it_was_joined(base: Seq<char>, name: Seq<char>)
    requires
        base.len() > 0,
        is_plain_name(name),
    ensures
        parent_of(joined(base, name)) matches Some(above) && same_path(above, base)
            && above.is_prefix_of(joined(base, name)) && (forall|len: int|
            0 <= len < above.len() ==> !same_path(#[trigger] above.take(len), base)),
        parent_of(name) == Some(Seq::<char>::empty()),
        parent_of("/"@) is None,
        parent_of(Seq::empty()) is None,
{
    what_is_joined_is_below(base, name, Seq::empty());
    components_of_the_simplest_paths(name);
    reveal_strlit("/");
    let path = joined(base, name);
    let all = path_components(path);
    assert(all.drop_last() =~= path_components(base));
    assert(name.contains(name[0]));
    if name == "/"@ {
        assert(name[0] == '/');
    }
    assert(path.take(base.len() as int) =~= base);
    assert(is_parent_len(path, base.len() as int));
    shortest_parent(path, base.len() as int);
    let above = parent_of(path)->0;
    assert(above.is_prefix_of(path)) by {
        assert(path.subrange(0, above.len() as int) =~= above);
    }
    assert forall|len: int| 0 <= len < above.len() implies !same_path(
        #[trigger] above.take(len),
        base,
    ) by {
        assert(above.take(len) =~= path.take(len));
        assert(!is_parent_len(path, len));
    }
    assert(name.take(0) =~= Seq::<char>::empty());
    assert(path_components(name).drop_last() =~= Seq::<Seq<char>>::empty());
    assert(is_parent_len(name, 0));
    shortest_parent(name, 0);
}

} // verus!
