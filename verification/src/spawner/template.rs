//! Command-template placeholders: a harness's argv with its prompt, spawn
//! token and worktree filled in.

use vstd::prelude::*;

use crate::config::HarnessConfig;
use crate::spawner::{SpawnError, SpawnToken};
use crate::text::chars_of;

verus! {

/// The first of `substitutions` whose placeholder `text` begins with. Each is a
/// placeholder and its value.
pub open spec fn matching(
    text: Seq<char>,
    substitutions: Seq<(Seq<char>, Seq<char>)>,
) -> Option<(Seq<char>, Seq<char>)>
    decreases substitutions.len(),
{
    if substitutions.len() == 0 {
        None
    } else if substitutions[0].0.len() > 0 && substitutions[0].0.is_prefix_of(text) {
        Some(substitutions[0])
    } else {
        matching(text, substitutions.skip(1))
    }
}

/// A match is a placeholder that the text begins with.
pub proof fn matching_is_prefix(text: Seq<char>, substitutions: Seq<(Seq<char>, Seq<char>)>)
    ensures
        match matching(text, substitutions) {
            Some((placeholder, _)) => placeholder.len() > 0 && placeholder.is_prefix_of(text),
            None => true,
        },
    decreases substitutions.len(),
{
    if substitutions.len() > 0 {
        matching_is_prefix(text, substitutions.skip(1));
    }
}

/// `text` with the value of every placeholder in its place, read from left to
/// right. Values are not read again.
pub open spec fn substituted(
    text: Seq<char>,
    substitutions: Seq<(Seq<char>, Seq<char>)>,
) -> Seq<char>
    decreases text.len(),
{
    if text.len() == 0 {
        Seq::empty()
    } else {
        proof {
            matching_is_prefix(text, substitutions);
        }
        match matching(text, substitutions) {
            Some((placeholder, value)) => value + substituted(
                text.skip(placeholder.len() as int),
                substitutions,
            ),
            None => seq![text[0]] + substituted(text.skip(1), substitutions),
        }
    }
}

/// The substitutions of a spawn.
pub open spec fn spawn_values(prompt: Seq<char>, token: Seq<char>, worktree: Seq<char>) -> Seq<
    (Seq<char>, Seq<char>),
> {
    seq![("{prompt}"@, prompt), ("{spawn_token}"@, token), ("{worktree}"@, worktree)]
}

/// The argv of a spawn: every argument of the template with its placeholders
/// filled in.
pub open spec fn spawn_argv(
    command: Seq<Seq<char>>,
    prompt: Seq<char>,
    token: Seq<char>,
    worktree: Seq<char>,
) -> Seq<Seq<char>> {
    command.map_values(
        |arg: Seq<char>| substituted(arg, spawn_values(prompt, token, worktree)),
    )
}

/// Whether `placeholder` stands in `chars` at position `at`.
fn stands_at(chars: &Vec<char>, at: usize, placeholder: &Vec<char>) -> (yes: bool)
    requires
        at <= chars@.len(),
    ensures
        yes == placeholder@.is_prefix_of(chars@.skip(at as int)),
{
    let len: usize = chars.len();
    if placeholder.len() > len - at {
        return false;
    }
    let ghost rest = chars@.skip(at as int);
    let mut k: usize = 0;
    while k < placeholder.len()
        invariant
            k <= placeholder@.len(),
            len == chars@.len(),
            at + placeholder@.len() <= len,
            rest == chars@.skip(at as int),
            forall|m: int| 0 <= m < k ==> rest[m] == placeholder@[m],
        decreases placeholder@.len() - k,
    {
        if chars[at + k] != placeholder[k] {
            proof {
                if placeholder@.is_prefix_of(rest) {
                    assert(rest.subrange(0, placeholder@.len() as int)[k as int] == rest[k as int]);
                }
            }
            return false;
        }
        k += 1;
    }
    assert(rest.subrange(0, placeholder@.len() as int) =~= placeholder@);
    true
}

/// A placeholder and its value, as characters and as text.
struct Substitution<'a> {
    placeholder: Vec<char>,
    value: &'a str,
}

/// The contents of several substitutions.
spec fn substitutions_view(substitutions: Seq<Substitution<'_>>) -> Seq<(Seq<char>, Seq<char>)> {
    substitutions.map_values(|s: Substitution<'_>| (s.placeholder@, s.value@))
}

/// The position of the first of `substitutions` that stands in `chars` at
/// position `at`.
fn find_match(chars: &Vec<char>, at: usize, substitutions: &Vec<Substitution<'_>>) -> (found:
    Option<usize>)
    requires
        at <= chars@.len(),
    ensures
        match found {
            Some(found) => {
                &&& found < substitutions@.len()
                &&& matching(chars@.skip(at as int), substitutions_view(substitutions@)) == Some(
                    substitutions_view(substitutions@)[found as int],
                )
            },
            None => matching(chars@.skip(at as int), substitutions_view(substitutions@)) is None,
        },
{
    let ghost all = substitutions_view(substitutions@);
    let ghost rest = chars@.skip(at as int);
    let mut i: usize = 0;
    assert(all.skip(0) =~= all);
    while i < substitutions.len()
        invariant
            i <= substitutions@.len(),
            at <= chars@.len(),
            all == substitutions_view(substitutions@),
            rest == chars@.skip(at as int),
            matching(rest, all) == matching(rest, all.skip(i as int)),
        decreases substitutions@.len() - i,
    {
        proof {
            assert(all[i as int] == (
                substitutions@[i as int].placeholder@,
                substitutions@[i as int].value@,
            ));
            assert(all.skip(i as int)[0] == all[i as int]);
            assert(all.skip(i as int).skip(1) =~= all.skip(i + 1));
        }
        if substitutions[i].placeholder.len() > 0 && stands_at(
            chars,
            at,
            &substitutions[i].placeholder,
        ) {
            return Some(i);
        }
        i += 1;
    }
    None
}

/// Replaces every placeholder by its value, in one pass from left to right.
fn substitute_once(arg: &str, substitutions: &Vec<Substitution<'_>>) -> (out: String)
    ensures
        out@ == substituted(arg@, substitutions_view(substitutions@)),
{
    let ghost subs = substitutions_view(substitutions@);
    let chars = chars_of(arg);
    let mut out = String::new();
    // What stands before `start` is in `out`; what stands from `start` up to
    // `i` is to be copied as it is.
    let mut start: usize = 0;
    let mut i: usize = 0;
    proof {
        assert(arg@.skip(0) =~= arg@);
        assert(out@ + arg@.subrange(0, 0) + substituted(arg@.skip(0), subs) =~= substituted(
            arg@,
            subs,
        ));
    }
    while i < chars.len()
        invariant
            chars@ == arg@,
            subs == substitutions_view(substitutions@),
            start <= i <= chars@.len(),
            out@ + arg@.subrange(start as int, i as int) + substituted(arg@.skip(i as int), subs)
                == substituted(arg@, subs),
        decreases chars@.len() - i,
    {
        let ghost rest = arg@.skip(i as int);
        let ghost before = out@;
        let ghost pending = arg@.subrange(start as int, i as int);
        proof {
            matching_is_prefix(rest, subs);
            assert(rest.skip(1) =~= arg@.skip(i + 1));
        }
        match find_match(&chars, i, substitutions) {
            Some(found) => {
                let placeholder = &substitutions[found].placeholder;
                let value = substitutions[found].value;
                let end: usize = i + placeholder.len();
                assert(subs[found as int] == (placeholder@, value@));
                out.append(arg.substring_char(start, i));
                out.append(value);
                proof {
                    assert(rest.skip(placeholder@.len() as int) =~= arg@.skip(end as int));
                    assert(out@ + arg@.subrange(end as int, end as int) + substituted(
                        arg@.skip(end as int),
                        subs,
                    ) =~= before + pending + substituted(rest, subs));
                }
                start = end;
                i = end;
            },
            None => {
                proof {
                    assert(arg@.subrange(start as int, i + 1) =~= pending.push(chars@[i as int]));
                    assert(out@ + arg@.subrange(start as int, i + 1) + substituted(
                        arg@.skip(i + 1),
                        subs,
                    ) =~= before + pending + substituted(rest, subs));
                }
                i += 1;
            },
        }
    }
    let ghost before = out@;
    out.append(arg.substring_char(start, chars.len()));
    proof {
        assert(substituted(arg@.skip(i as int), subs) =~= Seq::<char>::empty());
        assert(out@ =~= before + arg@.subrange(start as int, i as int) + Seq::<char>::empty());
    }
    out
}

/// Fills in the placeholders in every argument of `harness`'s command template.
///
/// The prompt may itself hold the text of a placeholder; it is copied as it is.
pub fn interpolate_command(
    harness: &HarnessConfig,
    prompt: &str,
    spawn_token: &SpawnToken,
    worktree: &str,
) -> (argv: Result<Vec<String>, SpawnError>)
    ensures
        match argv {
            Ok(argv) => harness@.len() > 0 && crate::text::texts(argv@) == spawn_argv(
                harness@,
                prompt@,
                spawn_token@,
                worktree@,
            ),
            Err(error) => harness@.len() == 0 && error == SpawnError::EmptyCommand,
        },
{
    if harness.command.len() == 0 {
        return Err(SpawnError::EmptyCommand);
    }
    let mut substitutions: Vec<Substitution<'_>> = Vec::new();
    substitutions.push(Substitution { placeholder: chars_of("{prompt}"), value: prompt });
    substitutions.push(
        Substitution { placeholder: chars_of("{spawn_token}"), value: spawn_token.as_str() },
    );
    substitutions.push(Substitution { placeholder: chars_of("{worktree}"), value: worktree });
    let ghost values = spawn_values(prompt@, spawn_token@, worktree@);
    assert(substitutions_view(substitutions@) =~= values);
    let mut argv: Vec<String> = Vec::new();
    let mut i: usize = 0;
    while i < harness.command.len()
        invariant
            i <= harness.command@.len(),
            argv@.len() == i,
            values == spawn_values(prompt@, spawn_token@, worktree@),
            substitutions_view(substitutions@) == values,
            forall|k: int|
                0 <= k < i ==> (#[trigger] argv@[k])@ == substituted(harness@[k], values),
        decreases harness.command@.len() - i,
    {
        assert(harness@[i as int] == harness.command@[i as int]@);
        argv.push(substitute_once(harness.command[i].as_str(), &substitutions));
        i += 1;
    }
    assert(crate::text::texts(argv@) =~= spawn_argv(harness@, prompt@, spawn_token@, worktree@));
    Ok(argv)
}

/// A prompt is passed on whole and unread: the placeholders that it may hold
/// stay as they are.
pub proof fn prompt_is_passed_on_whole(
    prompt: Seq<char>,
    token: Seq<char>,
    worktree: Seq<char>,
    rest: Seq<char>,
)
    ensures
        substituted("{prompt}"@ + rest, spawn_values(prompt, token, worktree)) == prompt
            + substituted(rest, spawn_values(prompt, token, worktree)),
{
    reveal_strlit("{prompt}");
    let text = "{prompt}"@ + rest;
    let values = spawn_values(prompt, token, worktree);
    assert(text.subrange(0, "{prompt}"@.len() as int) =~= "{prompt}"@);
    assert(values[0] == ("{prompt}"@, prompt));
    assert(text.skip("{prompt}"@.len() as int) =~= rest);
}

/// Which placeholder of a spawn a text begins with.
proof fn matching_of_spawn(
    text: Seq<char>,
    prompt: Seq<char>,
    token: Seq<char>,
    worktree: Seq<char>,
)
    ensures
        matching(text, spawn_values(prompt, token, worktree)) == if "{prompt}"@.is_prefix_of(text) {
            Some(("{prompt}"@, prompt))
        } else if "{spawn_token}"@.is_prefix_of(text) {
            Some(("{spawn_token}"@, token))
        } else if "{worktree}"@.is_prefix_of(text) {
            Some(("{worktree}"@, worktree))
        } else {
            None::<(Seq<char>, Seq<char>)>
        },
{
    reveal_with_fuel(matching, 5);
    reveal_strlit("{prompt}");
    reveal_strlit("{spawn_token}");
    reveal_strlit("{worktree}");
    let values = spawn_values(prompt, token, worktree);
    assert(values[0] == ("{prompt}"@, prompt));
    assert(values.skip(1)[0] == ("{spawn_token}"@, token));
    assert(values.skip(1).skip(1)[0] == ("{worktree}"@, worktree));
    assert(values.skip(1).skip(1).skip(1).len() == 0);
}

/// The spawn token and the worktree stand where their placeholders stood, and
/// what they hold is not read again.
pub proof fn token_and_worktree_are_passed_on_whole(
    prompt: Seq<char>,
    token: Seq<char>,
    worktree: Seq<char>,
    rest: Seq<char>,
)
    ensures
        substituted("{spawn_token}"@ + rest, spawn_values(prompt, token, worktree)) == token
            + substituted(rest, spawn_values(prompt, token, worktree)),
        substituted("{worktree}"@ + rest, spawn_values(prompt, token, worktree)) == worktree
            + substituted(rest, spawn_values(prompt, token, worktree)),
{
    reveal_strlit("{prompt}");
    reveal_strlit("{spawn_token}");
    reveal_strlit("{worktree}");
    let first = "{spawn_token}"@ + rest;
    let second = "{worktree}"@ + rest;
    assert(first.subrange(0, "{spawn_token}"@.len() as int) =~= "{spawn_token}"@);
    assert(second.subrange(0, "{worktree}"@.len() as int) =~= "{worktree}"@);
    assert(first.skip("{spawn_token}"@.len() as int) =~= rest);
    assert(second.skip("{worktree}"@.len() as int) =~= rest);
    matching_of_spawn(first, prompt, token, worktree);
    matching_of_spawn(second, prompt, token, worktree);
    assert(first[1] == 's' && second[1] == 'w');
    if "{prompt}"@.is_prefix_of(first) {
        assert(first.subrange(0, "{prompt}"@.len() as int)[1] == first[1]);
    }
    if "{prompt}"@.is_prefix_of(second) {
        assert(second.subrange(0, "{prompt}"@.len() as int)[1] == second[1]);
    }
    if "{spawn_token}"@.is_prefix_of(second) {
        assert(second.subrange(0, "{spawn_token}"@.len() as int)[1] == second[1]);
    }
}

/// A character that begins no placeholder is copied, a brace among them.
pub proof fn other_text_is_copied(
    prompt: Seq<char>,
    token: Seq<char>,
    worktree: Seq<char>,
    c: char,
    rest: Seq<char>,
)
    requires
        c != '{' || (!"prompt}"@.is_prefix_of(rest) && !"spawn_token}"@.is_prefix_of(rest)
            && !"worktree}"@.is_prefix_of(rest)),
    ensures
        substituted(seq![c] + rest, spawn_values(prompt, token, worktree)) == seq![c] + substituted(
            rest,
            spawn_values(prompt, token, worktree),
        ),
        substituted(Seq::empty(), spawn_values(prompt, token, worktree)) == Seq::<char>::empty(),
{
    reveal_strlit("{prompt}");
    reveal_strlit("{spawn_token}");
    reveal_strlit("{worktree}");
    reveal_strlit("prompt}");
    reveal_strlit("spawn_token}");
    reveal_strlit("worktree}");
    let text = seq![c] + rest;
    assert(text[0] == c);
    assert(text.skip(1) =~= rest);
    matching_of_spawn(text, prompt, token, worktree);
    if "{prompt}"@.is_prefix_of(text) {
        let n = "{prompt}"@.len() as int;
        assert(text.subrange(0, n)[0] == text[0]);
        assert("{prompt}"@.skip(1) =~= "prompt}"@);
        assert(rest.subrange(0, n - 1) =~= text.subrange(0, n).skip(1));
    }
    if "{spawn_token}"@.is_prefix_of(text) {
        let n = "{spawn_token}"@.len() as int;
        assert(text.subrange(0, n)[0] == text[0]);
        assert("{spawn_token}"@.skip(1) =~= "spawn_token}"@);
        assert(rest.subrange(0, n - 1) =~= text.subrange(0, n).skip(1));
    }
    if "{worktree}"@.is_prefix_of(text) {
        let n = "{worktree}"@.len() as int;
        assert(text.subrange(0, n)[0] == text[0]);
        assert("{worktree}"@.skip(1) =~= "worktree}"@);
        assert(rest.subrange(0, n - 1) =~= text.subrange(0, n).skip(1));
    }
}

/// Arguments are filled in one by one: none is dropped, added or split, and
/// none depends on another.
pub proof fn arguments_are_filled_in_one_by_one(
    front: Seq<Seq<char>>,
    back: Seq<Seq<char>>,
    argument: Seq<char>,
    prompt: Seq<char>,
    token: Seq<char>,
    worktree: Seq<char>,
)
    ensures
        spawn_argv(front + back, prompt, token, worktree) == spawn_argv(
            front,
            prompt,
            token,
            worktree,
        ) + spawn_argv(back, prompt, token, worktree),
        spawn_argv(seq![argument], prompt, token, worktree) == seq![
            substituted(argument, spawn_values(prompt, token, worktree)),
        ],
        spawn_argv(Seq::empty(), prompt, token, worktree) == Seq::<Seq<char>>::empty(),
{
}

} // verus!
