//! The instruction composer: one phase's final prompt, from a base template,
//! an optional project-local override, and a set of variables.
//!
//! A `{placeholder}` without a variable of that name is left as it is: an
//! override may name a variable that nothing provides yet, and plain markdown
//! may hold braces of its own.

use vstd::prelude::*;

use crate::failure::{IoError, IoErrorKind, IoErrorView};
use crate::maps::TextMap;
use crate::paths::join;
use crate::text::{chars_of, split_once, str_eq, strip_prefix, trim, trim_end};

verus! {

/// The first line that makes an override replace the base template.
pub const REPLACE_DIRECTIVE: &'static str = "<!-- mode: replace -->";

/// The mark that some editors put at the start of a UTF-8 file.
pub const BYTE_ORDER_MARK: &'static str = "\u{feff}";

/// The variable name for the issue number.
pub const VAR_ISSUE_NUMBER: &'static str = "issue_number";

/// The variable name for the worktree's absolute path.
pub const VAR_WORKTREE_PATH: &'static str = "worktree_path";

/// The variable name for the issue's branch.
pub const VAR_BRANCH: &'static str = "branch";

/// The variable name for the spec tool's specs directory.
pub const VAR_SPECS_DIR: &'static str = "specs_dir";

/// The variable name for the project's default branch.
pub const VAR_DEFAULT_BRANCH: &'static str = "default_branch";

/// Errors resolving a project's instruction override file.
#[derive(Debug)]
#[non_exhaustive]
pub enum InstructionError {
    /// The override file exists but could not be read.
    Read {
        /// The path that could not be read.
        path: String,
        /// The underlying I/O failure.
        source: IoError,
    },
}

/// The placeholder at the start of `text`, where there is one: the name between
/// the braces, and what follows them.
pub open spec fn placeholder_at_start(text: Seq<char>) -> Option<(Seq<char>, Seq<char>)> {
    if text.len() > 0 && text[0] == '{' {
        crate::text::around_first(text.skip(1), '}')
    } else {
        None
    }
}

/// `text` with the value of every known placeholder in its place, read from
/// left to right. Values are not read again.
pub open spec fn interpolated(text: Seq<char>, variables: Map<Seq<char>, String>) -> Seq<char>
    decreases text.len(),
{
    if text.len() == 0 {
        Seq::empty()
    } else {
        proof {
            crate::text::around_first_parts(text.skip(1), '}');
        }
        match placeholder_at_start(text) {
            Some((name, rest)) if variables.contains_key(name) => {
                variables[name]@ + interpolated(rest, variables)
            },
            _ => seq![text[0]] + interpolated(text.skip(1), variables),
        }
    }
}

/// The position of the first `}` from `from` on.
fn closing_brace(chars: &Vec<char>, from: usize) -> (at: Option<usize>)
    requires
        from <= chars@.len(),
    ensures
        match at {
            Some(at) => {
                &&& from <= at < chars@.len()
                &&& crate::text::around_first(chars@.skip(from as int), '}') == Some(
                    (chars@.subrange(from as int, at as int), chars@.skip(at + 1)),
                )
            },
            None => crate::text::around_first(chars@.skip(from as int), '}') is None,
        },
{
    let mut at: usize = from;
    while at < chars.len()
        invariant
            from <= at <= chars@.len(),
            forall|k: int| from <= k < at ==> chars@[k] != '}',
        decreases chars@.len() - at,
    {
        if chars[at] == '}' {
            proof {
                let rest = chars@.skip(from as int);
                assert forall|k: int| 0 <= k < at - from implies rest[k] != '}' by {
                    assert(rest[k] == chars@[from + k]);
                }
                crate::text::around_first_at(rest, '}', at - from);
                assert(rest.take(at - from) =~= chars@.subrange(from as int, at as int));
                assert(rest.skip(at - from + 1) =~= chars@.skip(at + 1));
            }
            return Some(at);
        }
        at += 1;
    }
    proof {
        let rest = chars@.skip(from as int);
        assert forall|k: int| 0 <= k < rest.len() implies rest[k] != '}' by {
            assert(rest[k] == chars@[from + k]);
        }
        crate::text::around_first_absent(rest, '}');
    }
    None
}

/// Substitutes every `{name}` placeholder in `text` that has a variable, in one
/// pass from left to right.
///
/// A value that holds the text of another placeholder is copied as it is.
pub fn interpolate(text: &str, variables: &TextMap<String>) -> (out: String)
    ensures
        out@ == interpolated(text@, variables@),
{
    let chars = chars_of(text);
    let mut out = String::new();
    // What stands before `start` is in `out`; what stands from `start` up to
    // `i` is to be copied as it is.
    let mut start: usize = 0;
    let mut i: usize = 0;
    proof {
        assert(text@.skip(0) =~= text@);
        assert(out@ + text@.subrange(0, 0) + interpolated(text@.skip(0), variables@)
            =~= interpolated(text@, variables@));
    }
    while i < chars.len()
        invariant
            chars@ == text@,
            start <= i <= chars@.len(),
            out@ + text@.subrange(start as int, i as int) + interpolated(
                text@.skip(i as int),
                variables@,
            ) == interpolated(text@, variables@),
        decreases chars@.len() - i,
    {
        let ghost rest = text@.skip(i as int);
        assert(rest[0] == chars@[i as int]);
        assert(rest.skip(1) =~= text@.skip(i + 1));
        let mut replaced = false;
        if chars[i] == '{' {
            if let Some(end) = closing_brace(&chars, i + 1) {
                let name = text.substring_char(i + 1, end);
                if let Some(value) = variables.get(name) {
                    let ghost before = out@;
                    let ghost pending = text@.subrange(start as int, i as int);
                    out.append(text.substring_char(start, i));
                    out.append(value.as_str());
                    proof {
                        let after = text@.skip(end + 1);
                        assert(interpolated(rest, variables@) == value@ + interpolated(
                            after,
                            variables@,
                        ));
                        assert(out@ + text@.subrange(end + 1, end + 1) + interpolated(
                            after,
                            variables@,
                        ) =~= before + pending + interpolated(rest, variables@));
                    }
                    start = end + 1;
                    i = end + 1;
                    replaced = true;
                }
            }
        }
        if !replaced {
            proof {
                assert(interpolated(rest, variables@) == seq![rest[0]] + interpolated(
                    rest.skip(1),
                    variables@,
                ));
                assert(text@.subrange(start as int, i + 1) =~= text@.subrange(
                    start as int,
                    i as int,
                ).push(chars@[i as int]));
                assert(out@ + text@.subrange(start as int, i + 1) + interpolated(
                    text@.skip(i + 1),
                    variables@,
                ) =~= out@ + text@.subrange(start as int, i as int) + interpolated(
                    rest,
                    variables@,
                ));
            }
            i += 1;
        }
    }
    let ghost before = out@;
    out.append(text.substring_char(start, chars.len()));
    proof {
        assert(interpolated(text@.skip(i as int), variables@) =~= Seq::<char>::empty());
        assert(out@ =~= before + text@.subrange(start as int, i as int) + Seq::<char>::empty());
    }
    out
}

/// Whether an override replaces the base template, and what is left of it to
/// interpolate: all after its first line where it does, the whole otherwise. A
/// byte order mark does not count.
pub open spec fn override_parts(text: Seq<char>) -> (bool, Seq<char>) {
    let body = match crate::text::after_prefix(text, BYTE_ORDER_MARK@) {
        Some(body) => body,
        None => text,
    };
    let (first_line, rest) = match crate::text::around_first(body, '\n') {
        Some(parts) => parts,
        None => (body, Seq::empty()),
    };
    if crate::text::trimmed(first_line) == REPLACE_DIRECTIVE@ {
        (true, rest)
    } else {
        (false, body)
    }
}

/// The final prompt: the base template alone; or the override alone; or both,
/// with a blank line between. Each is interpolated on its own before they are
/// put together.
pub open spec fn composed(
    base: Seq<char>,
    override_text: Option<Seq<char>>,
    variables: Map<Seq<char>, String>,
) -> Seq<char> {
    match override_text {
        None => interpolated(base, variables),
        Some(text) => {
            let (replaces, body) = override_parts(text);
            if replaces {
                interpolated(body, variables)
            } else {
                crate::text::trimmed_end(interpolated(base, variables)) + "\n\n"@
                    + crate::text::trimmed_end(interpolated(body, variables))
            }
        },
    }
}

/// Splits an override into whether it replaces the base, and its body.
fn split_mode<'a>(text: &'a str) -> (parts: (bool, &'a str))
    ensures
        (parts.0, parts.1@) == override_parts(text@),
{
    let body: &'a str = match strip_prefix(text, BYTE_ORDER_MARK) {
        Some(body) => body,
        None => text,
    };
    match split_once(body, '\n') {
        Some((first_line, rest)) => if str_eq(trim(first_line), REPLACE_DIRECTIVE) {
            (true, rest)
        } else {
            (false, body)
        },
        None => if str_eq(trim(body), REPLACE_DIRECTIVE) {
            proof {
                reveal_strlit("");
            }
            (true, "")
        } else {
            (false, body)
        },
    }
}

/// Composes one phase's final prompt.
///
/// An override whose first line is `<!-- mode: replace -->` supersedes the base
/// template; any other override is appended after it.
pub fn compose(base: &str, override_text: Option<&str>, variables: &TextMap<String>) -> (prompt:
    String)
    ensures
        prompt@ == composed(base@, crate::board::slice_view(override_text), variables@),
{
    let text = match override_text {
        Some(text) => text,
        None => return interpolate(base, variables),
    };
    let (replaces, body) = split_mode(text);
    if replaces {
        interpolate(body, variables)
    } else {
        let base = interpolate(base, variables);
        let addition = interpolate(body, variables);
        trim_end(base.as_str()).to_string().concat("\n\n").concat(trim_end(addition.as_str()))
    }
}

/// Where a project's override for one instruction point lives.
pub open spec fn override_path(repo_dir: Seq<char>, point: Seq<char>) -> Seq<char> {
    crate::paths::joined(
        crate::paths::joined(crate::paths::joined(repo_dir, ".spec-flow"@), "instructions"@),
        point + ".md"@,
    )
}

/// The path of a project's override for one instruction point.
pub fn instruction_override_path(repo_dir: &str, point: &str) -> (path: String)
    ensures
        path@ == override_path(repo_dir@, point@),
{
    let base = join(repo_dir, ".spec-flow");
    let dir = join(base.as_str(), "instructions");
    let file = point.to_string().concat(".md");
    join(dir.as_str(), file.as_str())
}

/// What an override file holds, given the outcome of reading it; or why that
/// cannot be told.
pub open spec fn override_read(read: Result<Seq<char>, IoErrorView>) -> Result<
    Option<Seq<char>>,
    IoErrorView,
> {
    match read {
        Ok(text) => Ok(Some(text)),
        Err(error) => if error.kind is NotFound {
            Ok(None)
        } else {
            Err(error)
        },
    }
}

/// What reading an override file comes to.
///
/// A file that does not exist is no override; any other failure is an error,
/// for the operator to see.
pub fn read_instruction_override(path: &str, read: Result<String, IoError>) -> (found: Result<
    Option<String>,
    InstructionError,
>)
    ensures
        override_read(
            match read {
                Ok(text) => Ok(text@),
                Err(error) => Err(error@),
            },
        ) == match found {
            Ok(found) => Ok::<Option<Seq<char>>, IoErrorView>(crate::text::text_view(found)),
            Err(InstructionError::Read { source, .. }) => Err::<Option<Seq<char>>, IoErrorView>(
                source@,
            ),
        },
        match read {
            Ok(text) => found matches Ok(Some(contents)) && contents@ == text@,
            Err(error) => if error.kind is NotFound {
                found == Ok::<Option<String>, InstructionError>(None)
            } else {
                found matches Err(InstructionError::Read { path: at, source }) && at@ == path@
                    && source@ == error@
            },
        },
{
    match read {
        Ok(text) => Ok(Some(text)),
        Err(error) => match error.kind {
            IoErrorKind::NotFound => Ok(None),
            _ => Err(InstructionError::Read { path: path.to_string(), source: error }),
        },
    }
}

/// Text without an opening brace is left as it is.
pub proof fn plain_text_is_unchanged(text: Seq<char>, variables: Map<Seq<char>, String>)
    requires
        !text.contains('{'),
    ensures
        interpolated(text, variables) == text,
{
    plain_start_is_copied(text, Seq::empty(), variables);
    assert(text + Seq::<char>::empty() =~= text);
}

/// Text before the first opening brace is copied.
pub proof fn plain_start_is_copied(
    start: Seq<char>,
    rest: Seq<char>,
    variables: Map<Seq<char>, String>,
)
    requires
        !start.contains('{'),
    ensures
        interpolated(start + rest, variables) == start + interpolated(rest, variables),
    decreases start.len(),
{
    if start.len() == 0 {
        assert(start + rest =~= rest);
        assert(start + interpolated(rest, variables) =~= interpolated(rest, variables));
    } else {
        let text = start + rest;
        let tail = start.skip(1);
        assert(start.contains(start[0]));
        assert(!tail.contains('{')) by {
            if tail.contains('{') {
                let k = choose|k: int| 0 <= k < tail.len() && tail[k] == '{';
                assert(start[k + 1] == '{');
            }
        }
        plain_start_is_copied(tail, rest, variables);
        assert(text.skip(1) =~= tail + rest);
        assert(seq![text[0]] + (tail + interpolated(rest, variables)) =~= start + interpolated(
            rest,
            variables,
        ));
    }
}

/// A known placeholder becomes its value. The value itself is not read again,
/// whatever it holds.
pub proof fn value_is_substituted_once(
    name: Seq<char>,
    rest: Seq<char>,
    variables: Map<Seq<char>, String>,
)
    requires
        !name.contains('}'),
        variables.contains_key(name),
    ensures
        interpolated(seq!['{'] + name + seq!['}'] + rest, variables) == variables[name]@
            + interpolated(rest, variables),
{
    let text = seq!['{'] + name + seq!['}'] + rest;
    let inner = text.skip(1);
    assert(inner =~= name.push('}') + rest);
    assert forall|k: int| 0 <= k < name.len() implies inner[k] != '}' by {
        assert(name.contains(name[k]));
    }
    crate::text::around_first_at(inner, '}', name.len() as int);
    assert(inner.take(name.len() as int) =~= name);
    assert(inner.skip(name.len() as int + 1) =~= rest);
}

/// A placeholder without a variable is left as it is.
pub proof fn unknown_placeholder_is_kept(
    name: Seq<char>,
    rest: Seq<char>,
    variables: Map<Seq<char>, String>,
)
    requires
        !name.contains('}'),
        !name.contains('{'),
        !variables.contains_key(name),
    ensures
        interpolated(seq!['{'] + name + seq!['}'] + rest, variables) == seq!['{'] + name
            + seq!['}'] + interpolated(rest, variables),
{
    let text = seq!['{'] + name + seq!['}'] + rest;
    let inner = text.skip(1);
    assert(inner =~= name.push('}') + rest);
    assert forall|k: int| 0 <= k < name.len() implies inner[k] != '}' by {
        assert(name.contains(name[k]));
    }
    crate::text::around_first_at(inner, '}', name.len() as int);
    assert(inner.take(name.len() as int) =~= name);
    let closed = name.push('}');
    assert(!closed.contains('{')) by {
        if closed.contains('{') {
            let k = choose|k: int| 0 <= k < closed.len() && closed[k] == '{';
            assert(name[k] == '{');
        }
    }
    plain_start_is_copied(closed, rest, variables);
    assert(seq!['{'] + (closed + interpolated(rest, variables)) =~= seq!['{'] + name + seq!['}']
        + interpolated(rest, variables));
}

/// Without variables every text is left as it is.
pub proof fn no_variables_change_nothing(text: Seq<char>)
    ensures
        interpolated(text, Map::empty()) == text,
    decreases text.len(),
{
    if text.len() > 0 {
        no_variables_change_nothing(text.skip(1));
        assert(seq![text[0]] + text.skip(1) =~= text);
    }
}

/// An override that replaces the base makes the base irrelevant.
pub proof fn replacement_ignores_the_base(
    base: Seq<char>,
    other: Seq<char>,
    override_text: Seq<char>,
    variables: Map<Seq<char>, String>,
)
    requires
        override_parts(override_text).0,
    ensures
        composed(base, Some(override_text), variables) == composed(
            other,
            Some(override_text),
            variables,
        ),
{
}

/// The directive line as it may stand in a file: the directive itself, with
/// blanks around it, and a carriage return at its end.
proof fn directive_line_is_recognized(before: Seq<char>, after: Seq<char>)
    requires
        forall|k: int|
            0 <= k < before.len() ==> #[trigger] before[k] == ' ' || before[k] == '\t',
        forall|k: int|
            0 <= k < after.len() ==> #[trigger] after[k] == ' ' || after[k] == '\t' || after[k]
                == '\r',
    ensures
        crate::text::trimmed(before + "<!-- mode: replace -->"@ + after)
            == "<!-- mode: replace -->"@,
        !(before + "<!-- mode: replace -->"@ + after).contains('\n'),
    decreases before.len() + after.len(),
{
    reveal_strlit("<!-- mode: replace -->");
    let directive = "<!-- mode: replace -->"@;
    let line = before + directive + after;
    assert(directive.len() == 22 && directive[0] == '<' && directive[21] == '>');
    assert(!line.contains('\n')) by {
        if line.contains('\n') {
            let k = choose|k: int| 0 <= k < line.len() && line[k] == '\n';
            if k < before.len() {
                assert(before[k] == '\n');
            } else if k < before.len() + directive.len() {
                assert(directive[k - before.len()] == '\n');
            } else {
                assert(after[k - before.len() - directive.len()] == '\n');
            }
        }
    }
    if after.len() > 0 {
        let shorter = after.drop_last();
        assert forall|k: int| 0 <= k < shorter.len() implies #[trigger] shorter[k] == ' '
            || shorter[k] == '\t' || shorter[k] == '\r' by {
            assert(shorter[k] == after[k]);
        }
        directive_line_is_recognized(before, shorter);
        assert(line.drop_last() =~= before + directive + shorter);
        assert(line.last() == after[after.len() - 1]);
    } else if before.len() > 0 {
        let shorter = before.skip(1);
        assert forall|k: int| 0 <= k < shorter.len() implies #[trigger] shorter[k] == ' '
            || shorter[k] == '\t' by {
            assert(shorter[k] == before[k + 1]);
        }
        directive_line_is_recognized(shorter, after);
        assert(line =~= before + directive);
        assert(line.last() == '>');
        assert(line[0] == before[0]);
        assert(line.skip(1) =~= shorter + directive + after);
        assert((shorter + directive + after).last() == '>');
    } else {
        assert(line =~= directive);
    }
}

/// Whatever follows the directive's line is the whole prompt: the base is not
/// in it, and no line of the replacement is lost. Blanks around the directive
/// do not matter, nor does a byte order mark before it.
pub proof fn replacement_is_all_that_follows(
    base: Seq<char>,
    before: Seq<char>,
    after: Seq<char>,
    body: Seq<char>,
    variables: Map<Seq<char>, String>,
)
    requires
        forall|k: int|
            0 <= k < before.len() ==> #[trigger] before[k] == ' ' || before[k] == '\t',
        forall|k: int|
            0 <= k < after.len() ==> #[trigger] after[k] == ' ' || after[k] == '\t' || after[k]
                == '\r',
    ensures
        ({
            let line = before + "<!-- mode: replace -->"@ + after;
            &&& composed(base, Some(line + seq!['\n'] + body), variables) == interpolated(
                body,
                variables,
            )
            &&& composed(base, Some(seq!['\u{feff}'] + line + seq!['\n'] + body), variables)
                == interpolated(body, variables)
            &&& composed(base, Some(line), variables) == Seq::<char>::empty()
        }),
{
    reveal_strlit("\u{feff}");
    reveal_strlit("<!-- mode: replace -->");
    let mark = seq!['\u{feff}'];
    assert("\u{feff}"@ =~= mark);
    let directive = "<!-- mode: replace -->"@;
    let line = before + directive + after;
    let text = line + seq!['\n'] + body;
    let marked = mark + line + seq!['\n'] + body;
    directive_line_is_recognized(before, after);
    assert(line[0] == ' ' || line[0] == '\t' || line[0] == '<') by {
        if before.len() == 0 {
            assert(line[0] == directive[0]);
        } else {
            assert(line[0] == before[0]);
        }
    }
    assert(!mark.is_prefix_of(line)) by {
        if mark.is_prefix_of(line) {
            assert(line.subrange(0, 1)[0] == '\u{feff}');
        }
    }
    assert(!mark.is_prefix_of(text)) by {
        if mark.is_prefix_of(text) {
            assert(text.subrange(0, 1)[0] == '\u{feff}');
            assert(text[0] == line[0]);
        }
    }
    assert(marked =~= mark + text);
    crate::text::after_prefix_of_concat(mark, text);
    assert forall|k: int| 0 <= k < line.len() implies text[k] != '\n' by {
        assert(line.contains(line[k]));
    }
    crate::text::around_first_at(text, '\n', line.len() as int);
    assert(text.take(line.len() as int) =~= line);
    assert(text.skip(line.len() as int + 1) =~= body);
    assert forall|k: int| 0 <= k < line.len() implies line[k] != '\n' by {
        assert(line.contains(line[k]));
    }
    crate::text::around_first_absent(line, '\n');
}

/// The directive on the first line is all that makes an override replace the
/// base.
pub proof fn replacement_starts_with_the_directive(body: Seq<char>)
    ensures
        override_parts("<!-- mode: replace -->"@ + seq!['\n'] + body) == (true, body),
{
    reveal_strlit("<!-- mode: replace -->");
    reveal_strlit("\u{feff}");
    let line = "<!-- mode: replace -->"@;
    let text = line + seq!['\n'] + body;
    directive_line_is_recognized(Seq::empty(), Seq::empty());
    assert(Seq::<char>::empty() + line + Seq::<char>::empty() =~= line);
    assert(!"\u{feff}"@.is_prefix_of(text)) by {
        if "\u{feff}"@.is_prefix_of(text) {
            assert(text.subrange(0, 1)[0] == '\u{feff}');
            assert(text[0] == '<');
        }
    }
    assert forall|k: int| 0 <= k < line.len() implies text[k] != '\n' by {
        assert(line.contains(line[k]));
    }
    crate::text::around_first_at(text, '\n', line.len() as int);
    assert(text.take(line.len() as int) =~= line);
    assert(text.skip(line.len() as int + 1) =~= body);
}

/// An override whose first line is not the directive follows the base after a
/// blank line, each filled in on its own and without the white space at its
/// end.
pub proof fn other_overrides_are_appended(
    base: Seq<char>,
    line: Seq<char>,
    rest: Seq<char>,
    variables: Map<Seq<char>, String>,
)
    requires
        line.len() > 0,
        line[0] != '\u{feff}',
        !line.contains('\n'),
        crate::text::trimmed(line) != "<!-- mode: replace -->"@,
    ensures
        composed(base, Some(line), variables) == crate::text::trimmed_end(
            interpolated(base, variables),
        ) + seq!['\n', '\n'] + crate::text::trimmed_end(interpolated(line, variables)),
        composed(base, Some(line + seq!['\n'] + rest), variables) == crate::text::trimmed_end(
            interpolated(base, variables),
        ) + seq!['\n', '\n'] + crate::text::trimmed_end(
            interpolated(line + seq!['\n'] + rest, variables),
        ),
{
    reveal_strlit("\u{feff}");
    reveal_strlit("\n\n");
    assert("\n\n"@ =~= seq!['\n', '\n']);
    let mark = "\u{feff}"@;
    let text = line + seq!['\n'] + rest;
    assert(!mark.is_prefix_of(line)) by {
        if mark.is_prefix_of(line) {
            assert(line.subrange(0, 1)[0] == '\u{feff}');
        }
    }
    assert(!mark.is_prefix_of(text)) by {
        if mark.is_prefix_of(text) {
            assert(text.subrange(0, 1)[0] == '\u{feff}');
            assert(text[0] == line[0]);
        }
    }
    assert forall|k: int| 0 <= k < line.len() implies line[k] != '\n' && text[k] != '\n' by {
        assert(line.contains(line[k]));
    }
    crate::text::around_first_absent(line, '\n');
    crate::text::around_first_at(text, '\n', line.len() as int);
    assert(text.take(line.len() as int) =~= line);
}

/// Without an override the prompt is the base, filled in.
pub proof fn base_alone_is_filled_in(base: Seq<char>, variables: Map<Seq<char>, String>)
    ensures
        composed(base, None, variables) == interpolated(base, variables),
{
}

/// A brace that is never closed is left as it is.
pub proof fn unclosed_braces_are_kept(text: Seq<char>, variables: Map<Seq<char>, String>)
    requires
        !text.contains('}'),
    ensures
        interpolated(text, variables) == text,
    decreases text.len(),
{
    if text.len() > 0 {
        let rest = text.skip(1);
        assert forall|k: int| 0 <= k < rest.len() implies rest[k] != '}' by {
            assert(text.contains(text[k + 1]));
        }
        assert(!rest.contains('}'));
        crate::text::around_first_absent(rest, '}');
        unclosed_braces_are_kept(rest, variables);
        assert(seq![text[0]] + rest =~= text);
    }
}

/// The override of an instruction point is `.spec-flow/instructions/<point>.md`
/// in the repo.
pub proof fn overrides_live_in_the_repo(repo_dir: Seq<char>, point: Seq<char>)
    requires
        repo_dir.len() > 0,
        repo_dir.last() != '/',
        point.len() > 0,
        point[0] != '/',
    ensures
        override_path(repo_dir, point) == repo_dir + "/.spec-flow/instructions/"@ + point + ".md"@,
{
    reveal_strlit("/");
    reveal_strlit(".spec-flow");
    reveal_strlit("instructions");
    reveal_strlit("/.spec-flow/instructions/");
    reveal_strlit(".md");
    let file = point + ".md"@;
    let one = crate::paths::joined(repo_dir, ".spec-flow"@);
    assert(one.last() == 'w');
    let two = crate::paths::joined(one, "instructions"@);
    assert(two.last() == 's');
    assert(file[0] == point[0]);
    assert(override_path(repo_dir, point) =~= repo_dir + "/.spec-flow/instructions/"@ + point
        + ".md"@);
}

/// A file that is not there is no override; one that is there and cannot be
/// read is an error, never silence.
pub proof fn unreadable_overrides_are_told(text: Seq<char>, error: IoErrorView)
    ensures
        override_read(Ok(text)) == Ok::<Option<Seq<char>>, IoErrorView>(Some(text)),
        error.kind is NotFound ==> override_read(Err(error)) == Ok::<Option<Seq<char>>, IoErrorView>(
            None,
        ),
        error.kind is AlreadyExists || error.kind is Other ==> override_read(Err(error)) == Err::<
            Option<Seq<char>>,
            IoErrorView,
        >(error),
{
}

} // verus!
