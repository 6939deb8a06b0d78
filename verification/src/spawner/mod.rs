//! Phase processes: what to launch, and what is running.

pub mod template;

use vstd::prelude::*;

use crate::config::HarnessConfig;
use crate::failure::{IoError, IoErrorView};
use crate::numbers::hex_text;
use crate::text::str_eq;
use crate::time::Timestamp;
use template::interpolate_command;

verus! {

/// Errors from spawning or tracking a phase process.
#[derive(Debug)]
#[non_exhaustive]
pub enum SpawnError {
    /// The key already has a live, unreaped process.
    AlreadyRunning {
        /// The key that already has a live entry.
        key: SpawnKey,
    },
    /// The harness's command template has no argv at all.
    EmptyCommand,
    /// The harness binary could not be launched.
    Spawn {
        /// The program that was to be launched.
        program: String,
        /// The underlying I/O failure.
        source: IoError,
    },
}

/// The contents of a [`SpawnError`].
pub enum SpawnErrorView {
    AlreadyRunning { key: SpawnKeyView },
    EmptyCommand,
    Spawn { program: Seq<char>, source: IoErrorView },
}

impl View for SpawnError {
    type V = SpawnErrorView;

    open spec fn view(&self) -> SpawnErrorView {
        match *self {
            SpawnError::AlreadyRunning { key } => SpawnErrorView::AlreadyRunning { key: key@ },
            SpawnError::EmptyCommand => SpawnErrorView::EmptyCommand,
            SpawnError::Spawn { program, source } => SpawnErrorView::Spawn {
                program: program@,
                source: source@,
            },
        }
    }
}

/// A one-time correlation token minted at spawn.
///
/// It correlates a spawn with the connection that the process opens later. It
/// is no secret; it only has to differ from spawn to spawn.
#[derive(Debug, Eq, Hash, PartialEq)]
pub struct SpawnToken {
    text: String,
}

impl View for SpawnToken {
    type V = Seq<char>;

    closed spec fn view(&self) -> Seq<char> {
        self.text@
    }
}

impl Clone for SpawnToken {
    fn clone(&self) -> (copy: Self)
        ensures
            copy@ == self@,
    {
        SpawnToken { text: self.text.clone() }
    }
}

/// The token for a process id, a time and a counter.
pub open spec fn token_text(pid: u32, nanos: u128, counter: u64) -> Seq<char> {
    crate::numbers::digits(pid as nat, 16) + "-"@ + crate::numbers::digits(nanos as nat, 16)
        + "-"@ + crate::numbers::digits(counter as nat, 16)
}

impl SpawnToken {
    /// Mints the token for a process id, a wall-clock time in nanoseconds, and
    /// a counter that never repeats within the process.
    pub fn generate(pid: u32, nanos: u128, counter: u64) -> (token: SpawnToken)
        ensures
            token@ == token_text(pid, nanos, counter),
    {
        let text = hex_text(pid as u128).concat("-").concat(hex_text(nanos).as_str()).concat(
            "-",
        ).concat(hex_text(counter as u128).as_str());
        SpawnToken { text }
    }

    /// This token's opaque string form.
    pub fn as_str(&self) -> (text: &str)
        ensures
            text@ == self@,
    {
        self.text.as_str()
    }
}

/// No hexadecimal number holds a `-`.
proof fn hex_has_no_dash(n: nat)
    ensures
        !crate::numbers::digits(n, 16).contains('-'),
{
    crate::numbers::digits_are_digits(n, 16);
}

/// Text up to its first `-`, and from there on.
proof fn dash_splits(before: Seq<char>, after: Seq<char>)
    requires
        !before.contains('-'),
    ensures
        crate::text::around_first(before + "-"@ + after, '-') == Some((before, after)),
{
    reveal_strlit("-");
    let text = before + "-"@ + after;
    assert forall|k: int| 0 <= k < before.len() implies text[k] != '-' by {
        assert(before.contains(before[k]));
    }
    crate::text::around_first_at(text, '-', before.len() as int);
    assert(text.take(before.len() as int) =~= before);
    assert(text.skip(before.len() as int + 1) =~= after);
}

/// Tokens for different process ids, times or counters differ.
pub proof fn tokens_differ(
    pid: u32,
    nanos: u128,
    counter: u64,
    other_pid: u32,
    other_nanos: u128,
    other_counter: u64,
)
    requires
        token_text(pid, nanos, counter) == token_text(other_pid, other_nanos, other_counter),
    ensures
        pid == other_pid,
        nanos == other_nanos,
        counter == other_counter,
{
    let (a, b, c) = (
        crate::numbers::digits(pid as nat, 16),
        crate::numbers::digits(nanos as nat, 16),
        crate::numbers::digits(counter as nat, 16),
    );
    let (x, y, z) = (
        crate::numbers::digits(other_pid as nat, 16),
        crate::numbers::digits(other_nanos as nat, 16),
        crate::numbers::digits(other_counter as nat, 16),
    );
    hex_has_no_dash(pid as nat);
    hex_has_no_dash(nanos as nat);
    hex_has_no_dash(other_pid as nat);
    hex_has_no_dash(other_nanos as nat);
    assert(token_text(pid, nanos, counter) =~= a + "-"@ + (b + "-"@ + c));
    assert(token_text(other_pid, other_nanos, other_counter) =~= x + "-"@ + (y + "-"@ + z));
    dash_splits(a, b + "-"@ + c);
    dash_splits(x, y + "-"@ + z);
    dash_splits(b, c);
    dash_splits(y, z);
    crate::numbers::digits_injective(pid as nat, other_pid as nat, 16);
    crate::numbers::digits_injective(nanos as nat, other_nanos as nat, 16);
    crate::numbers::digits_injective(counter as nat, other_counter as nat, 16);
}

/// The identity of one phase-process spawn.
///
/// Issue numbers are per repo, so the project is part of it; and several
/// processes may run for one phase at once, told apart by `sub_id`.
#[derive(Debug, Eq, Hash, PartialEq)]
pub struct SpawnKey {
    /// The project this spawn belongs to.
    pub project: String,
    /// The issue this spawn is working on, scoped to `project`.
    pub issue_number: u64,
    /// The workflow phase being run.
    pub phase: String,
    /// Which of several concurrent processes of one phase this is.
    pub sub_id: Option<String>,
}

/// The contents of a [`SpawnKey`].
pub struct SpawnKeyView {
    pub project: Seq<char>,
    pub issue_number: u64,
    pub phase: Seq<char>,
    pub sub_id: Option<Seq<char>>,
}

impl View for SpawnKey {
    type V = SpawnKeyView;

    open spec fn view(&self) -> SpawnKeyView {
        SpawnKeyView {
            project: self.project@,
            issue_number: self.issue_number,
            phase: self.phase@,
            sub_id: crate::text::text_view(self.sub_id),
        }
    }
}

impl Clone for SpawnKey {
    fn clone(&self) -> (copy: Self)
        ensures
            copy@ == self@,
    {
        let sub_id = match &self.sub_id {
            Some(sub_id) => Some(sub_id.clone()),
            None => None,
        };
        SpawnKey {
            project: self.project.clone(),
            issue_number: self.issue_number,
            phase: self.phase.clone(),
            sub_id,
        }
    }
}

/// Whether two keys name the same spawn.
fn same_key(a: &SpawnKey, b: &SpawnKey) -> (same: bool)
    ensures
        same == (a@ == b@),
{
    let same_sub_id = match (&a.sub_id, &b.sub_id) {
        (Some(a), Some(b)) => str_eq(a.as_str(), b.as_str()),
        (None, None) => true,
        _ => false,
    };
    a.issue_number == b.issue_number && same_sub_id && str_eq(
        a.project.as_str(),
        b.project.as_str(),
    ) && str_eq(a.phase.as_str(), b.phase.as_str())
}

/// One tracked phase process.
#[derive(Debug)]
pub struct LocalProcessEntry {
    /// The correlation token minted for this spawn.
    pub spawn_token: SpawnToken,
    /// The worktree this process was spawned into.
    pub worktree_cwd: String,
    /// When this process was spawned.
    pub spawned_at: Timestamp,
}

/// The contents of a [`LocalProcessEntry`].
pub struct LocalProcessEntryView {
    pub spawn_token: Seq<char>,
    pub worktree_cwd: Seq<char>,
    pub spawned_at: Timestamp,
}

impl View for LocalProcessEntry {
    type V = LocalProcessEntryView;

    open spec fn view(&self) -> LocalProcessEntryView {
        LocalProcessEntryView {
            spawn_token: self.spawn_token@,
            worktree_cwd: self.worktree_cwd@,
            spawned_at: self.spawned_at,
        }
    }
}

/// A process that [`ProcessSpawner::try_spawn`] has cleared for launch: the
/// program to run, its arguments, and the directory to run it in.
#[derive(Debug)]
pub struct Launch {
    /// What the process is for.
    pub key: SpawnKey,
    /// The token minted for it.
    pub spawn_token: SpawnToken,
    /// The program to execute.
    pub program: String,
    /// The arguments to execute it with.
    pub args: Vec<String>,
    /// The directory it runs in.
    pub worktree: String,
}

/// How a process ended: its exit code, or `None` where a signal ended it.
#[derive(Clone, Copy, Debug, Eq, PartialEq)]
pub struct ExitStatus {
    /// The exit code, if the process exited by itself.
    pub code: Option<i32>,
}

/// What polling a process without blocking showed.
#[derive(Clone, Copy, Debug, Eq, PartialEq)]
pub enum Poll {
    /// It is still running.
    Running,
    /// It has exited.
    Exited(ExitStatus),
    /// Its status could not be read.
    Unreadable,
}

/// How the process for `key` ended, going by the first poll of it. `None`
/// where it was not polled or is not known to have ended.
pub open spec fn exit_of(polls: Seq<(SpawnKey, Poll)>, key: SpawnKeyView) -> Option<ExitStatus>
    decreases polls.len(),
{
    if polls.len() == 0 {
        None
    } else if polls[0].0@ == key {
        match polls[0].1 {
            Poll::Exited(status) => Some(status),
            _ => None,
        }
    } else {
        exit_of(polls.skip(1), key)
    }
}

/// How the process for `key` ended.
fn find_exit(polls: &Vec<(SpawnKey, Poll)>, key: &SpawnKey) -> (status: Option<ExitStatus>)
    ensures
        status == exit_of(polls@, key@),
{
    let mut i: usize = 0;
    assert(polls@.skip(0) =~= polls@);
    while i < polls.len()
        invariant
            i <= polls@.len(),
            exit_of(polls@, key@) == exit_of(polls@.skip(i as int), key@),
        decreases polls@.len() - i,
    {
        assert(polls@.skip(i as int)[0] == polls@[i as int]);
        assert(polls@.skip(i as int).skip(1) =~= polls@.skip(i + 1));
        if same_key(&polls[i].0, key) {
            return match polls[i].1 {
                Poll::Exited(status) => Some(status),
                _ => None,
            };
        }
        i += 1;
    }
    None
}

/// What is left of the tracked processes once those that ended are reaped.
pub open spec fn still_tracked(
    live: Map<SpawnKeyView, LocalProcessEntryView>,
    polls: Seq<(SpawnKey, Poll)>,
) -> Map<SpawnKeyView, LocalProcessEntryView> {
    Map::new(
        |key: SpawnKeyView| live.contains_key(key) && exit_of(polls, key) is None,
        |key: SpawnKeyView| live[key],
    )
}

/// A spawned process stays tracked, so that its key is refused, through every
/// reaping that does not find it ended, and can be spawned again after one
/// that does.
pub proof fn refused_until_it_ends(
    live: Map<SpawnKeyView, LocalProcessEntryView>,
    key: SpawnKeyView,
    entry: LocalProcessEntryView,
    polls: Seq<(SpawnKey, Poll)>,
)
    ensures
        still_tracked(live.insert(key, entry), polls).contains_key(key) <==> exit_of(polls, key)
            is None,
{
}

/// Whether a spawn of `command` for `key` may go ahead beside what is live.
pub open spec fn clearance(
    live: Map<SpawnKeyView, LocalProcessEntryView>,
    key: SpawnKeyView,
    command: Seq<Seq<char>>,
) -> Result<(), SpawnErrorView> {
    if live.contains_key(key) {
        Err(SpawnErrorView::AlreadyRunning { key })
    } else if command.len() == 0 {
        Err(SpawnErrorView::EmptyCommand)
    } else {
        Ok(())
    }
}

/// What is tracked once a launch for `key` has been tried.
pub open spec fn tracked_after(
    live: Map<SpawnKeyView, LocalProcessEntryView>,
    key: SpawnKeyView,
    entry: LocalProcessEntryView,
    started: bool,
) -> Map<SpawnKeyView, LocalProcessEntryView> {
    if started {
        live.insert(key, entry)
    } else {
        live
    }
}

/// The keys of reaped processes with how they ended.
pub open spec fn reaped_view(reaped: Seq<(SpawnKey, ExitStatus)>) -> Seq<
    (SpawnKeyView, ExitStatus),
> {
    reaped.map_values(|r: (SpawnKey, ExitStatus)| (r.0@, r.1))
}

/// Whether one of `entries` has the key.
spec fn has_key(entries: Seq<(SpawnKey, LocalProcessEntry)>, key: SpawnKeyView) -> bool {
    exists|i: int| 0 <= i < entries.len() && (#[trigger] entries[i]).0@ == key
}

/// The entry that has the key.
spec fn entry_at(
    entries: Seq<(SpawnKey, LocalProcessEntry)>,
    key: SpawnKeyView,
) -> LocalProcessEntryView {
    entries[choose|i: int| 0 <= i < entries.len() && (#[trigger] entries[i]).0@ == key].1@
}

/// Whether no two entries have the same key.
spec fn distinct_keys(entries: Seq<(SpawnKey, LocalProcessEntry)>) -> bool {
    forall|i: int, j: int|
        0 <= i < j < entries.len() ==> (#[trigger] entries[i]).0@ != (#[trigger] entries[j]).0@
}

/// Entries with distinct keys, as a map.
spec fn entries_map(entries: Seq<(SpawnKey, LocalProcessEntry)>) -> Map<
    SpawnKeyView,
    LocalProcessEntryView,
> {
    Map::new(|key: SpawnKeyView| has_key(entries, key), |key| entry_at(entries, key))
}

/// Each entry is what the map holds for its key.
proof fn entry_is_in_map(entries: Seq<(SpawnKey, LocalProcessEntry)>, at: int)
    requires
        distinct_keys(entries),
        0 <= at < entries.len(),
    ensures
        entries_map(entries).contains_key(entries[at].0@),
        entries_map(entries)[entries[at].0@] == entries[at].1@,
{
    let key = entries[at].0@;
    assert(has_key(entries, key));
    let chosen = choose|i: int| 0 <= i < entries.len() && (#[trigger] entries[i]).0@ == key;
    assert(chosen == at) by {
        if chosen < at {
            assert(entries[chosen].0@ != entries[at].0@);
        }
        if at < chosen {
            assert(entries[at].0@ != entries[chosen].0@);
        }
    }
}

/// The live process map: every phase process that was spawned and not yet
/// reaped. No key is ever tracked twice.
#[derive(Debug)]
pub struct ProcessSpawner {
    processes: Vec<(SpawnKey, LocalProcessEntry)>,
}

impl View for ProcessSpawner {
    type V = Map<SpawnKeyView, LocalProcessEntryView>;

    closed spec fn view(&self) -> Map<SpawnKeyView, LocalProcessEntryView> {
        entries_map(self.processes@)
    }
}

impl Default for ProcessSpawner {
    fn default() -> (spawner: ProcessSpawner)
        ensures
            spawner@ == Map::<SpawnKeyView, LocalProcessEntryView>::empty(),
    {
        ProcessSpawner::new()
    }
}

impl ProcessSpawner {
    #[verifier::type_invariant]
    spec fn tracks_each_key_once(self) -> bool {
        distinct_keys(self.processes@)
    }

    /// A spawner that tracks nothing.
    pub fn new() -> (spawner: ProcessSpawner)
        ensures
            spawner@ == Map::<SpawnKeyView, LocalProcessEntryView>::empty(),
    {
        let spawner = ProcessSpawner { processes: Vec::new() };
        assert(spawner@ =~= Map::<SpawnKeyView, LocalProcessEntryView>::empty());
        spawner
    }

    /// Where `key` is tracked.
    fn position(&self, key: &SpawnKey) -> (found: Option<usize>)
        ensures
            match found {
                Some(found) => {
                    &&& found < self.processes@.len()
                    &&& self.processes@[found as int].0@ == key@
                },
                None => !has_key(self.processes@, key@),
            },
    {
        let mut i: usize = 0;
        while i < self.processes.len()
            invariant
                i <= self.processes@.len(),
                forall|k: int| 0 <= k < i ==> (#[trigger] self.processes@[k]).0@ != key@,
            decreases self.processes@.len() - i,
        {
            if same_key(&self.processes[i].0, key) {
                return Some(i);
            }
            i += 1;
        }
        None
    }

    /// Clears a spawn of `harness` for `key` in `worktree`, with `prompt` as
    /// its instruction: says what to launch, or why nothing may be launched.
    ///
    /// A key that still has a tracked process is refused, whatever else holds.
    /// Report what came of the launch with [`ProcessSpawner::finish_spawn`].
    pub fn try_spawn(
        &self,
        key: SpawnKey,
        harness: &HarnessConfig,
        prompt: &str,
        spawn_token: SpawnToken,
        worktree: &str,
    ) -> (launch: Result<Launch, SpawnError>)
        ensures
            clearance(self@, key@, harness@) == match launch {
                Ok(_) => Ok::<(), SpawnErrorView>(()),
                Err(error) => Err::<(), SpawnErrorView>(error@),
            },
            match launch {
                Ok(launch) => {
                    &&& !self@.contains_key(key@)
                    &&& harness@.len() > 0
                    &&& launch.key@ == key@
                    &&& launch.spawn_token@ == spawn_token@
                    &&& launch.worktree@ == worktree@
                    &&& seq![launch.program@] + crate::text::texts(launch.args@)
                        == template::spawn_argv(harness@, prompt@, spawn_token@, worktree@)
                },
                Err(error) => error@ == if self@.contains_key(key@) {
                    SpawnErrorView::AlreadyRunning { key: key@ }
                } else {
                    SpawnErrorView::EmptyCommand
                } && (self@.contains_key(key@) || harness@.len() == 0),
            },
    {
        if self.is_running(&key) {
            return Err(SpawnError::AlreadyRunning { key });
        }
        let mut args = match interpolate_command(harness, prompt, &spawn_token, worktree) {
            Ok(args) => args,
            Err(error) => return Err(error),
        };
        let ghost argv = args@;
        proof {
            assert(crate::text::texts(argv).len() == argv.len());
        }
        let program = args.remove(0);
        assert(seq![program@] + crate::text::texts(args@) =~= crate::text::texts(argv));
        Ok(Launch { key, spawn_token, program, args, worktree: worktree.to_string() })
    }

    /// Records what came of a launch: a process that started is tracked from
    /// now on; one that did not leaves no trace.
    pub fn finish_spawn(
        &mut self,
        launch: Launch,
        spawned_at: Timestamp,
        outcome: Result<(), IoError>,
    ) -> (token: Result<SpawnToken, SpawnError>)
        requires
            !old(self)@.contains_key(launch.key@),
        ensures
            final(self)@ == tracked_after(
                old(self)@,
                launch.key@,
                LocalProcessEntryView {
                    spawn_token: launch.spawn_token@,
                    worktree_cwd: launch.worktree@,
                    spawned_at,
                },
                outcome is Ok,
            ),
            match outcome {
                Ok(_) => {
                    &&& token is Ok
                    &&& token->Ok_0@ == launch.spawn_token@
                    &&& final(self)@ == old(self)@.insert(
                        launch.key@,
                        LocalProcessEntryView {
                            spawn_token: launch.spawn_token@,
                            worktree_cwd: launch.worktree@,
                            spawned_at,
                        },
                    )
                },
                Err(source) => {
                    &&& token is Err
                    &&& token->Err_0@ == (SpawnErrorView::Spawn {
                        program: launch.program@,
                        source: source@,
                    })
                    &&& final(self)@ == old(self)@
                },
            },
    {
        match outcome {
            Err(source) => Err(SpawnError::Spawn { program: launch.program, source }),
            Ok(_) => {
                proof {
                    use_type_invariant(&*self);
                }
                let ghost before = self.processes@;
                let ghost key = launch.key@;
                let spawn_token = launch.spawn_token.clone();
                let entry = LocalProcessEntry {
                    spawn_token: launch.spawn_token,
                    worktree_cwd: launch.worktree,
                    spawned_at,
                };
                let ghost entry_view = entry@;
                let mut processes: Vec<(SpawnKey, LocalProcessEntry)> = Vec::new();
                std::mem::swap(&mut processes, &mut self.processes);
                processes.push((launch.key, entry));
                proof {
                    assert forall|i: int, j: int| 0 <= i < j < processes@.len() implies (
                    #[trigger] processes@[i]).0@ != (#[trigger] processes@[j]).0@ by {
                        if j == before.len() {
                            assert(has_key(before, before[i].0@));
                        }
                    }
                    assert(processes@.take(before.len() as int) =~= before);
                    spawn_extends_map(before, processes@, key, entry_view);
                }
                self.processes = processes;
                Ok(spawn_token)
            },
        }
    }

    /// Takes the outcome of polling the tracked processes: stops tracking
    /// every one that has exited, and returns those with how they ended.
    ///
    /// A process that still runs, whose status could not be read, or that was
    /// not polled stays tracked.
    pub fn reap_finished(&mut self, polls: &Vec<(SpawnKey, Poll)>) -> (finished: Vec<
        (SpawnKey, ExitStatus),
    >)
        ensures
            final(self)@ == still_tracked(old(self)@, polls@),
            forall|key: SpawnKeyView, status: ExitStatus| #[trigger]
                reaped_view(finished@).contains((key, status)) <==> old(self)@.contains_key(key)
                    && exit_of(polls@, key) == Some(status),
            reaped_view(finished@).no_duplicates(),
    {
        proof {
            use_type_invariant(&*self);
        }
        let ghost all = self.processes@;
        let mut processes: Vec<(SpawnKey, LocalProcessEntry)> = Vec::new();
        std::mem::swap(&mut processes, &mut self.processes);
        let mut kept: Vec<(SpawnKey, LocalProcessEntry)> = Vec::new();
        let mut finished: Vec<(SpawnKey, ExitStatus)> = Vec::new();
        assert(all.take(all.len() as int) =~= all);
        while processes.len() > 0
            invariant
                distinct_keys(all),
                processes@.len() <= all.len(),
                processes@ == all.take(processes@.len() as int),
                distinct_keys(kept@),
                forall|m: int|
                    0 <= m < kept@.len() ==> runs_from(
                        all,
                        processes@.len() as int,
                        polls@,
                        #[trigger] kept@[m],
                    ),
                forall|j: int|
                    processes@.len() <= j < all.len() && exit_of(polls@, (#[trigger] all[j]).0@)
                        is None ==> kept@.contains(all[j]),
                forall|m: int|
                    0 <= m < finished@.len() ==> ended_from(
                        all,
                        processes@.len() as int,
                        polls@,
                        #[trigger] finished@[m],
                    ),
                forall|j: int|
                    processes@.len() <= j < all.len() ==> match exit_of(
                        polls@,
                        (#[trigger] all[j]).0@,
                    ) {
                        Some(status) => reaped_view(finished@).contains((all[j].0@, status)),
                        None => true,
                    },
                forall|m: int, n: int|
                    0 <= m < n < finished@.len() ==> (#[trigger] finished@[m]).0@ != (
                    #[trigger] finished@[n]).0@,
            decreases processes@.len(),
        {
            let ghost at = processes@.len() - 1;
            let ghost kept_before = kept@;
            let ghost finished_before = finished@;
            let entry = processes.pop().unwrap();
            proof {
                assert(entry == all[at]);
                assert(processes@ =~= all.take(at));
                assert forall|m: int| 0 <= m < kept@.len() implies runs_from(
                    all,
                    at,
                    polls@,
                    #[trigger] kept@[m],
                ) && kept@[m].0@ != entry.0@ by {
                    assert(runs_from(all, at + 1, polls@, kept@[m]));
                }
                assert forall|m: int| 0 <= m < finished@.len() implies ended_from(
                    all,
                    at,
                    polls@,
                    #[trigger] finished@[m],
                ) && finished@[m].0@ != entry.0@ by {
                    assert(ended_from(all, at + 1, polls@, finished@[m]));
                }
            }
            match find_exit(polls, &entry.0) {
                Some(status) => {
                    finished.push((entry.0, status));
                    proof {
                        assert(reaped_view(finished@) =~= reaped_view(finished_before).push(
                            (all[at].0@, status),
                        ));
                        assert(reaped_view(finished@)[finished_before.len() as int] == (
                            all[at].0@,
                            status,
                        ));
                        assert forall|j: int| processes@.len() <= j < all.len() implies match exit_of(
                            polls@,
                            (#[trigger] all[j]).0@,
                        ) {
                            Some(status) => reaped_view(finished@).contains((all[j].0@, status)),
                            None => true,
                        } by {
                            if j > at && exit_of(polls@, all[j].0@) is Some {
                                let item = (all[j].0@, exit_of(polls@, all[j].0@)->0);
                                let k = reaped_view(finished_before).index_of(item);
                                assert(reaped_view(finished_before).contains(item));
                                assert(reaped_view(finished@)[k] == item);
                            }
                        }
                    }
                },
                None => {
                    kept.push(entry);
                    proof {
                        assert(kept@[kept_before.len() as int] == all[at]);
                        assert forall|j: int|
                            processes@.len() <= j < all.len() && exit_of(
                                polls@,
                                (#[trigger] all[j]).0@,
                            ) is None implies kept@.contains(all[j]) by {
                            if j > at {
                                assert(kept_before.contains(all[j]));
                                let k = kept_before.index_of(all[j]);
                                assert(kept@[k] == all[j]);
                            }
                        }
                    }
                },
            }
        }
        proof {
            reaping_shrinks_map(all, kept@, polls@);
            assert forall|key: SpawnKeyView, status: ExitStatus| #[trigger]
                reaped_view(finished@).contains((key, status)) <==> has_key(all, key) && exit_of(
                    polls@,
                    key,
                ) == Some(status) by {
                if reaped_view(finished@).contains((key, status)) {
                    let m = reaped_view(finished@).index_of((key, status));
                    assert(ended_from(all, 0, polls@, finished@[m]));
                }
                if has_key(all, key) && exit_of(polls@, key) == Some(status) {
                    let j = choose|j: int|
                        0 <= j < all.len() && (#[trigger] all[j]).0@ == key;
                    assert(all[j].0@ == key);
                }
            }
            assert forall|m: int, n: int|
                0 <= m < reaped_view(finished@).len() && 0 <= n < reaped_view(finished@).len() && m
                    != n implies reaped_view(finished@)[m] != reaped_view(finished@)[n] by {
                if m < n {
                    assert(finished@[m].0@ != finished@[n].0@);
                } else {
                    assert(finished@[n].0@ != finished@[m].0@);
                }
            }
        }
        self.processes = kept;
        finished
    }

    /// The tracked entry for `key`, if it has a live, unreaped process.
    pub fn get(&self, key: &SpawnKey) -> (entry: Option<&LocalProcessEntry>)
        ensures
            match entry {
                Some(entry) => self@.contains_key(key@) && entry@ == self@[key@],
                None => !self@.contains_key(key@),
            },
    {
        proof {
            use_type_invariant(self);
        }
        match self.position(key) {
            Some(at) => {
                proof {
                    entry_is_in_map(self.processes@, at as int);
                }
                Some(&self.processes[at].1)
            },
            None => None,
        }
    }

    /// Whether `key` has a live, unreaped process tracked.
    pub fn is_running(&self, key: &SpawnKey) -> (running: bool)
        ensures
            running == self@.contains_key(key@),
    {
        match self.position(key) {
            Some(_) => true,
            None => false,
        }
    }

    /// How many live, unreaped processes are tracked.
    pub fn len(&self) -> (len: usize)
        ensures
            self@.dom().finite(),
            len == self@.dom().len(),
    {
        proof {
            use_type_invariant(self);
            map_has_every_entry(self.processes@);
        }
        self.processes.len()
    }

    /// Whether no process is tracked.
    pub fn is_empty(&self) -> (empty: bool)
        ensures
            empty == (self@ == Map::<SpawnKeyView, LocalProcessEntryView>::empty()),
    {
        proof {
            if self.processes@.len() == 0 {
                assert(self@ =~= Map::<SpawnKeyView, LocalProcessEntryView>::empty());
            } else {
                assert(has_key(self.processes@, self.processes@[0].0@));
                assert(self@.contains_key(self.processes@[0].0@));
            }
        }
        self.processes.len() == 0
    }
}

/// A spawned process is one more entry of the map.
proof fn spawn_extends_map(
    before: Seq<(SpawnKey, LocalProcessEntry)>,
    after: Seq<(SpawnKey, LocalProcessEntry)>,
    key: SpawnKeyView,
    entry: LocalProcessEntryView,
)
    requires
        distinct_keys(after),
        after.len() == before.len() + 1,
        after.take(before.len() as int) == before,
        after.last().0@ == key,
        after.last().1@ == entry,
    ensures
        entries_map(after) == entries_map(before).insert(key, entry),
{
    assert(forall|i: int| 0 <= i < before.len() ==> before[i] == #[trigger] after[i]) by {
        assert forall|i: int| 0 <= i < before.len() implies before[i] == #[trigger] after[i] by {
            assert(after.take(before.len() as int)[i] == after[i]);
        }
    }
    assert(distinct_keys(before));
    let wanted = entries_map(before).insert(key, entry);
    assert forall|k: SpawnKeyView| #[trigger]
        entries_map(after).contains_key(k) <==> wanted.contains_key(k) by {
        if has_key(after, k) && k != key {
            let i = choose|i: int| 0 <= i < after.len() && (#[trigger] after[i]).0@ == k;
            assert(before[i].0@ == k);
        }
        if has_key(before, k) {
            let i = choose|i: int| 0 <= i < before.len() && (#[trigger] before[i]).0@ == k;
            assert(after[i].0@ == k);
        }
        if k == key {
            assert(after[before.len() as int].0@ == k);
        }
    }
    assert forall|k: SpawnKeyView| #[trigger] entries_map(after).contains_key(k) implies entries_map(
        after,
    )[k] == wanted[k] by {
        let i = choose|i: int| 0 <= i < after.len() && (#[trigger] after[i]).0@ == k;
        entry_is_in_map(after, i);
        if k == key {
            entry_is_in_map(after, before.len() as int);
        } else {
            entry_is_in_map(before, i);
        }
    }
    assert(entries_map(after) =~= wanted);
}

/// Whether `entry` is one of `all` from `from` on and is not known to have
/// ended.
spec fn runs_from(
    all: Seq<(SpawnKey, LocalProcessEntry)>,
    from: int,
    polls: Seq<(SpawnKey, Poll)>,
    entry: (SpawnKey, LocalProcessEntry),
) -> bool {
    &&& exit_of(polls, entry.0@) is None
    &&& exists|j: int| from <= j < all.len() && #[trigger] all[j] == entry
}

/// Whether the key of `ended` is that of one of `all` from `from` on, which
/// ended as `ended` says.
spec fn ended_from(
    all: Seq<(SpawnKey, LocalProcessEntry)>,
    from: int,
    polls: Seq<(SpawnKey, Poll)>,
    ended: (SpawnKey, ExitStatus),
) -> bool {
    &&& exit_of(polls, ended.0@) == Some(ended.1)
    &&& exists|j: int| from <= j < all.len() && (#[trigger] all[j]).0@ == ended.0@
}

/// Reaping leaves the map with what has not ended.
proof fn reaping_shrinks_map(
    all: Seq<(SpawnKey, LocalProcessEntry)>,
    kept: Seq<(SpawnKey, LocalProcessEntry)>,
    polls: Seq<(SpawnKey, Poll)>,
)
    requires
        distinct_keys(all),
        distinct_keys(kept),
        forall|m: int| 0 <= m < kept.len() ==> runs_from(all, 0, polls, #[trigger] kept[m]),
        forall|j: int|
            0 <= j < all.len() && exit_of(polls, (#[trigger] all[j]).0@) is None ==> kept.contains(
                all[j],
            ),
    ensures
        entries_map(kept) == still_tracked(entries_map(all), polls),
{
    assert forall|key: SpawnKeyView| #[trigger]
        entries_map(kept).contains_key(key) implies entries_map(all).contains_key(key) && exit_of(
        polls,
        key,
    ) is None && entries_map(kept)[key] == entries_map(all)[key] by {
        let m = choose|m: int| 0 <= m < kept.len() && (#[trigger] kept[m]).0@ == key;
        entry_is_in_map(kept, m);
        assert(runs_from(all, 0, polls, kept[m]));
        let j = choose|j: int| 0 <= j < all.len() && #[trigger] all[j] == kept[m];
        entry_is_in_map(all, j);
    }
    assert forall|key: SpawnKeyView|
        entries_map(all).contains_key(key) && exit_of(polls, key) is None implies #[trigger] entries_map(
    kept).contains_key(key) by {
        let j = choose|j: int| 0 <= j < all.len() && (#[trigger] all[j]).0@ == key;
        assert(kept.contains(all[j]));
        let m = kept.index_of(all[j]);
        entry_is_in_map(kept, m);
    }
    assert(entries_map(kept) =~= still_tracked(entries_map(all), polls));
}

/// The map has as many keys as there are entries.
proof fn map_has_every_entry(entries: Seq<(SpawnKey, LocalProcessEntry)>)
    requires
        distinct_keys(entries),
    ensures
        entries_map(entries).dom().finite(),
        entries_map(entries).dom().len() == entries.len(),
    decreases entries.len(),
{
    if entries.len() == 0 {
        assert(entries_map(entries).dom() =~= Set::<SpawnKeyView>::empty());
    } else {
        let before = entries.drop_last();
        assert forall|i: int, j: int| 0 <= i < j < before.len() implies (#[trigger] before[i]).0@
            != (#[trigger] before[j]).0@ by {
            assert(entries[i].0@ != entries[j].0@);
        }
        map_has_every_entry(before);
        let (key, entry) = entries.last();
        assert(entries.take(before.len() as int) =~= before);
        spawn_extends_map(before, entries, key@, entry@);
        assert(!has_key(before, key@)) by {
            if has_key(before, key@) {
                let i = choose|i: int| 0 <= i < before.len() && (#[trigger] before[i]).0@ == key@;
                assert(entries[i].0@ != entries[entries.len() - 1].0@);
            }
        }
        assert(entries_map(entries).dom() =~= entries_map(before).dom().insert(key@));
    }
}

/// A process is known to have ended by the first poll of it, and only where that
/// poll found it exited; polls of other processes do not count.
pub proof fn the_first_poll_of_a_process_decides(
    polled: SpawnKey,
    poll: Poll,
    rest: Seq<(SpawnKey, Poll)>,
    key: SpawnKeyView,
    status: ExitStatus,
)
    ensures
        polled@ == key ==> (exit_of(seq![(polled, poll)] + rest, key) == Some(status) <==> poll
            == Poll::Exited(status)),
        polled@ == key && !(poll is Exited) ==> exit_of(seq![(polled, poll)] + rest, key) is None,
        polled@ != key ==> exit_of(seq![(polled, poll)] + rest, key) == exit_of(rest, key),
        exit_of(Seq::empty(), key) is None,
{
    let polls = seq![(polled, poll)] + rest;
    assert(polls[0] == (polled, poll));
    assert(polls.skip(1) =~= rest);
}

/// Reaping drops the process that exited and no other; one that still runs, or
/// whose status cannot be read, stays as it is.
pub proof fn only_exited_processes_are_dropped(
    live: Map<SpawnKeyView, LocalProcessEntryView>,
    polled: SpawnKey,
    poll: Poll,
)
    ensures
        poll is Exited ==> still_tracked(live, seq![(polled, poll)]) == live.remove(polled@),
        poll is Running || poll is Unreadable ==> still_tracked(live, seq![(polled, poll)]) == live,
        still_tracked(live, Seq::empty()) == live,
{
    let polls = seq![(polled, poll)];
    assert(polls =~= polls + Seq::empty());
    assert forall|key: SpawnKeyView| (#[trigger] exit_of(polls, key)) is Some <==> key == polled@
        && poll is Exited by {
        the_first_poll_of_a_process_decides(
            polled,
            poll,
            Seq::empty(),
            key,
            poll->Exited_0,
        );
    }
    if poll is Exited {
        assert(still_tracked(live, polls) =~= live.remove(polled@));
    } else {
        assert(still_tracked(live, polls) =~= live);
    }
    assert(still_tracked(live, Seq::empty()) =~= live);
}

/// A token is the process id, the time and the counter in hexadecimal, joined by
/// dashes.
pub proof fn tokens_read_in_hexadecimal(pid: u32, nanos: u128, counter: u64)
    ensures
        crate::text::pieces(token_text(pid, nanos, counter), '-') == seq![
            crate::numbers::digits(pid as nat, 16),
            crate::numbers::digits(nanos as nat, 16),
            crate::numbers::digits(counter as nat, 16),
        ],
{
    reveal_strlit("-");
    let (a, b, c) = (
        crate::numbers::digits(pid as nat, 16),
        crate::numbers::digits(nanos as nat, 16),
        crate::numbers::digits(counter as nat, 16),
    );
    hex_has_no_dash(pid as nat);
    hex_has_no_dash(nanos as nat);
    hex_has_no_dash(counter as nat);
    crate::text::unmarked_text_is_one_piece(a, '-');
    crate::text::unmarked_text_is_one_piece(b, '-');
    crate::text::unmarked_text_is_one_piece(c, '-');
    let front = a.push('-') + b;
    crate::text::pieces_of_join(a, '-', b);
    crate::text::pieces_of_join(front, '-', c);
    assert(token_text(pid, nanos, counter) =~= front.push('-') + c);
    assert(crate::text::pieces(token_text(pid, nanos, counter), '-') =~= seq![a, b, c]);
}

/// A key is spawned again only once it is no longer tracked, whatever is to be
/// run; and nothing is run without a program. A launch that failed leaves the
/// way free for another.
pub proof fn a_key_is_spawned_once_at_a_time(
    live: Map<SpawnKeyView, LocalProcessEntryView>,
    key: SpawnKeyView,
    other: SpawnKeyView,
    entry: LocalProcessEntryView,
    program: Seq<char>,
    command: Seq<Seq<char>>,
)
    ensures
        clearance(tracked_after(live, key, entry, true), key, command) == Err::<
            (),
            SpawnErrorView,
        >(SpawnErrorView::AlreadyRunning { key }),
        clearance(live, key, command.push(program)) is Ok <==> !live.contains_key(key),
        !live.contains_key(key) ==> clearance(live, key, Seq::empty()) == Err::<(), SpawnErrorView>(
            SpawnErrorView::EmptyCommand,
        ),
        other != key ==> clearance(tracked_after(live, key, entry, true), other, command)
            == clearance(live, other, command),
        clearance(tracked_after(live, key, entry, false), other, command) == clearance(
            live,
            other,
            command,
        ),
        tracked_after(live, key, entry, true)[key] == entry,
{
}

} // verus!
