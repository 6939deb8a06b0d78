//! The daemon's connections: what each may do, and how its failures are
//! answered.
//!
//! A connection is bound to exactly one project, for its life. It is bound
//! when it registers, by the directory that its client is in; every other tool
//! acts on the project that it is bound to, and on no other.

pub mod logic;

use vstd::prelude::*;

use crate::config::{ListenAddr, ProjectConfig, ProjectConfigView, ProjectPointer};
use crate::failure::{IoError, IoErrorView};
use crate::server::logic::{ToolError, ToolErrorView};
use crate::text::str_eq;

verus! {

/// The HTTP path that the endpoint is mounted at.
pub const MCP_PATH: &'static str = "/mcp";

/// How many open issues one board reads.
pub const BOARD_ISSUE_LIMIT: u32 = 200;

/// Errors starting the daemon.
#[derive(Debug)]
#[non_exhaustive]
pub enum ServeError {
    /// The address to listen on is reachable from other machines. The daemon
    /// authenticates nobody, so it never listens on one.
    NonLoopbackListen {
        /// The rejected address.
        addr: ListenAddr,
    },
    /// The socket could not be bound.
    Bind {
        /// The address.
        addr: ListenAddr,
        /// The underlying I/O failure.
        source: IoError,
    },
    /// The HTTP server stopped with an error.
    Serve {
        /// The underlying I/O failure.
        source: IoError,
    },
}

/// The contents of a [`ServeError`].
pub enum ServeErrorView {
    NonLoopbackListen { addr: ListenAddr },
    Bind { addr: ListenAddr, source: IoErrorView },
    Serve { source: IoErrorView },
}

impl View for ServeError {
    type V = ServeErrorView;

    open spec fn view(&self) -> ServeErrorView {
        match *self {
            ServeError::NonLoopbackListen { addr } => ServeErrorView::NonLoopbackListen { addr },
            ServeError::Bind { addr, source } => ServeErrorView::Bind { addr, source: source@ },
            ServeError::Serve { source } => ServeErrorView::Serve { source: source@ },
        }
    }
}

/// What asking to listen on an address comes to.
pub open spec fn listening_on(addr: ListenAddr) -> Result<ListenAddr, ServeErrorView> {
    if crate::config::is_loopback_addr(addr) {
        Ok(addr)
    } else {
        Err(ServeErrorView::NonLoopbackListen { addr })
    }
}

/// Accepts an address to listen on only where it is a loopback address.
pub fn check_listen(addr: ListenAddr) -> (checked: Result<ListenAddr, ServeError>)
    ensures
        listening_on(addr) == match checked {
            Ok(accepted) => Ok::<ListenAddr, ServeErrorView>(accepted),
            Err(error) => Err::<ListenAddr, ServeErrorView>(error@),
        },
        match checked {
            Ok(accepted) => accepted == addr && crate::config::is_loopback_addr(addr),
            Err(error) => !crate::config::is_loopback_addr(addr) && error@
                == (ServeErrorView::NonLoopbackListen { addr }),
        },
{
    if addr.is_loopback() {
        Ok(addr)
    } else {
        Err(ServeError::NonLoopbackListen { addr })
    }
}

/// What a client registers with.
#[derive(Debug, Eq, PartialEq)]
pub struct RegisterArgs {
    /// The client's own name for itself.
    pub worker_ref: String,
    /// What the client does.
    pub role: String,
    /// The directory that the client is in.
    pub cwd: Option<String>,
    /// The token that the client was spawned with.
    pub spawn_token: Option<String>,
}

/// What a client is told when it has registered.
#[derive(Debug, Eq, PartialEq)]
pub struct RegisterResult {
    /// The project that the connection is bound to.
    pub project: String,
    /// Its repo slug.
    pub repo: String,
    /// Its directory.
    pub project_dir: String,
    /// The client's role, as it gave it.
    pub role: String,
    /// The client's name, as it gave it.
    pub worker_ref: String,
}

/// What a registration with a directory and a spawn token is resolved by.
pub open spec fn resolved_by(cwd: Option<Seq<char>>, spawn_token: Option<Seq<char>>) -> Result<
    Seq<char>,
    ToolErrorView,
> {
    match (spawn_token, cwd) {
        (Some(_), _) => Err(ToolErrorView::SpawnTokenUnsupported),
        (None, None) => Err(ToolErrorView::CwdRequired),
        (None, Some(cwd)) => Ok(cwd),
    }
}

/// The directory to resolve a registration by.
///
/// Registering by a spawn token is refused, not ignored: it would bind the
/// client to something other than what it asked for.
pub fn registration_cwd(args: &RegisterArgs) -> (cwd: Result<&str, ToolError>)
    ensures
        resolved_by(
            crate::text::text_view(args.cwd),
            crate::text::text_view(args.spawn_token),
        ) == match cwd {
            Ok(cwd) => Ok::<Seq<char>, ToolErrorView>(cwd@),
            Err(error) => Err::<Seq<char>, ToolErrorView>(error@),
        },
        match cwd {
            Ok(cwd) => args.spawn_token is None && args.cwd is Some && cwd@ == args.cwd->0@,
            Err(error) => if args.spawn_token is Some {
                error@ == ToolErrorView::SpawnTokenUnsupported
            } else {
                args.cwd is None && error@ == ToolErrorView::CwdRequired
            },
        },
{
    if let Some(_) = &args.spawn_token {
        return Err(ToolError::SpawnTokenUnsupported);
    }
    match &args.cwd {
        Some(cwd) => Ok(cwd.as_str()),
        None => Err(ToolError::CwdRequired),
    }
}

/// What one connection is bound to.
#[derive(Debug, Eq, PartialEq)]
pub struct BoundProject {
    /// The project handle.
    pub name: String,
    /// The project's settings, as they were when the connection was bound.
    pub config: ProjectConfig,
}

/// The contents of a [`BoundProject`].
pub struct BoundProjectView {
    pub name: Seq<char>,
    pub config: ProjectConfigView,
}

impl View for BoundProject {
    type V = BoundProjectView;

    open spec fn view(&self) -> BoundProjectView {
        BoundProjectView { name: self.name@, config: self.config@ }
    }
}

/// What a connection is bound to after a registration for `requested`.
pub open spec fn bound_after(
    bound: Option<BoundProjectView>,
    requested: BoundProjectView,
) -> Option<BoundProjectView> {
    match bound {
        Some(bound) => Some(bound),
        None => Some(requested),
    }
}

/// What a registration for `requested` is answered: the project that the
/// connection is bound to, as it was when it was bound.
pub open spec fn answer_to(
    bound: Option<BoundProjectView>,
    requested: BoundProjectView,
) -> Result<BoundProjectView, ToolErrorView> {
    match bound {
        None => Ok(requested),
        Some(bound) => if bound.name == requested.name {
            Ok(bound)
        } else {
            Err(ToolErrorView::AlreadyBound { bound: bound.name, requested: requested.name })
        },
    }
}

/// What a request for the board is answered: the project to read it for.
pub open spec fn board_of(bound: Option<BoundProjectView>, filtered: bool) -> Result<
    BoundProjectView,
    ToolErrorView,
> {
    if filtered {
        Err(ToolErrorView::BoardFilterUnsupported)
    } else {
        match bound {
            None => Err(ToolErrorView::NotRegistered),
            Some(bound) => Ok(bound),
        }
    }
}

/// What a connection is bound to after several registrations in turn.
pub open spec fn bound_after_all(
    bound: Option<BoundProjectView>,
    requests: Seq<BoundProjectView>,
) -> Option<BoundProjectView>
    decreases requests.len(),
{
    if requests.len() == 0 {
        bound
    } else {
        bound_after(bound_after_all(bound, requests.drop_last()), requests.last())
    }
}

/// One connection's state: the project that it is bound to, once it has
/// registered.
#[derive(Debug)]
pub struct Connection {
    bound: Option<BoundProject>,
}

impl View for Connection {
    type V = Option<BoundProjectView>;

    closed spec fn view(&self) -> Option<BoundProjectView> {
        match self.bound {
            Some(bound) => Some(bound@),
            None => None,
        }
    }
}

impl Connection {
    /// A fresh connection, bound to nothing.
    pub fn new() -> (connection: Connection)
        ensures
            connection@ is None,
    {
        Connection { bound: None }
    }

    /// Binds the connection to a project, and says what it is bound to.
    ///
    /// Registering again for the same project changes nothing, not even where
    /// its settings have changed since: the answer tells of the settings that
    /// the connection acts on. Registering for another project is refused.
    pub fn register(
        &mut self,
        args: &RegisterArgs,
        pointer: ProjectPointer,
        config: ProjectConfig,
    ) -> (result: Result<RegisterResult, ToolError>)
        ensures
            final(self)@ == bound_after(
                old(self)@,
                BoundProjectView { name: pointer.name@, config: config@ },
            ),
            match (
                answer_to(old(self)@, BoundProjectView { name: pointer.name@, config: config@ }),
                result,
            ) {
                (Ok(bound), Ok(told)) => told.project@ == bound.name && told.repo@
                    == bound.config.repo && told.project_dir@ == bound.config.project_dir,
                (Err(cause), Err(error)) => error@ == cause,
                _ => false,
            },
            match result {
                Ok(told) => {
                    &&& final(self)@->0.name == pointer.name@
                    &&& told.project@ == final(self)@->0.name
                    &&& told.repo@ == final(self)@->0.config.repo
                    &&& told.project_dir@ == final(self)@->0.config.project_dir
                    &&& told.role@ == args.role@
                    &&& told.worker_ref@ == args.worker_ref@
                },
                Err(error) => {
                    &&& final(self)@->0.name != pointer.name@
                    &&& error@ == (ToolErrorView::AlreadyBound {
                        bound: final(self)@->0.name,
                        requested: pointer.name@,
                    })
                },
            },
    {
        match &self.bound {
            Some(bound) => {
                if !str_eq(bound.name.as_str(), pointer.name.as_str()) {
                    return Err(
                        ToolError::AlreadyBound {
                            bound: bound.name.clone(),
                            requested: pointer.name,
                        },
                    );
                }
                Ok(told(bound, args))
            },
            None => {
                let bound = BoundProject { name: pointer.name, config };
                let answer = told(&bound, args);
                self.bound = Some(bound);
                Ok(answer)
            },
        }
    }

    /// The project that the connection is bound to.
    pub fn bound_project(&self) -> (bound: Result<&BoundProject, ToolError>)
        ensures
            match bound {
                Ok(bound) => self@ == Some(bound@),
                Err(error) => self@ is None && error@ == ToolErrorView::NotRegistered,
            },
    {
        match &self.bound {
            Some(bound) => Ok(bound),
            None => Err(ToolError::NotRegistered),
        }
    }

    /// The project to read a board for. A filter is refused, not ignored: an
    /// unfiltered board would be the wrong answer.
    pub fn board_project(&self, filtered: bool) -> (bound: Result<&BoundProject, ToolError>)
        ensures
            board_of(self@, filtered) == match bound {
                Ok(bound) => Ok::<BoundProjectView, ToolErrorView>(bound@),
                Err(error) => Err::<BoundProjectView, ToolErrorView>(error@),
            },
            match bound {
                Ok(bound) => !filtered && self@ == Some(bound@),
                Err(error) => if filtered {
                    error@ == ToolErrorView::BoardFilterUnsupported
                } else {
                    self@ is None && error@ == ToolErrorView::NotRegistered
                },
            },
    {
        if filtered {
            return Err(ToolError::BoardFilterUnsupported);
        }
        self.bound_project()
    }
}

/// What a client is told of the project that its connection is bound to.
fn told(bound: &BoundProject, args: &RegisterArgs) -> (answer: RegisterResult)
    ensures
        answer.project@ == bound.name@,
        answer.repo@ == bound.config.repo@,
        answer.project_dir@ == bound.config.project_dir@,
        answer.role@ == args.role@,
        answer.worker_ref@ == args.worker_ref@,
{
    RegisterResult {
        project: bound.name.clone(),
        repo: bound.config.repo.clone(),
        project_dir: bound.config.project_dir.clone(),
        role: args.role.clone(),
        worker_ref: args.worker_ref.clone(),
    }
}

/// A connection that is bound stays bound to the same project, with the same
/// settings, whatever it registers for later.
pub proof fn binding_never_changes(bound: BoundProjectView, requests: Seq<BoundProjectView>)
    ensures
        bound_after_all(Some(bound), requests) == Some(bound),
    decreases requests.len(),
{
    if requests.len() > 0 {
        binding_never_changes(bound, requests.drop_last());
    }
}

/// Whose problem a failure is.
#[derive(Clone, Copy, Debug, Eq, PartialEq, Structural)]
pub enum ErrorClass {
    /// An argument is malformed or not supported.
    InvalidParams,
    /// The connection was used out of order.
    InvalidRequest,
    /// Something underneath failed.
    Internal,
}

/// Whose problem a failure is.
pub open spec fn class_of(error: ToolErrorView) -> ErrorClass {
    match error {
        ToolErrorView::CwdRequired
        | ToolErrorView::CwdNotAbsolute { .. }
        | ToolErrorView::UnregisteredDirectory { .. }
        | ToolErrorView::SpawnTokenUnsupported
        | ToolErrorView::BoardFilterUnsupported
        | ToolErrorView::BacklogFilterUnsupported => ErrorClass::InvalidParams,
        ToolErrorView::NotRegistered
        | ToolErrorView::AlreadyBound { .. } => ErrorClass::InvalidRequest,
        ToolErrorView::ReadWorkflow { .. }
        | ToolErrorView::Workflow { .. }
        | ToolErrorView::Config(_)
        | ToolErrorView::Vcs(_)
        | ToolErrorView::Internal(_) => ErrorClass::Internal,
    }
}

/// Tells by whose problem it is how a failure is answered, so that a client
/// need not read the message to know.
pub fn classify(error: &ToolError) -> (class: ErrorClass)
    ensures
        class == class_of(error@),
{
    match error {
        ToolError::CwdRequired
        | ToolError::CwdNotAbsolute { .. }
        | ToolError::UnregisteredDirectory { .. }
        | ToolError::SpawnTokenUnsupported
        | ToolError::BoardFilterUnsupported
        | ToolError::BacklogFilterUnsupported => ErrorClass::InvalidParams,
        ToolError::NotRegistered | ToolError::AlreadyBound { .. } => ErrorClass::InvalidRequest,
        ToolError::ReadWorkflow { .. }
        | ToolError::Workflow { .. }
        | ToolError::Config(_)
        | ToolError::Vcs(_)
        | ToolError::Internal(_) => ErrorClass::Internal,
    }
}

/// The messages of an error and of everything under it, as one line.
pub open spec fn chain_text(messages: Seq<Seq<char>>) -> Seq<char>
    decreases messages.len(),
{
    if messages.len() == 0 {
        Seq::empty()
    } else if messages.len() == 1 {
        messages[0]
    } else {
        chain_text(messages.drop_last()) + ": "@ + messages.last()
    }
}

/// Renders the messages of an error and of every cause under it, outermost
/// first, as one line.
pub fn format_chain(messages: &Vec<String>) -> (line: String)
    ensures
        line@ == chain_text(crate::text::texts(messages@)),
{
    let ghost all = crate::text::texts(messages@);
    let mut line = String::new();
    let mut i: usize = 0;
    assert(line@ =~= chain_text(all.take(0)));
    while i < messages.len()
        invariant
            i <= messages@.len(),
            all == crate::text::texts(messages@),
            line@ == chain_text(all.take(i as int)),
        decreases messages@.len() - i,
    {
        proof {
            let longer = all.take(i + 1);
            assert(longer.drop_last() =~= all.take(i as int));
            assert(longer.last() == messages@[i as int]@);
        }
        if i > 0 {
            line.append(": ");
        }
        let ghost before = line@;
        line.append(messages[i].as_str());
        assert(i == 0 ==> line@ =~= messages@[0]@);
        i += 1;
    }
    assert(all.take(i as int) =~= all);
    line
}

/// No message is lost in the line: it holds each of them whole.
pub proof fn chain_keeps_every_message(messages: Seq<Seq<char>>, i: int)
    requires
        0 <= i < messages.len(),
    ensures
        exists|at: int|
            0 <= at <= chain_text(messages).len() - messages[i].len()
                && #[trigger] chain_text(messages).subrange(at, at + messages[i].len())
                == messages[i],
    decreases messages.len(),
{
    let line = chain_text(messages);
    if messages.len() == 1 {
        assert(line.subrange(0, 0 + line.len() as int) =~= messages[i]);
    } else if i == messages.len() - 1 {
        let at = line.len() - messages[i].len();
        assert(line.subrange(at, at + messages[i].len()) =~= messages[i]);
    } else {
        let rest = messages.drop_last();
        let front = chain_text(rest);
        chain_keeps_every_message(rest, i);
        let at = choose|at: int|
            0 <= at <= front.len() - rest[i].len() && #[trigger] front.subrange(
                at,
                at + rest[i].len(),
            ) == rest[i];
        assert(line.subrange(at, at + messages[i].len()) =~= front.subrange(
            at,
            at + rest[i].len(),
        ));
    }
}

/// The first registration of a connection binds it.
pub proof fn the_first_registration_binds(requests: Seq<BoundProjectView>)
    ensures
        requests.len() > 0 ==> bound_after_all(None, requests) == Some(requests[0]),
        requests.len() == 0 ==> bound_after_all(None, requests) is None,
    decreases requests.len(),
{
    if requests.len() > 0 {
        the_first_registration_binds(requests.drop_last());
    }
}

/// A client is to blame for its arguments and for the order of its requests;
/// what failed underneath is nobody's argument.
pub proof fn failures_are_told_apart(error: ToolErrorView)
    ensures
        class_of(error) is InvalidParams <==> error is CwdRequired || error is CwdNotAbsolute
            || error is UnregisteredDirectory || error is SpawnTokenUnsupported
            || error is BoardFilterUnsupported || error is BacklogFilterUnsupported,
        class_of(error) is InvalidRequest <==> error is NotRegistered || error is AlreadyBound,
        class_of(error) is Internal <==> error is ReadWorkflow || error is Workflow
            || error is Config || error is Vcs || error is Internal,
{
}

/// A chain reads from the outermost message to the innermost, with a colon and
/// a space between one and the next.
pub proof fn chains_read_outermost_first(
    outer: Seq<Seq<char>>,
    inner: Seq<Seq<char>>,
    message: Seq<char>,
)
    ensures
        chain_text(seq![message]) == message,
        outer.len() > 0 && inner.len() > 0 ==> chain_text(outer + inner) == chain_text(outer)
            + ": "@ + chain_text(inner),
    decreases inner.len(),
{
    if outer.len() > 0 && inner.len() > 0 {
        let all = outer + inner;
        let rest = inner.drop_last();
        assert(all.drop_last() =~= outer + rest);
        assert(all.last() == inner.last());
        if rest.len() == 0 {
            assert(outer + rest =~= outer);
        } else {
            chains_read_outermost_first(outer, rest, message);
            assert(chain_text(all) =~= chain_text(outer) + ": "@ + chain_text(inner));
        }
    }
}

/// The daemon listens on an address exactly where nobody but this machine
/// reaches it.
pub proof fn only_loopback_is_listened_on(octets: [u8; 4], addr: ListenAddr, port: u16)
    ensures
        octets@[0] == 127 ==> listening_on(ListenAddr::V4 { octets, port }) == Ok::<
            ListenAddr,
            ServeErrorView,
        >(ListenAddr::V4 { octets, port }),
        octets@[0] != 127 ==> listening_on(ListenAddr::V4 { octets, port }) == Err::<
            ListenAddr,
            ServeErrorView,
        >(ServeErrorView::NonLoopbackListen { addr: ListenAddr::V4 { octets, port } }),
        listening_on(addr) is Ok <==> crate::config::is_loopback_addr(addr),
        listening_on(addr) is Ok ==> listening_on(addr)->Ok_0 == addr,
{
}

/// A registration goes by the client's directory; one that brings a spawn token
/// is refused whatever else it brings, and one that brings neither is too.
pub proof fn registrations_go_by_directory(
    cwd: Seq<char>,
    token: Seq<char>,
    other: Option<Seq<char>>,
)
    ensures
        resolved_by(Some(cwd), None) == Ok::<Seq<char>, ToolErrorView>(cwd),
        resolved_by(other, Some(token)) == Err::<Seq<char>, ToolErrorView>(
            ToolErrorView::SpawnTokenUnsupported,
        ),
        resolved_by(None, None) == Err::<Seq<char>, ToolErrorView>(ToolErrorView::CwdRequired),
{
}

/// A registration for the project that a connection is bound to is answered as
/// the first one was, with the settings of then; one for another project is
/// refused, and names both.
pub proof fn answers_tell_of_the_first_binding(
    first: BoundProjectView,
    again: BoundProjectView,
)
    ensures
        answer_to(None, first) == Ok::<BoundProjectView, ToolErrorView>(first),
        again.name == first.name ==> answer_to(bound_after(None, first), again) == Ok::<
            BoundProjectView,
            ToolErrorView,
        >(first),
        again.name != first.name ==> answer_to(bound_after(None, first), again) == Err::<
            BoundProjectView,
            ToolErrorView,
        >(ToolErrorView::AlreadyBound { bound: first.name, requested: again.name }),
{
}

/// A board is read for the bound project, and only whole: a filter is refused
/// first, and then a connection that is bound to nothing.
pub proof fn boards_are_unfiltered(bound: BoundProjectView, other: Option<BoundProjectView>)
    ensures
        board_of(Some(bound), false) == Ok::<BoundProjectView, ToolErrorView>(bound),
        board_of(None, false) == Err::<BoundProjectView, ToolErrorView>(
            ToolErrorView::NotRegistered,
        ),
        board_of(other, true) == Err::<BoundProjectView, ToolErrorView>(
            ToolErrorView::BoardFilterUnsupported,
        ),
{
}

} // verus!
