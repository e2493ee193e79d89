//! The decisions of one remote run, as a state machine.
//!
//! A run connects, performs the handshake, authenticates with a key file,
//! checks that the session is authenticated, opens the command's channel and
//! its terminal, optionally bootstraps the process manager on a second
//! channel (draining its output and waiting for that channel to close),
//! executes the command, streams its cleaned output, waits for the command's
//! channel to close and reads the exit status.
//! The caller performs each `Action` and reports its outcome as an `Event`.
use vstd::prelude::*;
use crate::command::{
    base64_standard, install_command, install_invocation, pm2_command, pm2_invocation,
    INSTALL_SCRIPT,
};
use crate::host::{ConnectionTarget, RemoteError};
use crate::noise::{clean_chunk, lossy_text, sanitize};
use vstd::string::StringSliceAdditionalSpecFns;

verus! {

/// The terminal type requested for each channel.
pub const TERMINAL_TYPE: &'static str = "xterm";

/// How a run is configured.
#[derive(Clone, Copy, Debug, PartialEq, Eq, Structural)]
pub struct RunOptions {
    /// Whether the install script runs before the command.
    pub bootstrap: bool,
    /// Whether a non-zero exit status of the command fails the run; when
    /// off, the status is only reported.
    pub propagate_exit_status: bool,
}

/// Which of the two channels of a run an action concerns.
#[derive(Clone, Copy, Debug, PartialEq, Eq, Structural)]
pub enum Role {
    /// The channel that runs the install script.
    Setup,
    /// The channel that runs the requested command.
    Command,
}

/// What the run waits for.
#[derive(Clone, Copy, Debug, PartialEq, Eq, Structural)]
pub enum Stage {
    Connecting,
    Handshaking,
    Authenticating,
    CheckingAuth,
    OpeningChannel(Role),
    RequestingPty(Role),
    Executing(Role),
    Reading(Role),
    Printing(Role),
    ReportingReadError(Role),
    WaitingClose(Role),
    QueryingExitStatus,
    Succeeded(i32),
    Failed(RemoteError),
}

/// The outcome of the last action.
#[derive(Clone, Debug)]
pub enum Event {
    /// The action completed.
    Done,
    /// The action failed.
    Failed,
    /// Whether the session reports itself authenticated.
    Authenticated(bool),
    /// Bytes read from a channel; none means the end of the stream.
    Data(Vec<u8>),
    /// The channel has no more output.
    EndOfStream,
    /// Reading from the channel failed.
    ReadFailed,
    /// The remote command's exit status.
    ExitStatus(i32),
}

/// What the caller is to do next.
#[derive(Debug)]
pub enum Action {
    /// Open a transport connection to `host:port` and start a session on it.
    Connect { host: String, port: u32 },
    /// Perform the secure-shell handshake.
    Handshake,
    /// Authenticate with the private key file at `key_path`, no passphrase.
    AuthenticatePubkey { username: String, key_path: String },
    /// Ask the session whether it is authenticated.
    QueryAuthenticated,
    /// Open a new channel on the session.
    OpenChannel(Role),
    /// Request a pseudo-terminal of type `TERMINAL_TYPE` on the channel.
    RequestPty(Role),
    /// Execute the command line on the channel.
    Exec(Role, String),
    /// Read up to one buffer of bytes from the channel.
    Read(Role),
    /// Write the text to standard output at once.
    Print(String),
    /// Report on the error stream that reading from the channel failed.
    ReportReadError(Role),
    /// Wait until the channel is closed.
    WaitClose(Role),
    /// Read the command's exit status.
    QueryExitStatus,
    /// The run is over, with this result.
    Finish(Result<i32, RemoteError>),
}

/// What comes after the read loop of a channel.
pub open spec fn after_loop(r: Role) -> Stage {
    match r {
        Role::Setup => Stage::WaitingClose(Role::Setup),
        Role::Command => Stage::WaitingClose(Role::Command),
    }
}

/// What comes after an action of `s` that completed.
pub open spec fn after_done(s: Stage, opts: RunOptions) -> Stage {
    match s {
        Stage::Connecting => Stage::Handshaking,
        Stage::Handshaking => Stage::Authenticating,
        Stage::Authenticating => Stage::CheckingAuth,
        Stage::OpeningChannel(r) => Stage::RequestingPty(r),
        Stage::RequestingPty(Role::Command) => if opts.bootstrap {
            Stage::OpeningChannel(Role::Setup)
        } else {
            Stage::Executing(Role::Command)
        },
        Stage::RequestingPty(Role::Setup) => Stage::Executing(Role::Setup),
        Stage::Executing(r) => Stage::Reading(r),
        Stage::WaitingClose(Role::Setup) => Stage::Executing(Role::Command),
        Stage::WaitingClose(Role::Command) => Stage::QueryingExitStatus,
        _ => s,
    }
}

/// The error that a failed action of `s` ends the run with.
pub open spec fn failure_of(s: Stage) -> RemoteError {
    match s {
        Stage::Connecting => RemoteError::Connection,
        Stage::Handshaking => RemoteError::Handshake,
        Stage::Authenticating => RemoteError::Authentication,
        Stage::CheckingAuth => RemoteError::Authentication,
        _ => RemoteError::Channel,
    }
}

pub open spec fn is_finished(s: Stage) -> bool {
    s is Succeeded || s is Failed
}

/// The stage that follows `s` on event `e`.
pub open spec fn next_stage(s: Stage, e: Event, opts: RunOptions) -> Stage {
    match s {
        Stage::Succeeded(_) | Stage::Failed(_) => s,
        Stage::CheckingAuth => match e {
            Event::Authenticated(true) => Stage::OpeningChannel(Role::Command),
            _ => Stage::Failed(RemoteError::Authentication),
        },
        Stage::Reading(r) => match e {
            Event::Data(b) => if b@.len() == 0 {
                after_loop(r)
            } else {
                Stage::Printing(r)
            },
            Event::EndOfStream => after_loop(r),
            _ => Stage::ReportingReadError(r),
        },
        Stage::Printing(r) => Stage::Reading(r),
        Stage::ReportingReadError(r) => after_loop(r),
        Stage::QueryingExitStatus => match e {
            Event::ExitStatus(n) => if opts.propagate_exit_status && n != 0 {
                Stage::Failed(RemoteError::RemoteExit(n))
            } else {
                Stage::Succeeded(n)
            },
            _ => Stage::Failed(RemoteError::Channel),
        },
        _ => match e {
            Event::Done => after_done(s, opts),
            _ => Stage::Failed(failure_of(s)),
        },
    }
}

/// The stage reached from `s` after the events `es`, in order.
pub open spec fn run_events(s: Stage, es: Seq<Event>, opts: RunOptions) -> Stage
    decreases es.len(),
{
    if es.len() == 0 {
        s
    } else {
        run_events(next_stage(s, es[0], opts), es.skip(1), opts)
    }
}

/// `path` is one that tilde expansion may rewrite: `~` alone, `~/...`, or
/// (where `\` separates paths) `~\...`.
pub open spec fn expands_tilde(path: Seq<char>) -> bool {
    path.len() > 0 && path[0] == '~' && (path.len() == 1 || path[1] == '/' || path[1] == '\\')
}

/// Relies on `shellexpand::tilde`: a path that does not start with `~`,
/// `~/` or `~\` comes back unchanged; one that does comes back with the `~`
/// replaced by the home directory, or unchanged (where there is no home
/// directory, or `~\` on a system that does not expand it), so that in every
/// case what followed the `~` ends the result.
#[verifier::external_body]
fn expand_home(path: &str) -> (r: String)
    ensures
        !expands_tilde(path@) ==> r@ == path@,
        expands_tilde(path@) ==> r@.len() >= path@.len() - 1 && r@.skip(
            r@.len() - (path@.len() - 1),
        ) == path@.skip(1),
{
    shellexpand::tilde(path).to_string()
}

/// One remote run: what it connects to, what it executes, and where it is.
pub struct Runner {
    pub target: ConnectionTarget,
    /// The key file's path, after tilde expansion.
    pub key_path: String,
    /// The command line of the requested command.
    pub command: String,
    /// The command line of the install script.
    pub setup_command: String,
    pub options: RunOptions,
    pub stage: Stage,
    /// The cleaned text of the last chunk read.
    pub output: String,
}

/// `a` is the action that a run in state `r` asks for.
pub open spec fn action_for(r: Runner, a: Action) -> bool {
    match r.stage {
        Stage::Connecting => match a {
            Action::Connect { host, port } => host@ == r.target.host@ && port == r.target.port,
            _ => false,
        },
        Stage::Handshaking => a is Handshake,
        Stage::Authenticating => match a {
            Action::AuthenticatePubkey { username, key_path } => username@
                == r.target.username@ && key_path@ == r.key_path@,
            _ => false,
        },
        Stage::CheckingAuth => a is QueryAuthenticated,
        Stage::OpeningChannel(role) => a == Action::OpenChannel(role),
        Stage::RequestingPty(role) => a == Action::RequestPty(role),
        Stage::Executing(role) => match a {
            Action::Exec(x, line) => x == role && line@ == (match role {
                Role::Setup => r.setup_command@,
                Role::Command => r.command@,
            }),
            _ => false,
        },
        Stage::Reading(role) => a == Action::Read(role),
        Stage::Printing(_) => match a {
            Action::Print(text) => text@ == r.output@,
            _ => false,
        },
        Stage::ReportingReadError(role) => a == Action::ReportReadError(role),
        Stage::WaitingClose(role) => a == Action::WaitClose(role),
        Stage::QueryingExitStatus => a is QueryExitStatus,
        Stage::Succeeded(n) => a == Action::Finish(Ok(n)),
        Stage::Failed(e) => a == Action::Finish(Err(e)),
    }
}

impl Runner {
    /// A run that has not started yet.
    pub fn new(target: ConnectionTarget, key: &str, cmd: &str, args: &[String], options: RunOptions) -> (r:
        Runner)
        ensures
            r.target == target,
            !expands_tilde(key@) ==> r.key_path@ == key@,
            expands_tilde(key@) ==> r.key_path@.len() >= key@.len() - 1 && r.key_path@.skip(
                r.key_path@.len() - (key@.len() - 1),
            ) == key@.skip(1),
            r.command@ == pm2_invocation(cmd@, args@),
            r.setup_command@ == install_invocation(base64_standard(INSTALL_SCRIPT.spec_bytes())),
            r.options == options,
            r.stage == Stage::Connecting,
            r.output@.len() == 0,
    {
        Runner {
            target,
            key_path: expand_home(key),
            command: pm2_command(cmd, args),
            setup_command: install_command(),
            options,
            stage: Stage::Connecting,
            output: String::new(),
        }
    }

    /// A run for the `user@host` specifier `spec`; fails with
    /// `InvalidHostFormat`, before any network activity, when the specifier
    /// does not split on `@` into two non-empty parts.
    pub fn start(spec: &str, port: u32, key: &str, cmd: &str, args: &[String], options: RunOptions) -> (r:
        Result<Runner, RemoteError>)
        ensures
            r is Ok <==> crate::host::well_formed_spec(spec@),
            r is Err ==> r == Err::<Runner, RemoteError>(RemoteError::InvalidHostFormat),
            r matches Ok(run) ==> {
                &&& run.stage == Stage::Connecting
                &&& run.target.wf()
                &&& spec@ == run.target.username@ + seq!['@'] + run.target.host@
                &&& run.target.port == port
                &&& run.command@ == pm2_invocation(cmd@, args@)
                &&& run.options == options
                &&& run.setup_command@ == install_invocation(
                    base64_standard(INSTALL_SCRIPT.spec_bytes()),
                )
                &&& !expands_tilde(key@) ==> run.key_path@ == key@
                &&& expands_tilde(key@) ==> run.key_path@.len() >= key@.len() - 1
                    && run.key_path@.skip(run.key_path@.len() - (key@.len() - 1)) == key@.skip(1)
                &&& run.output@.len() == 0
            },
    {
        match ConnectionTarget::parse(spec, port) {
            Ok(target) => Ok(Runner::new(target, key, cmd, args, options)),
            Err(e) => Err(e),
        }
    }

    /// The action that the run asks for in its present stage.
    pub fn action(&self) -> (a: Action)
        ensures
            action_for(*self, a),
    {
        match self.stage {
            Stage::Connecting => Action::Connect {
                host: self.target.host.clone(),
                port: self.target.port,
            },
            Stage::Handshaking => Action::Handshake,
            Stage::Authenticating => Action::AuthenticatePubkey {
                username: self.target.username.clone(),
                key_path: self.key_path.clone(),
            },
            Stage::CheckingAuth => Action::QueryAuthenticated,
            Stage::OpeningChannel(role) => Action::OpenChannel(role),
            Stage::RequestingPty(role) => Action::RequestPty(role),
            Stage::Executing(role) => match role {
                Role::Setup => Action::Exec(role, self.setup_command.clone()),
                Role::Command => Action::Exec(role, self.command.clone()),
            },
            Stage::Reading(role) => Action::Read(role),
            Stage::Printing(_) => Action::Print(self.output.clone()),
            Stage::ReportingReadError(role) => Action::ReportReadError(role),
            Stage::WaitingClose(role) => Action::WaitClose(role),
            Stage::QueryingExitStatus => Action::QueryExitStatus,
            Stage::Succeeded(n) => Action::Finish(Ok(n)),
            Stage::Failed(e) => Action::Finish(Err(e)),
        }
    }

    /// Takes the outcome of the last action and returns the next one.
    /// A chunk read from a channel is decoded and cleaned for printing.
    pub fn step(&mut self, event: Event) -> (a: Action)
        ensures
            final(self).stage == next_stage(old(self).stage, event, old(self).options),
            final(self).target == old(self).target,
            final(self).key_path == old(self).key_path,
            final(self).command == old(self).command,
            final(self).setup_command == old(self).setup_command,
            final(self).options == old(self).options,
            final(self).stage is Printing ==> (event matches Event::Data(b)
                && final(self).output@ == sanitize(lossy_text(b@))),
            action_for(*final(self), a),
    {
        let options = self.options;
        let next = match self.stage {
            Stage::Succeeded(n) => Stage::Succeeded(n),
            Stage::Failed(e) => Stage::Failed(e),
            Stage::CheckingAuth => match event {
                Event::Authenticated(true) => Stage::OpeningChannel(Role::Command),
                _ => Stage::Failed(RemoteError::Authentication),
            },
            Stage::Reading(r) => match &event {
                Event::Data(b) => {
                    if b.len() == 0 {
                        Self::after_loop_exec(r)
                    } else {
                        self.output = clean_chunk(b.as_slice());
                        Stage::Printing(r)
                    }
                },
                Event::EndOfStream => Self::after_loop_exec(r),
                _ => Stage::ReportingReadError(r),
            },
            Stage::Printing(r) => Stage::Reading(r),
            Stage::ReportingReadError(r) => Self::after_loop_exec(r),
            Stage::QueryingExitStatus => match event {
                Event::ExitStatus(n) => if options.propagate_exit_status && n != 0 {
                    Stage::Failed(RemoteError::RemoteExit(n))
                } else {
                    Stage::Succeeded(n)
                },
                _ => Stage::Failed(RemoteError::Channel),
            },
            s => match event {
                Event::Done => Self::after_done_exec(s, options),
                _ => Stage::Failed(Self::failure_of_exec(s)),
            },
        };
        self.stage = next;
        self.action()
    }

    fn after_loop_exec(r: Role) -> (s: Stage)
        ensures
            s == after_loop(r),
    {
        match r {
            Role::Setup => Stage::WaitingClose(Role::Setup),
            Role::Command => Stage::WaitingClose(Role::Command),
        }
    }

    fn after_done_exec(s: Stage, opts: RunOptions) -> (t: Stage)
        ensures
            t == after_done(s, opts),
    {
        match s {
            Stage::Connecting => Stage::Handshaking,
            Stage::Handshaking => Stage::Authenticating,
            Stage::Authenticating => Stage::CheckingAuth,
            Stage::OpeningChannel(r) => Stage::RequestingPty(r),
            Stage::RequestingPty(Role::Command) => if opts.bootstrap {
                Stage::OpeningChannel(Role::Setup)
            } else {
                Stage::Executing(Role::Command)
            },
            Stage::RequestingPty(Role::Setup) => Stage::Executing(Role::Setup),
            Stage::Executing(r) => Stage::Reading(r),
            Stage::WaitingClose(Role::Setup) => Stage::Executing(Role::Command),
            Stage::WaitingClose(Role::Command) => Stage::QueryingExitStatus,
            _ => s,
        }
    }

    fn failure_of_exec(s: Stage) -> (e: RemoteError)
        ensures
            e == failure_of(s),
    {
        match s {
            Stage::Connecting => RemoteError::Connection,
            Stage::Handshaking => RemoteError::Handshake,
            Stage::Authenticating => RemoteError::Authentication,
            Stage::CheckingAuth => RemoteError::Authentication,
            _ => RemoteError::Channel,
        }
    }
}

} // verus!
