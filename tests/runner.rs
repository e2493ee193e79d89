use pm2_remote::host::RemoteError;
use pm2_remote::runner::{Action, Event, Role, RunOptions, Runner, Stage};

/// A scripted stand-in for a remote session.
struct MockSession {
    connect_ok: bool,
    auth_call_ok: bool,
    authenticated: bool,
    setup_chunks: Vec<Option<Vec<u8>>>,
    command_chunks: Vec<Option<Vec<u8>>>,
    exit_status: i32,
}

impl MockSession {
    fn healthy(command_chunks: Vec<Option<Vec<u8>>>) -> MockSession {
        MockSession {
            connect_ok: true,
            auth_call_ok: true,
            authenticated: true,
            setup_chunks: vec![],
            command_chunks,
            exit_status: 0,
        }
    }
}

struct Outcome {
    printed: String,
    log: Vec<String>,
    result: Result<i32, RemoteError>,
    read_errors: usize,
}

fn drive(mut runner: Runner, mut mock: MockSession) -> Outcome {
    let mut printed = String::new();
    let mut log = Vec::new();
    let mut read_errors = 0;
    let mut action = runner.action();
    for _ in 0..1000 {
        log.push(format!("{:?}", action));
        let event = match action {
            Action::Connect { .. } => {
                if mock.connect_ok { Event::Done } else { Event::Failed }
            }
            Action::Handshake => Event::Done,
            Action::AuthenticatePubkey { .. } => {
                if mock.auth_call_ok { Event::Done } else { Event::Failed }
            }
            Action::QueryAuthenticated => Event::Authenticated(mock.authenticated),
            Action::OpenChannel(_) | Action::RequestPty(_) | Action::Exec(_, _) => Event::Done,
            Action::Read(role) => {
                let chunks = match role {
                    Role::Setup => &mut mock.setup_chunks,
                    Role::Command => &mut mock.command_chunks,
                };
                if chunks.is_empty() {
                    Event::EndOfStream
                } else {
                    match chunks.remove(0) {
                        Some(b) => Event::Data(b),
                        None => Event::ReadFailed,
                    }
                }
            }
            Action::Print(text) => {
                printed.push_str(&text);
                Event::Done
            }
            Action::ReportReadError(_) => {
                read_errors += 1;
                Event::Done
            }
            Action::WaitClose(_) => Event::Done,
            Action::QueryExitStatus => Event::ExitStatus(mock.exit_status),
            Action::Finish(result) => return Outcome { printed, log, result, read_errors },
        };
        action = runner.step(event);
    }
    panic!("run did not finish");
}

fn opts(bootstrap: bool) -> RunOptions {
    RunOptions { bootstrap, propagate_exit_status: false }
}

fn runner(bootstrap: bool) -> Runner {
    Runner::start("alice@example.com", 22, "/keys/id_rsa", "status", &[], opts(bootstrap)).unwrap()
}

#[test]
fn streams_cleaned_chunks_in_order() {
    let mock = MockSession::healthy(vec![
        Some(b"hello ".to_vec()),
        Some(b"\x1b]0;title\x07world".to_vec()),
    ]);
    let out = drive(runner(false), mock);
    assert_eq!(out.printed, "hello world");
    assert_eq!(out.result, Ok(0));
}

#[test]
fn unauthenticated_session_fails_before_channel() {
    let mut mock = MockSession::healthy(vec![Some(b"never".to_vec())]);
    mock.authenticated = false;
    let out = drive(runner(true), mock);
    assert_eq!(out.result, Err(RemoteError::Authentication));
    assert!(out.log.iter().all(|a| !a.starts_with("OpenChannel")));
    assert_eq!(out.printed, "");
}

#[test]
fn read_error_still_succeeds() {
    let mut mock = MockSession::healthy(vec![Some(b"partial".to_vec()), None, Some(b"lost".to_vec())]);
    mock.exit_status = 3;
    let out = drive(runner(false), mock);
    assert_eq!(out.printed, "partial");
    assert_eq!(out.read_errors, 1);
    assert_eq!(out.result, Ok(3));
    assert!(out.log.iter().any(|a| a == "WaitClose(Command)"));
}

#[test]
fn nonzero_exit_status_is_not_an_error() {
    let mut mock = MockSession::healthy(vec![]);
    mock.exit_status = 1;
    assert_eq!(drive(runner(false), mock).result, Ok(1));
}

#[test]
fn connection_failure() {
    let mut mock = MockSession::healthy(vec![]);
    mock.connect_ok = false;
    let out = drive(runner(true), mock);
    assert_eq!(out.result, Err(RemoteError::Connection));
    assert_eq!(out.log.len(), 2);
}

#[test]
fn authentication_call_failure() {
    let mut mock = MockSession::healthy(vec![]);
    mock.auth_call_ok = false;
    assert_eq!(drive(runner(true), mock).result, Err(RemoteError::Authentication));
}

#[test]
fn bootstrap_drained_before_command() {
    let mut mock = MockSession::healthy(vec![Some(b"online".to_vec())]);
    mock.setup_chunks = vec![Some(b"PM2 not found, installing...\n".to_vec())];
    let out = drive(runner(true), mock);
    assert_eq!(out.printed, "PM2 not found, installing...\nonline");
    let pos = |p: &str| out.log.iter().position(|a| a.starts_with(p)).unwrap();
    assert!(pos("Exec(Setup") < pos("Read(Setup)"));
    assert!(pos("Read(Setup)") < pos("WaitClose(Setup)"));
    assert!(pos("WaitClose(Setup)") < pos("Exec(Command"));
    assert_eq!(out.result, Ok(0));
}

#[test]
fn runner_start_rejects_bad_host() {
    assert!(matches!(
        Runner::start("example.com", 22, "~/.ssh/id_rsa", "status", &[], opts(true)),
        Err(RemoteError::InvalidHostFormat)
    ));
}

#[test]
fn runner_start_prepares_commands() {
    let args = vec!["api".to_string()];
    let r = Runner::start("bob@host", 2200, "/k", "restart", &args, opts(false)).unwrap();
    assert_eq!(r.stage, Stage::Connecting);
    assert_eq!(r.command, "NO_NEOFETCH=1 bash -lic 'pm2 restart api'");
    assert_eq!(r.key_path, "/k");
    assert_eq!(r.target.host, "host");
    assert_eq!(r.target.port, 2200);
    match r.action() {
        Action::Connect { host, port } => {
            assert_eq!(host, "host");
            assert_eq!(port, 2200);
        }
        other => panic!("unexpected {:?}", other),
    }
}

#[test]
fn key_path_tilde_expanded() {
    let r = Runner::start("bob@host", 22, "~/.ssh/id_rsa", "list", &[], opts(false)).unwrap();
    assert!(r.key_path.ends_with("/.ssh/id_rsa"));
    let r = Runner::start("bob@host", 22, "~other/key", "list", &[], opts(false)).unwrap();
    assert_eq!(r.key_path, "~other/key");
}

#[test]
fn empty_read_ends_stream() {
    let mock = MockSession::healthy(vec![Some(b"x".to_vec()), Some(vec![]), Some(b"y".to_vec())]);
    let out = drive(runner(false), mock);
    assert_eq!(out.printed, "x");
}

#[test]
fn nonzero_exit_status_propagated_when_asked() {
    let options = RunOptions { bootstrap: false, propagate_exit_status: true };
    let mut mock = MockSession::healthy(vec![Some(b"boom".to_vec())]);
    mock.exit_status = 2;
    let r = Runner::start("alice@example.com", 22, "/k", "start", &[], options).unwrap();
    assert_eq!(drive(r, mock).result, Err(RemoteError::RemoteExit(2)));
    let r = Runner::start("alice@example.com", 22, "/k", "start", &[], options).unwrap();
    assert_eq!(drive(r, MockSession::healthy(vec![])).result, Ok(0));
}

#[test]
fn without_bootstrap_no_setup_channel() {
    let out = drive(runner(false), MockSession::healthy(vec![]));
    assert!(out.log.iter().all(|a| !a.contains("Setup")));
}

#[test]
fn channel_failure_after_finish_is_ignored() {
    let mut r = runner(false);
    r.stage = Stage::Failed(RemoteError::Handshake);
    match r.step(Event::Done) {
        Action::Finish(res) => assert_eq!(res, Err(RemoteError::Handshake)),
        other => panic!("unexpected {:?}", other),
    }
}

#[test]
fn setup_close_failure_fails_run() {
    let mut r = runner(true);
    r.stage = Stage::WaitingClose(Role::Setup);
    match r.step(Event::Failed) {
        Action::Finish(res) => assert_eq!(res, Err(RemoteError::Channel)),
        other => panic!("unexpected {:?}", other),
    }
}

#[test]
fn setup_read_error_still_waits_for_close() {
    let mut r = runner(true);
    r.stage = Stage::Reading(Role::Setup);
    assert!(matches!(r.step(Event::ReadFailed), Action::ReportReadError(Role::Setup)));
    assert!(matches!(r.step(Event::Done), Action::WaitClose(Role::Setup)));
    assert!(matches!(r.step(Event::Done), Action::Exec(Role::Command, _)));
}

#[test]
fn start_prepares_setup_line_and_empty_output() {
    let r = runner(true);
    assert_eq!(r.setup_command, pm2_remote::command::install_command());
    assert_eq!(r.output, "");
}
