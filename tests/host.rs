use pm2_remote::host::{ConnectionTarget, RemoteError};

#[test]
fn parse_user_and_host() {
    let t = ConnectionTarget::parse("alice@example.com", 22).unwrap();
    assert_eq!(t.username, "alice");
    assert_eq!(t.host, "example.com");
    assert_eq!(t.port, 22);
}

#[test]
fn parse_without_at_fails() {
    assert!(matches!(ConnectionTarget::parse("example.com", 22), Err(RemoteError::InvalidHostFormat)));
}

#[test]
fn parse_two_ats_fails() {
    assert!(matches!(ConnectionTarget::parse("a@b@c", 22), Err(RemoteError::InvalidHostFormat)));
}

#[test]
fn parse_empty_parts_fail() {
    assert!(matches!(ConnectionTarget::parse("@host", 22), Err(RemoteError::InvalidHostFormat)));
    assert!(matches!(ConnectionTarget::parse("user@", 22), Err(RemoteError::InvalidHostFormat)));
    assert!(matches!(ConnectionTarget::parse("@", 22), Err(RemoteError::InvalidHostFormat)));
    assert!(matches!(ConnectionTarget::parse("", 22), Err(RemoteError::InvalidHostFormat)));
}

#[test]
fn parse_keeps_port() {
    let t = ConnectionTarget::parse("deploy@10.0.0.5", 2222).unwrap();
    assert_eq!(t.username, "deploy");
    assert_eq!(t.host, "10.0.0.5");
    assert_eq!(t.port, 2222);
}

#[test]
fn error_messages() {
    assert_eq!(RemoteError::InvalidHostFormat.message(), "Host must be in the format user@host");
    assert_eq!(RemoteError::Authentication.message(), "SSH authentication failed");
}
