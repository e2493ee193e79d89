use base64::Engine;
use pm2_remote::command::{install_command, join_args, pm2_command, INSTALL_SCRIPT};

#[test]
fn pm2_command_with_args() {
    let args = vec!["--json".to_string(), "my app".to_string()];
    assert_eq!(pm2_command("status", &args), "NO_NEOFETCH=1 bash -lic 'pm2 status --json my app'");
}

#[test]
fn pm2_command_without_args() {
    assert_eq!(pm2_command("list", &[]), "NO_NEOFETCH=1 bash -lic 'pm2 list '");
}

#[test]
fn join_args_spaces() {
    let args = vec!["a".to_string(), "-b".to_string(), "c;d".to_string()];
    assert_eq!(join_args(&args), "a -b c;d");
    assert_eq!(join_args(&[]), "");
}

#[test]
fn install_command_carries_encoded_script() {
    let encoded = base64::engine::general_purpose::STANDARD.encode(INSTALL_SCRIPT);
    assert_eq!(
        install_command(),
        format!(
            "NO_NEOFETCH=1 bash -lic 'echo {} | base64 -d > /tmp/install-pm2.sh && chmod +x /tmp/install-pm2.sh && /tmp/install-pm2.sh'",
            encoded
        )
    );
    assert!(!install_command().contains("set -e"));
}

#[test]
fn install_script_is_guarded() {
    assert!(INSTALL_SCRIPT.contains("set -e"));
    assert!(INSTALL_SCRIPT.contains("if ! command -v pm2"));
    assert!(INSTALL_SCRIPT.contains("npm install -g pm2"));
}
