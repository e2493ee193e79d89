//! The command lines run on the remote host.
use base64::Engine;
use vstd::prelude::*;
use vstd::string::StringSliceAdditionalSpecFns;

verus! {

/// The script that installs the process manager when it is missing.
pub const INSTALL_SCRIPT: &'static str = r#"#!/bin/bash
    set -e

    if ! command -v pm2 &> /dev/null; then
        echo "PM2 not found, installing..."
        curl https://mise.run | sh
        export PATH=$HOME/.local/bin:$PATH
        export PATH=$HOME/.local/share/mise/shims:$PATH
        echo 'export PATH=$HOME/.local/bin:$PATH' >> ~/.bashrc
        echo 'export PATH=$HOME/.local/share/mise/shims:$PATH' >> ~/.bashrc
        mise install node
        mise use -g node
        npm install -g pm2
    fi
    "#;

/// The words of `ws`, joined by single spaces.
pub open spec fn join_words(ws: Seq<String>) -> Seq<char>
    decreases ws.len(),
{
    if ws.len() == 0 {
        Seq::empty()
    } else if ws.len() == 1 {
        ws[0]@
    } else {
        join_words(ws.drop_last()) + " "@ + ws.last()@
    }
}

/// `body` run by an interactive login shell, with the system-information
/// banner switched off.
pub open spec fn login_shell(body: Seq<char>) -> Seq<char> {
    "NO_NEOFETCH=1 bash -lic '"@ + body + "'"@
}

/// The invocation of the process manager with a subcommand and its arguments.
pub open spec fn pm2_invocation(cmd: Seq<char>, args: Seq<String>) -> Seq<char> {
    login_shell("pm2 "@ + cmd + " "@ + join_words(args))
}

/// What the base64 engine `STANDARD` of the `base64` crate makes of `b`.
pub uninterp spec fn base64_standard(b: Seq<u8>) -> Seq<char>;

/// A character of the standard base64 alphabet, or the padding `=`.
pub open spec fn is_base64_char(c: char) -> bool {
    ('A' <= c && c <= 'Z') || ('a' <= c && c <= 'z') || ('0' <= c && c <= '9') || c == '+' || c
        == '/' || c == '='
}

/// Relies on `base64::engine::general_purpose::STANDARD.encode`: the encoding
/// depends on the bytes alone; it is padded, so four characters stand for
/// each started group of three bytes, all from the standard alphabet
/// (`A-Z`, `a-z`, `0-9`, `+`, `/`) or the padding `=`. Its size computation
/// panics only when the encoded length overflows `usize`, which no slice (at
/// most `isize::MAX` bytes) reaches.
#[verifier::external_body]
fn encode_base64(b: &[u8]) -> (r: String)
    ensures
        r@ == base64_standard(b@),
        r@.len() == 4 * ((b@.len() + 2) / 3),
        forall|i: int| 0 <= i < r@.len() ==> is_base64_char(#[trigger] r@[i]),
{
    base64::engine::general_purpose::STANDARD.encode(b)
}

/// The command that writes the script whose base64 text is `encoded` to a
/// temporary file, makes it executable and runs it.
pub open spec fn install_invocation(encoded: Seq<char>) -> Seq<char> {
    login_shell(
        "echo "@ + encoded
            + " | base64 -d > /tmp/install-pm2.sh && chmod +x /tmp/install-pm2.sh && /tmp/install-pm2.sh"@,
    )
}

/// The words of `args` joined by single spaces, with no quoting.
pub fn join_args(args: &[String]) -> (r: String)
    ensures
        r@ == join_words(args@),
{
    let mut out = String::new();
    let mut i: usize = 0;
    while i < args.len()
        invariant
            i <= args@.len(),
            out@ == join_words(args@.take(i as int)),
        decreases args@.len() - i,
    {
        proof {
            assert(args@.take(i + 1).drop_last() =~= args@.take(i as int));
        }
        if i > 0 {
            out.append(" ");
        }
        out.append(args[i].as_str());
        proof {
            if i == 0 {
                assert(out@ =~= join_words(args@.take(1)));
            }
        }
        i = i + 1;
    }
    proof {
        assert(args@.take(i as int) =~= args@);
    }
    out
}

/// The command line that runs the process manager with `cmd` and `args`.
/// The arguments are passed on verbatim: the caller must trust them.
pub fn pm2_command(cmd: &str, args: &[String]) -> (r: String)
    ensures
        r@ == pm2_invocation(cmd@, args@),
{
    let joined = join_args(args);
    let mut out = String::from_str("NO_NEOFETCH=1 bash -lic '");
    out.append("pm2 ");
    out.append(cmd);
    out.append(" ");
    out.append(joined.as_str());
    out.append("'");
    proof {
        assert(out@ =~= pm2_invocation(cmd@, args@));
    }
    out
}

/// The command line that delivers and runs the install script.
pub fn install_command() -> (r: String)
    ensures
        r@ == install_invocation(base64_standard(INSTALL_SCRIPT.spec_bytes())),
        forall|i: int|
            0 <= i < base64_standard(INSTALL_SCRIPT.spec_bytes()).len() ==> is_base64_char(
                #[trigger] base64_standard(INSTALL_SCRIPT.spec_bytes())[i],
            ),
{
    let bytes = INSTALL_SCRIPT.as_bytes();
    let encoded = encode_base64(bytes);
    let mut out = String::from_str("NO_NEOFETCH=1 bash -lic '");
    out.append("echo ");
    out.append(encoded.as_str());
    out.append(
        " | base64 -d > /tmp/install-pm2.sh && chmod +x /tmp/install-pm2.sh && /tmp/install-pm2.sh",
    );
    out.append("'");
    proof {
        assert(out@ =~= install_invocation(base64_standard(INSTALL_SCRIPT.spec_bytes())));
    }
    out
}

} // verus!
