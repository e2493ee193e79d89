//! The `user@host` specifier and the error kinds of a remote run.
use vstd::prelude::*;
use crate::noise::{chars_of, string_of};

verus! {

/// Why a remote run failed.
#[derive(Clone, Copy, Debug, PartialEq, Eq, Structural)]
pub enum RemoteError {
    /// The host specifier is not exactly `user@host`.
    InvalidHostFormat,
    /// The transport connection could not be opened.
    Connection,
    /// The secure-shell handshake failed.
    Handshake,
    /// Public-key authentication failed, or the session is not authenticated.
    Authentication,
    /// Opening a channel, requesting its terminal, executing, waiting for it
    /// to close or reading its exit status failed.
    Channel,
    /// The remote command exited with this non-zero status, and the run was
    /// configured to fail on it.
    RemoteExit(i32),
}

/// The description of each error.
pub open spec fn message_of(e: RemoteError) -> Seq<char> {
    match e {
        RemoteError::InvalidHostFormat => "Host must be in the format user@host"@,
        RemoteError::Connection => "could not connect to the host"@,
        RemoteError::Handshake => "SSH handshake failed"@,
        RemoteError::Authentication => "SSH authentication failed"@,
        RemoteError::Channel => "SSH channel operation failed"@,
        RemoteError::RemoteExit(_) => "remote command exited with a non-zero status"@,
    }
}

impl RemoteError {
    /// A short description of the error.
    pub fn message(&self) -> (r: &'static str)
        ensures
            r@ == message_of(*self),
    {
        match self {
            RemoteError::InvalidHostFormat => "Host must be in the format user@host",
            RemoteError::Connection => "could not connect to the host",
            RemoteError::Handshake => "SSH handshake failed",
            RemoteError::Authentication => "SSH authentication failed",
            RemoteError::Channel => "SSH channel operation failed",
            RemoteError::RemoteExit(_) => "remote command exited with a non-zero status",
        }
    }
}

pub open spec fn at_free(s: Seq<char>) -> bool {
    forall|j: int| 0 <= j < s.len() ==> #[trigger] s[j] != '@'
}

/// `s` splits on `@` into exactly two non-empty parts.
pub open spec fn well_formed_spec(s: Seq<char>) -> bool {
    exists|i: int|
        0 < i < s.len() - 1 && s[i] == '@' && #[trigger] at_free(s.take(i)) && at_free(
            s.skip(i + 1),
        )
}

/// Where to connect, and as whom.
pub struct ConnectionTarget {
    pub username: String,
    pub host: String,
    pub port: u32,
}

impl ConnectionTarget {
    pub open spec fn wf(&self) -> bool {
        &&& self.username@.len() > 0
        &&& self.host@.len() > 0
        &&& at_free(self.username@)
        &&& at_free(self.host@)
    }

    /// Splits `spec` on `@` into a user name and a host name.
    pub fn parse(spec: &str, port: u32) -> (r: Result<ConnectionTarget, RemoteError>)
        ensures
            r is Ok <==> well_formed_spec(spec@),
            r is Err ==> r == Err::<ConnectionTarget, RemoteError>(RemoteError::InvalidHostFormat),
            r matches Ok(t) ==> t.wf() && t.port == port && spec@ == t.username@ + seq!['@']
                + t.host@,
    {
        let s = chars_of(spec);
        let len = s.len();
        let mut i: usize = 0;
        while i < len && s[i] != '@'
            invariant
                len == s@.len(),
                s@ == spec@,
                i <= len,
                at_free(s@.take(i as int)),
            decreases len - i,
        {
            proof {
                assert(s@.take(i + 1) =~= s@.take(i as int).push(s@[i as int]));
            }
            i = i + 1;
        }
        if i == 0 || len - i < 2 {
            proof {
                assert forall|k: int|
                    0 < k < s@.len() - 1 && s@[k] == '@' implies !#[trigger] at_free(
                    s@.take(k),
                ) || !at_free(s@.skip(k + 1)) by {
                    if k < i {
                        assert(s@.take(i as int)[k] == s@[k]);
                    } else if k > i {
                        assert(s@.take(k)[i as int] == s@[i as int]);
                    }
                }
            }
            return Err(RemoteError::InvalidHostFormat);
        }
        let mut j: usize = i + 1;
        while j < len && s[j] != '@'
            invariant
                len == s@.len(),
                s@ == spec@,
                i < j <= len,
                s@[i as int] == '@',
                at_free(s@.subrange(i + 1, j as int)),
            decreases len - j,
        {
            proof {
                assert(s@.subrange(i + 1, j + 1) =~= s@.subrange(i + 1, j as int).push(
                    s@[j as int],
                ));
            }
            j = j + 1;
        }
        if j < len {
            proof {
                assert forall|k: int|
                    0 < k < s@.len() - 1 && s@[k] == '@' implies !#[trigger] at_free(
                    s@.take(k),
                ) || !at_free(s@.skip(k + 1)) by {
                    if k < i {
                        assert(s@.take(i as int)[k] == s@[k]);
                    } else if k == i {
                        assert(s@.skip(k + 1)[j - k - 1] == s@[j as int]);
                    } else if k < j {
                        assert(s@.subrange(i + 1, j as int)[k - i - 1] == s@[k]);
                    } else {
                        assert(s@.take(k)[i as int] == s@[i as int]);
                    }
                }
            }
            return Err(RemoteError::InvalidHostFormat);
        }
        let user_chars = slice_chars(&s, 0, i);
        let host_chars = slice_chars(&s, i + 1, len);
        proof {
            assert(s@.skip(i + 1) =~= s@.subrange(i + 1, j as int));
            assert(at_free(s@.take(i as int)));
            assert(well_formed_spec(s@));
            assert(s@ =~= s@.take(i as int) + seq!['@'] + s@.skip(i + 1));
        }
        Ok(ConnectionTarget { username: string_of(&user_chars), host: string_of(&host_chars), port })
    }
}

/// The characters of `s` from `lo` up to `hi`.
fn slice_chars(s: &Vec<char>, lo: usize, hi: usize) -> (r: Vec<char>)
    requires
        lo <= hi <= s@.len(),
    ensures
        r@ == s@.subrange(lo as int, hi as int),
{
    let mut out: Vec<char> = Vec::new();
    let mut k: usize = lo;
    while k < hi
        invariant
            lo <= k <= hi <= s@.len(),
            out@ == s@.subrange(lo as int, k as int),
        decreases hi - k,
    {
        out.push(s[k]);
        proof {
            assert(out@ =~= s@.subrange(lo as int, k + 1));
        }
        k = k + 1;
    }
    out
}

} // verus!
