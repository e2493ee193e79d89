//! Removal of terminal-control noise from text read off an interactive shell.
//!
//! Three kinds of noise are recognised, each by a small grammar over
//! characters, and removed in three sequential passes:
//! OSC sequences (`ESC ] payload BEL` or `ESC ] payload ESC \`), cursor
//! position reports (`ESC [ digits ; digits R`), and the fragments such
//! reports leave behind when their `ESC` is lost (`[` or `[[`, one to three
//! digits, optionally `;` and one to three digits, then `R`).
//! Each pass scans left to right; where a sequence starts, the whole of it is
//! dropped and the scan resumes after it.
//! Digits are the ASCII digits `0` to `9` only, as terminals write them: a
//! report or remnant spelt with other decimal digits (Arabic-Indic, say) is
//! not noise here and is kept.
use vstd::prelude::*;
use vstd::std_specs::iter::IteratorSpec;

verus! {

pub open spec fn esc() -> char {
    '\x1b'
}

pub open spec fn bel() -> char {
    '\x07'
}

pub open spec fn is_digit(c: char) -> bool {
    '0' <= c && c <= '9'
}

/// The kinds of noise, in the order in which they are removed.
#[derive(Clone, Copy, Debug, PartialEq, Eq, Structural)]
pub enum NoiseKind {
    Osc,
    Report,
    Fragment,
}

/// Number of consecutive ASCII digits in `s` starting at `i`.
pub open spec fn digit_run(s: Seq<char>, i: int) -> nat
    decreases s.len() - i,
{
    if 0 <= i < s.len() && is_digit(s[i]) {
        1 + digit_run(s, i + 1)
    } else {
        0
    }
}

/// Number of consecutive characters in `s` from `i` that are neither BEL nor ESC.
pub open spec fn payload_run(s: Seq<char>, i: int) -> nat
    decreases s.len() - i,
{
    if 0 <= i < s.len() && s[i] != bel() && s[i] != esc() {
        1 + payload_run(s, i + 1)
    } else {
        0
    }
}

/// Length of the OSC sequence that starts at `i`, or 0 if none does.
pub open spec fn osc_len(s: Seq<char>, i: int) -> nat {
    if 0 <= i && i + 1 < s.len() && s[i] == esc() && s[i + 1] == ']' {
        let j = i + 2 + payload_run(s, i + 2);
        if j < s.len() && s[j] == bel() {
            (j + 1 - i) as nat
        } else if j + 1 < s.len() && s[j] == esc() && s[j + 1] == '\\' {
            (j + 2 - i) as nat
        } else {
            0
        }
    } else {
        0
    }
}

/// Length of the cursor position report that starts at `i`, or 0 if none does.
pub open spec fn report_len(s: Seq<char>, i: int) -> nat {
    if 0 <= i && i + 1 < s.len() && s[i] == esc() && s[i + 1] == '[' {
        let n = digit_run(s, i + 2);
        let p = i + 2 + n;
        if n >= 1 && p < s.len() && s[p] == ';' {
            let m = digit_run(s, p + 1);
            let q = p + 1 + m;
            if m >= 1 && q < s.len() && s[q] == 'R' {
                (q + 1 - i) as nat
            } else {
                0
            }
        } else {
            0
        }
    } else {
        0
    }
}

/// Number of leading `[` (one or two) that a fragment starting at `i` uses.
pub open spec fn bracket_run(s: Seq<char>, i: int) -> nat {
    if 0 <= i && i + 1 < s.len() && s[i] == '[' && s[i + 1] == '[' {
        2
    } else if 0 <= i && i < s.len() && s[i] == '[' {
        1
    } else {
        0
    }
}

/// Length of the report fragment that starts at `i`, or 0 if none does.
pub open spec fn fragment_len(s: Seq<char>, i: int) -> nat {
    let k = bracket_run(s, i);
    if k >= 1 {
        let n = digit_run(s, i + k);
        let p = i + k + n;
        if 1 <= n <= 3 && p < s.len() && s[p] == 'R' {
            (p + 1 - i) as nat
        } else if 1 <= n <= 3 && p < s.len() && s[p] == ';' {
            let m = digit_run(s, p + 1);
            let q = p + 1 + m;
            if 1 <= m <= 3 && q < s.len() && s[q] == 'R' {
                (q + 1 - i) as nat
            } else {
                0
            }
        } else {
            0
        }
    } else {
        0
    }
}

pub open spec fn noise_len(k: NoiseKind, s: Seq<char>, i: int) -> nat {
    match k {
        NoiseKind::Osc => osc_len(s, i),
        NoiseKind::Report => report_len(s, i),
        NoiseKind::Fragment => fragment_len(s, i),
    }
}

/// What one pass leaves of `s` from position `i` on.
pub open spec fn strip_from(k: NoiseKind, s: Seq<char>, i: int) -> Seq<char>
    decreases s.len() - i,
{
    if i < 0 || i >= s.len() {
        Seq::empty()
    } else {
        let n = noise_len(k, s, i);
        if n > 0 && i + n <= s.len() {
            strip_from(k, s, i + n)
        } else {
            seq![s[i]] + strip_from(k, s, i + 1)
        }
    }
}

/// One pass: every sequence of kind `k` removed from `s`.
pub open spec fn strip(k: NoiseKind, s: Seq<char>) -> Seq<char> {
    strip_from(k, s, 0)
}

/// The cleaned text: OSC sequences removed first, then cursor reports, then fragments.
pub open spec fn sanitize(s: Seq<char>) -> Seq<char> {
    strip(NoiseKind::Fragment, strip(NoiseKind::Report, strip(NoiseKind::Osc, s)))
}

/// No sequence of any kind starts anywhere in `s`.
pub open spec fn noise_free(s: Seq<char>) -> bool {
    forall|k: NoiseKind, i: int| 0 <= i < s.len() ==> #[trigger] noise_len(k, s, i) == 0
}

pub proof fn lemma_digit_run_bound(s: Seq<char>, i: int)
    requires
        0 <= i <= s.len(),
    ensures
        i + digit_run(s, i) <= s.len(),
        forall|j: int| i <= j < i + digit_run(s, i) ==> is_digit(#[trigger] s[j]),
    decreases s.len() - i,
{
    if i < s.len() && is_digit(s[i]) {
        lemma_digit_run_bound(s, i + 1);
    }
}

pub proof fn lemma_payload_run_bound(s: Seq<char>, i: int)
    requires
        0 <= i <= s.len(),
    ensures
        i + payload_run(s, i) <= s.len(),
    decreases s.len() - i,
{
    if i < s.len() && s[i] != bel() && s[i] != esc() {
        lemma_payload_run_bound(s, i + 1);
    }
}

pub proof fn lemma_noise_len_bound(k: NoiseKind, s: Seq<char>, i: int)
    requires
        0 <= i < s.len(),
    ensures
        i + noise_len(k, s, i) <= s.len(),
{
    if i + 2 <= s.len() {
        lemma_payload_run_bound(s, i + 2);
        lemma_digit_run_bound(s, i + 2);
        let p = i + 2 + digit_run(s, i + 2);
        if p < s.len() {
            lemma_digit_run_bound(s, p + 1);
        }
    }
    let kb = bracket_run(s, i);
    if kb >= 1 {
        lemma_digit_run_bound(s, i + kb);
        let p = i + kb + digit_run(s, i + kb);
        if p < s.len() {
            lemma_digit_run_bound(s, p + 1);
        }
    }
}

fn digit_run_exec(s: &Vec<char>, i: usize) -> (r: usize)
    requires
        i <= s@.len(),
    ensures
        r == digit_run(s@, i as int),
{
    proof {
        lemma_digit_run_bound(s@, i as int);
    }
    let mut j: usize = i;
    while j < s.len() && '0' <= s[j] && s[j] <= '9'
        invariant
            i <= j <= s@.len(),
            j + digit_run(s@, j as int) == i + digit_run(s@, i as int),
        decreases s@.len() - j,
    {
        j = j + 1;
    }
    j - i
}

fn payload_run_exec(s: &Vec<char>, i: usize) -> (r: usize)
    requires
        i <= s@.len(),
    ensures
        r == payload_run(s@, i as int),
{
    proof {
        lemma_payload_run_bound(s@, i as int);
    }
    let mut j: usize = i;
    while j < s.len() && s[j] != '\x07' && s[j] != '\x1b'
        invariant
            i <= j <= s@.len(),
            j + payload_run(s@, j as int) == i + payload_run(s@, i as int),
        decreases s@.len() - j,
    {
        j = j + 1;
    }
    j - i
}

fn osc_len_exec(s: &Vec<char>, i: usize) -> (r: usize)
    requires
        i < s@.len(),
    ensures
        r == osc_len(s@, i as int),
{
    if s.len() - i > 1 && s[i] == '\x1b' && s[i + 1] == ']' {
        proof {
            lemma_payload_run_bound(s@, i + 2);
        }
        let j = i + 2 + payload_run_exec(s, i + 2);
        if j < s.len() && s[j] == '\x07' {
            j + 1 - i
        } else if j < s.len() && s.len() - j > 1 && s[j] == '\x1b' && s[j + 1] == '\\' {
            j + 2 - i
        } else {
            0
        }
    } else {
        0
    }
}

fn report_len_exec(s: &Vec<char>, i: usize) -> (r: usize)
    requires
        i < s@.len(),
    ensures
        r == report_len(s@, i as int),
{
    if s.len() - i > 1 && s[i] == '\x1b' && s[i + 1] == '[' {
        proof {
            lemma_digit_run_bound(s@, i + 2);
        }
        let n = digit_run_exec(s, i + 2);
        let p = i + 2 + n;
        if n >= 1 && p < s.len() && s[p] == ';' {
            proof {
                lemma_digit_run_bound(s@, p + 1);
            }
            let m = digit_run_exec(s, p + 1);
            let q = p + 1 + m;
            if m >= 1 && q < s.len() && s[q] == 'R' {
                q + 1 - i
            } else {
                0
            }
        } else {
            0
        }
    } else {
        0
    }
}

fn fragment_len_exec(s: &Vec<char>, i: usize) -> (r: usize)
    requires
        i < s@.len(),
    ensures
        r == fragment_len(s@, i as int),
{
    let k: usize = if s.len() - i > 1 && s[i] == '[' && s[i + 1] == '[' {
        2
    } else if s[i] == '[' {
        1
    } else {
        0
    };
    if k == 0 {
        return 0;
    }
    proof {
        lemma_digit_run_bound(s@, i + k);
    }
    let n = digit_run_exec(s, i + k);
    let p = i + k + n;
    if 1 <= n && n <= 3 && p < s.len() && s[p] == 'R' {
        p + 1 - i
    } else if 1 <= n && n <= 3 && p < s.len() && s[p] == ';' {
        proof {
            lemma_digit_run_bound(s@, p + 1);
        }
        let m = digit_run_exec(s, p + 1);
        let q = p + 1 + m;
        if 1 <= m && m <= 3 && q < s.len() && s[q] == 'R' {
            q + 1 - i
        } else {
            0
        }
    } else {
        0
    }
}

/// Removes every sequence of kind `k` from `s`, scanning left to right.
pub fn strip_exec(k: NoiseKind, s: &Vec<char>) -> (r: Vec<char>)
    ensures
        r@ == strip(k, s@),
{
    let mut out: Vec<char> = Vec::new();
    let mut i: usize = 0;
    while i < s.len()
        invariant
            i <= s@.len(),
            strip(k, s@) == out@ + strip_from(k, s@, i as int),
        decreases s@.len() - i,
    {
        proof {
            lemma_noise_len_bound(k, s@, i as int);
        }
        let n = match k {
            NoiseKind::Osc => osc_len_exec(s, i),
            NoiseKind::Report => report_len_exec(s, i),
            NoiseKind::Fragment => fragment_len_exec(s, i),
        };
        if n > 0 {
            i = i + n;
        } else {
            let ghost before = out@;
            out.push(s[i]);
            proof {
                assert(out@ + strip_from(k, s@, i + 1) =~= before + strip_from(k, s@, i as int));
            }
            i = i + 1;
        }
    }
    proof {
        assert(strip_from(k, s@, i as int) =~= Seq::empty());
        assert(out@ + Seq::<char>::empty() =~= out@);
    }
    out
}

/// Removes the three kinds of noise from `s`, in order.
pub fn sanitize_chars(s: &Vec<char>) -> (r: Vec<char>)
    ensures
        r@ == sanitize(s@),
{
    let a = strip_exec(NoiseKind::Osc, s);
    let b = strip_exec(NoiseKind::Report, &a);
    strip_exec(NoiseKind::Fragment, &b)
}

/// The characters of `s`, in order.
pub(crate) fn chars_of(s: &str) -> (r: Vec<char>)
    ensures
        r@ == s@,
{
    broadcast use vstd::string::axiom_spec_iter, vstd::string::next_postcondition;

    let mut it = s.chars();
    let mut out: Vec<char> = Vec::new();
    loop
        invariant
            out@ + it.remaining() == s@,
            it.decrease() is Some,
        ensures
            out@ == s@,
        decreases it.decrease()->0,
    {
        match it.next() {
            Some(c) => {
                out.push(c);
            },
            None => {
                proof {
                    assert(out@ + it.remaining() =~= out@);
                }
                break ;
            },
        }
    }
    out
}

/// Relies on collecting `char`s into a `String`: the same characters, in order.
#[verifier::external_body]
pub(crate) fn string_of(v: &Vec<char>) -> (r: String)
    ensures
        r@ == v@,
{
    v.iter().collect()
}

/// What `String::from_utf8_lossy` makes of `b`: the decoded text, with each
/// invalid sequence replaced by U+FFFD.
pub uninterp spec fn lossy_text(b: Seq<u8>) -> Seq<char>;

/// Relies on `String::from_utf8_lossy`: the result depends on the bytes alone.
#[verifier::external_body]
fn decode_lossy(b: &[u8]) -> (r: Vec<char>)
    ensures
        r@ == lossy_text(b@),
{
    String::from_utf8_lossy(b).chars().collect()
}

/// The text of `s` with all terminal noise removed.
pub fn clean_terminal_noises(s: &str) -> (r: String)
    ensures
        r@ == sanitize(s@),
{
    let chars = chars_of(s);
    let cleaned = sanitize_chars(&chars);
    string_of(&cleaned)
}

/// A chunk of raw bytes read from a channel, decoded (lossily) and cleaned.
pub fn clean_chunk(b: &[u8]) -> (r: String)
    ensures
        r@ == sanitize(lossy_text(b@)),
{
    let chars = decode_lossy(b);
    let cleaned = sanitize_chars(&chars);
    string_of(&cleaned)
}

} // verus!
