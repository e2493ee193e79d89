//! Laws of the library: what the sanitizer does to text of known shapes, and
//! what a run does on given sequences of events.
use vstd::prelude::*;
use crate::host::RemoteError;
use crate::runner::{next_stage, run_events, Event, Role, RunOptions, Stage};
use crate::noise::{
    bel, digit_run, esc, is_digit, noise_free, noise_len, payload_run, sanitize, strip,
    strip_from, NoiseKind,
};

verus! {

proof fn lemma_digit_run_exact(s: Seq<char>, i: int, n: int)
    requires
        0 <= i,
        0 <= n,
        i + n <= s.len(),
        forall|j: int| i <= j < i + n ==> is_digit(#[trigger] s[j]),
        i + n == s.len() || !is_digit(s[i + n]),
    ensures
        digit_run(s, i) == n,
    decreases n,
{
    if n > 0 {
        lemma_digit_run_exact(s, i + 1, n - 1);
    }
}

proof fn lemma_payload_run_exact(s: Seq<char>, i: int, n: int)
    requires
        0 <= i,
        0 <= n,
        i + n < s.len(),
        forall|j: int| i <= j < i + n ==> #[trigger] s[j] != bel() && s[j] != esc(),
        s[i + n] == bel() || s[i + n] == esc(),
    ensures
        payload_run(s, i) == n,
    decreases n,
{
    if n > 0 {
        lemma_payload_run_exact(s, i + 1, n - 1);
    }
}

proof fn lemma_runs_shift(p: Seq<char>, t: Seq<char>, i: int)
    requires
        0 <= i,
    ensures
        digit_run(p + t, p.len() + i) == digit_run(t, i),
        payload_run(p + t, p.len() + i) == payload_run(t, i),
    decreases t.len() - i,
{
    if i < t.len() {
        lemma_runs_shift(p, t, i + 1);
    }
}

proof fn lemma_noise_len_shift(k: NoiseKind, p: Seq<char>, t: Seq<char>, i: int)
    requires
        0 <= i,
    ensures
        noise_len(k, p + t, p.len() + i) == noise_len(k, t, i),
{
    let s = p + t;
    let o = p.len() as int;
    lemma_runs_shift(p, t, i + 1);
    lemma_runs_shift(p, t, i + 2);
    lemma_runs_shift(p, t, i + 3 + digit_run(t, i + 2));
    lemma_runs_shift(p, t, i + 2 + digit_run(t, i + 1));
    assert(forall|q: int| 0 <= q < t.len() ==> s[o + q] == t[q]);
}

proof fn lemma_strip_shift(k: NoiseKind, p: Seq<char>, t: Seq<char>, i: int)
    requires
        0 <= i,
    ensures
        strip_from(k, p + t, p.len() + i) == strip_from(k, t, i),
    decreases t.len() - i,
{
    if i < t.len() {
        lemma_noise_len_shift(k, p, t, i);
        let n = noise_len(k, t, i);
        if n > 0 && i + n <= t.len() {
            lemma_strip_shift(k, p, t, i + n);
        } else {
            lemma_strip_shift(k, p, t, i + 1);
        }
        assert((p + t)[p.len() + i] == t[i]);
    }
}

proof fn lemma_strip_prefix(k: NoiseKind, s: Seq<char>, m: int, i: int)
    requires
        0 <= i <= m <= s.len(),
        forall|j: int| i <= j < m ==> #[trigger] noise_len(k, s, j) == 0,
    ensures
        strip_from(k, s, i) == s.subrange(i, m) + strip_from(k, s, m),
    decreases m - i,
{
    if i < m {
        lemma_strip_prefix(k, s, m, i + 1);
        assert(s.subrange(i, m) =~= seq![s[i]] + s.subrange(i + 1, m));
    } else {
        assert(s.subrange(i, m) =~= Seq::<char>::empty());
    }
}

/// A pass leaves a prefix alone when it holds neither ESC nor `[`.
proof fn lemma_plain_prefix(k: NoiseKind, a: Seq<char>, t: Seq<char>)
    requires
        forall|j: int| 0 <= j < a.len() ==> #[trigger] a[j] != esc() && a[j] != '[',
    ensures
        strip(k, a + t) == a + strip(k, t),
{
    let s = a + t;
    assert forall|j: int| 0 <= j < a.len() implies #[trigger] noise_len(k, s, j) == 0 by {
        assert(s[j] == a[j]);
    }
    lemma_strip_prefix(k, s, a.len() as int, 0);
    lemma_strip_shift(k, a, t, 0);
    assert(s.subrange(0, a.len() as int) =~= a);
}

/// Sanitizing text that holds no noise returns it unchanged.
pub proof fn lemma_clean_text_unchanged(s: Seq<char>)
    requires
        noise_free(s),
    ensures
        sanitize(s) == s,
{
    assert forall|k: NoiseKind| strip(k, s) == s by {
        assert forall|j: int| 0 <= j < s.len() implies #[trigger] noise_len(k, s, j) == 0 by {
            assert(noise_len(k, s, j) == 0);
        }
        lemma_strip_prefix(k, s, s.len() as int, 0);
        assert(strip_from(k, s, s.len() as int) =~= Seq::<char>::empty());
        assert(s.subrange(0, s.len() as int) + Seq::<char>::empty() =~= s);
    }
}

/// The OSC sequence `ESC ] payload BEL` with the given payload.
pub open spec fn osc_seq(payload: Seq<char>) -> Seq<char> {
    seq![esc(), ']'] + payload + seq![bel()]
}

/// An OSC sequence is removed exactly: text before it (with no ESC or `[`)
/// stays as it is, and what follows it is cleaned as if it stood alone.
pub proof fn lemma_osc_removed(a: Seq<char>, payload: Seq<char>, b: Seq<char>)
    requires
        forall|j: int| 0 <= j < a.len() ==> #[trigger] a[j] != esc() && a[j] != '[',
        forall|j: int| 0 <= j < payload.len() ==> #[trigger] payload[j] != bel() && payload[j] != esc(),
    ensures
        sanitize(a + osc_seq(payload) + b) == a + sanitize(b),
        noise_free(b) ==> sanitize(a + osc_seq(payload) + b) == a + b,
{
    let o = osc_seq(payload);
    let x = o + b;
    assert(a + o + b =~= a + x);
    lemma_plain_prefix(NoiseKind::Osc, a, x);
    lemma_payload_run_exact(x, 2, payload.len() as int);
    assert(noise_len(NoiseKind::Osc, x, 0) == o.len());
    lemma_strip_shift(NoiseKind::Osc, o, b, 0);
    let y = strip(NoiseKind::Osc, b);
    lemma_plain_prefix(NoiseKind::Report, a, y);
    let z = strip(NoiseKind::Report, y);
    lemma_plain_prefix(NoiseKind::Fragment, a, z);
    if noise_free(b) {
        lemma_clean_text_unchanged(b);
    }
}

pub open spec fn all_digits(d: Seq<char>) -> bool {
    forall|j: int| 0 <= j < d.len() ==> is_digit(#[trigger] d[j])
}

/// The cursor position report `ESC [ row ; col R`.
pub open spec fn report_seq(row: Seq<char>, col: Seq<char>) -> Seq<char> {
    seq![esc(), '['] + row + seq![';'] + col + seq!['R']
}

/// The remnant `[ row ; col R` of a report whose ESC was lost.
pub open spec fn fragment_seq(row: Seq<char>, col: Seq<char>) -> Seq<char> {
    seq!['['] + row + seq![';'] + col + seq!['R']
}

/// A cursor position report is removed exactly: text before it (with no ESC
/// or `[`) stays as it is, and what follows it is cleaned as if it stood alone.
pub proof fn lemma_report_removed(a: Seq<char>, row: Seq<char>, col: Seq<char>, b: Seq<char>)
    requires
        forall|j: int| 0 <= j < a.len() ==> #[trigger] a[j] != esc() && a[j] != '[',
        row.len() >= 1,
        col.len() >= 1,
        all_digits(row),
        all_digits(col),
    ensures
        sanitize(a + report_seq(row, col) + b) == a + sanitize(b),
        noise_free(b) ==> sanitize(a + report_seq(row, col) + b) == a + b,
{
    let r = report_seq(row, col);
    let x = r + b;
    let n = row.len() as int;
    let m = col.len() as int;
    assert(a + r + b =~= a + x);
    lemma_plain_prefix(NoiseKind::Osc, a, x);
    // The report holds one ESC, followed by `[`: no OSC starts in it.
    assert forall|j: int| 0 <= j < r.len() implies #[trigger] noise_len(NoiseKind::Osc, x, j)
        == 0 by {
        assert(x[j] == r[j]);
        if j == 0 {
            assert(x[1] == '[');
        } else {
            assert(r[j] != esc());
        }
    }
    lemma_strip_prefix(NoiseKind::Osc, x, r.len() as int, 0);
    lemma_strip_shift(NoiseKind::Osc, r, b, 0);
    assert(x.subrange(0, r.len() as int) =~= r);
    let y = strip(NoiseKind::Osc, b);
    let w = r + y;
    lemma_plain_prefix(NoiseKind::Report, a, w);
    assert forall|j: int| 2 <= j < 2 + n implies is_digit(#[trigger] w[j]) by {
        assert(w[j] == row[j - 2]);
    }
    lemma_digit_run_exact(w, 2, n);
    assert forall|j: int| 3 + n <= j < 3 + n + m implies is_digit(#[trigger] w[j]) by {
        assert(w[j] == col[j - 3 - n]);
    }
    lemma_digit_run_exact(w, 3 + n, m);
    assert(noise_len(NoiseKind::Report, w, 0) == r.len());
    lemma_strip_shift(NoiseKind::Report, r, y, 0);
    let z = strip(NoiseKind::Report, y);
    lemma_plain_prefix(NoiseKind::Fragment, a, z);
    if noise_free(b) {
        lemma_clean_text_unchanged(b);
    }
}

/// The remnant of a cursor position report that lost its ESC is removed by
/// the last pass: text before it (with no ESC or `[`) stays as it is, and
/// what follows it is cleaned as if it stood alone.
pub proof fn lemma_fragment_removed(a: Seq<char>, row: Seq<char>, col: Seq<char>, b: Seq<char>)
    requires
        forall|j: int| 0 <= j < a.len() ==> #[trigger] a[j] != esc() && a[j] != '[',
        1 <= row.len() <= 3,
        1 <= col.len() <= 3,
        all_digits(row),
        all_digits(col),
    ensures
        sanitize(a + fragment_seq(row, col) + b) == a + sanitize(b),
        noise_free(b) ==> sanitize(a + fragment_seq(row, col) + b) == a + b,
{
    let f = fragment_seq(row, col);
    let n = row.len() as int;
    let m = col.len() as int;
    assert forall|j: int| 0 <= j < f.len() implies #[trigger] f[j] != esc() by {
        if 1 <= j < 1 + n {
            assert(f[j] == row[j - 1]);
        } else if 2 + n <= j < 2 + n + m {
            assert(f[j] == col[j - 2 - n]);
        }
    }
    let x = f + b;
    assert(a + f + b =~= a + x);
    lemma_plain_prefix(NoiseKind::Osc, a, x);
    assert forall|j: int| 0 <= j < f.len() implies #[trigger] noise_len(NoiseKind::Osc, x, j)
        == 0 by {
        assert(x[j] == f[j]);
    }
    lemma_strip_prefix(NoiseKind::Osc, x, f.len() as int, 0);
    lemma_strip_shift(NoiseKind::Osc, f, b, 0);
    assert(x.subrange(0, f.len() as int) =~= f);
    let y = strip(NoiseKind::Osc, b);
    let w = f + y;
    lemma_plain_prefix(NoiseKind::Report, a, w);
    assert forall|j: int| 0 <= j < f.len() implies #[trigger] noise_len(NoiseKind::Report, w, j)
        == 0 by {
        assert(w[j] == f[j]);
    }
    lemma_strip_prefix(NoiseKind::Report, w, f.len() as int, 0);
    lemma_strip_shift(NoiseKind::Report, f, y, 0);
    assert(w.subrange(0, f.len() as int) =~= f);
    let z = strip(NoiseKind::Report, y);
    let v = f + z;
    lemma_plain_prefix(NoiseKind::Fragment, a, v);
    assert forall|j: int| 1 <= j < 1 + n implies is_digit(#[trigger] v[j]) by {
        assert(v[j] == row[j - 1]);
    }
    lemma_digit_run_exact(v, 1, n);
    assert forall|j: int| 2 + n <= j < 2 + n + m implies is_digit(#[trigger] v[j]) by {
        assert(v[j] == col[j - 2 - n]);
    }
    lemma_digit_run_exact(v, 2 + n, m);
    assert(noise_len(NoiseKind::Fragment, v, 0) == f.len());
    lemma_strip_shift(NoiseKind::Fragment, f, z, 0);
    if noise_free(b) {
        lemma_clean_text_unchanged(b);
    }
}

/// Plain text (no ESC, no `[`) followed by noise-free text is noise-free.
proof fn lemma_plain_then_clean(a: Seq<char>, b: Seq<char>)
    requires
        forall|j: int| 0 <= j < a.len() ==> #[trigger] a[j] != esc() && a[j] != '[',
        noise_free(b),
    ensures
        noise_free(a + b),
{
    let s = a + b;
    assert forall|k: NoiseKind, i: int| 0 <= i < s.len() implies #[trigger] noise_len(k, s, i)
        == 0 by {
        if i < a.len() {
            assert(s[i] == a[i]);
        } else {
            lemma_noise_len_shift(k, a, b, i - a.len());
            assert(noise_len(k, b, i - a.len()) == 0);
        }
    }
}

/// Sanitizing noise-free text twice gives what sanitizing it once gives.
pub proof fn lemma_sanitize_idempotent_on_clean(s: Seq<char>)
    requires
        noise_free(s),
    ensures
        sanitize(sanitize(s)) == sanitize(s),
{
    lemma_clean_text_unchanged(s);
}

/// Text with neither ESC nor `[`: no noise can start in it.
pub open spec fn plain_text(a: Seq<char>) -> bool {
    forall|j: int| 0 <= j < a.len() ==> #[trigger] a[j] != esc() && a[j] != '['
}

/// Placed in front of any text, `n` leaves nothing of itself after sanitizing.
pub open spec fn removable(n: Seq<char>) -> bool {
    forall|t: Seq<char>| #[trigger] sanitize(n + t) == sanitize(t)
}

/// The pieces of `ps`, one after the other.
pub open spec fn concat_pieces(ps: Seq<Seq<char>>) -> Seq<char>
    decreases ps.len(),
{
    if ps.len() == 0 {
        Seq::empty()
    } else {
        ps[0] + concat_pieces(ps.skip(1))
    }
}

/// The plain-text pieces of `ps`, one after the other.
pub open spec fn plain_pieces(ps: Seq<Seq<char>>) -> Seq<char>
    decreases ps.len(),
{
    if ps.len() == 0 {
        Seq::empty()
    } else {
        (if plain_text(ps[0]) {
            ps[0]
        } else {
            Seq::empty()
        }) + plain_pieces(ps.skip(1))
    }
}

/// Every OSC sequence terminated by BEL is removable.
pub proof fn lemma_osc_removable(payload: Seq<char>)
    requires
        forall|j: int| 0 <= j < payload.len() ==> #[trigger] payload[j] != bel() && payload[j] != esc(),
    ensures
        removable(osc_seq(payload)),
{
    assert forall|t: Seq<char>| #[trigger] sanitize(osc_seq(payload) + t) == sanitize(t) by {
        lemma_osc_removed(Seq::empty(), payload, t);
        assert(Seq::<char>::empty() + osc_seq(payload) + t =~= osc_seq(payload) + t);
        assert(Seq::<char>::empty() + sanitize(t) =~= sanitize(t));
    }
}

/// Every cursor position report is removable.
pub proof fn lemma_report_removable(row: Seq<char>, col: Seq<char>)
    requires
        row.len() >= 1,
        col.len() >= 1,
        all_digits(row),
        all_digits(col),
    ensures
        removable(report_seq(row, col)),
{
    assert forall|t: Seq<char>| #[trigger] sanitize(report_seq(row, col) + t) == sanitize(t) by {
        lemma_report_removed(Seq::empty(), row, col, t);
        assert(Seq::<char>::empty() + report_seq(row, col) + t =~= report_seq(row, col) + t);
        assert(Seq::<char>::empty() + sanitize(t) =~= sanitize(t));
    }
}

/// The OSC sequence `ESC ] payload ESC \` with the given payload.
pub open spec fn osc_st_seq(payload: Seq<char>) -> Seq<char> {
    seq![esc(), ']'] + payload + seq![esc(), '\\']
}

/// Every OSC sequence terminated by `ESC \` is removable.
pub proof fn lemma_osc_st_removable(payload: Seq<char>)
    requires
        forall|j: int| 0 <= j < payload.len() ==> #[trigger] payload[j] != bel() && payload[j] != esc(),
    ensures
        removable(osc_st_seq(payload)),
{
    let o = osc_st_seq(payload);
    assert forall|t: Seq<char>| #[trigger] sanitize(o + t) == sanitize(t) by {
        let x = o + t;
        lemma_payload_run_exact(x, 2, payload.len() as int);
        assert(noise_len(NoiseKind::Osc, x, 0) == o.len());
        lemma_strip_shift(NoiseKind::Osc, o, t, 0);
    }
}

/// The remnant of a cursor position report: one `[` (two where `double`),
/// the row, then `; col` unless `col` is empty, then `R`.
pub open spec fn remnant_seq(double: bool, row: Seq<char>, col: Seq<char>) -> Seq<char> {
    (if double {
        seq!['[', '[']
    } else {
        seq!['[']
    }) + row + (if col.len() > 0 {
        seq![';'] + col
    } else {
        Seq::empty()
    }) + seq!['R']
}

/// Every remnant with one to three digits in its row, and none or one to
/// three in its column, is removable.
pub proof fn lemma_remnant_removable(double: bool, row: Seq<char>, col: Seq<char>)
    requires
        1 <= row.len() <= 3,
        col.len() <= 3,
        all_digits(row),
        all_digits(col),
    ensures
        removable(remnant_seq(double, row, col)),
{
    let f = remnant_seq(double, row, col);
    let k: int = if double {
        2
    } else {
        1
    };
    let n = row.len() as int;
    let m = col.len() as int;
    let p = k + n;
    assert forall|j: int| 0 <= j < f.len() implies #[trigger] f[j] != esc() by {
        if k <= j < p {
            assert(f[j] == row[j - k]);
        } else if m > 0 && p + 1 <= j < p + 1 + m {
            assert(f[j] == col[j - p - 1]);
        }
    }
    assert forall|t: Seq<char>| #[trigger] sanitize(f + t) == sanitize(t) by {
        let x = f + t;
        assert forall|j: int| 0 <= j < f.len() implies #[trigger] noise_len(NoiseKind::Osc, x, j)
            == 0 by {
            assert(x[j] == f[j]);
        }
        lemma_strip_prefix(NoiseKind::Osc, x, f.len() as int, 0);
        lemma_strip_shift(NoiseKind::Osc, f, t, 0);
        assert(x.subrange(0, f.len() as int) =~= f);
        let y = strip(NoiseKind::Osc, t);
        let w = f + y;
        assert forall|j: int| 0 <= j < f.len() implies #[trigger] noise_len(
            NoiseKind::Report,
            w,
            j,
        ) == 0 by {
            assert(w[j] == f[j]);
        }
        lemma_strip_prefix(NoiseKind::Report, w, f.len() as int, 0);
        lemma_strip_shift(NoiseKind::Report, f, y, 0);
        assert(w.subrange(0, f.len() as int) =~= f);
        let z = strip(NoiseKind::Report, y);
        let v = f + z;
        assert(v[k] == row[0]);
        assert forall|j: int| k <= j < p implies is_digit(#[trigger] v[j]) by {
            assert(v[j] == row[j - k]);
        }
        lemma_digit_run_exact(v, k, n);
        if m > 0 {
            assert(v[p] == ';');
            assert forall|j: int| p + 1 <= j < p + 1 + m implies is_digit(#[trigger] v[j]) by {
                assert(v[j] == col[j - p - 1]);
            }
            lemma_digit_run_exact(v, p + 1, m);
        } else {
            assert(v[p] == 'R');
        }
        assert(noise_len(NoiseKind::Fragment, v, 0) == f.len());
        lemma_strip_shift(NoiseKind::Fragment, f, z, 0);
    }
}

proof fn lemma_plain_pieces_plain(ps: Seq<Seq<char>>)
    ensures
        plain_text(plain_pieces(ps)),
    decreases ps.len(),
{
    if ps.len() > 0 {
        lemma_plain_pieces_plain(ps.skip(1));
        let h = if plain_text(ps[0]) {
            ps[0]
        } else {
            Seq::<char>::empty()
        };
        let r = plain_pieces(ps.skip(1));
        assert forall|j: int| 0 <= j < (h + r).len() implies #[trigger] (h + r)[j] != esc() && (h
            + r)[j] != '[' by {
            if j < h.len() {
                assert((h + r)[j] == h[j]);
            } else {
                assert((h + r)[j] == r[j - h.len()]);
            }
        }
    }
}

/// Text made of plain-text pieces and removable pieces, in any order and
/// number, sanitizes to its plain-text pieces, and sanitizing that again
/// changes nothing.
pub proof fn lemma_sanitize_pieces(ps: Seq<Seq<char>>)
    requires
        forall|i: int| 0 <= i < ps.len() ==> plain_text(#[trigger] ps[i]) || removable(ps[i]),
    ensures
        sanitize(concat_pieces(ps)) == plain_pieces(ps),
        sanitize(sanitize(concat_pieces(ps))) == sanitize(concat_pieces(ps)),
    decreases ps.len(),
{
    if ps.len() == 0 {
        lemma_clean_text_unchanged(Seq::<char>::empty());
    } else {
        let rest = ps.skip(1);
        assert forall|i: int| 0 <= i < rest.len() implies plain_text(#[trigger] rest[i]) || removable(
            rest[i],
        ) by {
            assert(rest[i] == ps[i + 1]);
        }
        lemma_sanitize_pieces(rest);
        let a = ps[0];
        let t = concat_pieces(rest);
        if plain_text(a) {
            lemma_plain_prefix(NoiseKind::Osc, a, t);
            lemma_plain_prefix(NoiseKind::Report, a, strip(NoiseKind::Osc, t));
            lemma_plain_prefix(
                NoiseKind::Fragment,
                a,
                strip(NoiseKind::Report, strip(NoiseKind::Osc, t)),
            );
        } else {
            assert(sanitize(a + t) == sanitize(t));
            assert(Seq::<char>::empty() + plain_pieces(rest) =~= plain_pieces(rest));
        }
        lemma_plain_pieces_plain(ps);
        lemma_plain_then_clean(plain_pieces(ps), Seq::empty());
        assert(plain_pieces(ps) + Seq::<char>::empty() =~= plain_pieces(ps));
        lemma_clean_text_unchanged(plain_pieces(ps));
    }
}

/// The run has not yet been told that the session is authenticated.
pub open spec fn before_authentication(s: Stage) -> bool {
    s is Connecting || s is Handshaking || s is Authenticating || s is CheckingAuth || s is Failed
}

/// No channel is opened, and nothing executed, until the session has reported
/// itself authenticated: a run whose events never confirm authentication
/// stays before that point (or has failed).
pub proof fn lemma_no_channel_before_authenticated(s: Stage, es: Seq<Event>, opts: RunOptions)
    requires
        before_authentication(s),
        forall|i: int| 0 <= i < es.len() ==> !(#[trigger] es[i] matches Event::Authenticated(true)),
    ensures
        before_authentication(run_events(s, es, opts)),
    decreases es.len(),
{
    if es.len() > 0 {
        let t = next_stage(s, es[0], opts);
        assert(!(es[0] matches Event::Authenticated(true)));
        assert(before_authentication(t));
        assert forall|i: int| 0 <= i < es.skip(1).len() implies !(#[trigger] es.skip(1)[i] matches Event::Authenticated(true)) by {
            assert(es.skip(1)[i] == es[i + 1]);
        }
        lemma_no_channel_before_authenticated(t, es.skip(1), opts);
    }
}

/// A session whose authentication call succeeded but that then reports
/// itself unauthenticated ends the run with an authentication error.
pub proof fn lemma_unauthenticated_session_fails(opts: RunOptions)
    ensures
        run_events(
            Stage::Authenticating,
            seq![Event::Done, Event::Authenticated(false)],
            opts,
        ) == Stage::Failed(RemoteError::Authentication),
{
    let es = seq![Event::Done, Event::Authenticated(false)];
    assert(es.skip(1).skip(1) =~= Seq::<Event>::empty());
    assert(es.skip(1)[0] == Event::Authenticated(false));
    reveal_with_fuel(run_events, 3);
}

/// A read error on the command's channel ends the read loop but not the run:
/// the run still waits for the channel to close, reads the exit status and
/// succeeds with it, whatever that status is, unless it is configured to
/// fail on a non-zero status.
pub proof fn lemma_read_error_not_fatal(status: i32, opts: RunOptions)
    requires
        !opts.propagate_exit_status || status == 0,
    ensures
        run_events(
            Stage::Reading(Role::Command),
            seq![Event::ReadFailed, Event::Done, Event::Done, Event::ExitStatus(status)],
            opts,
        ) == Stage::Succeeded(status),
{
    let es = seq![Event::ReadFailed, Event::Done, Event::Done, Event::ExitStatus(status)];
    let e1 = es.skip(1);
    let e2 = e1.skip(1);
    let e3 = e2.skip(1);
    assert(e1[0] == Event::Done);
    assert(e2[0] == Event::Done);
    assert(e3[0] == Event::ExitStatus(status));
    assert(e3.skip(1) =~= Seq::<Event>::empty());
    reveal_with_fuel(run_events, 5);
}

/// The install script's channel is drained and then awaited until it closes
/// before the command is executed: after its end of stream, or a read error on
/// it, the run waits for that channel to close, and executes the command only
/// once the close completed.
pub proof fn lemma_setup_closed_before_command(e: Event, opts: RunOptions)
    requires
        e is EndOfStream || e is ReadFailed,
    ensures
        e is EndOfStream ==> next_stage(Stage::Reading(Role::Setup), e, opts) == Stage::WaitingClose(
            Role::Setup,
        ),
        e is ReadFailed ==> run_events(Stage::Reading(Role::Setup), seq![e, Event::Done], opts)
            == Stage::WaitingClose(Role::Setup),
        next_stage(Stage::WaitingClose(Role::Setup), Event::Done, opts) == Stage::Executing(
            Role::Command,
        ),
        next_stage(Stage::WaitingClose(Role::Setup), Event::Failed, opts) == Stage::Failed(
            RemoteError::Channel,
        ),
{
    let es = seq![e, Event::Done];
    let e1 = es.skip(1);
    assert(es[0] == e);
    assert(e1[0] == Event::Done);
    assert(e1.skip(1) =~= Seq::<Event>::empty());
    reveal_with_fuel(run_events, 3);
}

/// A finished run stays finished, whatever it is told.
pub proof fn lemma_finished_is_final(s: Stage, es: Seq<Event>, opts: RunOptions)
    requires
        s is Succeeded || s is Failed,
    ensures
        run_events(s, es, opts) == s,
    decreases es.len(),
{
    if es.len() > 0 {
        lemma_finished_is_final(s, es.skip(1), opts);
    }
}

} // verus!
