use pm2_remote::noise::{clean_chunk, clean_terminal_noises};
use regex::Regex;

fn regex_pipeline(s: &str) -> String {
    let osc_re = Regex::new(r"\x1b\][^\x07\x1b]*(\x07|\x1b\\)").unwrap();
    let csi_dsr_re = Regex::new(r"\x1b\[\d+;\d+R").unwrap();
    let malformed_csi_re = Regex::new(r"\[{1,2}\d{1,3}(;\d{1,3})?R").unwrap();
    let cleaned = osc_re.replace_all(s, "");
    let cleaned = csi_dsr_re.replace_all(&cleaned, "");
    let cleaned = malformed_csi_re.replace_all(&cleaned, "");
    cleaned.into_owned()
}

const SAMPLES: &[&str] = &[
    "",
    "plain text",
    "hello world [not a report] 123;45 R",
    "ab\x1b]0;title\x07cd",
    "\x1b]2;window\x1b\\rest",
    "a\x1b]0;x\x07b\x1b]0;y\x07c",
    "x\x1b[24;80Ry",
    "x[24;80Ry",
    "[[5R",
    "[1234R",
    "[12;3456R",
    "[[[1R",
    "\x1b[31mred\x1b[0m",
    "\x1b]0;unterminated",
    "[1[2RR",
    "line1\r\n\x1b]0;user@host: ~\x07$ \x1b[6;1Rpm2 status\r\n",
    "caf\u{e9} \x1b]0;t\x07\u{1F600}",
];

#[test]
fn clean_input_unchanged() {
    let s = "hello world [not a report] 123;45 R";
    assert_eq!(clean_terminal_noises(s), s);
    assert_eq!(clean_terminal_noises(""), "");
}

#[test]
fn osc_removed_exactly() {
    assert_eq!(clean_terminal_noises("ab\x1b]0;title\x07cd"), "abcd");
    assert_eq!(clean_terminal_noises("\x1b]2;window\x1b\\rest"), "rest");
}

#[test]
fn osc_removed_non_greedily() {
    assert_eq!(clean_terminal_noises("a\x1b]0;x\x07b\x1b]0;y\x07c"), "abc");
}

#[test]
fn unterminated_osc_kept() {
    assert_eq!(clean_terminal_noises("\x1b]0;unterminated"), "\x1b]0;unterminated");
}

#[test]
fn cursor_report_removed() {
    assert_eq!(clean_terminal_noises("x\x1b[24;80Ry"), "xy");
}

#[test]
fn report_fragment_removed() {
    assert_eq!(clean_terminal_noises("x[24;80Ry"), "xy");
    assert_eq!(clean_terminal_noises("[[5R"), "");
    assert_eq!(clean_terminal_noises("[[[1R"), "[");
}

#[test]
fn long_fragment_kept() {
    assert_eq!(clean_terminal_noises("[1234R"), "[1234R");
    assert_eq!(clean_terminal_noises("[12;3456R"), "[12;3456R");
}

#[test]
fn colour_sequences_kept() {
    assert_eq!(clean_terminal_noises("\x1b[31mred\x1b[0m"), "\x1b[31mred\x1b[0m");
}

#[test]
fn sanitize_idempotent_on_samples() {
    for s in SAMPLES.iter().filter(|s| **s != "[1[2RR") {
        let once = clean_terminal_noises(s);
        assert_eq!(clean_terminal_noises(&once), once, "input {:?}", s);
    }
}

#[test]
fn single_pass_can_expose_fragment() {
    assert_eq!(clean_terminal_noises("[1[2RR"), "[1R");
    assert_eq!(clean_terminal_noises("[1R"), "");
}

#[test]
fn agrees_with_regex_passes() {
    for s in SAMPLES {
        assert_eq!(clean_terminal_noises(s), regex_pipeline(s), "input {:?}", s);
    }
}

#[test]
fn shell_prompt_noise_removed() {
    assert_eq!(
        clean_terminal_noises("line1\r\n\x1b]0;user@host: ~\x07$ \x1b[6;1Rpm2 status\r\n"),
        "line1\r\n$ pm2 status\r\n"
    );
}

#[test]
fn chunk_decoded_lossily() {
    let bytes = [b'o', b'k', 0xff, b'!'];
    assert_eq!(clean_chunk(&bytes), "ok\u{FFFD}!");
    assert_eq!(clean_chunk(b"a\x1b]0;t\x07b"), "ab");
}

#[test]
fn split_sequence_leaves_fragment() {
    let first = clean_chunk(b"abc\x1b]0;ti");
    let second = clean_chunk(b"tle\x07def");
    assert_eq!(first, "abc\x1b]0;ti");
    assert_eq!(second, "tle\x07def");
}

#[test]
fn split_multibyte_char_does_not_panic() {
    let s = "\u{e9}".as_bytes();
    assert_eq!(clean_chunk(&s[..1]), "\u{FFFD}");
    assert_eq!(clean_chunk(&s[1..]), "\u{FFFD}");
}

#[test]
fn non_ascii_digits_not_noise() {
    let report = "x\x1b[\u{662}\u{664};\u{668}\u{660}Ry";
    let fragment = "x[\u{662}\u{664};\u{668}\u{660}Ry";
    assert_eq!(clean_terminal_noises(report), report);
    assert_eq!(clean_terminal_noises(fragment), fragment);
    // The Unicode-aware `\d` of the regex passes would remove both.
    assert_eq!(regex_pipeline(report), "xy");
    assert_eq!(regex_pipeline(fragment), "xy");
}

#[test]
fn mixed_pieces_clean_to_plain_text() {
    let s = "a\x1b]0;t\x07b\x1b]2;w\x1b\\c\x1b[12;4Rd[[7Re[9;99Rf[3R";
    let once = clean_terminal_noises(s);
    assert_eq!(once, "abcdef");
    assert_eq!(clean_terminal_noises(&once), once);
}
