use std::time::Duration;

use ytdl::download::{command_result, parse_output, Output};
use ytdl::text::{split_lines, trimmed};
use ytdl::utils::{human_duration, parse_size, total_download_bytes, ParseError};

fn record(bytes: &str) -> Output {
    Output {
        id: "id".to_string(),
        title: "title".to_string(),
        bytes: bytes.to_string(),
        duration: "00:00:01".to_string(),
    }
}

#[test]
fn parse_one_record() {
    let out = parse_output("abc123\nSample Title\n10485760\n00:03:21\n".to_string());
    assert_eq!(out.len(), 1);
    assert_eq!(out[0].id, "abc123");
    assert_eq!(out[0].title, "Sample Title");
    assert_eq!(out[0].bytes, "10485760");
    assert_eq!(out[0].duration, "00:03:21");
}

#[test]
fn parse_drops_partial_group() {
    let out = parse_output("a\nb\nc\nd\ne\nf".to_string());
    assert_eq!(out.len(), 1);
    assert_eq!(out[0].id, "a");
    assert_eq!(out[0].duration, "d");
}

#[test]
fn parse_trims_and_keeps_order() {
    let text = "  x1 \r\n T1\n 5 \n0:01\ny2\nT2\n7\n0:02\n";
    let out = parse_output(text.to_string());
    assert_eq!(out.len(), 2);
    assert_eq!(out[0].id, "x1");
    assert_eq!(out[0].title, "T1");
    assert_eq!(out[0].bytes, "5");
    assert_eq!(out[1].id, "y2");
    assert_eq!(out[1].duration, "0:02");
    assert!(parse_output(String::new()).is_empty());
}

#[test]
fn total_bytes_adds_sizes() {
    let outputs = vec![record("1024"), record("2048")];
    assert_eq!(total_download_bytes(&outputs), Ok(3072));
    assert_eq!(total_download_bytes(&[]), Ok(0));
}

#[test]
fn total_bytes_fails_on_bad_size() {
    let outputs = vec![record("1024"), record("abc")];
    assert_eq!(total_download_bytes(&outputs), Err(ParseError::InvalidSize));
    assert_eq!(total_download_bytes(&[record("")]), Err(ParseError::InvalidSize));
    assert_eq!(total_download_bytes(&[record("-1")]), Err(ParseError::InvalidSize));
}

#[test]
fn total_bytes_overflow() {
    let outputs = vec![record("18446744073709551615"), record("1")];
    assert_eq!(total_download_bytes(&outputs), Err(ParseError::TotalOverflow));
}

#[test]
fn size_parsing_matches_integer_literals() {
    assert_eq!(parse_size("0"), Some(0));
    assert_eq!(parse_size("+42"), Some(42));
    assert_eq!(parse_size("007"), Some(7));
    assert_eq!(parse_size("18446744073709551615"), Some(u64::MAX));
    assert_eq!(parse_size("18446744073709551616"), None);
    assert_eq!(parse_size("+"), None);
    assert_eq!(parse_size("1 2"), None);
    for s in ["0", "+42", "007", "18446744073709551616", "+", "", "x", "99999999999999999999x"] {
        assert_eq!(parse_size(s), s.parse::<u64>().ok());
    }
}

#[test]
fn duration_units() {
    assert_eq!(human_duration(0), "0\u{3bc}s");
    assert_eq!(human_duration(999), "999\u{3bc}s");
    assert_eq!(human_duration(1000), "1ms");
    assert_eq!(human_duration(999_999), "999ms");
    assert_eq!(human_duration(1_000_000), "1s");
    assert_eq!(human_duration(125_700_000), "125s");
    assert_eq!(human_duration(Duration::from_millis(1500).as_micros()), "1s");
    assert_eq!(human_duration(Duration::from_micros(250).as_micros()), "250\u{3bc}s");
    assert_eq!(human_duration(Duration::from_micros(42_000).as_micros()), "42ms");
}

#[test]
fn command_result_picks_stream() {
    assert_eq!(command_result(true, "out".to_string(), "err".to_string()), Ok("out".to_string()));
    assert_eq!(command_result(false, "out".to_string(), "err".to_string()), Err("err".to_string()));
}

#[test]
fn lines_and_trimming() {
    assert_eq!(split_lines("a\nb\n"), vec!["a".to_string(), "b".to_string()]);
    assert_eq!(split_lines("a\n\nb"), vec!["a".to_string(), String::new(), "b".to_string()]);
    assert!(split_lines("").is_empty());
    assert_eq!(split_lines("\n"), vec![String::new()]);
    assert_eq!(trimmed("\u{a0} x y\t\r\n"), "x y");
    assert_eq!(trimmed("   "), "");
}
