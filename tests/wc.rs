use wcr::{column_width, count, format_field, format_row, report, resolve, tally};
use wcr::{Config, FileInfo, Selection, Totals};

fn names(list: &[&str]) -> Vec<String> {
    list.iter().map(|s| s.to_string()).collect()
}

fn all_four() -> Selection {
    Selection { lines: true, words: true, bytes: true, chars: true }
}

#[test]
fn test_count() {
    let text = "I don't want the world. I just want your half.\r\n";
    let filename = "".to_string();
    let info = count(filename.clone(), text.as_bytes());
    assert!(info.is_ok());
    let expected = FileInfo {
        filename: filename.clone(),
        error_msg: "".to_string(),
        num_lines: 1,
        num_words: 10,
        num_chars: 48,
        num_bytes: 48,
    };
    assert_eq!(info.unwrap(), expected);
}

#[test]
fn test_format_field() {
    assert_eq!(format_field(1, 1, false), "");
    assert_eq!(format_field(3, 1, true), "3 ");
    assert_eq!(format_field(10, 2, true), "10 ");
}

#[test]
fn format_field_pads_on_the_left() {
    assert_eq!(format_field(6, 7, true), "      6 ");
    assert_eq!(format_field(12345, 2, true), "12345 ");
    assert_eq!(format_field(0, 3, true), "  0 ");
}

#[test]
fn empty_input_counts_zero() {
    let info = count("e".to_string(), b"").unwrap();
    assert_eq!((info.num_lines, info.num_words, info.num_bytes, info.num_chars), (0, 0, 0, 0));
}

#[test]
fn ascii_bytes_equal_chars() {
    let info = count("a".to_string(), b"hello\tworld\n  x").unwrap();
    assert_eq!(info.num_bytes, info.num_chars);
    assert_eq!(info.num_bytes, 15);
}

#[test]
fn multibyte_chars_differ_from_bytes() {
    let info = count("u".to_string(), "héllo wörld\n".as_bytes()).unwrap();
    assert_eq!(info.num_bytes, 14);
    assert_eq!(info.num_chars, 12);
    assert_eq!(info.num_words, 2);
    assert_eq!(info.num_lines, 1);
}

#[test]
fn unterminated_last_line_counts() {
    let info = count("l".to_string(), b"one\ntwo\nthree").unwrap();
    assert_eq!(info.num_lines, 3);
    let info = count("l".to_string(), b"one\ntwo\nthree\n").unwrap();
    assert_eq!(info.num_lines, 3);
    let info = count("l".to_string(), b"\n\n").unwrap();
    assert_eq!(info.num_lines, 2);
}

#[test]
fn words_span_whole_input() {
    let info = count("w".to_string(), b"  a  b\n\nc d\te  \n").unwrap();
    assert_eq!(info.num_words, 5);
    let info = count("w".to_string(), "a\u{3000}b\u{a0}c".as_bytes()).unwrap();
    assert_eq!(info.num_words, 3);
}

#[test]
fn invalid_utf8_is_an_error() {
    let r = count("bad".to_string(), &[b'a', 0xff, b'\n']);
    assert_eq!(r, Err("stream did not contain valid UTF-8".to_string()));
}

#[test]
fn failed_info_message() {
    let info = FileInfo::failed("nope".to_string(), "No such file or directory (os error 2)");
    assert_eq!(info.error_msg, "nope: No such file or directory (os error 2)");
    assert!(info.has_error());
    assert_eq!(info.num_lines, 0);
}

#[test]
fn config_defaults() {
    let c = Config::new(vec![], false, false, false, false);
    assert_eq!(c.files, vec!["-".to_string()]);
    assert!(c.lines && c.words && c.bytes && !c.chars);
    let c = Config::new(names(&["a"]), false, false, false, true);
    assert_eq!(c.files, names(&["a"]));
    assert!(!c.lines && !c.words && !c.bytes && c.chars);
}

#[test]
fn resolve_stdin_name() {
    let r = resolve(&"-".to_string());
    assert!(r.stdin);
    assert_eq!(r.display, "");
    let r = resolve(&"f.txt".to_string());
    assert!(!r.stdin);
    assert_eq!(r.display, "f.txt");
}

#[test]
fn width_single_statistic() {
    let sel = Selection { lines: true, words: false, bytes: false, chars: false };
    let t = Totals { lines: 7, words: 9, bytes: 99, chars: 99 };
    assert_eq!(column_width(&names(&["f"]), sel, &t), 1);
}

#[test]
fn width_two_statistics_zero() {
    let sel = Selection { lines: true, words: true, bytes: false, chars: false };
    let t = Totals { lines: 0, words: 0, bytes: 0, chars: 0 };
    assert_eq!(column_width(&names(&["f"]), sel, &t), 1);
}

#[test]
fn width_two_statistics_multi_digit() {
    let sel = Selection { lines: true, words: false, bytes: true, chars: false };
    let t = Totals { lines: 12, words: 0, bytes: 12345, chars: 0 };
    assert_eq!(column_width(&names(&["f"]), sel, &t), 5);
    let t = Totals { lines: 1, words: 0, bytes: 3, chars: 0 };
    assert_eq!(column_width(&names(&["f"]), sel, &t), 2);
}

#[test]
fn width_stdin_is_seven() {
    let sel = all_four();
    let t = Totals { lines: 1003, words: 0, bytes: 123456789, chars: 0 };
    assert_eq!(column_width(&names(&["big", "-"]), sel, &t), 7);
    let t = Totals { lines: 0, words: 0, bytes: 0, chars: 0 };
    assert_eq!(column_width(&names(&["-"]), sel, &t), 7);
}

#[test]
fn stdin_and_large_file_use_width_seven() {
    let stdin = count("-".to_string(), b"a\nb\nc\n").unwrap();
    let big = count("big".to_string(), "x\n".repeat(1000).as_bytes()).unwrap();
    let config = Config::new(names(&["-", "big"]), true, false, false, false);
    let r = report(&config, &vec![stdin, big]);
    assert_eq!(r.out, vec!["      3 ", "   1000 big", "   1003 total"]);
}

#[test]
fn scenario_named_file_all_statistics() {
    let info = count("f.txt".to_string(), b"a b\nc\n").unwrap();
    assert_eq!((info.num_lines, info.num_words, info.num_bytes, info.num_chars), (2, 3, 6, 6));
    let config = Config::new(names(&["f.txt"]), true, true, true, true);
    let r = report(&config, &vec![info]);
    assert_eq!(r.out, vec![" 2  3  6  6 f.txt"]);
    assert!(r.err.is_empty());
}

#[test]
fn scenario_stdin_bytes_only() {
    let info = count("-".to_string(), b"a b\nc\n").unwrap();
    let config = Config::new(names(&["-"]), false, false, true, false);
    let r = report(&config, &vec![info]);
    assert_eq!(r.out, vec!["      6 "]);
}

#[test]
fn missing_file_with_valid_file() {
    let missing = FileInfo::failed("nope".to_string(), "No such file or directory (os error 2)");
    let good = count("good".to_string(), b"one two\n").unwrap();
    let config = Config::new(names(&["nope", "good"]), false, false, false, false);
    let r = report(&config, &vec![missing, good]);
    assert_eq!(r.err, vec!["nope: No such file or directory (os error 2)"]);
    assert_eq!(r.out, vec![" 1  2  8 good", " 1  2  8 total"]);
}

#[test]
fn only_failures_still_print_total() {
    let a = FileInfo::failed("a".to_string(), "gone");
    let b = FileInfo::failed("b".to_string(), "gone");
    let config = Config::new(names(&["a", "b"]), false, false, false, false);
    let r = report(&config, &vec![a, b]);
    assert_eq!(r.err, vec!["a: gone", "b: gone"]);
    assert_eq!(r.out, vec!["0 0 0 total"]);
}

#[test]
fn permuted_inputs_keep_totals() {
    let a = count("a".to_string(), b"one\ntwo three\n").unwrap();
    let b = count("b".to_string(), b"x").unwrap();
    let config1 = Config::new(names(&["a", "b"]), false, false, false, false);
    let config2 = Config::new(names(&["b", "a"]), false, false, false, false);
    let r1 = report(&config1, &vec![a.clone(), b.clone()]);
    let r2 = report(&config2, &vec![b.clone(), a.clone()]);
    assert_eq!(r1.out[2], r2.out[2]);
    assert_eq!(r1.out[0], r2.out[1]);
    assert_eq!(tally(&vec![a.clone(), b.clone()]), tally(&vec![b, a]));
}

#[test]
fn tally_skips_failures_and_detects_overflow() {
    let good = count("g".to_string(), b"a b\n").unwrap();
    let bad = FileInfo::failed("x".to_string(), "gone");
    let t = tally(&vec![good.clone(), bad]).unwrap();
    assert_eq!(t, Totals { lines: 1, words: 2, bytes: 4, chars: 4 });
    let mut huge = good.clone();
    huge.num_bytes = usize::MAX;
    assert_eq!(tally(&vec![huge, good]), None);
}

#[test]
fn format_row_selected_fields() {
    let sel = Selection { lines: true, words: false, bytes: true, chars: false };
    assert_eq!(format_row(1, 2, 30, 4, sel, 3, "name"), "  1  30 name");
    let mut t = Totals::new();
    t.add(&count("g".to_string(), b"a b\n").unwrap());
    assert_eq!(t, Totals { lines: 1, words: 2, bytes: 4, chars: 4 });
}
