use azulbox::cleaner::{clean_lyrics_with, lyrics_cleaner, turn_into_lrcline};
use azulbox::coalesce::coalesce_lines;
use azulbox::lrc::{CleanerConfig, LrcLine, Similarity};
use azulbox::marker::collect_time_stamp;
use azulbox::sanitize::sanitize_exec;
use azulbox::similarity::{cosine_exceeds_exec, shared_count_exec};
use azulbox::text::{chars_of, nonempty_lines_exec, trimmed};
use azulbox::timestamp::{parse_marker, ParseError, TimeStamp};

fn chars(s: &str) -> Vec<char> {
    s.chars().collect()
}

fn line(minutes: u8, centis: u32, text: &str) -> LrcLine {
    LrcLine { timestamp: TimeStamp { minutes, centis }, content: chars(text) }
}

fn text(v: &[char]) -> String {
    v.iter().collect()
}

#[test]
fn duplicate_in_tight_window_is_dropped() {
    let input = "Title\nArtist\n[00:10.00]Hello\n[00:10.30]Hello\n";
    assert_eq!(lyrics_cleaner(input), Ok("[00:10.00]Hello".to_string()));
}

#[test]
fn coincident_captions_are_joined() {
    let input = "Title\nArtist\n[00:05.00]Singer one\n[00:05.40]Singer two\n";
    assert_eq!(lyrics_cleaner(input), Ok("[00:05.00]Singer one Singer two".to_string()));
}

#[test]
fn sanitizer_strips_escapes_and_tags() {
    let mut l = line(0, 0, "Hello\\nworld<b></b>");
    let copy = l.clean();
    assert_eq!(text(&l.content), "Helloworld");
    assert_eq!(text(&copy.content), "Helloworld");
    assert_eq!(text(&sanitize_exec(&chars("<i>a</i>\\Nb<<b>>"))), "ab<>");
    assert_eq!(text(&sanitize_exec(&chars("no markup <ab> \\1"))), "no markup <ab> \\1");
}

#[test]
fn empty_input_gives_empty_output() {
    assert_eq!(lyrics_cleaner(""), Ok(String::new()));
}

#[test]
fn text_without_markers_gives_empty_output() {
    assert_eq!(lyrics_cleaner("just\nsome\nwords\n"), Ok(String::new()));
}

#[test]
fn marker_past_the_last_line_is_an_error() {
    assert_eq!(lyrics_cleaner("[00:01.00]alone"), Err(ParseError::MissingLine));
    let input = "Title\nArtist\n[00:01.00]one\n\n[00:09.00]two [00:20.00]\n";
    assert_eq!(lyrics_cleaner(input), Err(ParseError::MissingLine));
}

#[test]
fn minutes_beyond_a_byte_are_an_error() {
    let input = "a\nb\n[256:00.00]x\n";
    assert_eq!(lyrics_cleaner(input), Err(ParseError::Minutes));
}

#[test]
fn seconds_beyond_range_are_an_error() {
    let input = "a\nb\n[00:99999999999.00]x\n";
    assert_eq!(lyrics_cleaner(input), Err(ParseError::Seconds));
}

#[test]
fn rerun_of_empty_output_is_empty() {
    let first = lyrics_cleaner("no markers here").unwrap();
    assert_eq!(first, "");
    assert_eq!(lyrics_cleaner(&first), Ok(first.clone()));
}

#[test]
fn rerun_of_nonempty_output_misses_lines() {
    let first = lyrics_cleaner("x\ny\n[00:01.00]Hello\n").unwrap();
    assert_eq!(first, "[00:01.00]Hello");
    assert_eq!(lyrics_cleaner(&first), Err(ParseError::MissingLine));
}

#[test]
fn output_follows_input_order() {
    let input = "h1\nh2\n[00:01.00]alpha\n[00:05.00]bravo\n[00:05.20]bravo\n[00:09.00]charlie\n[01:00.00]delta\n";
    let out = lyrics_cleaner(input).unwrap();
    assert_eq!(out, "[00:01.00]alpha\n[00:05.00]bravo\n[00:09.00]charlie\n[01:00.00]delta");
    let lines: Vec<&str> = out.lines().collect();
    let mut sorted = lines.clone();
    sorted.sort();
    assert_eq!(lines, sorted);
}

#[test]
fn output_has_no_more_lines_than_markers() {
    let input = "h1\nh2\n[00:01.00]a\n[00:01.10]b\n[00:01.20]a b\n[00:03.00]c\n[00:03.00]c\n";
    let markers = collect_time_stamp(&chars(input)).len();
    let out = lyrics_cleaner(input).unwrap();
    assert_eq!(markers, 5);
    assert!(out.lines().count() <= markers);
    assert_eq!(out, "[00:01.00]a b\n[00:03.00]c");
}

#[test]
fn line_offset_is_configurable() {
    let mut cfg = CleanerConfig::standard();
    cfg.line_offset = 0;
    let out = clean_lyrics_with("[00:01.00] first\n[00:04.00] second\n", &cfg);
    assert_eq!(out, Ok("[00:01.00]first\n[00:04.00]second".to_string()));
}

#[test]
fn markers_are_found_in_order_with_repeats() {
    let found = collect_time_stamp(&chars("x[00:01.00]y [1:2.3] [00:01.00][ab:1.2][3:4][5:6.]"));
    let found: Vec<String> = found.iter().map(|m| text(m)).collect();
    assert_eq!(found, vec!["[00:01.00]", "[1:2.3]", "[00:01.00]"]);
    assert!(collect_time_stamp(&chars("")).is_empty());
}

#[test]
fn markers_parse_to_minutes_and_hundredths() {
    assert_eq!(parse_marker(&chars("[02:15.34]")), Ok(TimeStamp { minutes: 2, centis: 1534 }));
    assert_eq!(parse_marker(&chars("[7:5.4]")), Ok(TimeStamp { minutes: 7, centis: 540 }));
    assert_eq!(parse_marker(&chars("[0:1.005]")), Ok(TimeStamp { minutes: 0, centis: 101 }));
    assert_eq!(parse_marker(&chars("[0:1.004]")), Ok(TimeStamp { minutes: 0, centis: 100 }));
    assert_eq!(parse_marker(&chars("[255:0.0]")), Ok(TimeStamp { minutes: 255, centis: 0 }));
    assert_eq!(parse_marker(&chars("[300:0.0]")), Err(ParseError::Minutes));
}

#[test]
fn assembly_takes_the_line_two_further_on() {
    let times = vec![chars("[00:01.00]"), chars("[00:02.00]")];
    let lines = vec![chars("a"), chars("b"), chars("  [00:01.00] one [00:01.00] "), chars("two")];
    let events = turn_into_lrcline(&times, &lines, 2).unwrap();
    assert_eq!(events.len(), 2);
    assert_eq!(text(&events[0].content), "one");
    assert_eq!(events[0].timestamp, TimeStamp { minutes: 0, centis: 100 });
    assert_eq!(text(&events[1].content), "two");
    assert_eq!(turn_into_lrcline(&times, &lines[..3].to_vec(), 2).err(), Some(ParseError::MissingLine));
}

#[test]
fn lines_split_and_blank_lines_dropped() {
    let lines = nonempty_lines_exec(&chars("a\r\n\nb\n\r\n c\r"));
    let lines: Vec<String> = lines.iter().map(|l| text(l)).collect();
    assert_eq!(lines, vec!["a", "b", " c\r"]);
}

#[test]
fn trim_removes_unicode_white_space() {
    assert_eq!(text(&trimmed(&chars("\u{3000} a b\t\n"))), "a b");
    assert_eq!(text(&trimmed(&chars("   "))), "");
}

#[test]
fn classification_covers_all_five_outcomes() {
    let cfg = CleanerConfig::standard();
    let a = line(0, 1000, "Hello");
    assert_eq!(a.is_similar(&line(0, 1030, "Hello"), &cfg), Similarity::Duplicate);
    assert_eq!(a.is_similar(&line(0, 1150, "Hello"), &cfg), Similarity::Duplicate);
    assert_eq!(a.is_similar(&line(0, 1030, "Hello there friend"), &cfg), Similarity::BContainsA);
    let long = line(0, 1000, "Hello there friend");
    assert_eq!(long.is_similar(&line(0, 1030, "there"), &cfg), Similarity::AContainsB);
    assert_eq!(a.is_similar(&line(0, 1050, "Goodbye"), &cfg), Similarity::TimeCoincident);
    assert_eq!(a.is_similar(&line(0, 1051, "Goodbye"), &cfg), Similarity::Distinct);
    assert_eq!(a.is_similar(&line(0, 990, "Goodbye"), &cfg), Similarity::Distinct);
    assert_eq!(a.is_similar(&line(1, 1000, "Hello"), &cfg), Similarity::Distinct);
    assert_eq!(a.is_similar(&line(0, 1200, "Hello"), &cfg), Similarity::Distinct);
}

#[test]
fn merge_keeps_first_stamp_and_joins_with_a_space() {
    let m = line(1, 200, "one").merge(&line(1, 230, "two"));
    assert_eq!(m.timestamp, TimeStamp { minutes: 1, centis: 200 });
    assert_eq!(text(&m.content), "one two");
}

#[test]
fn coalescing_merges_drops_and_appends() {
    let cfg = CleanerConfig::standard();
    assert!(coalesce_lines(&vec![], &cfg).is_empty());
    let single = coalesce_lines(&vec![line(0, 100, "x")], &cfg);
    assert_eq!(single.len(), 1);
    assert_eq!(text(&single[0].content), "x");
    let lines = vec![
        line(0, 100, "Hello there friend"),
        line(0, 120, "there"),
        line(0, 130, "Hello there friend there and more"),
        line(0, 400, "next"),
    ];
    let out = coalesce_lines(&lines, &cfg);
    assert_eq!(out.len(), 2);
    assert_eq!(text(&out[0].content), "Hello there friend there");
    assert_eq!(text(&out[1].content), "next");
}

#[test]
fn render_pads_minutes_and_seconds() {
    assert_eq!(line(5, 540, "x").return_lrc(), "[05:05.40]x");
    assert_eq!(line(0, 0, "").return_lrc(), "[00:00.00]");
    assert_eq!(line(123, 12345, "y").return_lrc(), "[123:123.45]y");
    assert_eq!(line(2, 1534, "z").return_lrc(), "[02:15.34]z");
}

#[test]
fn shared_characters_count_repeats() {
    assert_eq!(shared_count_exec(&chars("Singer one"), &chars("Singer two")), 8);
    assert_eq!(shared_count_exec(&chars("aab"), &chars("abb")), 2);
    assert_eq!(shared_count_exec(&chars(""), &chars("abc")), 0);
}

#[test]
fn similarity_agrees_with_textdistance() {
    let pairs = [
        ("Hello", "Hello"),
        ("Singer one", "Singer two"),
        ("test", "text"),
        ("nelson", "neilsen"),
        ("", ""),
        ("", "a"),
        ("abcdefghij", "abcdefghik"),
        ("abcdefghijklmnopqrst", "abcdefghijklmnopqrsx"),
        ("the same words", "the same word"),
        ("aaaa", "aaab"),
    ];
    for (a, b) in pairs {
        let score = textdistance::nstr::cosine(a, b);
        for pct in [85u32, 90, 50, 0, 100] {
            let expected = score > pct as f64 / 100.0;
            assert_eq!(cosine_exceeds_exec(&chars(a), &chars(b), pct), expected, "{a:?} {b:?} {pct}");
        }
    }
}

#[test]
fn characters_of_a_string() {
    assert_eq!(chars_of("añb"), vec!['a', 'ñ', 'b']);
}

#[test]
fn difference_is_taken_part_by_part() {
    let a = TimeStamp { minutes: 1, centis: 500 };
    let b = TimeStamp { minutes: 0, centis: 5800 };
    let d = a.minus(&b);
    assert_eq!(d.minutes, 1);
    assert_eq!(d.centis, -5300);
}
