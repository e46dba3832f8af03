use azeroth_dashboard::metrics::parse_prometheus_metrics;
use azeroth_dashboard::number::float_text;
use azeroth_dashboard::text::{chars_of, white_space};

fn value(text: &str, name: &str) -> Option<String> {
    parse_prometheus_metrics(text).get(name).cloned()
}

#[test]
fn plain_samples_are_recorded() {
    let t = parse_prometheus_metrics("ac_world_online_players 42\nac_world_login_database_queue 3\n");
    assert_eq!(t.len(), 2);
    assert_eq!(t.get("ac_world_online_players").map(|s| s.as_str()), Some("42"));
    assert_eq!(t.get("ac_world_login_database_queue").map(|s| s.as_str()), Some("3"));
    assert!(t.get("missing").is_none());
}

#[test]
fn empty_text_gives_empty_table() {
    assert_eq!(parse_prometheus_metrics("").len(), 0);
    assert_eq!(parse_prometheus_metrics("\n\n\n").len(), 0);
}

#[test]
fn comment_lines_are_skipped() {
    let t = parse_prometheus_metrics("# HELP ac_world_online_players 7\n# TYPE x 1\nreal 1\n");
    assert_eq!(t.len(), 1);
    assert!(t.get("#").is_none());
    assert!(t.get("HELP").is_none());
    assert_eq!(value("# a 1\nb 2", "b"), Some("2".to_string()));
}

#[test]
fn comment_appended_changes_nothing() {
    let base = "a 1\nb{x=\"y\"} 2";
    let t1 = parse_prometheus_metrics(base);
    let t2 = parse_prometheus_metrics(&format!("{}\n# a 9", base));
    assert_eq!(t1.len(), t2.len());
    for name in ["a", "b", "b{x=\"y\"}"] {
        assert_eq!(t1.get(name), t2.get(name));
    }
}

#[test]
fn labelled_samples_are_recorded_under_both_names() {
    let text = "ac_world_update_phase_duration_seconds_sum{phase=\"update_maps\"} 0.05\n";
    let t = parse_prometheus_metrics(text);
    assert_eq!(t.len(), 2);
    assert_eq!(
        t.get("ac_world_update_phase_duration_seconds_sum{phase=\"update_maps\"}").map(|s| s.as_str()),
        Some("0.05")
    );
    assert_eq!(t.get("ac_world_update_phase_duration_seconds_sum").map(|s| s.as_str()), Some("0.05"));
}

#[test]
fn bare_name_takes_the_last_labelled_value() {
    let text = "m{phase=\"a\"} 1\nm{phase=\"b\"} 2\n";
    let t = parse_prometheus_metrics(text);
    assert_eq!(t.len(), 3);
    assert_eq!(t.get("m").map(|s| s.as_str()), Some("2"));
    assert_eq!(t.get("m{phase=\"a\"}").map(|s| s.as_str()), Some("1"));
}

#[test]
fn brace_at_start_records_empty_bare_name() {
    let t = parse_prometheus_metrics("{a=\"b\"} 5");
    assert_eq!(t.get("").map(|s| s.as_str()), Some("5"));
    assert_eq!(t.get("{a=\"b\"}").map(|s| s.as_str()), Some("5"));
}

#[test]
fn later_lines_replace_earlier_ones() {
    assert_eq!(value("a 1\na 2\n", "a"), Some("2".to_string()));
    assert_eq!(parse_prometheus_metrics("a 1\na 2\n").len(), 1);
}

#[test]
fn unparsable_values_record_nothing_and_do_not_replace() {
    assert_eq!(value("a 1\na abc\n", "a"), Some("1".to_string()));
    assert_eq!(value("a 12ms", "a"), None);
    assert_eq!(value("a{x} oops", "a"), None);
}

#[test]
fn lines_with_one_word_are_skipped() {
    assert_eq!(parse_prometheus_metrics("lonely\n   \n").len(), 0);
}

#[test]
fn extra_words_such_as_timestamps_are_ignored() {
    assert_eq!(value("a 3 1712345678000", "a"), Some("3".to_string()));
}

#[test]
fn white_space_of_every_kind_separates_words() {
    assert_eq!(value("  a\t\t7  \r\n", "a"), Some("7".to_string()));
    assert_eq!(value("a\u{00A0}8", "a"), Some("8".to_string()));
    assert_eq!(value("a\u{3000}9\r\nb 1\r\n", "b"), Some("1".to_string()));
    assert!(white_space('\u{2028}'));
    assert!(white_space('\u{0B}'));
    assert!(!white_space('x'));
    assert!(!white_space('\u{200B}'));
}

#[test]
fn carriage_return_line_endings_are_handled() {
    let t = parse_prometheus_metrics("a 1\r\n#c 2\r\nb 2\r\n");
    assert_eq!(t.len(), 2);
    assert_eq!(t.get("b").map(|s| s.as_str()), Some("2"));
}

#[test]
fn non_ascii_names_are_kept() {
    assert_eq!(value("métrique 4", "métrique"), Some("4".to_string()));
}

#[test]
fn every_recorded_value_parses_as_a_number() {
    let text = "a 1\nb 1e5\nc NaN\nd -Inf\ne +inf\nf .5\ng 5.\nh 1.5E-3\ni x\nj 1e\nk .\nl 0x10\n";
    let t = parse_prometheus_metrics(text);
    for name in ["a", "b", "c", "d", "e", "f", "g", "h"] {
        let v = t.get(name).expect(name);
        assert!(v.parse::<f64>().is_ok(), "{}", name);
    }
    for name in ["i", "j", "k", "l"] {
        assert!(t.get(name).is_none(), "{}", name);
    }
}

fn float_ok(s: &str) -> bool {
    float_text(&s.chars().collect::<Vec<char>>())
}

#[test]
fn float_syntax_matches_std_parsing() {
    let samples = [
        "0", "42", "-1", "+1", "1.", ".5", "1.5", "1e10", "1E10", "1e+10", "1e-10", "1.5e3",
        ".5e1", "inf", "INF", "Infinity", "-infinity", "+Infinity", "nan", "NaN", "-nan", "",
        ".", "+", "-", "e5", "1e", "1e+", "1.2.3", "1e5.0", "infinit", "nana", " 1", "1 ", "0x1",
        "1_000", "..5", "1..", "+-1", "e", "E1", "5E", "١", "inF", "nAn",
    ];
    for s in samples {
        assert_eq!(float_ok(s), s.parse::<f64>().is_ok(), "{:?}", s);
    }
}

#[test]
fn chars_of_keeps_every_character() {
    assert_eq!(chars_of("aé\u{1F6A8}"), vec!['a', 'é', '\u{1F6A8}']);
    assert_eq!(chars_of(""), Vec::<char>::new());
}

#[test]
fn joined_texts_overlay_the_second_on_the_first() {
    let a = "x 1\ny{l=\"a\"} 2\n# c 3";
    let b = "y 5\nz 6";
    let joined = parse_prometheus_metrics(&format!("{}\n{}", a, b));
    let ta = parse_prometheus_metrics(a);
    let tb = parse_prometheus_metrics(b);
    for k in ["x", "y", "y{l=\"a\"}", "z", "#", "c", "w"] {
        assert_eq!(joined.get(k), tb.get(k).or(ta.get(k)), "{}", k);
    }
    assert_eq!(joined.len(), 4);
}

#[test]
fn value_comes_from_the_last_line_recording_the_name() {
    let text = "k 1\nk{a=\"b\"} 2\nk bad\nother 3\n# k 9";
    assert_eq!(value(text, "k"), Some("2".to_string()));
}
