use agentflow::pipeline::StageResult;
use agentflow::report::{build_report, build_report_at, timestamp, LocalTime};
use chrono::{Datelike, NaiveDate, Timelike};
use agentflow::text::{trim_end_char, trim_white_space};

fn results() -> Vec<StageResult> {
    vec![
        StageResult { agent: "researcher".into(), provider_label: "cli:askbot".into(), output: "facts".into() },
        StageResult { agent: "coder".into(), provider_label: "openai:gpt".into(), output: "code".into() },
    ]
}

#[test]
fn report_lists_every_stage() {
    let r = build_report_at("Viết API", &results(), "2024-01-02 03:04:05");
    assert_eq!(
        r,
        "# Báo cáo agentflow\n\n**Task:** Viết API\n\n_Tạo lúc: 2024-01-02 03:04:05_\n\n---\n\n## researcher (cli:askbot)\n\nfacts\n\n---\n\n## coder (openai:gpt)\n\ncode\n"
    );
}

fn at(year: i32, month: u32, day: u32, hour: u32, minute: u32, second: u32) -> LocalTime {
    LocalTime { year, month, day, hour, minute, second }
}

#[test]
fn report_is_stamped_with_the_given_time() {
    let r = build_report("T", &results(), &at(2024, 1, 2, 3, 4, 5));
    assert_eq!(r, build_report_at("T", &results(), "2024-01-02 03:04:05"));
}

#[test]
fn timestamp_pads_every_field() {
    assert_eq!(timestamp(&at(2024, 1, 2, 3, 4, 5)), "2024-01-02 03:04:05");
    assert_eq!(timestamp(&at(987, 12, 31, 23, 59, 60)), "0987-12-31 23:59:60");
    assert_eq!(timestamp(&at(12345, 10, 10, 10, 10, 10)), "+12345-10-10 10:10:10");
    assert_eq!(timestamp(&at(-7, 1, 1, 0, 0, 0)), "-0007-01-01 00:00:00");
}

#[test]
fn timestamp_matches_the_date_pattern_of_chrono() {
    for (y, m, d, h, mi, s) in [(2024, 1, 2, 3, 4, 5), (5, 6, 7, 8, 9, 10), (10000, 2, 29, 12, 0, 59), (-44, 3, 15, 11, 30, 0)] {
        let dt = NaiveDate::from_ymd_opt(y, m, d).unwrap().and_hms_opt(h, mi, s).unwrap();
        let expected = dt.format("%Y-%m-%d %H:%M:%S").to_string();
        let t = at(dt.year(), dt.month(), dt.day(), dt.hour(), dt.minute(), dt.second());
        assert_eq!(timestamp(&t), expected);
    }
}

#[test]
fn trailing_characters_are_removed_until_another_one() {
    assert_eq!(trim_end_char("a/b//", '/'), "a/b");
    assert_eq!(trim_end_char("///", '/'), "");
    assert_eq!(trim_end_char("", '/'), "");
    assert_eq!(trim_end_char("ä/", '/'), "ä");
}

#[test]
fn white_space_follows_the_unicode_property() {
    assert_eq!(trim_white_space("\u{a0}\u{2003} x y \u{85}\u{2029}"), "x y");
    assert_eq!(trim_white_space("\u{200b}x"), "\u{200b}x");
    assert_eq!(trim_white_space(" \t\n"), "");
    let s = "\u{1680} mixed \u{205f}";
    assert_eq!(trim_white_space(s), s.trim());
}
