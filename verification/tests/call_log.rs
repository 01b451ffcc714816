use tmwphone::call_log::{
    callable, display_name, format_duration, parse_line, row_icon, row_subtitle, time_style, CallLog, Direction,
    Record, Status, TimeStyle, MAX_RECORDS,
};

fn rec(started_at: i64, number: &str) -> Record {
    Record {
        direction: Direction::Outgoing,
        status: Status::Answered,
        number: number.to_string(),
        started_at,
        duration_secs: 12,
    }
}

#[test]
fn display_name_uses_quoted_display_name() {
    assert_eq!(display_name("Alice <820@pbx>"), "Alice");
    assert_eq!(display_name("\"Bob\" <sip:830@pbx>"), "Bob");
}

#[test]
fn display_name_falls_back_to_user_part() {
    assert_eq!(display_name("<sip:840@pbx>"), "840");
    assert_eq!(display_name("<850@pbx>"), "850");
}

#[test]
fn display_name_handles_bare_uris() {
    assert_eq!(display_name("820@pbx"), "820");
    assert_eq!(display_name("sip:820@pbx"), "820");
    assert_eq!(display_name("sips:820@pbx"), "820");
    assert_eq!(display_name("820"), "820");
}

#[test]
fn callable_extracts_uri_inside_brackets() {
    assert_eq!(callable("Alice <820@pbx>"), "820@pbx");
    assert_eq!(callable("Name <sip:830@pbx>"), "sip:830@pbx");
}

#[test]
fn callable_passes_through_bare_numbers() {
    assert_eq!(callable("820@pbx"), "820@pbx");
    assert_eq!(callable("820"), "820");
}

#[test]
fn format_duration_minutes_and_seconds() {
    assert_eq!(format_duration(0), "0:00");
    assert_eq!(format_duration(5), "0:05");
    assert_eq!(format_duration(65), "1:05");
    assert_eq!(format_duration(599), "9:59");
}

#[test]
fn format_duration_hours() {
    assert_eq!(format_duration(3600), "1:00:00");
    assert_eq!(format_duration(3661), "1:01:01");
    assert_eq!(format_duration(7325), "2:02:05");
}

#[test]
fn parse_line_valid_record() {
    let r = parse_line("1700000000|i|a|820@pbx|42").unwrap();
    assert_eq!(r.direction, Direction::Incoming);
    assert_eq!(r.status, Status::Answered);
    assert_eq!(r.number, "820@pbx");
    assert_eq!(r.started_at, 1_700_000_000);
    assert_eq!(r.duration_secs, 42);
}

#[test]
fn parse_line_all_enum_variants() {
    assert_eq!(parse_line("1|o|f|x|0").unwrap().direction, Direction::Outgoing);
    assert_eq!(parse_line("1|o|f|x|0").unwrap().status, Status::Failed);
    assert_eq!(parse_line("1|i|m|x|0").unwrap().status, Status::Missed);
}

#[test]
fn parse_line_rejects_malformed_input() {
    assert!(parse_line("notanumber|i|a|x|0").is_none());
    assert!(parse_line("1|x|a|x|0").is_none());
    assert!(parse_line("1|i|x|x|0").is_none());
    assert!(parse_line("1|i|a|x|notanum").is_none());
    assert!(parse_line("1|i|a").is_none());
    assert!(parse_line("").is_none());
}

#[test]
fn push_persists_and_reloads_newest_first() {
    let mut log = CallLog::new();
    log.push(rec(100, "alice@pbx"));
    log.push(rec(200, "bob@pbx"));

    let reloaded = CallLog::load(&log.to_lines()).records;
    assert_eq!(reloaded.len(), 2);
    assert_eq!(reloaded[0].number, "bob@pbx");
    assert_eq!(reloaded[1].number, "alice@pbx");
    assert_eq!(reloaded[0].started_at, 200);
}

#[test]
fn push_caps_at_500_records() {
    let mut log = CallLog::new();
    for i in 0..510 {
        log.push(rec(i, "x@pbx"));
    }
    assert_eq!(log.records.len(), 500);
    assert_eq!(log.records[0].started_at, 509);
}

#[test]
fn push_keeps_older_records_in_order() {
    let mut log = CallLog::new();
    for i in 0..(MAX_RECORDS as i64 + 3) {
        log.push(rec(i, "x"));
    }
    assert_eq!(log.records.len(), MAX_RECORDS);
    for (k, r) in log.records.iter().enumerate() {
        assert_eq!(r.started_at, MAX_RECORDS as i64 + 2 - k as i64);
    }
}

#[test]
fn line_format_round_trips() {
    let r = Record {
        direction: Direction::Incoming,
        status: Status::Missed,
        number: "\"Bob\" <sip:830@pbx>".to_string(),
        started_at: -12,
        duration_secs: u32::MAX,
    };
    let line = r.to_line();
    assert_eq!(line, "-12|i|m|\"Bob\" <sip:830@pbx>|4294967295");
    let back = parse_line(&line).unwrap();
    assert_eq!(back.direction, r.direction);
    assert_eq!(back.status, r.status);
    assert_eq!(back.number, r.number);
    assert_eq!(back.started_at, r.started_at);
    assert_eq!(back.duration_secs, r.duration_secs);
}

#[test]
fn load_skips_malformed_lines() {
    let lines = vec!["1|i|a|x|1".to_string(), "garbage".to_string(), "2|o|f|y|0".to_string()];
    let log = CallLog::load(&lines);
    assert_eq!(log.records.len(), 2);
    assert_eq!(log.records[0].number, "x");
    assert_eq!(log.records[1].number, "y");
}

#[test]
fn parse_line_extra_bars_stay_in_duration_field() {
    assert!(parse_line("1|i|a|x|1|2").is_none());
    assert!(parse_line("1|i|a|x|4294967296").is_none());
    assert_eq!(parse_line("+1|i|a|x|+7").unwrap().duration_secs, 7);
}

#[test]
fn row_icons_follow_direction_and_status() {
    assert_eq!(row_icon(Direction::Incoming, Status::Answered), ("call-incoming-symbolic", "success"));
    assert_eq!(row_icon(Direction::Incoming, Status::Missed), ("call-missed-symbolic", "error"));
    assert_eq!(row_icon(Direction::Outgoing, Status::Answered), ("call-outgoing-symbolic", "accent"));
    assert_eq!(row_icon(Direction::Outgoing, Status::Failed), ("call-outgoing-symbolic", "dim-label"));
}

#[test]
fn row_subtitle_adds_duration_of_answered_calls() {
    assert_eq!(row_subtitle("09:15", 65), "09:15 · 1:05");
    assert_eq!(row_subtitle("Yesterday 09:15", 0), "Yesterday 09:15");
}

#[test]
fn time_style_by_age() {
    let now = 1_700_000_000;
    assert_eq!(time_style(now, now - 10), TimeStyle::Today);
    assert_eq!(time_style(now, now - 86_400), TimeStyle::Yesterday);
    assert_eq!(time_style(now, now - 3 * 86_400), TimeStyle::ThisWeek);
    assert_eq!(time_style(now, now - 7 * 86_400), TimeStyle::Older);
    assert_eq!(time_style(now, now + 100), TimeStyle::Today);
    assert_eq!(time_style(now, now + 2 * 86_400), TimeStyle::Older);
}

#[test]
fn display_name_and_callable_of_odd_input() {
    assert_eq!(display_name(""), "");
    assert_eq!(callable("<>"), "");
    assert_eq!(callable("only <open"), "only <open");
}

#[test]
fn parse_file_missing_path_is_empty() {
    // A missing file reads as no lines at all.
    assert!(CallLog::load(&Vec::new()).records.is_empty());
}

#[test]
fn duration_texts_are_distinct_and_read_back() {
    let mut seen = std::collections::HashSet::new();
    for secs in 0..20_000u32 {
        let t = format_duration(secs);
        let parts: Vec<u32> = t.split(':').map(|p| p.parse().unwrap()).collect();
        let back = parts.iter().fold(0, |acc, p| acc * 60 + p);
        assert_eq!(back, secs);
        assert!(seen.insert(t));
    }
}
