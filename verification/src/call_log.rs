//! The call history: its records, the one-line text format they are stored
//! in, and the helpers that turn a raw SIP address into what the history
//! list shows and dials.

use vstd::prelude::*;
use crate::text::{
    append_str, before_first, fields_from, find_after, before_first_vec, chars_of, dec, dec2, dec_signed, find, find_first,
    find_from, find_last, has_char, lemma_dec_lacks, lemma_find_from_at, lemma_find_from_none,
    lemma_parse_dec, lemma_parse_dec_signed, is_trimmed, lemma_find_first_bounds, lemma_find_last_bounds,
    lemma_trim_keeps, lemma_trim_piece, is_ws, lemma_dec, all_digits, digits_value, digit_value, digit_char, is_digit, parse_i64, parse_i64_vec, parse_unsigned, parse_unsigned_vec, push_char,
    push_dec, push_dec2, push_dec_i64, rfind, slice_vec, string_of, strip_prefix_all,
    strip_prefix_vec, trim_by, trim_vec,
};

verus! {

// ── Data model ────────────────────────────────────────────────────────────────

#[derive(Debug, Clone, Copy, PartialEq, Eq, Structural)]
pub enum Direction {
    Incoming,
    Outgoing,
}

#[derive(Debug, Clone, Copy, PartialEq, Eq, Structural)]
pub enum Status {
    Answered,
    /// Incoming, not answered.
    Missed,
    /// Outgoing, rejected or not answered.
    Failed,
}

#[derive(Debug, Clone)]
pub struct Record {
    pub direction: Direction,
    pub status: Status,
    /// Raw from-URI or dialled number.
    pub number: String,
    /// Unix timestamp.
    pub started_at: i64,
    /// 0 if unanswered.
    pub duration_secs: u32,
}

/// A record as a mathematical value.
pub struct RecordView {
    pub direction: Direction,
    pub status: Status,
    pub number: Seq<char>,
    pub started_at: i64,
    pub duration_secs: u32,
}

impl View for Record {
    type V = RecordView;

    open spec fn view(&self) -> RecordView {
        RecordView {
            direction: self.direction,
            status: self.status,
            number: self.number@,
            started_at: self.started_at,
            duration_secs: self.duration_secs,
        }
    }
}

/// The most records the call log keeps.
pub const MAX_RECORDS: usize = 500;

/// The history of calls, most recent first.
pub struct CallLog {
    /// Index 0 is the most recent call.
    pub records: Vec<Record>,
}

// ── Line format ──────────────────────────────────────────────────────────────

pub open spec fn direction_char(d: Direction) -> char {
    match d {
        Direction::Incoming => 'i',
        Direction::Outgoing => 'o',
    }
}

pub open spec fn status_char(s: Status) -> char {
    match s {
        Status::Answered => 'a',
        Status::Missed => 'm',
        Status::Failed => 'f',
    }
}

pub open spec fn direction_of(f: Seq<char>) -> Option<Direction> {
    if f.len() == 1 && f[0] == 'i' {
        Some(Direction::Incoming)
    } else if f.len() == 1 && f[0] == 'o' {
        Some(Direction::Outgoing)
    } else {
        None
    }
}

pub open spec fn status_of(f: Seq<char>) -> Option<Status> {
    if f.len() == 1 && f[0] == 'a' {
        Some(Status::Answered)
    } else if f.len() == 1 && f[0] == 'm' {
        Some(Status::Missed)
    } else if f.len() == 1 && f[0] == 'f' {
        Some(Status::Failed)
    } else {
        None
    }
}

/// The stored line of a record: `started_at|d|s|number|duration_secs`.
pub open spec fn line_of(r: RecordView) -> Seq<char> {
    dec_signed(r.started_at as int) + seq!['|', direction_char(r.direction), '|', status_char(r.status), '|']
        + r.number + seq!['|'] + dec(r.duration_secs as nat)
}

/// The record a stored line holds, if it is well formed.
pub open spec fn parse_line_spec(line: Seq<char>) -> Option<RecordView> {
    let f = fields_from(line, '|', 0, 5);
    if f.len() < 5 {
        None
    } else {
        match (parse_i64(f[0]), direction_of(f[1]), status_of(f[2]), parse_unsigned(f[4], u32::MAX as nat)) {
            (Some(t), Some(d), Some(st), Some(dur)) => Some(RecordView {
                direction: d,
                status: st,
                number: f[3],
                started_at: t as i64,
                duration_secs: dur as u32,
            }),
            _ => None,
        }
    }
}

/// The records that the well-formed lines among `lines` hold, in order.
pub open spec fn parse_lines_spec(lines: Seq<Seq<char>>) -> Seq<RecordView>
    decreases lines.len(),
{
    if lines.len() == 0 {
        Seq::empty()
    } else {
        let rest = parse_lines_spec(lines.drop_last());
        match parse_line_spec(lines.last()) {
            Some(r) => rest.push(r),
            None => rest,
        }
    }
}

/// The records of a log as values.
pub open spec fn records_view(records: Seq<Record>) -> Seq<RecordView> {
    records.map_values(|r: Record| r@)
}

/// The log after a record is added in front and the log cut to its limit.
pub open spec fn pushed(old: Seq<RecordView>, r: RecordView) -> Seq<RecordView> {
    let all = seq![r] + old;
    if all.len() > MAX_RECORDS { all.subrange(0, MAX_RECORDS as int) } else { all }
}

// ── Parsing and writing lines ────────────────────────────────────────────────

fn field_is(v: &Vec<char>, lo: usize, hi: usize, c: char) -> (b: bool)
    requires
        lo <= hi <= v@.len(),
    ensures
        b == (v@.subrange(lo as int, hi as int).len() == 1 && v@.subrange(lo as int, hi as int)[0] == c),
{
    hi - lo == 1 && v[lo] == c
}

/// Parses one stored line of the call log.
pub fn parse_line(line: &str) -> (r: Option<Record>)
    ensures
        match r {
            Some(rec) => parse_line_spec(line@) == Some(rec@),
            None => parse_line_spec(line@) is None,
        },
{
    reveal_with_fuel(fields_from, 6);
    let v = chars_of(line);
    let ghost s = v@;
    let i1 = match find_after(&v, '|', 0) {
        Some(i) => i,
        None => { return None; },
    };
    let i2 = match find_after(&v, '|', i1 + 1) {
        Some(i) => i,
        None => { return None; },
    };
    let i3 = match find_after(&v, '|', i2 + 1) {
        Some(i) => i,
        None => { return None; },
    };
    let i4 = match find_after(&v, '|', i3 + 1) {
        Some(i) => i,
        None => { return None; },
    };
    let ghost f = fields_from(s, '|', 0, 5);
    assert(f =~= seq![
        s.subrange(0, i1 as int),
        s.subrange(i1 + 1, i2 as int),
        s.subrange(i2 + 1, i3 as int),
        s.subrange(i3 + 1, i4 as int),
        s.subrange(i4 + 1, s.len() as int),
    ]);
    let started_at = match parse_i64_vec(&v, 0, i1) {
        Some(t) => t,
        None => { return None; },
    };
    let direction = if field_is(&v, i1 + 1, i2, 'i') {
        Direction::Incoming
    } else if field_is(&v, i1 + 1, i2, 'o') {
        Direction::Outgoing
    } else {
        return None;
    };
    let status = if field_is(&v, i2 + 1, i3, 'a') {
        Status::Answered
    } else if field_is(&v, i2 + 1, i3, 'm') {
        Status::Missed
    } else if field_is(&v, i2 + 1, i3, 'f') {
        Status::Failed
    } else {
        return None;
    };
    let number = string_of(&v, i3 + 1, i4);
    let duration_secs = match parse_unsigned_vec(&v, i4 + 1, v.len(), 4294967295u64) {
        Some(d) => d as u32,
        None => { return None; },
    };
    Some(Record { direction, status, number, started_at, duration_secs })
}

impl Record {
    /// The line that stores this record.
    pub fn to_line(&self) -> (s: String)
        ensures
            s@ == line_of(self@),
    {
        let mut s = String::new();
        push_dec_i64(&mut s, self.started_at);
        let ghost a = s@;
        push_char(&mut s, '|');
        push_char(&mut s, match self.direction { Direction::Incoming => 'i', Direction::Outgoing => 'o' });
        push_char(&mut s, '|');
        push_char(&mut s, match self.status { Status::Answered => 'a', Status::Missed => 'm', Status::Failed => 'f' });
        push_char(&mut s, '|');
        let ghost b = s@;
        append_str(&mut s, self.number.as_str());
        push_char(&mut s, '|');
        push_dec(&mut s, self.duration_secs as u64);
        assert(b =~= a + seq!['|', direction_char(self.direction), '|', status_char(self.status), '|']);
        assert(s@ =~= line_of(self@));
        s
    }
}

impl CallLog {
    /// An empty log.
    pub fn new() -> (log: CallLog)
        ensures
            log.records@.len() == 0,
    {
        CallLog { records: Vec::new() }
    }

    /// The log that the stored lines hold; malformed lines are skipped.
    pub fn load(lines: &Vec<String>) -> (log: CallLog)
        ensures
            records_view(log.records@) == parse_lines_spec(lines@.map_values(|l: String| l@)),
    {
        let ghost ls = lines@.map_values(|l: String| l@);
        let mut records: Vec<Record> = Vec::new();
        let mut i: usize = 0;
        while i < lines.len()
            invariant
                i <= lines@.len(),
                ls == lines@.map_values(|l: String| l@),
                records_view(records@) == parse_lines_spec(ls.subrange(0, i as int)),
            decreases lines@.len() - i,
        {
            let parsed = parse_line(lines[i].as_str());
            let ghost before = records@;
            assert(ls.subrange(0, i + 1).drop_last() =~= ls.subrange(0, i as int));
            assert(ls.subrange(0, i + 1).last() == lines@[i as int]@);
            match parsed {
                Some(r) => {
                    records.push(r);
                    assert(records_view(records@) =~= records_view(before).push(records@.last()@));
                },
                None => {},
            }
            i = i + 1;
        }
        assert(ls.subrange(0, lines@.len() as int) =~= ls);
        CallLog { records }
    }

    /// Adds a record as the most recent one, keeping at most
    /// `MAX_RECORDS` records.
    pub fn push(&mut self, record: Record)
        ensures
            records_view(final(self).records@) == pushed(records_view(old(self).records@), record@),
    {
        let ghost old_v = records_view(self.records@);
        let ghost r = record@;
        self.records.insert(0, record);
        assert(records_view(self.records@) =~= seq![r] + old_v);
        if self.records.len() > MAX_RECORDS {
            self.records.truncate(MAX_RECORDS);
            assert(records_view(self.records@) =~= (seq![r] + old_v).subrange(0, MAX_RECORDS as int));
        }
    }

    /// The lines that store this log, most recent first.
    pub fn to_lines(&self) -> (lines: Vec<String>)
        ensures
            lines@.len() == self.records@.len(),
            forall|i: int| 0 <= i < lines@.len() ==> #[trigger] lines@[i]@ == line_of(self.records@[i]@),
    {
        let mut lines: Vec<String> = Vec::new();
        let mut i: usize = 0;
        while i < self.records.len()
            invariant
                i <= self.records@.len(),
                lines@.len() == i,
                forall|k: int| 0 <= k < i ==> #[trigger] lines@[k]@ == line_of(self.records@[k]@),
            decreases self.records@.len() - i,
        {
            lines.push(self.records[i].to_line());
            i = i + 1;
        }
        lines
    }
}

// ── Display helpers ──────────────────────────────────────────────────────────

pub open spec fn sip_scheme() -> Seq<char> {
    seq!['s', 'i', 'p', ':']
}

pub open spec fn sips_scheme() -> Seq<char> {
    seq!['s', 'i', 'p', 's', ':']
}

/// `s` with leading `sip:` and then leading `sips:` prefixes removed.
pub open spec fn strip_scheme(s: Seq<char>) -> Seq<char> {
    strip_prefix_all(strip_prefix_all(s, sip_scheme()), sips_scheme())
}

/// The display-name part before `<`: trimmed, unquoted, trimmed again.
pub open spec fn quoted_name(head: Seq<char>) -> Seq<char> {
    trim_by(trim_by(trim_by(head, None), Some('"')), None)
}

/// The label the history shows for a raw from-URI or dialled number:
/// the display name before `<` if there is one, else the user part of the
/// address, without a `sip:`/`sips:` scheme.
pub open spec fn display_name_spec(raw: Seq<char>) -> Seq<char> {
    match find_first(raw, '<') {
        Some(b) => {
            let name = quoted_name(raw.subrange(0, b));
            if name.len() > 0 {
                name
            } else {
                let end = match find_last(raw, '>') {
                    Some(e) => e,
                    None => raw.len() as int,
                };
                before_first(strip_scheme(raw.subrange(b + 1, end)), '@')
            }
        },
        None => match find_first(raw, '@') {
            Some(a) => strip_scheme(raw.subrange(0, a)),
            None => raw,
        },
    }
}

/// Whether `callable` accepts `raw`: when both `<` and `>` occur, the
/// first `>` comes after the first `<`.
pub open spec fn brackets_ordered(raw: Seq<char>) -> bool {
    match (find_first(raw, '<'), find_first(raw, '>')) {
        (Some(b), Some(c)) => b < c,
        _ => true,
    }
}

/// The address to dial back: what stands between the first `<` and the
/// first `>`, or the whole string.
pub open spec fn callable_spec(raw: Seq<char>) -> Seq<char> {
    match (find_first(raw, '<'), find_first(raw, '>')) {
        (Some(b), Some(c)) => raw.subrange(b + 1, c),
        _ => raw,
    }
}

/// A duration as `m:ss`, or `h:mm:ss` from one hour on.
pub open spec fn duration_text(secs: nat) -> Seq<char> {
    if secs >= 3600 {
        dec(secs / 3600) + seq![':'] + dec2((secs % 3600) / 60) + seq![':'] + dec2(secs % 60)
    } else {
        dec(secs / 60) + seq![':'] + dec2(secs % 60)
    }
}

fn scheme_vecs() -> (r: (Vec<char>, Vec<char>))
    ensures
        r.0@ == sip_scheme(),
        r.1@ == sips_scheme(),
{
    let a: Vec<char> = vec!['s', 'i', 'p', ':'];
    let b: Vec<char> = vec!['s', 'i', 'p', 's', ':'];
    assert(a@ =~= sip_scheme());
    assert(b@ =~= sips_scheme());
    (a, b)
}

fn strip_scheme_vec(v: &Vec<char>) -> (r: Vec<char>)
    ensures
        r@ == strip_scheme(v@),
{
    let (sip, sips) = scheme_vecs();
    let a = strip_prefix_vec(v, &sip);
    strip_prefix_vec(&a, &sips)
}

proof fn lemma_gt_not_before_empty_name(raw: Seq<char>, b: int)
    requires
        0 <= b < raw.len(),
        raw[b] == '<',
        quoted_name(raw.subrange(0, b)).len() == 0,
    ensures
        match find_last(raw, '>') {
            Some(e) => b < e,
            None => true,
        },
{
    lemma_find_last_bounds(raw, '>');
    match find_last(raw, '>') {
        Some(e) => {
            if e < b {
                let head = raw.subrange(0, b);
                assert(head[e] == '>');
                assert(has_char(head, '>'));
                lemma_trim_keeps(head, None, '>');
                let t1 = trim_by(head, None);
                lemma_trim_keeps(t1, Some('"'), '>');
                let t2 = trim_by(t1, Some('"'));
                lemma_trim_keeps(t2, None, '>');
            }
        },
        None => {},
    }
}

/// Extracts a human-readable label from a raw from-URI or dialled number:
/// `"Alice <820@pbx>"` gives `"Alice"`, `"820@pbx"` and `"820"` give `"820"`.
pub fn display_name(raw: &str) -> (r: String)
    ensures
        r@ == display_name_spec(raw@),
{
    let v = chars_of(raw);
    match find(&v, '<') {
        Some(b) => {
            proof { lemma_find_first_bounds(v@, '<'); }
            let head = slice_vec(&v, 0, b);
            let t1 = trim_vec(&head, None);
            let t2 = trim_vec(&t1, Some('"'));
            let name = trim_vec(&t2, None);
            if name.len() > 0 {
                return string_of(&name, 0, name.len());
            }
            let end = match rfind(&v, '>') {
                Some(e) => e,
                None => v.len(),
            };
            proof {
                lemma_gt_not_before_empty_name(v@, b as int);
                lemma_find_last_bounds(v@, '>');
            }
            let inner = slice_vec(&v, b + 1, end);
            let stripped = strip_scheme_vec(&inner);
            let user = before_first_vec(&stripped, '@');
            string_of(&user, 0, user.len())
        },
        None => {
            match find(&v, '@') {
                Some(a) => {
                    proof { lemma_find_first_bounds(v@, '@'); }
                    let prefix = slice_vec(&v, 0, a);
                    let stripped = strip_scheme_vec(&prefix);
                    string_of(&stripped, 0, stripped.len())
                },
                None => string_of(&v, 0, v.len()),
            }
        },
    }
}

/// Whether `callable` accepts `raw` (see `brackets_ordered`).
pub fn brackets_in_order(raw: &str) -> (b: bool)
    ensures
        b == brackets_ordered(raw@),
{
    let v = chars_of(raw);
    match (find(&v, '<'), find(&v, '>')) {
        (Some(b), Some(c)) => b < c,
        _ => true,
    }
}

/// The number to use when calling back a record: for `"Name <user@host>"`
/// it is `"user@host"`; anything without both brackets is returned whole.
pub fn callable(raw: &str) -> (r: String)
    requires
        brackets_ordered(raw@),
    ensures
        r@ == callable_spec(raw@),
{
    let v = chars_of(raw);
    proof {
        lemma_find_first_bounds(v@, '<');
        lemma_find_first_bounds(v@, '>');
    }
    match find(&v, '<') {
        Some(b) => match find(&v, '>') {
            Some(c) => string_of(&v, b + 1, c),
            None => string_of(&v, 0, v.len()),
        },
        None => string_of(&v, 0, v.len()),
    }
}

/// Formats a duration in seconds as `"m:ss"` or `"h:mm:ss"`.
pub fn format_duration(secs: u32) -> (r: String)
    ensures
        r@ == duration_text(secs as nat),
{
    let mut s = String::new();
    if secs >= 3600 {
        push_dec(&mut s, (secs / 3600) as u64);
        push_char(&mut s, ':');
        push_dec2(&mut s, ((secs % 3600) / 60) as u64);
        push_char(&mut s, ':');
        push_dec2(&mut s, (secs % 60) as u64);
    } else {
        push_dec(&mut s, (secs / 60) as u64);
        push_char(&mut s, ':');
        push_dec2(&mut s, (secs % 60) as u64);
    }
    assert(s@ =~= duration_text(secs as nat));
    s
}

/// How old a call is, which decides how its start time is written.
#[derive(Debug, Clone, Copy, PartialEq, Eq, Structural)]
pub enum TimeStyle {
    /// Same day: `HH:MM`.
    Today,
    /// One day old: `Yesterday HH:MM`.
    Yesterday,
    /// Two to six days old: weekday and `HH:MM`.
    ThisWeek,
    /// Older, or in the future by a day or more: day, month and `HH:MM`.
    Older,
}

/// Whole days from `started_at` to `now`, rounded toward zero.
pub open spec fn age_days(now: int, started_at: int) -> int {
    let d = now - started_at;
    if d >= 0 { d / 86400 } else { -((-d) / 86400) }
}

pub open spec fn time_style_spec(now: int, started_at: int) -> TimeStyle {
    let days = age_days(now, started_at);
    if days == 0 {
        TimeStyle::Today
    } else if days == 1 {
        TimeStyle::Yesterday
    } else if 2 <= days <= 6 {
        TimeStyle::ThisWeek
    } else {
        TimeStyle::Older
    }
}

/// Chooses how a call started at `started_at` is shown when the time is `now`.
pub fn time_style(now: i64, started_at: i64) -> (r: TimeStyle)
    requires
        i64::MIN <= now - started_at <= i64::MAX,
    ensures
        r == time_style_spec(now as int, started_at as int),
{
    let d: i64 = now - started_at;
    let days: i64 = if d >= 0 { d / 86400 } else { -((-(d as i128)) / 86400) as i64 };
    if days == 0 {
        TimeStyle::Today
    } else if days == 1 {
        TimeStyle::Yesterday
    } else if 2 <= days && days <= 6 {
        TimeStyle::ThisWeek
    } else {
        TimeStyle::Older
    }
}

// ── History rows ─────────────────────────────────────────────────────────────

/// The icon of a history row and its style class: answered incoming calls
/// in green, missed ones in red, answered outgoing calls accented, failed
/// ones dimmed.
pub open spec fn row_icon_spec(direction: Direction, status: Status) -> (Seq<char>, Seq<char>) {
    match (direction, status) {
        (Direction::Incoming, Status::Answered) => ("call-incoming-symbolic"@, "success"@),
        (Direction::Incoming, _) => ("call-missed-symbolic"@, "error"@),
        (Direction::Outgoing, Status::Answered) => ("call-outgoing-symbolic"@, "accent"@),
        (Direction::Outgoing, _) => ("call-outgoing-symbolic"@, "dim-label"@),
    }
}

/// The icon name and style class of the history row of a call.
pub fn row_icon(direction: Direction, status: Status) -> (r: (&'static str, &'static str))
    ensures
        (r.0@, r.1@) == row_icon_spec(direction, status),
{
    match (direction, status) {
        (Direction::Incoming, Status::Answered) => ("call-incoming-symbolic", "success"),
        (Direction::Incoming, _) => ("call-missed-symbolic", "error"),
        (Direction::Outgoing, Status::Answered) => ("call-outgoing-symbolic", "accent"),
        (Direction::Outgoing, _) => ("call-outgoing-symbolic", "dim-label"),
    }
}

/// The subtitle of a history row: the start time, followed by the duration
/// for calls that lasted.
pub open spec fn row_subtitle_spec(time: Seq<char>, duration_secs: u32) -> Seq<char> {
    if duration_secs > 0 {
        time + " · "@ + duration_text(duration_secs as nat)
    } else {
        time
    }
}

/// Builds the subtitle of a history row from the formatted start time.
pub fn row_subtitle(time: &str, duration_secs: u32) -> (s: String)
    ensures
        s@ == row_subtitle_spec(time@, duration_secs),
{
    let mut s = String::from_str(time);
    if duration_secs > 0 {
        append_str(&mut s, " · ");
        let d = format_duration(duration_secs);
        append_str(&mut s, d.as_str());
    }
    s
}

// ── Laws of the line format ──────────────────────────────────────────────────

/// Reading back the line written for a record gives the record, as long
/// as its number holds no `'|'`.
pub proof fn lemma_line_round_trip(r: RecordView)
    requires
        !has_char(r.number, '|'),
    ensures
        parse_line_spec(line_of(r)) == Some(r),
{
    reveal_with_fuel(fields_from, 6);
    let a = dec_signed(r.started_at as int);
    let d = dec(r.duration_secs as nat);
    let n = r.number;
    let line = line_of(r);
    let i1 = a.len() as int;
    let i2 = i1 + 2;
    let i3 = i1 + 4;
    let i4 = i1 + 5 + n.len();
    lemma_parse_dec_signed(r.started_at);
    lemma_parse_dec(r.duration_secs as nat, u32::MAX as nat);
    lemma_dec_lacks(r.duration_secs as nat, '|');
    if r.started_at < 0 {
        lemma_dec_lacks((-r.started_at) as nat, '|');
        assert forall|m: int| 0 <= m < i1 implies line[m] != '|' by {
            if m > 0 {
                assert(line[m] == dec((-r.started_at) as nat)[m - 1]);
            }
        }
    } else {
        lemma_dec_lacks(r.started_at as nat, '|');
        assert forall|m: int| 0 <= m < i1 implies line[m] != '|' by {
            assert(line[m] == a[m]);
        }
    }
    assert(line[i1] == '|');
    lemma_find_from_at(line, '|', 0, i1);
    assert(line[i2] == '|');
    lemma_find_from_at(line, '|', i1 + 1, i2);
    assert(line[i3] == '|');
    lemma_find_from_at(line, '|', i2 + 1, i3);
    assert forall|m: int| i3 + 1 <= m < i4 implies line[m] != '|' by {
        assert(line[m] == n[m - i3 - 1]);
    }
    assert(line[i4] == '|');
    lemma_find_from_at(line, '|', i3 + 1, i4);
    assert(line.subrange(0, i1) =~= a);
    assert(line.subrange(i1 + 1, i2) =~= seq![direction_char(r.direction)]);
    assert(line.subrange(i2 + 1, i3) =~= seq![status_char(r.status)]);
    assert(line.subrange(i3 + 1, i4) =~= n);
    assert(line.subrange(i4 + 1, line.len() as int) =~= d);
    let f = fields_from(line, '|', 0, 5);
    assert(f =~= seq![a, seq![direction_char(r.direction)], seq![status_char(r.status)], n, d]);
    assert(parse_i64(f[0]) == Some(r.started_at as int));
    assert(direction_of(f[1]) == Some(r.direction));
    assert(status_of(f[2]) == Some(r.status));
    assert(parse_unsigned(f[4], u32::MAX as nat) == Some(r.duration_secs as nat));
}

/// Loading the lines written for a log gives the log back, as long as no
/// number in it holds a `'|'`.
pub proof fn lemma_log_round_trip(records: Seq<RecordView>)
    requires
        forall|i: int| 0 <= i < records.len() ==> !has_char(#[trigger] records[i].number, '|'),
    ensures
        parse_lines_spec(records.map_values(|r: RecordView| line_of(r))) == records,
    decreases records.len(),
{
    if records.len() > 0 {
        let lines = records.map_values(|r: RecordView| line_of(r));
        lemma_log_round_trip(records.drop_last());
        assert(lines.drop_last() =~= records.drop_last().map_values(|r: RecordView| line_of(r)));
        lemma_line_round_trip(records.last());
        assert(parse_lines_spec(lines) =~= records);
    } else {
        assert(records.map_values(|r: RecordView| line_of(r)) =~= Seq::<Seq<char>>::empty());
    }
}

// ── Laws of the log ─────────────────────────────────────────────────────────

/// A pushed record becomes the newest, the older records follow in their
/// order, and the log never holds more than `MAX_RECORDS` records: the
/// oldest one drops out once it is full.
pub proof fn lemma_push_newest_first(log: Seq<RecordView>, r: RecordView)
    ensures
        pushed(log, r).len() == (if log.len() + 1 > MAX_RECORDS { MAX_RECORDS as int } else { log.len() + 1int }),
        pushed(log, r)[0] == r,
        forall|i: int| 1 <= i < pushed(log, r).len() ==> #[trigger] pushed(log, r)[i] == log[i - 1],
{
}

// ── Laws of the duration text ───────────────────────────────────────────────

/// A field of decimal digits, not empty.
pub open spec fn is_number(f: Seq<char>) -> bool {
    f.len() > 0 && all_digits(f)
}

/// A field of exactly two decimal digits below 60.
pub open spec fn is_two_digit_sexagesimal(f: Seq<char>) -> bool {
    f.len() == 2 && all_digits(f) && digits_value(f) < 60
}

/// The seconds that a duration text denotes: `m:ss` with `m` unpadded, or
/// `h:mm:ss` with `h` unpadded and at least 1; `None` for any other text.
pub open spec fn duration_value(t: Seq<char>) -> Option<nat> {
    let f = fields_from(t, ':', 0, 3);
    if f.len() == 2 && is_number(f[0]) && is_two_digit_sexagesimal(f[1]) {
        Some(60 * digits_value(f[0]) + digits_value(f[1]))
    } else if f.len() == 3 && is_number(f[0]) && digits_value(f[0]) >= 1
        && is_two_digit_sexagesimal(f[1]) && is_two_digit_sexagesimal(f[2]) {
        Some(3600 * digits_value(f[0]) + 60 * digits_value(f[1]) + digits_value(f[2]))
    } else {
        None
    }
}

proof fn lemma_dec2(n: nat)
    requires
        n < 100,
    ensures
        dec2(n).len() == 2,
        all_digits(dec2(n)),
        digits_value(dec2(n)) == n,
{
    lemma_dec(n);
    if n < 10 {
        let t = dec2(n);
        assert(t.drop_last() =~= seq!['0']);
        assert(seq!['0'].drop_last() =~= Seq::<char>::empty());
        assert(digits_value(seq!['0']) == 10 * digits_value(Seq::<char>::empty()) + digit_value('0'));
        assert(t.last() == dec(n)[0]);
        assert(dec(n) =~= seq![dec(n)[0]]);
        assert(digits_value(dec(n)) == 10 * digits_value(dec(n).drop_last()) + digit_value(dec(n).last()));
        assert(dec(n).drop_last() =~= Seq::<char>::empty());
        assert forall|i: int| 0 <= i < t.len() implies is_digit(#[trigger] t[i]) by {
            if i == 1 {
                assert(t[1] == dec(n)[0]);
            }
        }
    } else {
        lemma_dec(n / 10);
        assert(dec(n) == dec(n / 10).push(digit_char(n % 10)));
        assert(dec(n / 10) == seq![digit_char(n / 10)]);
    }
}

proof fn lemma_digits_no_colon(f: Seq<char>)
    requires
        all_digits(f),
    ensures
        forall|m: int| 0 <= m < f.len() ==> f[m] != ':',
{
    assert forall|m: int| 0 <= m < f.len() implies f[m] != ':' by {
        assert(is_digit(f[m]));
    }
}

/// Reading back the text of a duration gives the duration: the text is
/// `m:ss` below an hour and `h:mm:ss` from an hour on, with minutes and
/// seconds below 60, and it denotes exactly `secs` seconds.
pub proof fn lemma_duration_reads_back(secs: nat)
    ensures
        duration_value(duration_text(secs)) == Some(secs),
{
    reveal_with_fuel(fields_from, 4);
    let s = secs % 60;
    lemma_dec2(s);
    lemma_digits_no_colon(dec2(s));
    let t = duration_text(secs);
    if secs >= 3600 {
        let h = secs / 3600;
        let m = (secs % 3600) / 60;
        lemma_dec(h);
        lemma_dec2(m);
        lemma_digits_no_colon(dec(h));
        lemma_digits_no_colon(dec2(m));
        let a = dec(h);
        let b = dec2(m);
        let c = dec2(s);
        assert(t =~= a + seq![':'] + b + seq![':'] + c);
        let i1 = a.len() as int;
        let i2 = i1 + 3;
        assert forall|k: int| 0 <= k < i1 implies t[k] != ':' by {
            assert(t[k] == a[k]);
        }
        lemma_find_from_at(t, ':', 0, i1);
        assert forall|k: int| i1 + 1 <= k < i2 implies t[k] != ':' by {
            assert(t[k] == b[k - i1 - 1]);
        }
        lemma_find_from_at(t, ':', i1 + 1, i2);
        assert forall|k: int| i2 + 1 <= k < t.len() implies t[k] != ':' by {
            assert(t[k] == c[k - i2 - 1]);
        }
        lemma_find_from_none(t, ':', i2 + 1);
        let f = fields_from(t, ':', 0, 3);
        assert(t.subrange(0, i1) =~= a);
        assert(t.subrange(i1 + 1, i2) =~= b);
        assert(t.subrange(i2 + 1, t.len() as int) =~= c);
        assert(f =~= seq![a, b, c]);
        assert(3600 * h + 60 * m + s == secs);
    } else {
        let m = secs / 60;
        lemma_dec(m);
        lemma_digits_no_colon(dec(m));
        let a = dec(m);
        let c = dec2(s);
        assert(t =~= a + seq![':'] + c);
        let i1 = a.len() as int;
        assert forall|k: int| 0 <= k < i1 implies t[k] != ':' by {
            assert(t[k] == a[k]);
        }
        lemma_find_from_at(t, ':', 0, i1);
        assert forall|k: int| i1 + 1 <= k < t.len() implies t[k] != ':' by {
            assert(t[k] == c[k - i1 - 1]);
        }
        lemma_find_from_none(t, ':', i1 + 1);
        let f = fields_from(t, ':', 0, 3);
        assert(t.subrange(0, i1) =~= a);
        assert(t.subrange(i1 + 1, t.len() as int) =~= c);
        assert(f =~= seq![a, c]);
        assert(60 * m + s == secs);
    }
}

/// Two different durations never read the same: `format_duration` is
/// injective.
pub proof fn lemma_duration_text_injective(a: nat, b: nat)
    ensures
        duration_text(a) == duration_text(b) ==> a == b,
{
    lemma_duration_reads_back(a);
    lemma_duration_reads_back(b);
}

// ── Laws of the display name ────────────────────────────────────────────────

/// When an address has a display name before its `<`, the label is that
/// whole name: one unbroken piece of the text before `<`, with only
/// whitespace and quotes cut off around it, and neither starting nor
/// ending with whitespace. Spaces inside the name are kept.
pub proof fn lemma_display_name_whole(raw: Seq<char>, b: int)
    requires
        find_first(raw, '<') == Some(b),
        quoted_name(raw.subrange(0, b)).len() > 0,
    ensures
        exists|lo: int, hi: int|
            #![trigger raw.subrange(lo, hi)]
            0 <= lo < hi <= b && display_name_spec(raw) == raw.subrange(lo, hi)
                && (forall|m: int| (0 <= m < lo || hi <= m < b) ==> is_ws(raw[m]) || raw[m] == '"')
                && !is_ws(raw[lo]) && !is_ws(raw[hi - 1]),
{
    lemma_find_first_bounds(raw, '<');
    let h = raw.subrange(0, b);
    let (l1, h1) = lemma_trim_piece(h, None);
    let t1 = h.subrange(l1, h1);
    let (l2, h2) = lemma_trim_piece(t1, Some('"'));
    let t2 = t1.subrange(l2, h2);
    let (l3, h3) = lemma_trim_piece(t2, None);
    let lo = l1 + l2 + l3;
    let hi = l1 + l2 + h3;
    assert(quoted_name(h) == t2.subrange(l3, h3));
    assert(t2.subrange(l3, h3) =~= raw.subrange(lo, hi));
    assert(display_name_spec(raw) == raw.subrange(lo, hi));
    assert forall|m: int| (0 <= m < lo || hi <= m < b) implies is_ws(raw[m]) || raw[m] == '"' by {
        assert(raw[m] == h[m]);
        if m < l1 || h1 <= m {
            assert(is_trimmed(h[m], None));
        } else if m < l1 + l2 || l1 + h2 <= m {
            assert(h[m] == t1[m - l1]);
            assert(is_trimmed(t1[m - l1], Some('"')));
        } else {
            assert(h[m] == t1[m - l1]);
            assert(t1[m - l1] == t2[m - l1 - l2]);
            assert(is_trimmed(t2[m - l1 - l2], None));
        }
    }
    assert(raw[lo] == t2[l3]);
    assert(raw[hi - 1] == t2[h3 - 1]);
}

} // verus!
