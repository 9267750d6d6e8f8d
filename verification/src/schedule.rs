//! The default briefing report: schedule settings carried over from the legacy
//! daily-briefing task, and the rows the briefing history migrates into.
use vstd::prelude::*;
use crate::models::{
    AtomKind, CitationPolicy, ContextScopeMode, CreateAtomRequest, CreateReportRequest, Report,
    ReportFinding, ReportFindingCitation, SourceScopeWindow,
};
use crate::text::{
    ascii_lower_chars, ascii_lower_seq, chars_eq_str, chars_of, concat_chars, decimal,
    decimal_chars, parse_u32_chars, parse_u32_spec, split_chars, split_seq, string_from_chars,
    trim_chars, trim_seq,
};

verus! {

/// The per-database settings table: key/value pairs where a later entry for a
/// key replaces an earlier one.
#[derive(Clone, Debug)]
pub struct Settings {
    pairs: Vec<(String, String)>,
}

/// The value stored for `key`: that of the last entry with this key.
pub open spec fn lookup(entries: Seq<(Seq<char>, Seq<char>)>, key: Seq<char>) -> Option<Seq<char>>
    decreases entries.len(),
{
    if entries.len() == 0 {
        None
    } else if entries.last().0 == key {
        Some(entries.last().1)
    } else {
        lookup(entries.drop_last(), key)
    }
}

impl View for Settings {
    type V = Seq<(Seq<char>, Seq<char>)>;

    closed spec fn view(&self) -> Seq<(Seq<char>, Seq<char>)> {
        self.pairs@.map_values(|p: (String, String)| (p.0@, p.1@))
    }
}

impl Settings {
    /// An empty settings table.
    pub fn new() -> (s: Settings)
        ensures
            s@ == Seq::<(Seq<char>, Seq<char>)>::empty(),
    {
        let s = Settings { pairs: Vec::new() };
        assert(s@ =~= Seq::<(Seq<char>, Seq<char>)>::empty());
        s
    }

    /// Stores `value` under `key`, replacing any earlier value.
    pub fn insert(&mut self, key: String, value: String)
        ensures
            final(self)@ == old(self)@.push((key@, value@)),
    {
        self.pairs.push((key, value));
        assert(self@ =~= old(self)@.push((key@, value@)));
    }

    /// The value stored under `key`, if any.
    pub fn get(&self, key: &str) -> (r: Option<&String>)
        ensures
            r matches Some(v) ==> lookup(self@, key@) == Some(v@),
            r is None ==> lookup(self@, key@) is None,
    {
        let k = chars_of(key);
        let mut i = self.pairs.len();
        assert(self@.len() == self.pairs@.len());
        assert(self@.take(i as int) =~= self@);
        while i > 0
            invariant
                i <= self.pairs.len(),
                self@.len() == self.pairs@.len(),
                k@ == key@,
                lookup(self@, key@) == lookup(self@.take(i as int), key@),
            decreases i,
        {
            let ghost prefix = self@.take(i as int);
            assert(prefix.drop_last() == self@.take(i - 1));
            let ck = chars_of(self.pairs[i - 1].0.as_str());
            assert(self@[i - 1] == (self.pairs@[i - 1].0@, self.pairs@[i - 1].1@));
            if chars_eq_str(&ck, key) {
                return Some(&self.pairs[i - 1].1);
            }
            i = i - 1;
        }
        None
    }
}

/// Whether `v` is one of the legacy spellings of "disabled".
pub open spec fn is_disabled_flag(v: Option<Seq<char>>) -> bool {
    v == Some("false"@) || v == Some("0"@) || v == Some("off"@)
}

fn disabled_flag(v: Option<&String>) -> (b: bool)
    ensures
        b == is_disabled_flag(match v {
            Some(s) => Some(s@),
            None => None,
        }),
{
    match v {
        Some(s) => {
            let c = chars_of(s.as_str());
            chars_eq_str(&c, "false") || chars_eq_str(&c, "0") || chars_eq_str(&c, "off")
        },
        None => false,
    }
}

/// What `parse_hh_mm` accepts: exactly two `:`-separated fields that parse as
/// `u32`, an hour of at most 23 and a minute of at most 59.
pub open spec fn hh_mm_spec(s: Seq<char>) -> Option<(u32, u32)> {
    let parts = split_seq(s, ':');
    if parts.len() == 2 && parse_u32_spec(parts[0]) is Some && parse_u32_spec(parts[1]) is Some
        && parse_u32_spec(parts[0])->0 <= 23 && parse_u32_spec(parts[1])->0 <= 59 {
        Some((parse_u32_spec(parts[0])->0, parse_u32_spec(parts[1])->0))
    } else {
        None
    }
}

/// Parses a legacy `HH:MM` briefing time.
pub fn parse_hh_mm(raw: &str) -> (r: Option<(u32, u32)>)
    ensures
        r == hh_mm_spec(raw@),
{
    let cs = chars_of(raw);
    let parts = split_chars(&cs, ':');
    if parts.len() != 2 {
        return None;
    }
    let h = match parse_u32_chars(&parts[0]) {
        Some(h) => h,
        None => return None,
    };
    let m = match parse_u32_chars(&parts[1]) {
        Some(m) => m,
        None => return None,
    };
    if h > 23 || m > 59 {
        return None;
    }
    Some((h, m))
}

/// The cron day-of-week (Sunday = 0 .. Saturday = 6) for a legacy weekday name,
/// compared after trimming white space and ASCII lower-casing.
pub open spec fn weekday_spec(s: Seq<char>) -> Option<u32> {
    let w = ascii_lower_seq(trim_seq(s));
    if w == "sunday"@ {
        Some(0)
    } else if w == "monday"@ {
        Some(1)
    } else if w == "tuesday"@ {
        Some(2)
    } else if w == "wednesday"@ {
        Some(3)
    } else if w == "thursday"@ {
        Some(4)
    } else if w == "friday"@ {
        Some(5)
    } else if w == "saturday"@ {
        Some(6)
    } else {
        None
    }
}

/// The days of the week in cron order, Sunday first.
pub open spec fn week_days() -> Seq<Seq<char>> {
    seq!["sunday"@, "monday"@, "tuesday"@, "wednesday"@, "thursday"@, "friday"@, "saturday"@]
}

/// A weekday name, in any ASCII case and with surrounding white space, maps
/// to its position in the week counted from Sunday = 0; nothing else maps to
/// a day.
pub proof fn law_weekday_names_map_to_cron_days(s: Seq<char>, n: int)
    ensures
        0 <= n < 7 && ascii_lower_seq(trim_seq(s)) == week_days()[n] ==> weekday_spec(s) == Some(n as u32),
        weekday_spec(s) matches Some(d) ==> d < 7 && ascii_lower_seq(trim_seq(s)) == week_days()[d as int],
{
    reveal_strlit("sunday");
    reveal_strlit("monday");
    reveal_strlit("tuesday");
    reveal_strlit("wednesday");
    reveal_strlit("thursday");
    reveal_strlit("friday");
    reveal_strlit("saturday");
    let d = week_days();
    assert(d[0] == "sunday"@ && d[1] == "monday"@ && d[2] == "tuesday"@ && d[3] == "wednesday"@
        && d[4] == "thursday"@ && d[5] == "friday"@ && d[6] == "saturday"@);
    assert forall|a: int, b: int| 0 <= a < b < 7 implies d[a] != d[b] by {
        if d[a].len() == d[b].len() {
            if d[a][0] == d[b][0] {
                assert(d[a][1] != d[b][1]);
            }
        }
    }
}

/// Maps a legacy weekday name to the cron day-of-week.
pub fn weekday_to_dow(raw: &str) -> (r: Option<u32>)
    ensures
        r == weekday_spec(raw@),
        r matches Some(d) ==> d < 7 && ascii_lower_seq(trim_seq(raw@)) == week_days()[d as int],
        forall|n: int| 0 <= n < 7 && ascii_lower_seq(trim_seq(raw@)) == #[trigger] week_days()[n] ==> r == Some(n as u32),
{
    proof {
        assert forall|n: int| 0 <= n < 7 && ascii_lower_seq(trim_seq(raw@)) == #[trigger] week_days()[n] implies weekday_spec(raw@) == Some(n as u32) by {
            law_weekday_names_map_to_cron_days(raw@, n);
        }
        law_weekday_names_map_to_cron_days(raw@, 0);
    }
    let cs = chars_of(raw);
    let t = trim_chars(&cs);
    let w = ascii_lower_chars(&t);
    if chars_eq_str(&w, "sunday") {
        Some(0)
    } else if chars_eq_str(&w, "monday") {
        Some(1)
    } else if chars_eq_str(&w, "tuesday") {
        Some(2)
    } else if chars_eq_str(&w, "wednesday") {
        Some(3)
    } else if chars_eq_str(&w, "thursday") {
        Some(4)
    } else if chars_eq_str(&w, "friday") {
        Some(5)
    } else if chars_eq_str(&w, "saturday") {
        Some(6)
    } else {
        None
    }
}


/// Settings key of the legacy briefing frequency (`daily`, `weekly`, `off`).
pub const LEGACY_FREQUENCY_KEY: &'static str = "task.daily_briefing.frequency";
/// Settings key of the legacy briefing time (`HH:MM`).
pub const LEGACY_TIME_KEY: &'static str = "task.daily_briefing.time";
/// Settings key of the legacy briefing weekday.
pub const LEGACY_WEEKDAY_KEY: &'static str = "task.daily_briefing.weekday";
/// Settings key of the legacy briefing on/off switch.
pub const LEGACY_ENABLED_KEY: &'static str = "task.daily_briefing.enabled";
/// Settings key of the legacy briefing prompt.
pub const LEGACY_PROMPT_KEY: &'static str = "briefing_prompt";
/// Settings key of the user's time zone.
pub const TIMEZONE_KEY: &'static str = "timezone";

/// The legacy briefing frequency: the stored one, or `off`/`daily` derived
/// from the legacy on/off switch when none is stored.
pub open spec fn frequency_spec(settings: Seq<(Seq<char>, Seq<char>)>) -> Seq<char> {
    match lookup(settings, LEGACY_FREQUENCY_KEY@) {
        Some(f) => f,
        None => if is_disabled_flag(lookup(settings, LEGACY_ENABLED_KEY@)) {
            "off"@
        } else {
            "daily"@
        },
    }
}

/// The briefing time as (hour, minute); 09:00 when none is stored or it does
/// not parse.
pub open spec fn hour_minute_spec(settings: Seq<(Seq<char>, Seq<char>)>) -> (u32, u32) {
    match lookup(settings, LEGACY_TIME_KEY@) {
        Some(t) => match hh_mm_spec(t) {
            Some(hm) => hm,
            None => (9, 0),
        },
        None => (9, 0),
    }
}

/// The briefing weekday; Monday (1) when none is stored or it is unknown.
pub open spec fn dow_spec(settings: Seq<(Seq<char>, Seq<char>)>) -> u32 {
    match lookup(settings, LEGACY_WEEKDAY_KEY@) {
        Some(w) => match weekday_spec(w) {
            Some(d) => d,
            None => 1,
        },
        None => 1,
    }
}

/// The six-field cron expression (seconds first, Sunday = 0) of the legacy
/// schedule: weekly on the stored weekday, otherwise daily; `off` keeps the
/// stored time.
pub open spec fn cron_spec(settings: Seq<(Seq<char>, Seq<char>)>) -> Seq<char> {
    let (h, m) = hour_minute_spec(settings);
    let prefix = "0 "@ + decimal(m as nat) + " "@ + decimal(h as nat);
    if frequency_spec(settings) == "weekly"@ {
        prefix + " * * "@ + decimal(dow_spec(settings) as nat)
    } else {
        prefix + " * * *"@
    }
}

/// Whether the seeded report is enabled: the frequency is not `off` and the
/// legacy switch does not say disabled.
pub open spec fn enabled_spec(settings: Seq<(Seq<char>, Seq<char>)>) -> bool {
    frequency_spec(settings) != "off"@ && !is_disabled_flag(lookup(settings, LEGACY_ENABLED_KEY@))
}

/// The stored time zone, trimmed, when it is not blank.
pub open spec fn stored_zone_spec(settings: Seq<(Seq<char>, Seq<char>)>) -> Option<Seq<char>> {
    match lookup(settings, TIMEZONE_KEY@) {
        Some(t) => if trim_seq(t).len() > 0 {
            Some(trim_seq(t))
        } else {
            None
        },
        None => None,
    }
}

/// The report's time zone: the stored one, else the detected system zone,
/// else `UTC`.
pub open spec fn zone_spec(settings: Seq<(Seq<char>, Seq<char>)>, detected: Option<Seq<char>>) -> Seq<char> {
    match stored_zone_spec(settings) {
        Some(z) => z,
        None => match detected {
            Some(d) => d,
            None => "UTC"@,
        },
    }
}

fn stored_zone(settings: &Settings) -> (r: Option<String>)
    ensures
        r matches Some(z) ==> stored_zone_spec(settings@) == Some(z@),
        r is None ==> stored_zone_spec(settings@) is None,
{
    match settings.get(TIMEZONE_KEY) {
        Some(t) => {
            let tc = chars_of(t.as_str());
            let tt = trim_chars(&tc);
            if tt.len() > 0 {
                Some(string_from_chars(&tt))
            } else {
                None
            }
        },
        None => None,
    }
}

fn frequency(settings: &Settings) -> (r: Vec<char>)
    ensures
        r@ == frequency_spec(settings@),
{
    match settings.get(LEGACY_FREQUENCY_KEY) {
        Some(f) => chars_of(f.as_str()),
        None => if disabled_flag(settings.get(LEGACY_ENABLED_KEY)) {
            chars_of("off")
        } else {
            chars_of("daily")
        },
    }
}

/// The legacy schedule as (cron, time zone, enabled), with `detected_zone`
/// standing in for the system time zone.
pub fn legacy_schedule_to_cron_in_zone(settings: &Settings, detected_zone: Option<String>) -> (r: (
    String,
    String,
    bool,
))
    ensures
        r.0@ == cron_spec(settings@),
        r.1@ == zone_spec(
            settings@,
            match detected_zone {
                Some(z) => Some(z@),
                None => None,
            },
        ),
        r.2 == enabled_spec(settings@),
{
    let freq = frequency(settings);
    let (hour, minute) = match settings.get(LEGACY_TIME_KEY) {
        Some(t) => match parse_hh_mm(t.as_str()) {
            Some(hm) => hm,
            None => (9, 0),
        },
        None => (9, 0),
    };
    let dow: u32 = match settings.get(LEGACY_WEEKDAY_KEY) {
        Some(w) => match weekday_to_dow(w.as_str()) {
            Some(d) => d,
            None => 1,
        },
        None => 1,
    };
    let mut cron: Vec<char> = chars_of("0 ");
    let md = decimal_chars(minute as u64);
    crate::text::append_chars(&mut cron, &md);
    crate::text::append_str(&mut cron, " ");
    let hd = decimal_chars(hour as u64);
    crate::text::append_chars(&mut cron, &hd);
    if chars_eq_str(&freq, "weekly") {
        crate::text::append_str(&mut cron, " * * ");
        let dd = decimal_chars(dow as u64);
        crate::text::append_chars(&mut cron, &dd);
    } else {
        crate::text::append_str(&mut cron, " * * *");
    }
    let enabled = !chars_eq_str(&freq, "off") && !disabled_flag(settings.get(LEGACY_ENABLED_KEY));
    let zone = match stored_zone(settings) {
        Some(z) => z,
        None => match detected_zone {
            Some(d) => d,
            None => String::from_str("UTC"),
        },
    };
    (string_from_chars(&cron), zone, enabled)
}

/// Error of the system time-zone lookup (`iana_time_zone::GetTimezoneError`).
#[verifier::external_type_specification]
#[verifier::external_body]
pub struct ExGetTimezoneError(iana_time_zone::GetTimezoneError);

/// Asks the operating system for its IANA time zone
/// (`iana_time_zone::get_timezone`). The answer depends on the machine, so the
/// contract claims nothing about it.
#[verifier::external_body]
fn system_timezone() -> (r: Result<String, iana_time_zone::GetTimezoneError>) {
    iana_time_zone::get_timezone()
}

/// Maps the legacy `task.daily_briefing.*` settings into the (cron, time zone,
/// enabled) triple of the seeded report. The system time zone is asked for only
/// when no time zone is stored.
pub fn legacy_schedule_to_cron(settings: &Settings) -> (r: (String, String, bool))
    ensures
        r.0@ == cron_spec(settings@),
        r.2 == enabled_spec(settings@),
        stored_zone_spec(settings@) matches Some(z) ==> r.1@ == z,
        exists|d: Option<Seq<char>>| r.1@ == zone_spec(settings@, d),
{
    match stored_zone(settings) {
        Some(_) => {
            let r = legacy_schedule_to_cron_in_zone(settings, None);
            assert(r.1@ == zone_spec(settings@, None::<Seq<char>>));
            r
        },
        None => {
            let detected = match system_timezone() {
                Ok(z) => Some(z),
                Err(_) => None,
            };
            let ghost d = crate::reports::opt_view(detected);
            let r = legacy_schedule_to_cron_in_zone(settings, detected);
            assert(r.1@ == zone_spec(settings@, d));
            r
        },
    }
}


/// A settings read gives back the last write: after storing `value` under
/// `key`, `key` reads `value` and every other key reads what it read before.
pub proof fn law_settings_read_after_write(
    entries: Seq<(Seq<char>, Seq<char>)>,
    key: Seq<char>,
    value: Seq<char>,
    other: Seq<char>,
)
    requires
        other != key,
    ensures
        lookup(entries.push((key, value)), key) == Some(value),
        lookup(entries.push((key, value)), other) == lookup(entries, other),
{
    assert(entries.push((key, value)).drop_last() == entries);
}

/// Turning the briefing off keeps the user's time: the schedule computed with
/// frequency `off` is the one `daily` gives, and the report is disabled.
pub proof fn law_off_keeps_the_daily_time(entries: Seq<(Seq<char>, Seq<char>)>)
    ensures
        cron_spec(entries.push((LEGACY_FREQUENCY_KEY@, "off"@))) == cron_spec(
            entries.push((LEGACY_FREQUENCY_KEY@, "daily"@)),
        ),
        !enabled_spec(entries.push((LEGACY_FREQUENCY_KEY@, "off"@))),
{
    reveal_strlit("task.daily_briefing.frequency");
    reveal_strlit("task.daily_briefing.time");
    reveal_strlit("task.daily_briefing.weekday");
    reveal_strlit("task.daily_briefing.enabled");
    reveal_strlit("off");
    reveal_strlit("daily");
    reveal_strlit("weekly");
    assert(LEGACY_FREQUENCY_KEY@.len() == 29);
    assert(LEGACY_TIME_KEY@.len() == 24);
    assert(LEGACY_WEEKDAY_KEY@.len() == 27);
    let off = entries.push((LEGACY_FREQUENCY_KEY@, "off"@));
    let daily = entries.push((LEGACY_FREQUENCY_KEY@, "daily"@));
    law_settings_read_after_write(entries, LEGACY_FREQUENCY_KEY@, "off"@, LEGACY_TIME_KEY@);
    law_settings_read_after_write(entries, LEGACY_FREQUENCY_KEY@, "daily"@, LEGACY_TIME_KEY@);
    law_settings_read_after_write(entries, LEGACY_FREQUENCY_KEY@, "off"@, LEGACY_WEEKDAY_KEY@);
    law_settings_read_after_write(entries, LEGACY_FREQUENCY_KEY@, "daily"@, LEGACY_WEEKDAY_KEY@);
    assert(frequency_spec(off) == "off"@);
    assert(frequency_spec(daily) == "daily"@);
    assert("off"@ != "weekly"@);
    assert("daily"@ != "weekly"@);
}

/// Name of the seeded report.
pub const DEFAULT_REPORT_NAME: &'static str = "Daily Briefing";
/// Description of the seeded report.
pub const DEFAULT_REPORT_DESCRIPTION: &'static str =
    "Synthesizes recently captured atoms each morning into a short briefing.";
/// Research prompt used when no legacy briefing prompt is stored.
pub const DEFAULT_RESEARCH_PROMPT: &'static str = "Synthesize the source atoms — notes the user has captured since the last briefing — into a 2-3 paragraph briefing that highlights what's noteworthy, what themes emerge, and where these new notes connect to existing knowledge. Use [N] inline citation markers to point at specific source atoms. Skip atoms that aren't noteworthy. Write in the user's voice: concise, direct, mildly analytical, no filler.";
/// Settings key pointing at the dashboard's featured report.
pub const FEATURED_REPORT_SETTING: &'static str = "dashboard.featured_report_id";
/// Settings key recording that the briefing history was migrated.
pub const MIGRATION_FLAG_SETTING: &'static str = "briefings.migrated_to_findings";

/// The seeded report's research prompt: the stored legacy prompt, trimmed,
/// when it is not blank; otherwise the default prompt.
pub open spec fn research_prompt_spec(settings: Seq<(Seq<char>, Seq<char>)>) -> Seq<char> {
    match lookup(settings, LEGACY_PROMPT_KEY@) {
        Some(p) => if trim_seq(p).len() > 0 {
            trim_seq(p)
        } else {
            DEFAULT_RESEARCH_PROMPT@
        },
        None => DEFAULT_RESEARCH_PROMPT@,
    }
}

/// Chooses the research prompt of the seeded report.
pub fn briefing_research_prompt(settings: &Settings) -> (r: String)
    ensures
        r@ == research_prompt_spec(settings@),
{
    match settings.get(LEGACY_PROMPT_KEY) {
        Some(p) => {
            let pc = chars_of(p.as_str());
            let t = trim_chars(&pc);
            if t.len() > 0 {
                string_from_chars(&t)
            } else {
                String::from_str(DEFAULT_RESEARCH_PROMPT)
            }
        },
        None => String::from_str(DEFAULT_RESEARCH_PROMPT),
    }
}

/// The default report must be seeded: the featured-report pointer is
/// missing, empty, or points at a report that no longer exists.
pub open spec fn seed_needed_spec(settings: Seq<(Seq<char>, Seq<char>)>, featured_report_exists: bool) -> bool {
    !(lookup(settings, FEATURED_REPORT_SETTING@) matches Some(id) && id.len() > 0 && featured_report_exists)
}

/// Seeding happens once: after the featured-report setting is written with
/// the seeded report's id, a later seeding decision finds nothing to do for
/// as long as that report exists.
pub proof fn law_seeding_is_done_once(settings: Seq<(Seq<char>, Seq<char>)>, report_id: Seq<char>)
    requires
        report_id.len() > 0,
    ensures
        !seed_needed_spec(settings.push((FEATURED_REPORT_SETTING@, report_id)), true),
{
    let after = settings.push((FEATURED_REPORT_SETTING@, report_id));
    assert(after.last() == (FEATURED_REPORT_SETTING@, report_id));
}

/// Whether the default report must be seeded: the featured-report pointer is
/// missing, empty, or points at a report that no longer exists
/// (`featured_report_exists` is the answer of the report lookup).
pub fn briefing_seed_needed(settings: &Settings, featured_report_exists: bool) -> (r: bool)
    ensures
        r == seed_needed_spec(settings@, featured_report_exists),
{
    match settings.get(FEATURED_REPORT_SETTING) {
        Some(id) => {
            let c = chars_of(id.as_str());
            !(c.len() > 0 && featured_report_exists)
        },
        None => true,
    }
}

/// The report request that seeds the default Daily Briefing from the legacy
/// settings, tagged with `output_tag_id`, using `zone` as the time zone when
/// none is stored.
pub fn default_briefing_report_request(
    settings: &Settings,
    detected_zone: Option<String>,
    output_tag_id: String,
) -> (r: CreateReportRequest)
    ensures
        r.name@ == DEFAULT_REPORT_NAME@,
        r.description matches Some(d) && d@ == DEFAULT_REPORT_DESCRIPTION@,
        r.research_prompt@ == research_prompt_spec(settings@),
        r.source_scope_tag_ids@.len() == 0,
        r.source_scope_window == Some(SourceScopeWindow::SinceLastRun),
        r.source_include_kinds@ == seq![AtomKind::Captured],
        r.context_scope_mode == ContextScopeMode::All,
        r.context_scope_tag_ids@.len() == 0,
        r.context_scope_window is None,
        r.context_include_kinds@ == seq![AtomKind::Captured],
        r.citation_policy == CitationPolicy::SourceOnly,
        r.max_source_atoms is None,
        r.max_source_tokens is None,
        r.max_tool_iterations is None,
        r.schedule@ == cron_spec(settings@),
        r.schedule_tz matches Some(z) && z@ == zone_spec(
            settings@,
            match detected_zone {
                Some(d) => Some(d@),
                None => None,
            },
        ),
        r.enabled == enabled_spec(settings@),
        r.output_atom_tags@.len() == 1,
        r.output_atom_tags@[0]@ == output_tag_id@,
{
    let research_prompt = briefing_research_prompt(settings);
    let (schedule, schedule_tz, enabled) = legacy_schedule_to_cron_in_zone(settings, detected_zone);
    let mut tags: Vec<String> = Vec::new();
    tags.push(output_tag_id);
    CreateReportRequest {
        name: String::from_str(DEFAULT_REPORT_NAME),
        description: Some(String::from_str(DEFAULT_REPORT_DESCRIPTION)),
        research_prompt,
        source_scope_tag_ids: Vec::new(),
        source_scope_window: Some(SourceScopeWindow::SinceLastRun),
        source_include_kinds: vec![AtomKind::Captured],
        context_scope_mode: ContextScopeMode::All,
        context_scope_tag_ids: Vec::new(),
        context_scope_window: None,
        context_include_kinds: vec![AtomKind::Captured],
        citation_policy: CitationPolicy::SourceOnly,
        max_source_atoms: None,
        max_source_tokens: None,
        max_tool_iterations: None,
        schedule,
        schedule_tz: Some(schedule_tz),
        enabled,
        output_atom_tags: tags,
    }
}

/// One row of the legacy `briefings` table, joined with its citations.
#[derive(Debug, Clone)]
pub struct LegacyBriefingRow {
    pub id: String,
    pub content: String,
    pub created_at: String,
    pub citations: Vec<LegacyBriefingCitation>,
}

/// One citation of a legacy briefing.
#[derive(Debug, Clone)]
pub struct LegacyBriefingCitation {
    /// 1-indexed `[N]` position from the legacy `briefing_citations` table.
    pub citation_index: i32,
    pub atom_id: String,
    pub excerpt: String,
}

/// The report id the briefing history migrates under, if the migration is
/// still pending: `None` once the migration flag is `true`, or while no
/// featured report is set.
pub fn briefing_migration_target(settings: &Settings) -> (r: Option<String>)
    ensures
        lookup(settings@, MIGRATION_FLAG_SETTING@) == Some("true"@) ==> r is None,
        lookup(settings@, MIGRATION_FLAG_SETTING@) != Some("true"@) ==> match lookup(
            settings@,
            FEATURED_REPORT_SETTING@,
        ) {
            Some(id) => if id.len() > 0 {
                r matches Some(v) && v@ == id
            } else {
                r is None
            },
            None => r is None,
        },
{
    let done = match settings.get(MIGRATION_FLAG_SETTING) {
        Some(f) => {
            let c = chars_of(f.as_str());
            chars_eq_str(&c, "true")
        },
        None => false,
    };
    if done {
        return None;
    }
    match settings.get(FEATURED_REPORT_SETTING) {
        Some(id) => {
            let c = chars_of(id.as_str());
            if c.len() > 0 {
                Some(id.clone())
            } else {
                None
            }
        },
        None => None,
    }
}

/// The stable id of the finding atom a legacy briefing migrates into.
pub open spec fn legacy_finding_id_spec(briefing_id: Seq<char>) -> Seq<char> {
    "legacy-briefing-"@ + briefing_id
}

/// The finding atom, provenance and citations one legacy briefing migrates
/// into, under `report`.
pub fn legacy_briefing_finding(row: &LegacyBriefingRow, report: &Report) -> (r: (
    String,
    CreateAtomRequest,
    ReportFinding,
    Vec<ReportFindingCitation>,
))
    ensures
        r.0@ == legacy_finding_id_spec(row.id@),
        r.1.content@ == row.content@,
        r.1.source_url is None,
        r.1.published_at is None,
        r.1.tag_ids@.len() == report.output_atom_tags@.len(),
        forall|i: int|
            0 <= i < r.1.tag_ids@.len() ==> #[trigger] r.1.tag_ids@[i]@ == report.output_atom_tags@[i]@,
        !r.1.skip_if_source_exists,
        r.2.finding_atom_id@ == r.0@,
        r.2.report_id matches Some(id) && id@ == report.id@,
        r.2.run_id is None,
        r.2.report_name_snapshot@ == report.name@,
        r.2.created_at@ == row.created_at@,
        r.3@.len() == row.citations@.len(),
        forall|i: int|
            #![trigger r.3@[i]]
            0 <= i < r.3@.len() ==> {
                &&& r.3@[i].finding_atom_id@ == r.0@
                &&& r.3@[i].cited_atom_id@ == row.citations@[i].atom_id@
                &&& r.3@[i].position == row.citations@[i].citation_index
                &&& r.3@[i].excerpt@ == row.citations@[i].excerpt@
            },
{
    let mut idc = chars_of("legacy-briefing-");
    let rid = chars_of(row.id.as_str());
    crate::text::append_chars(&mut idc, &rid);
    let atom_id = string_from_chars(&idc);
    let mut tag_ids: Vec<String> = Vec::new();
    let mut i: usize = 0;
    while i < report.output_atom_tags.len()
        invariant
            i <= report.output_atom_tags.len(),
            tag_ids@.len() == i,
            forall|k: int| 0 <= k < i ==> #[trigger] tag_ids@[k]@ == report.output_atom_tags@[k]@,
        decreases report.output_atom_tags.len() - i,
    {
        tag_ids.push(report.output_atom_tags[i].clone());
        i = i + 1;
    }
    let req = CreateAtomRequest {
        content: row.content.clone(),
        source_url: None,
        published_at: None,
        tag_ids,
        skip_if_source_exists: false,
    };
    let provenance = ReportFinding {
        finding_atom_id: atom_id.clone(),
        report_id: Some(report.id.clone()),
        run_id: None,
        report_name_snapshot: report.name.clone(),
        created_at: row.created_at.clone(),
    };
    let mut citations: Vec<ReportFindingCitation> = Vec::new();
    let mut j: usize = 0;
    while j < row.citations.len()
        invariant
            j <= row.citations.len(),
            citations@.len() == j,
            forall|k: int|
                #![trigger citations@[k]]
                0 <= k < j ==> {
                    &&& citations@[k].finding_atom_id@ == atom_id@
                    &&& citations@[k].cited_atom_id@ == row.citations@[k].atom_id@
                    &&& citations@[k].position == row.citations@[k].citation_index
                    &&& citations@[k].excerpt@ == row.citations@[k].excerpt@
                },
        decreases row.citations.len() - j,
    {
        let c = &row.citations[j];
        citations.push(
            ReportFindingCitation {
                finding_atom_id: atom_id.clone(),
                cited_atom_id: c.atom_id.clone(),
                position: c.citation_index,
                excerpt: c.excerpt.clone(),
            },
        );
        j = j + 1;
    }
    (atom_id, req, provenance, citations)
}

} // verus!
