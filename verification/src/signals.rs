//! Knowledge-quality signals: their data model, the keys that identify them,
//! and whether a signal is shown given the user's feedback on it.
use vstd::prelude::*;
use sha2::Digest;
use crate::error::AtomicCoreError;
use crate::reports::opt_view;
use crate::tag_tree::TagCleanupTag;
use crate::text::{append_str, chars_eq_str, chars_le, chars_of, split_chars, split_seq, seq_le, string_from_chars};

verus! {

pub const WIKI_CANDIDATE_PROVIDER_ID: &'static str = "wiki_candidate";
pub const WIKI_UPDATE_PROVIDER_ID: &'static str = "wiki_update";
pub const TAG_REDUNDANCY_PROVIDER_ID: &'static str = "tag_redundancy";
pub const EMPTY_TAG_PROVIDER_ID: &'static str = "empty_tag";
pub const MISSING_TAG_OVERLAP_PROVIDER_ID: &'static str = "missing_tag_overlap";
pub const NEAR_DUPLICATE_ATOM_PROVIDER_ID: &'static str = "near_duplicate_atom";
pub const SOURCE_DUPLICATE_PROVIDER_ID: &'static str = "source_duplicate";
pub const BROKEN_INTERNAL_LINK_PROVIDER_ID: &'static str = "broken_internal_link";
pub const UNDERCONNECTED_ATOM_PROVIDER_ID: &'static str = "underconnected_atom";

/// What a signal is about: a tag or an atom, by id, with a display label.
#[derive(Clone, Debug)]
pub struct KnowledgeSignalTarget {
    pub kind: String,
    pub id: String,
    pub label: String,
}

impl KnowledgeSignalTarget {
    /// A tag target.
    pub fn tag(id: String, label: String) -> (t: KnowledgeSignalTarget)
        ensures
            t.kind@ == "tag"@,
            t.id == id,
            t.label == label,
    {
        KnowledgeSignalTarget { kind: String::from_str("tag"), id, label }
    }

    /// An atom target.
    pub fn atom(id: String, label: String) -> (t: KnowledgeSignalTarget)
        ensures
            t.kind@ == "atom"@,
            t.id == id,
            t.label == label,
    {
        KnowledgeSignalTarget { kind: String::from_str("atom"), id, label }
    }
}

/// How urgent a signal is.
#[derive(Clone, Copy, Debug, PartialEq, Eq, Structural)]
pub enum KnowledgeSignalSeverity {
    Info,
    Opportunity,
    Review,
}

impl KnowledgeSignalSeverity {
    /// The name the severity is stored and sent under.
    pub fn name(&self) -> (s: &'static str)
        ensures
            s@ == severity_name(*self),
    {
        match self {
            KnowledgeSignalSeverity::Info => "info",
            KnowledgeSignalSeverity::Opportunity => "opportunity",
            KnowledgeSignalSeverity::Review => "review",
        }
    }
}

/// The stored name of a severity.
pub open spec fn severity_name(s: KnowledgeSignalSeverity) -> Seq<char> {
    match s {
        KnowledgeSignalSeverity::Info => "info"@,
        KnowledgeSignalSeverity::Opportunity => "opportunity"@,
        KnowledgeSignalSeverity::Review => "review"@,
    }
}

/// An action a signal suggests.
#[derive(Clone, Debug)]
pub struct KnowledgeSignalAction {
    pub id: String,
    pub label: String,
    pub kind: String,
}

/// Which signals a listing returns.
#[derive(Clone, Debug)]
pub struct KnowledgeSignalFilter {
    pub provider_id: Option<String>,
    pub include_dismissed: bool,
    pub include_snoozed: bool,
    pub limit: Option<i32>,
}

impl Default for KnowledgeSignalFilter {
    fn default() -> (f: KnowledgeSignalFilter)
        ensures
            f.provider_id is None,
            !f.include_dismissed,
            !f.include_snoozed,
            f.limit is None,
    {
        KnowledgeSignalFilter { provider_id: None, include_dismissed: false, include_snoozed: false, limit: None }
    }
}

/// A provider that failed while the dashboard was assembled.
#[derive(Clone, Debug)]
pub struct DashboardKnowledgeSignalError {
    pub provider_id: String,
    pub name: String,
    pub evaluation_ms: u64,
    pub message: String,
}

/// The user's feedback on one signal.
#[derive(Clone, Debug)]
pub struct KnowledgeSignalFeedback {
    pub signal_key: String,
    pub provider_id: String,
    pub target_type: String,
    pub target_id: Option<String>,
    pub state: String,
    pub snoozed_until: Option<String>,
}

/// Evidence of a wiki article that has fallen behind its tag.
#[derive(Clone, Debug)]
pub struct WikiUpdateEvidence {
    pub article_id: String,
    pub tag_id: String,
    pub tag_name: String,
    pub article_atom_count: i32,
    pub current_atom_count: i32,
    pub new_atom_count: i32,
    pub new_source_count: i32,
    pub new_substantive_count: i32,
    pub new_recent_count: i32,
    pub inbound_link_count: i32,
    pub updated_at: String,
}

/// The tag's growth since the article was written, never negative.
pub open spec fn tag_growth(e: WikiUpdateEvidence) -> int {
    let d = e.current_atom_count - e.article_atom_count;
    if d > 0 {
        d
    } else {
        0
    }
}

impl WikiUpdateEvidence {
    /// How many tagged atoms the article does not reflect: the atoms counted
    /// as new, or the tag's growth since the article, whichever is larger.
    pub fn update_atom_count(&self) -> (r: i32)
        requires
            i32::MIN <= self.current_atom_count - self.article_atom_count <= i32::MAX,
        ensures
            r == if self.new_atom_count >= tag_growth(*self) {
                self.new_atom_count as int
            } else {
                tag_growth(*self)
            },
    {
        let d = self.current_atom_count - self.article_atom_count;
        let growth = if d > 0 {
            d
        } else {
            0
        };
        if self.new_atom_count >= growth {
            self.new_atom_count
        } else {
            growth
        }
    }
}

/// An atom is judged for being under-connected only once its semantic edges
/// are computed and the knowledge base holds at least eight captured atoms.
pub fn underconnected_candidate_ready(edges_status: &str, captured_atom_count: i32) -> (r: bool)
    ensures
        r == (edges_status@ == "complete"@ && captured_atom_count >= 8),
{
    let st = chars_of(edges_status);
    chars_eq_str(&st, "complete") && captured_atom_count >= 8
}

/// A tag as tag-cleanup evidence shows it.
#[derive(Clone, Debug)]
pub struct TagCleanupTagEvidence {
    pub id: String,
    pub name: String,
    pub parent_id: Option<String>,
    pub path: Vec<String>,
    pub atom_count: i32,
    pub child_count: i32,
    pub has_wiki: bool,
    pub is_autotag_target: bool,
}

impl TagCleanupTagEvidence {
    /// The evidence record of a tag.
    pub fn from_tag(tag: &TagCleanupTag) -> (e: TagCleanupTagEvidence)
        ensures
            e.id == tag.id,
            e.name == tag.name,
            e.parent_id == tag.parent_id,
            e.path@ == tag.path@,
            e.atom_count == tag.atom_count,
            e.child_count == tag.child_count,
            e.has_wiki == tag.has_wiki,
            e.is_autotag_target == tag.is_autotag_target,
    {
        TagCleanupTagEvidence {
            id: tag.id.clone(),
            name: tag.name.clone(),
            parent_id: match &tag.parent_id {
                Some(p) => Some(p.clone()),
                None => None,
            },
            path: clone_strings(&tag.path),
            atom_count: tag.atom_count,
            child_count: tag.child_count,
            has_wiki: tag.has_wiki,
            is_autotag_target: tag.is_autotag_target,
        }
    }
}

/// Copies a list of strings.
pub fn clone_strings(v: &Vec<String>) -> (r: Vec<String>)
    ensures
        r@ == v@,
{
    let mut r: Vec<String> = Vec::new();
    let mut i: usize = 0;
    while i < v.len()
        invariant
            i <= v.len(),
            r@ == v@.take(i as int),
        decreases v.len() - i,
    {
        r.push(v[i].clone());
        i = i + 1;
    }
    assert(v@.take(v.len() as int) == v@);
    r
}

/// Evidence of an empty tag.
#[derive(Clone, Debug)]
pub struct EmptyTagEvidence {
    pub tag: TagCleanupTagEvidence,
}

/// An atom as duplicate evidence shows it.
#[derive(Clone, Debug)]
pub struct NearDuplicateAtomEvidenceAtom {
    pub id: String,
    pub title: String,
    pub source_url: Option<String>,
    pub content_length: i32,
    pub created_at: String,
    pub updated_at: String,
}

/// A tag two duplicate atoms share.
#[derive(Clone, Debug)]
pub struct NearDuplicateTagEvidence {
    pub id: String,
    pub name: String,
}

/// Evidence of an internal link whose target does not resolve.
#[derive(Clone, Debug)]
pub struct BrokenInternalLinkEvidence {
    pub link_id: String,
    pub source_atom_id: String,
    pub source_atom_title: String,
    pub raw_target: String,
    pub label: Option<String>,
    pub target_kind: String,
    pub status: String,
    pub start_offset: Option<i32>,
    pub end_offset: Option<i32>,
}

/// An instant in UTC: whole seconds since the Unix epoch and the nanoseconds
/// past that second.
#[derive(Clone, Copy, Debug, PartialEq, Eq, Structural)]
pub struct UtcTime {
    pub secs: i64,
    pub nanos: u32,
}

/// `a` is not later than `b`.
pub open spec fn time_le(a: UtcTime, b: UtcTime) -> bool {
    a.secs < b.secs || (a.secs == b.secs && a.nanos <= b.nanos)
}

/// Whether `a` is not later than `b`.
pub fn utc_le(a: UtcTime, b: UtcTime) -> (r: bool)
    ensures
        r == time_le(a, b),
{
    a.secs < b.secs || (a.secs == b.secs && a.nanos <= b.nanos)
}

/// The instant an RFC 3339 text denotes, as (seconds, nanoseconds) in UTC;
/// none when the text is not RFC 3339.
pub uninterp spec fn rfc3339_instant(raw: Seq<char>) -> Option<(i64, u32)>;

/// Parses an RFC 3339 timestamp (`chrono::DateTime::parse_from_rfc3339`,
/// then `timestamp` and `timestamp_subsec_nanos`). The result depends on the
/// text alone; its contract names it and claims nothing more.
#[verifier::external_body]
fn parse_rfc3339(raw: &str) -> (r: Option<UtcTime>)
    ensures
        match r {
            Some(t) => rfc3339_instant(raw@) == Some((t.secs, t.nanos)),
            None => rfc3339_instant(raw@) is None,
        },
{
    match chrono::DateTime::parse_from_rfc3339(raw) {
        Ok(t) => Some(UtcTime { secs: t.timestamp(), nanos: t.timestamp_subsec_nanos() }),
        Err(_) => None,
    }
}

/// The current instant (`chrono::Utc::now`). It depends on the clock, so the
/// contract claims nothing about it.
#[verifier::external_body]
fn utc_now() -> UtcTime {
    let t = chrono::Utc::now();
    UtcTime { secs: t.timestamp(), nanos: t.timestamp_subsec_nanos() }
}

/// The snooze deadline of a feedback row has passed (or is missing or
/// unreadable, which counts as passed).
pub open spec fn snooze_over(until: Option<Seq<char>>, now: UtcTime) -> bool {
    match until {
        Some(raw) => match rfc3339_instant(raw) {
            Some(t) => time_le(UtcTime { secs: t.0, nanos: t.1 }, now),
            None => true,
        },
        None => true,
    }
}

/// A signal with this feedback is shown: it is not dismissed or ignored, and
/// if snoozed the snooze is over.
pub open spec fn visible_spec(feedback: Option<KnowledgeSignalFeedback>, now: UtcTime) -> bool {
    match feedback {
        Some(fb) => if fb.state@ == "dismissed"@ || fb.state@ == "ignored"@ {
            false
        } else if fb.state@ == "snoozed"@ {
            snooze_over(opt_view(fb.snoozed_until), now)
        } else {
            true
        },
        None => true,
    }
}

fn snooze_is_over(until: &Option<String>, now: UtcTime) -> (r: bool)
    ensures
        r == snooze_over(opt_view(*until), now),
{
    match until {
        Some(raw) => match parse_rfc3339(raw.as_str()) {
            Some(t) => utc_le(t, now),
            None => true,
        },
        None => true,
    }
}

/// Whether a signal with the given feedback is shown at `now`.
pub fn signal_is_visible_with_feedback(feedback: Option<&KnowledgeSignalFeedback>, now: UtcTime) -> (r: bool)
    ensures
        r == visible_spec(
            match feedback {
                Some(f) => Some(*f),
                None => None,
            },
            now,
        ),
{
    match feedback {
        Some(fb) => {
            let st = chars_of(fb.state.as_str());
            if chars_eq_str(&st, "dismissed") || chars_eq_str(&st, "ignored") {
                false
            } else if chars_eq_str(&st, "snoozed") {
                snooze_is_over(&fb.snoozed_until, now)
            } else {
                true
            }
        },
        None => true,
    }
}

/// A signal with this feedback is listed under `filter`: dismissed and ignored
/// ones only when the filter includes dismissed signals, snoozed ones when the
/// filter includes snoozed signals or the snooze is over.
pub open spec fn listed_spec(feedback: Option<KnowledgeSignalFeedback>, filter: KnowledgeSignalFilter, now: UtcTime) -> bool {
    match feedback {
        Some(fb) => if fb.state@ == "dismissed"@ || fb.state@ == "ignored"@ {
            filter.include_dismissed
        } else if fb.state@ == "snoozed"@ {
            filter.include_snoozed || snooze_over(opt_view(fb.snoozed_until), now)
        } else {
            true
        },
        None => true,
    }
}

/// Whether a signal with the given feedback belongs in a listing under
/// `filter` at `now`.
pub fn signal_listed_with_feedback(
    feedback: Option<&KnowledgeSignalFeedback>,
    filter: &KnowledgeSignalFilter,
    now: UtcTime,
) -> (r: bool)
    ensures
        r == listed_spec(
            match feedback {
                Some(f) => Some(*f),
                None => None,
            },
            *filter,
            now,
        ),
{
    match feedback {
        Some(fb) => {
            let st = chars_of(fb.state.as_str());
            if chars_eq_str(&st, "dismissed") || chars_eq_str(&st, "ignored") {
                filter.include_dismissed
            } else if chars_eq_str(&st, "snoozed") {
                filter.include_snoozed || snooze_is_over(&fb.snoozed_until, now)
            } else {
                true
            }
        },
        None => true,
    }
}

/// Hiding is never looser than listing: a signal shown on the dashboard is
/// also listed under any filter.
pub proof fn law_visible_signals_are_listed(
    feedback: Option<KnowledgeSignalFeedback>,
    filter: KnowledgeSignalFilter,
    now: UtcTime,
)
    ensures
        visible_spec(feedback, now) ==> listed_spec(feedback, filter, now),
{
}

/// The positions, in order, of the first `n` signals that a listing under
/// `filter` at `now` keeps, given the feedback on each signal.
pub open spec fn listed_positions(
    feedback: Seq<Option<KnowledgeSignalFeedback>>,
    filter: KnowledgeSignalFilter,
    now: UtcTime,
    n: int,
) -> Seq<usize>
    decreases n,
{
    if n <= 0 {
        Seq::empty()
    } else {
        let before = listed_positions(feedback, filter, now, n - 1);
        if listed_spec(feedback[n - 1], filter, now) {
            before.push((n - 1) as usize)
        } else {
            before
        }
    }
}

/// Filters signals by their feedback at the current time: returns the
/// positions of those a listing under `filter` keeps. The clock is read once,
/// so one instant decides every signal; which instant that is, is not known.
pub fn listed_signal_positions(feedback: &Vec<Option<KnowledgeSignalFeedback>>, filter: &KnowledgeSignalFilter) -> (r: Vec<usize>)
    ensures
        exists|now: UtcTime| r@ == listed_positions(feedback@, *filter, now, feedback@.len() as int),
{
    let now = utc_now();
    let mut out: Vec<usize> = Vec::new();
    let mut i: usize = 0;
    while i < feedback.len()
        invariant
            0 <= i <= feedback@.len(),
            out@ == listed_positions(feedback@, *filter, now, i as int),
        decreases feedback@.len() - i,
    {
        let keep = match &feedback[i] {
            Some(fb) => signal_listed_with_feedback(Some(fb), filter, now),
            None => signal_listed_with_feedback(None, filter, now),
        };
        if keep {
            out.push(i);
        }
        i = i + 1;
    }
    out
}

/// How long a cached dashboard listing stays fresh, in nanoseconds (15 s).
pub const DASHBOARD_SIGNAL_CACHE_TTL_NANOS: u64 = 15_000_000_000u64;

/// Whether a cached dashboard listing can be served: it was computed for the
/// same per-provider limit and is no older than the time to live.
pub fn dashboard_cache_fresh(cached_limit: i32, limit: i32, age_nanos: u64, ttl_nanos: u64) -> (b: bool)
    ensures
        b == (cached_limit == limit && age_nanos <= ttl_nanos),
{
    cached_limit == limit && age_nanos <= ttl_nanos
}

/// How many signals a listing keeps: the filter's limit when it is present
/// and not negative.
pub fn listing_limit(filter: &KnowledgeSignalFilter) -> (r: Option<usize>)
    ensures
        match filter.limit {
            Some(l) => if l >= 0 {
                r == Some(l as usize)
            } else {
                r is None
            },
            None => r is None,
        },
{
    match filter.limit {
        Some(l) => if l >= 0 {
            Some(l as usize)
        } else {
            None
        },
        None => None,
    }
}

/// The message of a refused snooze deadline.
pub open spec fn snooze_error_message() -> Seq<char> {
    "snoozed_until must be an RFC3339 timestamp"@
}

/// Checks a snooze deadline: `Validation` unless it is an RFC 3339 timestamp.
pub fn check_snooze_until(until: &str) -> (r: Result<(), AtomicCoreError>)
    ensures
        r is Ok <==> rfc3339_instant(until@) is Some,
        r matches Err(e) ==> e == AtomicCoreError::Validation(e->Validation_0) && e.message() == snooze_error_message(),
{
    match parse_rfc3339(until) {
        Some(_) => Ok(()),
        None => Err(AtomicCoreError::Validation(String::from_str("snoozed_until must be an RFC3339 timestamp"))),
    }
}

/// The parts of a signal key `provider:target_type:target_id[:...]`; keys with
/// fewer than three parts are refused.
pub open spec fn signal_key_parts(key: Seq<char>) -> Option<(Seq<char>, Seq<char>, Seq<char>)> {
    let parts = split_seq(key, ':');
    if parts.len() < 3 {
        None
    } else {
        Some((parts[0], parts[1], parts[2]))
    }
}

/// The message of a refused signal key.
pub open spec fn invalid_key_message(key: Seq<char>) -> Seq<char> {
    "Invalid knowledge signal key: "@ + key
}

/// Splits a signal key into provider id, target type and target id.
pub fn parse_signal_key(signal_key: &str) -> (r: Result<(String, String, Option<String>), AtomicCoreError>)
    ensures
        match signal_key_parts(signal_key@) {
            Some(p) => r matches Ok(v) && v.0@ == p.0 && v.1@ == p.1 && opt_view(v.2) == Some(p.2),
            None => r matches Err(e) && e == AtomicCoreError::Validation(e->Validation_0) && e.message()
                == invalid_key_message(signal_key@),
        },
{
    let cs = chars_of(signal_key);
    let parts = split_chars(&cs, ':');
    if parts.len() < 3 {
        let mut m = chars_of("Invalid knowledge signal key: ");
        append_str(&mut m, signal_key);
        return Err(AtomicCoreError::Validation(string_from_chars(&m)));
    }
    Ok((string_from_chars(&parts[0]), string_from_chars(&parts[1]), Some(string_from_chars(&parts[2]))))
}

/// Names the SHA-256 digest of a byte string.
pub uninterp spec fn sha256_digest(data: Seq<u8>) -> Seq<u8>;

/// SHA-256 of `data` (`sha2::Sha256::digest`). The digest depends on the
/// bytes alone and is 32 bytes long; nothing else is claimed of it.
#[verifier::external_body]
fn sha256(data: &[u8]) -> (r: Vec<u8>)
    ensures
        r@ == sha256_digest(data@),
        r@.len() == 32,
{
    sha2::Sha256::digest(data).to_vec()
}

/// The lower-case hexadecimal digit of `d` (below 16).
pub open spec fn hex_digit(d: u8) -> char {
    if d < 10 {
        (('0' as u8) + d) as char
    } else {
        (('a' as u8) + d - 10) as char
    }
}

/// Bytes in lower-case hexadecimal, two digits per byte.
pub open spec fn lower_hex(bytes: Seq<u8>) -> Seq<char>
    decreases bytes.len(),
{
    if bytes.len() == 0 {
        Seq::empty()
    } else {
        lower_hex(bytes.drop_last()) + seq![hex_digit(bytes.last() / 16), hex_digit(bytes.last() % 16)]
    }
}

fn hex_digit_exec(d: u8) -> (c: char)
    requires
        d < 16,
    ensures
        c == hex_digit(d),
{
    if d < 10 {
        (48u8 + d) as char
    } else {
        (97u8 + d - 10) as char
    }
}

fn append_lower_hex(out: &mut Vec<char>, bytes: &Vec<u8>)
    ensures
        final(out)@ == old(out)@ + lower_hex(bytes@),
{
    let ghost start = out@;
    let mut i: usize = 0;
    while i < bytes.len()
        invariant
            i <= bytes.len(),
            out@ == start + lower_hex(bytes@.take(i as int)),
        decreases bytes.len() - i,
    {
        let b = bytes[i];
        out.push(hex_digit_exec(b / 16));
        out.push(hex_digit_exec(b % 16));
        assert(bytes@.take(i + 1).drop_last() == bytes@.take(i as int));
        i = i + 1;
        assert(out@ =~= start + lower_hex(bytes@.take(i as int)));
    }
    assert(bytes@.take(bytes.len() as int) == bytes@);
}

/// The two ids of a pair in order, the smaller first.
pub open spec fn ordered_pair(a: Seq<char>, b: Seq<char>) -> (Seq<char>, Seq<char>) {
    if seq_le(a, b) {
        (a, b)
    } else {
        (b, a)
    }
}

/// The key of a signal about the unordered pair `{a, b}`: `prefix` and the
/// hex SHA-256 of `left:right` with the smaller id left.
pub open spec fn pair_key_spec(prefix: Seq<char>, a: Seq<char>, b: Seq<char>) -> Seq<char> {
    let p = ordered_pair(a, b);
    prefix + lower_hex(sha256_digest(crate::signals::utf8_of(p.0 + seq![':'] + p.1)))
}

/// The UTF-8 encoding of a character sequence.
pub open spec fn utf8_of(s: Seq<char>) -> Seq<u8> {
    vstd::utf8::encode_utf8(s)
}

fn pair_key(prefix: &str, a: &str, b: &str) -> (r: String)
    ensures
        r@ == pair_key_spec(prefix@, a@, b@),
{
    let ac = chars_of(a);
    let bc = chars_of(b);
    let mut joined: Vec<char> = Vec::new();
    if chars_le(&ac, &bc) {
        append_str(&mut joined, a);
        joined.push(':');
        append_str(&mut joined, b);
    } else {
        append_str(&mut joined, b);
        joined.push(':');
        append_str(&mut joined, a);
    }
    let text = string_from_chars(&joined);
    let bytes = text.as_str().as_bytes();
    let digest = sha256(bytes);
    let mut out = chars_of(prefix);
    append_lower_hex(&mut out, &digest);
    proof {
        let p = ordered_pair(a@, b@);
        assert(joined@ == p.0 + seq![':'] + p.1);
    }
    string_from_chars(&out)
}

/// The key of a tag-redundancy signal about tags `a` and `b`.
pub fn tag_pair_signal_key(a: &str, b: &str) -> (r: String)
    ensures
        r@ == pair_key_spec("tag_redundancy:pair:"@, a@, b@),
{
    pair_key("tag_redundancy:pair:", a, b)
}

/// The key of a near-duplicate signal about atoms `a` and `b`.
pub fn near_duplicate_atom_signal_key(a: &str, b: &str) -> (r: String)
    ensures
        r@ == pair_key_spec("near_duplicate_atom:pair:"@, a@, b@),
{
    pair_key("near_duplicate_atom:pair:", a, b)
}

/// The key of a source-duplicate signal about atoms `a` and `b`.
pub fn source_duplicate_signal_key(a: &str, b: &str) -> (r: String)
    ensures
        r@ == pair_key_spec("source_duplicate:pair:"@, a@, b@),
{
    pair_key("source_duplicate:pair:", a, b)
}

/// A pair key does not depend on the order of the two ids.
pub proof fn law_pair_key_symmetric(prefix: Seq<char>, a: Seq<char>, b: Seq<char>)
    ensures
        pair_key_spec(prefix, a, b) == pair_key_spec(prefix, b, a),
{
    lemma_seq_le_total(a, b);
    if seq_le(a, b) && seq_le(b, a) {
        lemma_seq_le_antisym(a, b);
    }
}

proof fn lemma_seq_le_total(a: Seq<char>, b: Seq<char>)
    ensures
        seq_le(a, b) || seq_le(b, a),
    decreases a.len(),
{
    if a.len() == 0 && b.len() == 0 {
        assert(a == b);
    } else if a.len() == 0 || b.len() == 0 {
    } else if a[0] != b[0] {
        vstd::utf8::char_is_scalar(a[0]);
        vstd::utf8::char_is_scalar(b[0]);
        if (a[0] as u32) == (b[0] as u32) {
            vstd::utf8::char_u32_cast(a[0], a[0] as u32);
            vstd::utf8::char_u32_cast(b[0], b[0] as u32);
        }
    } else {
        lemma_seq_le_total(a.drop_first(), b.drop_first());
        if a.drop_first() == b.drop_first() {
            assert(a == seq![a[0]] + a.drop_first());
            assert(b == seq![b[0]] + b.drop_first());
        }
    }
}

proof fn lemma_seq_le_antisym(a: Seq<char>, b: Seq<char>)
    requires
        seq_le(a, b),
        seq_le(b, a),
    ensures
        a == b,
    decreases a.len(),
{
    if a != b {
        lemma_seq_lt_asym(a, b);
    }
}

proof fn lemma_seq_lt_asym(a: Seq<char>, b: Seq<char>)
    ensures
        !(crate::text::seq_lt(a, b) && crate::text::seq_lt(b, a)),
    decreases a.len(),
{
    if a.len() > 0 && b.len() > 0 && a[0] == b[0] {
        lemma_seq_lt_asym(a.drop_first(), b.drop_first());
    }
}

} // verus!
