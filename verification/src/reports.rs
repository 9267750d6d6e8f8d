//! Report runs: the prompt a source batch is rendered into, the citation
//! ledger that numbers evidence, and the context filter search results pass.
use vstd::prelude::*;
use crate::models::{AtomKind, AtomWithTags, CitationPolicy, KindFilter, Report};
use crate::text::{
    append_chars, append_str, chars_lt, chars_of, chars_eq, decimal, decimal_chars,
    signed_decimal, signed_decimal_chars, string_from_chars, trim_chars, trim_seq,
    truncate_chars, truncate_spec, seq_lt,
};

verus! {

/// Inline snippet length (bytes) used in prompts and tool responses.
pub const SNIPPET_LEN: usize = 200;
/// Excerpt length (bytes) stored with citations.
pub const EXCERPT_LEN: usize = 300;
/// Default cap on tool-calling iterations.
pub const DEFAULT_MAX_ITERATIONS: usize = 20;

/// Truncates `s` to about `max` bytes on a character boundary, appending
/// `...` when something was cut.
pub fn truncate_on_char_boundary(s: &str, max: usize) -> (r: String)
    ensures
        r@ == truncate_spec(s@, max as nat),
{
    let c = chars_of(s);
    let t = truncate_chars(&c, max);
    string_from_chars(&t)
}

/// The text a snippet or excerpt is cut from: the stored snippet, or the
/// content when the snippet is empty.
pub open spec fn snippet_source(atom: AtomWithTags) -> Seq<char> {
    if atom.atom.snippet@.len() > 0 {
        atom.atom.snippet@
    } else {
        atom.atom.content@
    }
}

/// `s` with every line feed replaced by a space.
pub open spec fn flatten_newlines(s: Seq<char>) -> Seq<char> {
    s.map_values(|c: char| if c == '\n' { ' ' } else { c })
}

/// The one-line snippet shown for an atom in prompts.
pub open spec fn snippet_spec(atom: AtomWithTags) -> Seq<char> {
    truncate_spec(trim_seq(flatten_newlines(snippet_source(atom))), SNIPPET_LEN as nat)
}

/// The excerpt stored with a citation of an atom.
pub open spec fn excerpt_spec(atom: AtomWithTags) -> Seq<char> {
    truncate_spec(trim_seq(snippet_source(atom)), EXCERPT_LEN as nat)
}

fn snippet_source_chars(atom: &AtomWithTags) -> (r: Vec<char>)
    ensures
        r@ == snippet_source(*atom),
{
    let sn = chars_of(atom.atom.snippet.as_str());
    if sn.len() > 0 {
        sn
    } else {
        chars_of(atom.atom.content.as_str())
    }
}

/// Replaces every line feed by a space.
pub fn flatten_newline_chars(s: &Vec<char>) -> (r: Vec<char>)
    ensures
        r@ == flatten_newlines(s@),
{
    let mut r: Vec<char> = Vec::new();
    let mut i: usize = 0;
    while i < s.len()
        invariant
            i <= s.len(),
            r@ == flatten_newlines(s@.take(i as int)),
        decreases s.len() - i,
    {
        let c = s[i];
        let d = if c == '\n' {
            ' '
        } else {
            c
        };
        r.push(d);
        i = i + 1;
        assert(flatten_newlines(s@.take(i as int)) == flatten_newlines(s@.take((i - 1) as int)).push(d));
    }
    assert(s@.take(s.len() as int) == s@);
    r
}

/// The prompt snippet of an atom: one line, trimmed, at most about 200 bytes.
pub fn snippet_for(atom: &AtomWithTags) -> (r: String)
    ensures
        r@ == snippet_spec(*atom),
{
    let src = snippet_source_chars(atom);
    let flat = flatten_newline_chars(&src);
    let t = trim_chars(&flat);
    let cut = truncate_chars(&t, SNIPPET_LEN);
    string_from_chars(&cut)
}

/// The citation excerpt of an atom: trimmed, at most about 300 bytes.
pub fn excerpt_for(atom: &AtomWithTags) -> (r: String)
    ensures
        r@ == excerpt_spec(*atom),
{
    let src = snippet_source_chars(atom);
    let t = trim_chars(&src);
    let cut = truncate_chars(&t, EXCERPT_LEN);
    string_from_chars(&cut)
}

/// A time bound on atom creation.
#[derive(Clone, Debug)]
pub enum TimeWindow {
    /// Created strictly before the RFC 3339 timestamp.
    Before(String),
    /// Created strictly after the RFC 3339 timestamp.
    After(String),
}

/// The context scope a report's search results must fall in.
#[derive(Clone, Debug)]
pub struct ContextFilter {
    pub tag_ids: Vec<String>,
    pub time_window: Option<TimeWindow>,
    pub kinds: KindFilter,
    pub excluded_atom_ids: Vec<String>,
}

/// Whether `id` is one of `ids`.
pub open spec fn id_listed(ids: Seq<String>, id: Seq<char>) -> bool {
    exists|i: int| 0 <= i < ids.len() && #[trigger] ids[i]@ == id
}

/// Whether an atom passes a report's context filter: it is not excluded, its
/// creation time (compared as text) lies in the window, and its kind is
/// admitted.
pub open spec fn passes_context_filter_spec(atom: AtomWithTags, ctx: ContextFilter) -> bool {
    &&& !id_listed(ctx.excluded_atom_ids@, atom.atom.id@)
    &&& match ctx.time_window {
        None => true,
        Some(TimeWindow::Before(cutoff)) => seq_lt(atom.atom.created_at@, cutoff@),
        Some(TimeWindow::After(cutoff)) => seq_lt(cutoff@, atom.atom.created_at@),
    }
    &&& match ctx.kinds {
        KindFilter::All => true,
        KindFilter::Only(kinds) => kinds@.len() > 0 && kinds@.contains(atom.atom.kind),
    }
}

/// Whether `id` is one of `ids`.
pub fn contains_id(ids: &Vec<String>, id: &str) -> (r: bool)
    ensures
        r == id_listed(ids@, id@),
{
    let target = chars_of(id);
    let mut i: usize = 0;
    while i < ids.len()
        invariant
            i <= ids.len(),
            target@ == id@,
            forall|j: int| 0 <= j < i ==> ids@[j]@ != id@,
        decreases ids.len() - i,
    {
        let c = chars_of(ids[i].as_str());
        if chars_eq(&c, &target) {
            return true;
        }
        i = i + 1;
    }
    false
}

fn kinds_contain(kinds: &Vec<AtomKind>, kind: AtomKind) -> (r: bool)
    ensures
        r == kinds@.contains(kind),
{
    let mut i: usize = 0;
    while i < kinds.len()
        invariant
            i <= kinds.len(),
            forall|j: int| 0 <= j < i ==> kinds@[j] != kind,
        decreases kinds.len() - i,
    {
        if kinds[i] == kind {
            return true;
        }
        i = i + 1;
    }
    false
}

/// Whether a search hit may be shown to a report run.
pub fn passes_context_filter(atom: &AtomWithTags, ctx: &ContextFilter) -> (r: bool)
    ensures
        r == passes_context_filter_spec(*atom, *ctx),
{
    if contains_id(&ctx.excluded_atom_ids, atom.atom.id.as_str()) {
        return false;
    }
    let created = chars_of(atom.atom.created_at.as_str());
    match &ctx.time_window {
        None => {},
        Some(TimeWindow::Before(cutoff)) => {
            let c = chars_of(cutoff.as_str());
            if !chars_lt(&created, &c) {
                return false;
            }
        },
        Some(TimeWindow::After(cutoff)) => {
            let c = chars_of(cutoff.as_str());
            if !chars_lt(&c, &created) {
                return false;
            }
        },
    }
    match &ctx.kinds {
        KindFilter::All => {},
        KindFilter::Only(kinds) => {
            if kinds.len() == 0 || !kinds_contain(kinds, atom.atom.kind) {
                return false;
            }
        },
    }
    true
}


/// What kind of evidence a citation points at.
#[derive(Clone, Copy, Debug, PartialEq, Eq, Structural)]
pub enum CitationSource {
    /// An atom.
    Atom,
    /// A wiki article.
    WikiArticle,
}

/// Which evidence a ledger numbers.
#[derive(Clone, Copy, Debug, PartialEq, Eq, Structural)]
pub enum CitationAdmission {
    /// Only the seeded batch; nothing registered later gets a number.
    SeededOnly,
    /// Every registered item gets the next number on first appearance.
    Open,
}

/// One numbered piece of evidence.
#[derive(Clone, Debug)]
pub struct Citable {
    pub number: i32,
    pub source: CitationSource,
    pub source_id: String,
    pub label: Option<String>,
    pub excerpt: String,
}

/// The abstract entry of a ledger: source, id, label, excerpt. Its number is
/// its position plus one.
pub type LedgerEntry = (CitationSource, Seq<char>, Option<Seq<char>>, Seq<char>);

/// Numbers the evidence of a run: `[1]..[N]` in the order it was admitted;
/// the same (source, id) always keeps its first number.
pub struct CitationLedger {
    admission: CitationAdmission,
    entries: Vec<Citable>,
}

/// Optional string view.
pub open spec fn opt_view(o: Option<String>) -> Option<Seq<char>> {
    match o {
        Some(s) => Some(s@),
        None => None,
    }
}

/// Optional string-slice view.
pub open spec fn opt_str_view(o: Option<&str>) -> Option<Seq<char>> {
    match o {
        Some(s) => Some(s@),
        None => None,
    }
}

/// The position of the entry for (`source`, `id`), if there is one.
pub open spec fn ledger_position(entries: Seq<LedgerEntry>, source: CitationSource, id: Seq<char>) -> Option<int> {
    if exists|k: int| 0 <= k < entries.len() && entries[k].0 == source && entries[k].1 == id {
        Some(choose|k: int| 0 <= k < entries.len() && entries[k].0 == source && entries[k].1 == id)
    } else {
        None
    }
}

/// No (source, id) occurs twice.
pub open spec fn ledger_keys_unique(entries: Seq<LedgerEntry>) -> bool {
    forall|a: int, b: int|
        0 <= a < entries.len() && 0 <= b < entries.len() && #[trigger] entries[a].0 == #[trigger] entries[b].0
            && entries[a].1 == entries[b].1 ==> a == b
}

/// The abstract entries of stored citables.
pub open spec fn entries_view(v: Seq<Citable>) -> Seq<LedgerEntry> {
    v.map_values(|c: Citable| (c.source, c.source_id@, opt_view(c.label), c.excerpt@))
}

impl CitationLedger {
    #[verifier::type_invariant]
    closed spec fn wf(self) -> bool {
        &&& self.entries@.len() < i32::MAX
        &&& forall|k: int| 0 <= k < self.entries@.len() ==> #[trigger] self.entries@[k].number == k + 1
        &&& ledger_keys_unique(self.entries())
    }

    /// The admitted evidence in number order.
    pub closed spec fn entries(self) -> Seq<LedgerEntry> {
        entries_view(self.entries@)
    }

    /// What this ledger admits.
    pub closed spec fn admission(self) -> CitationAdmission {
        self.admission
    }

    /// An empty ledger.
    pub fn new(admission: CitationAdmission) -> (l: CitationLedger)
        ensures
            l.admission() == admission,
            l.entries().len() == 0,
    {
        let l = CitationLedger { admission, entries: Vec::new() };
        assert(l.entries() =~= Seq::<LedgerEntry>::empty());
        l
    }

    /// The number of admitted items.
    pub fn len(&self) -> (n: usize)
        ensures
            n == self.entries().len(),
            n < i32::MAX,
    {
        proof {
            use_type_invariant(self);
        }
        self.entries.len()
    }

    fn position(&self, source: CitationSource, source_id: &str) -> (r: Option<usize>)
        ensures
            r matches Some(k) ==> ledger_position(self.entries(), source, source_id@) == Some(k as int),
            r is None ==> ledger_position(self.entries(), source, source_id@) is None,
    {
        proof {
            use_type_invariant(self);
        }
        let id = chars_of(source_id);
        let mut k: usize = 0;
        while k < self.entries.len()
            invariant
                k <= self.entries.len(),
                id@ == source_id@,
                self.entries().len() == self.entries@.len(),
                ledger_keys_unique(self.entries()),
                forall|j: int| #![trigger self.entries()[j]]
                    0 <= j < k ==> !(self.entries()[j].0 == source && self.entries()[j].1 == source_id@),
            decreases self.entries.len() - k,
        {
            let e = &self.entries[k];
            let c = chars_of(e.source_id.as_str());
            assert(self.entries()[k as int] == (e.source, e.source_id@, opt_view(e.label), e.excerpt@));
            if e.source == source && chars_eq(&c, &id) {
                proof {
                    let ghost w = choose|j: int| 0 <= j < self.entries().len() && self.entries()[j].0 == source && self.entries()[j].1 == source_id@;
                    assert(self.entries()[w].0 == self.entries()[k as int].0 && self.entries()[w].1 == self.entries()[k as int].1);
                    assert(w == k as int);
                }
                return Some(k);
            }
            k = k + 1;
        }
        None
    }

    fn append_entry(&mut self, source: CitationSource, source_id: &str, label: Option<&str>, excerpt: &str) -> (n: i32)
        requires
            ledger_position(old(self).entries(), source, source_id@) is None,
            old(self).entries().len() + 1 < i32::MAX,
        ensures
            n == old(self).entries().len() + 1,
            final(self).entries() == old(self).entries().push(
                (source, source_id@, opt_str_view(label), excerpt@),
            ),
            final(self).admission() == old(self).admission(),
    {
        proof {
            use_type_invariant(&*self);
        }
        let n = (self.entries.len() + 1) as i32;
        let lab = match label {
            Some(l) => Some(String::from_str(l)),
            None => None,
        };
        let entry = Citable {
            number: n,
            source,
            source_id: String::from_str(source_id),
            label: lab,
            excerpt: String::from_str(excerpt),
        };
        let ghost before = self.entries();
        let mut es: Vec<Citable> = Vec::new();
        std::mem::swap(&mut es, &mut self.entries);
        assert(entries_view(es@) == before);
        es.push(entry);
        proof {
            let after = entries_view(es@);
            assert(after =~= before.push((source, source_id@, opt_str_view(label), excerpt@)));
            assert forall|a: int, b: int|
                0 <= a < after.len() && 0 <= b < after.len()
                    && #[trigger] after[a].0 == #[trigger] after[b].0
                    && after[a].1 == after[b].1 implies a == b by {
                if a < before.len() && b == before.len() {
                    assert(before[a].0 == source && before[a].1 == source_id@);
                } else if b < before.len() && a == before.len() {
                    assert(before[b].0 == source && before[b].1 == source_id@);
                } else if a < before.len() && b < before.len() {
                    assert(before[a] == after[a] && before[b] == after[b]);
                }
            }
        }
        self.entries = es;
        n
    }

    /// Seeds an item: it keeps its number if already present, otherwise it is
    /// admitted with the next number whatever the admission policy.
    pub fn seed(&mut self, source: CitationSource, source_id: &str, label: Option<&str>, excerpt: &str) -> (n: i32)
        requires
            old(self).entries().len() + 1 < i32::MAX,
        ensures
            final(self).admission() == old(self).admission(),
            n == seed_number(old(self).entries(), source, source_id@),
            final(self).entries() == seed_entries(old(self).entries(), (source, source_id@, opt_str_view(label), excerpt@)),
    {
        match self.position(source, source_id) {
            Some(k) => (k + 1) as i32,
            None => self.append_entry(source, source_id, label, excerpt),
        }
    }

    /// Registers an item surfaced during the run: an item already in the
    /// ledger gets its number back; a new one is numbered next under `Open`
    /// admission and refused (`None`) under `SeededOnly`.
    pub fn register(&mut self, source: CitationSource, source_id: &str, label: Option<&str>, excerpt: &str) -> (r: Option<i32>)
        requires
            old(self).entries().len() + 1 < i32::MAX,
        ensures
            final(self).admission() == old(self).admission(),
            r == register_number(old(self).entries(), old(self).admission(), source, source_id@),
            final(self).entries() == register_entries(
                old(self).entries(),
                old(self).admission(),
                (source, source_id@, opt_str_view(label), excerpt@),
            ),
    {
        match self.position(source, source_id) {
            Some(k) => Some((k + 1) as i32),
            None => {
                if self.admission == CitationAdmission::Open {
                    Some(self.append_entry(source, source_id, label, excerpt))
                } else {
                    None
                }
            },
        }
    }

    /// A copy of the admitted items, in number order.
    pub fn snapshot(&self) -> (r: Vec<Citable>)
        ensures
            r@.len() == self.entries().len(),
            forall|k: int|
                #![trigger r@[k]]
                0 <= k < r@.len() ==> r@[k].number == k + 1 && (r@[k].source, r@[k].source_id@, opt_view(
                    r@[k].label,
                ), r@[k].excerpt@) == self.entries()[k],
    {
        proof {
            use_type_invariant(self);
        }
        let mut r: Vec<Citable> = Vec::new();
        let mut k: usize = 0;
        while k < self.entries.len()
            invariant
                k <= self.entries.len(),
                r@.len() == k,
                self.entries().len() == self.entries@.len(),
                forall|j: int| 0 <= j < self.entries@.len() ==> #[trigger] self.entries@[j].number == j + 1,
                forall|j: int|
                    #![trigger r@[j]]
                    0 <= j < k ==> r@[j].number == j + 1 && (r@[j].source, r@[j].source_id@, opt_view(
                        r@[j].label,
                    ), r@[j].excerpt@) == self.entries()[j],
            decreases self.entries.len() - k,
        {
            let e = &self.entries[k];
            let lab = match &e.label {
                Some(l) => Some(l.clone()),
                None => None,
            };
            r.push(
                Citable {
                    number: e.number,
                    source: e.source,
                    source_id: e.source_id.clone(),
                    label: lab,
                    excerpt: e.excerpt.clone(),
                },
            );
            k = k + 1;
        }
        r
    }
}

/// The number seeding (`source`, `id`) gives: its existing number, or the
/// next one.
pub open spec fn seed_number(entries: Seq<LedgerEntry>, source: CitationSource, id: Seq<char>) -> int {
    match ledger_position(entries, source, id) {
        Some(k) => k + 1,
        None => entries.len() as int + 1,
    }
}

/// The entries after seeding `e`: unchanged when its key is present,
/// otherwise `e` appended.
pub open spec fn seed_entries(entries: Seq<LedgerEntry>, e: LedgerEntry) -> Seq<LedgerEntry> {
    match ledger_position(entries, e.0, e.1) {
        Some(_) => entries,
        None => entries.push(e),
    }
}

/// The number registering (`source`, `id`) gives: its existing number; a new
/// number only under open admission.
pub open spec fn register_number(
    entries: Seq<LedgerEntry>,
    admission: CitationAdmission,
    source: CitationSource,
    id: Seq<char>,
) -> Option<i32> {
    match ledger_position(entries, source, id) {
        Some(k) => Some((k + 1) as i32),
        None => if admission == CitationAdmission::Open {
            Some((entries.len() + 1) as i32)
        } else {
            None
        },
    }
}

/// The entries after registering `e`.
pub open spec fn register_entries(entries: Seq<LedgerEntry>, admission: CitationAdmission, e: LedgerEntry) -> Seq<
    LedgerEntry,
> {
    match ledger_position(entries, e.0, e.1) {
        Some(_) => entries,
        None => if admission == CitationAdmission::Open {
            entries.push(e)
        } else {
            entries
        },
    }
}

/// Numbers are stable: once an item is in the ledger (seeded or registered),
/// registering it again gives back the same number and changes nothing.
pub proof fn law_registered_number_is_stable(
    entries: Seq<LedgerEntry>,
    admission: CitationAdmission,
    e: LedgerEntry,
    again: LedgerEntry,
)
    requires
        ledger_keys_unique(entries),
        entries.len() + 1 < i32::MAX,
        again.0 == e.0,
        again.1 == e.1,
    ensures
        register_number(seed_entries(entries, e), admission, e.0, e.1) == Some(seed_number(entries, e.0, e.1) as i32),
        register_entries(seed_entries(entries, e), admission, again) == seed_entries(entries, e),
        register_number(register_entries(entries, admission, e), admission, e.0, e.1) == register_number(
            entries,
            admission,
            e.0,
            e.1,
        ),
        register_entries(register_entries(entries, admission, e), admission, again) == register_entries(
            entries,
            admission,
            e,
        ),
{
    match ledger_position(entries, e.0, e.1) {
        Some(k) => {},
        None => {
            let after = entries.push(e);
            assert(after[entries.len() as int].0 == e.0 && after[entries.len() as int].1 == e.1);
            let w = choose|w: int| 0 <= w < after.len() && after[w].0 == e.0 && after[w].1 == e.1;
            if w < entries.len() {
                assert(entries[w] == after[w]);
            }
            assert(w == entries.len());
        },
    }
}

/// Under source-only admission, registering never admits anything new.
pub proof fn law_seeded_only_admits_nothing_new(entries: Seq<LedgerEntry>, e: LedgerEntry)
    ensures
        register_entries(entries, CitationAdmission::SeededOnly, e) == entries,
        ledger_position(entries, e.0, e.1) is None ==> register_number(entries, CitationAdmission::SeededOnly, e.0, e.1) is None,
{
}

/// The admission a citation policy implies.
pub open spec fn admission_for(policy: CitationPolicy) -> CitationAdmission {
    match policy {
        CitationPolicy::SourceOnly => CitationAdmission::SeededOnly,
        CitationPolicy::SourceAndContext => CitationAdmission::Open,
    }
}

/// The entries that seeding the first `n` atoms of the source batch, in list
/// order, gives: each atom's first occurrence, in the order of first
/// occurrence.
pub open spec fn seeded_entries(source: Seq<AtomWithTags>, n: int) -> Seq<LedgerEntry>
    decreases n,
{
    if n <= 0 {
        Seq::empty()
    } else {
        seed_entries(
            seeded_entries(source, n - 1),
            (CitationSource::Atom, source[n - 1].atom.id@, None::<Seq<char>>, excerpt_spec(source[n - 1])),
        )
    }
}

/// The ledger of a run before research starts: the source batch numbered
/// `[1]..[N]` in list order (a repeated atom keeps its first number), each with
/// its excerpt; admission follows the report's citation policy.
pub fn seeded_ledger(report: &Report, source: &[AtomWithTags]) -> (l: CitationLedger)
    requires
        source@.len() + 1 < i32::MAX,
    ensures
        l.admission() == admission_for(report.citation_policy),
        l.entries() == seeded_entries(source@, source@.len() as int),
        l.entries().len() <= source@.len(),
        forall|i: int|
            #![trigger source@[i]]
            0 <= i < source@.len() ==> ledger_position(l.entries(), CitationSource::Atom, source@[i].atom.id@) is Some,
        forall|k: int|
            #![trigger l.entries()[k]]
            0 <= k < l.entries().len() ==> exists|i: int|
                0 <= i < source@.len() && l.entries()[k] == (
                    CitationSource::Atom,
                    #[trigger] source@[i].atom.id@,
                    None::<Seq<char>>,
                    excerpt_spec(source@[i]),
                ),
        (forall|a: int, b: int| 0 <= a < b < source@.len() ==> source@[a].atom.id@ != source@[b].atom.id@)
            ==> l.entries() == Seq::new(
            source@.len(),
            |i: int| (CitationSource::Atom, source@[i].atom.id@, None::<Seq<char>>, excerpt_spec(source@[i])),
        ),
{
    let admission = match report.citation_policy {
        CitationPolicy::SourceOnly => CitationAdmission::SeededOnly,
        CitationPolicy::SourceAndContext => CitationAdmission::Open,
    };
    let mut ledger = CitationLedger::new(admission);
    let mut i: usize = 0;
    while i < source.len()
        invariant
            i <= source.len(),
            source@.len() + 1 < i32::MAX,
            ledger.admission() == admission_for(report.citation_policy),
            ledger.entries() == seeded_entries(source@, i as int),
            ledger.entries().len() <= i,
            forall|j: int|
                #![trigger source@[j]]
                0 <= j < i ==> ledger_position(ledger.entries(), CitationSource::Atom, source@[j].atom.id@) is Some,
            forall|k: int|
                #![trigger ledger.entries()[k]]
                0 <= k < ledger.entries().len() ==> exists|j: int|
                    0 <= j < i && ledger.entries()[k] == (
                        CitationSource::Atom,
                        #[trigger] source@[j].atom.id@,
                        None::<Seq<char>>,
                        excerpt_spec(source@[j]),
                    ),
            (forall|a: int, b: int| 0 <= a < b < source@.len() ==> source@[a].atom.id@ != source@[b].atom.id@)
                ==> ledger.entries() == Seq::new(
                i as nat,
                |j: int| (CitationSource::Atom, source@[j].atom.id@, None::<Seq<char>>, excerpt_spec(source@[j])),
            ),
        decreases source.len() - i,
    {
        let atom = &source[i];
        let ex = excerpt_for(atom);
        let ghost before = ledger.entries();
        let ghost had = ledger_position(before, CitationSource::Atom, atom.atom.id@);
        ledger.seed(CitationSource::Atom, atom.atom.id.as_str(), None, ex.as_str());
        proof {
            let e = (CitationSource::Atom, atom.atom.id@, None::<Seq<char>>, excerpt_spec(*atom));
            assert(source@[i as int] == *atom);
            assert(ledger.entries() == seeded_entries(source@, i + 1));
            if had is None {
                assert(ledger.entries() == before.push(e));
                assert(ledger.entries()[before.len() as int] == e);
                assert forall|j: int| #![trigger source@[j]]
                    0 <= j < i + 1 implies ledger_position(ledger.entries(), CitationSource::Atom, source@[j].atom.id@) is Some by {
                    if j < i {
                        let p = ledger_position(before, CitationSource::Atom, source@[j].atom.id@)->0;
                        assert(ledger.entries()[p] == before[p]);
                    } else {
                        assert(ledger.entries()[before.len() as int].1 == source@[j].atom.id@);
                    }
                }
                assert forall|k: int| #![trigger ledger.entries()[k]]
                    0 <= k < ledger.entries().len() implies exists|j: int|
                        0 <= j < i + 1 && ledger.entries()[k] == (
                            CitationSource::Atom,
                            #[trigger] source@[j].atom.id@,
                            None::<Seq<char>>,
                            excerpt_spec(source@[j]),
                        ) by {
                    if k < before.len() {
                        assert(ledger.entries()[k] == before[k]);
                    } else {
                        assert(ledger.entries()[k] == e);
                        assert(source@[i as int] == *atom);
                    }
                }
                if forall|a: int, b: int| 0 <= a < b < source@.len() ==> source@[a].atom.id@ != source@[b].atom.id@ {
                    assert(ledger.entries() =~= Seq::new(
                        (i + 1) as nat,
                        |j: int| (CitationSource::Atom, source@[j].atom.id@, None::<Seq<char>>, excerpt_spec(source@[j])),
                    ));
                }
            } else {
                let p = had->0;
                if forall|a: int, b: int| 0 <= a < b < source@.len() ==> source@[a].atom.id@ != source@[b].atom.id@ {
                    assert(before[p].1 == atom.atom.id@);
                    assert(before[p].1 == source@[p].atom.id@);
                    assert(false);
                }
            }
        }
        i = i + 1;
    }
    assert forall|k: int|
        #![trigger ledger.entries()[k]]
        0 <= k < ledger.entries().len() implies exists|j: int|
            0 <= j < source@.len() && ledger.entries()[k] == (
                CitationSource::Atom,
                #[trigger] source@[j].atom.id@,
                None::<Seq<char>>,
                excerpt_spec(source@[j]),
            ) by {
        let j = choose|j: int|
            0 <= j < i && ledger.entries()[k] == (
                CitationSource::Atom,
                #[trigger] source@[j].atom.id@,
                None::<Seq<char>>,
                excerpt_spec(source@[j]),
            );
        assert(0 <= j < source@.len());
    }
    ledger
}

/// What a tool call hands back to the agent.
#[derive(Clone, Debug)]
pub struct ToolResult {
    pub output: String,
    pub results_count: i32,
    pub failed: bool,
}

impl ToolResult {
    /// A successful result with `results_count` items.
    pub fn ok(output: String, results_count: i32) -> (r: ToolResult)
        ensures
            r.output@ == output@,
            r.results_count == results_count,
            !r.failed,
    {
        ToolResult { output, results_count, failed: false }
    }

    /// A failed result carrying `output` as its message.
    pub fn failed(output: String) -> (r: ToolResult)
        ensures
            r.output@ == output@,
            r.results_count == 0,
            r.failed,
    {
        ToolResult { output, results_count: 0, failed: true }
    }
}

/// A failed tool result whose text is passed on exactly as given.
pub fn failed_verbatim(output: String) -> (r: ToolResult)
    ensures
        r.output@ == output@,
        r.results_count == 0,
        r.failed,
{
    ToolResult { output, results_count: 0, failed: true }
}

/// The tool-iteration cap of a run: the report's own cap (at least 1), or 20.
pub fn max_iterations_for(report: &Report) -> (n: usize)
    ensures
        n == match report.max_tool_iterations {
            Some(m) => if m < 1 {
                1
            } else {
                m as int
            },
            None => DEFAULT_MAX_ITERATIONS as int,
        },
{
    match report.max_tool_iterations {
        Some(m) => if m < 1 {
            1
        } else {
            m as usize
        },
        None => DEFAULT_MAX_ITERATIONS,
    }
}

/// What a finished report run produced.
#[derive(Debug)]
pub struct RunOutput {
    /// Final prose, with `[N]` citation markers.
    pub content: String,
    /// Resolved citations in marker-position order.
    pub citations: Vec<ResolvedCitation>,
}

/// One `[N]` marker the finished report wrote, resolved to what it cites.
#[derive(Debug, Clone)]
pub struct ResolvedCitation {
    pub position: i32,
    pub cited_atom_id: String,
    pub excerpt: String,
}


/// The in-prompt citation reminder for a policy.
pub open spec fn directive_spec(policy: CitationPolicy) -> Seq<char> {
    match policy {
        CitationPolicy::SourceOnly => "Cite source atoms with [N] inline markers using the bracketed numbers from the source list below.\n\n"@,
        CitationPolicy::SourceAndContext => "Cite with [N] inline markers — numbers come from the source list below and from semantic_search results as they are surfaced.\n\n"@,
    }
}

/// The closing policy statement of the prompt.
pub open spec fn policy_line_spec(policy: CitationPolicy) -> Seq<char> {
    match policy {
        CitationPolicy::SourceOnly => "source_only — only the [N] above may be cited; search results are background only."@,
        CitationPolicy::SourceAndContext => "source_and_context — search results will be assigned [N] numbers and become citable."@,
    }
}

/// An atom's title, or `(untitled)`.
pub open spec fn title_spec(atom: AtomWithTags) -> Seq<char> {
    if atom.atom.title@.len() == 0 {
        "(untitled)"@
    } else {
        atom.atom.title@
    }
}

/// The prompt entry of the `n`-th source atom.
pub open spec fn source_entry_spec(n: nat, atom: AtomWithTags) -> Seq<char> {
    "["@ + decimal(n) + "] "@ + title_spec(atom) + "\n    "@ + snippet_spec(atom) + "\n    (atom id: "@
        + atom.atom.id@ + ")\n\n"@
}

/// The numbered source list.
pub open spec fn source_entries_spec(atoms: Seq<AtomWithTags>) -> Seq<char>
    decreases atoms.len(),
{
    if atoms.len() == 0 {
        Seq::empty()
    } else {
        source_entries_spec(atoms.drop_last()) + source_entry_spec(atoms.len(), atoms.last())
    }
}

/// The user message of a report run: research prompt, citation reminder, the
/// numbered source atoms and the citation policy.
pub open spec fn user_prompt_spec(report: Report, source: Seq<AtomWithTags>, total_in_scope: i32) -> Seq<char> {
    let head = "RESEARCH PROMPT:\n"@ + report.research_prompt@ + "\n\n"@ + directive_spec(
        report.citation_policy,
    );
    if source.len() == 0 {
        head + "(no source atoms — this should be unreachable; the runner short-circuits empty scopes)\n"@
    } else {
        head + "SOURCE ATOMS ("@ + decimal(source.len()) + " of "@ + signed_decimal(total_in_scope as int)
            + " in scope):\n"@ + (if (total_in_scope as usize) > source.len() {
            "(showing the newest within the configured cap; older atoms truncated)\n\n"@
        } else {
            Seq::empty()
        }) + source_entries_spec(source) + "Citation policy: "@ + policy_line_spec(
            report.citation_policy,
        ) + "\n"@
    }
}

/// The note that tells the model older source atoms were left out.
pub open spec fn truncation_note() -> Seq<char> {
    "(showing the newest within the configured cap; older atoms truncated)\n\n"@
}

/// A non-empty source list starts with its first entry's `[` marker.
proof fn lemma_source_entries_start(atoms: Seq<AtomWithTags>)
    requires
        atoms.len() > 0,
    ensures
        source_entries_spec(atoms).len() > 0,
        source_entries_spec(atoms)[0] == '[',
    decreases atoms.len(),
{
    reveal_strlit("[");
    let e = source_entry_spec(atoms.len(), atoms.last());
    assert(e[0] == '[');
    if atoms.len() > 1 {
        lemma_source_entries_start(atoms.drop_last());
    } else {
        assert(source_entries_spec(atoms.drop_last()) =~= Seq::<char>::empty());
        assert(source_entries_spec(atoms) =~= e);
    }
}

/// The truncation note follows the source-count line exactly when more atoms
/// are in scope than are listed: after the research prompt, the citation
/// reminder and the line `SOURCE ATOMS (n of total in scope):`, the prompt
/// goes on with the note when `total > n`, and straight to the first `[1]`
/// entry otherwise.
pub proof fn law_truncation_note_iff_atoms_left_out(report: Report, source: Seq<AtomWithTags>, total_in_scope: i32)
    requires
        source.len() > 0,
        total_in_scope >= 0,
    ensures
        ({
            let pre = "RESEARCH PROMPT:\n"@ + report.research_prompt@ + "\n\n"@ + directive_spec(report.citation_policy)
                + "SOURCE ATOMS ("@ + decimal(source.len()) + " of "@ + signed_decimal(total_in_scope as int)
                + " in scope):\n"@;
            let p = user_prompt_spec(report, source, total_in_scope);
            let after = p.skip(pre.len() as int);
            &&& p.take(pre.len() as int) == pre
            &&& after.len() > 0
            &&& (total_in_scope > source.len()) <==> truncation_note().is_prefix_of(after)
            &&& total_in_scope <= source.len() ==> after[0] == '['
        }),
{
    reveal_strlit("(showing the newest within the configured cap; older atoms truncated)\n\n");
    let pre = "RESEARCH PROMPT:\n"@ + report.research_prompt@ + "\n\n"@ + directive_spec(report.citation_policy)
        + "SOURCE ATOMS ("@ + decimal(source.len()) + " of "@ + signed_decimal(total_in_scope as int)
        + " in scope):\n"@;
    let p = user_prompt_spec(report, source, total_in_scope);
    let entries = source_entries_spec(source);
    let tail = "Citation policy: "@ + policy_line_spec(report.citation_policy) + "\n"@;
    let note = truncation_note();
    lemma_source_entries_start(source);
    assert((total_in_scope as usize) as int == total_in_scope as int);
    if total_in_scope > source.len() {
        assert(p =~= pre + (note + entries + tail));
        assert(p.skip(pre.len() as int) =~= note + entries + tail);
        assert((note + entries + tail).subrange(0, note.len() as int) =~= note);
    } else {
        assert(p =~= pre + (entries + tail));
        assert(p.skip(pre.len() as int) =~= entries + tail);
        assert((entries + tail)[0] == '[');
        assert(note[0] == '(');
        if note.is_prefix_of(entries + tail) {
            assert(note[0] == (entries + tail).subrange(0, note.len() as int)[0]);
        }
    }
}

fn title_chars(atom: &AtomWithTags) -> (r: Vec<char>)
    ensures
        r@ == title_spec(*atom),
{
    let t = chars_of(atom.atom.title.as_str());
    if t.len() == 0 {
        chars_of("(untitled)")
    } else {
        t
    }
}

/// Renders the report's user message.
pub fn build_user_prompt(report: &Report, source: &[AtomWithTags], total_in_scope: i32) -> (r: String)
    ensures
        r@ == user_prompt_spec(*report, source@, total_in_scope),
{
    let mut out: Vec<char> = chars_of("RESEARCH PROMPT:\n");
    append_str(&mut out, report.research_prompt.as_str());
    append_str(&mut out, "\n\n");
    match report.citation_policy {
        CitationPolicy::SourceOnly => {
            append_str(
                &mut out,
                "Cite source atoms with [N] inline markers using the bracketed numbers from the source list below.\n\n",
            );
        },
        CitationPolicy::SourceAndContext => {
            append_str(
                &mut out,
                "Cite with [N] inline markers — numbers come from the source list below and from semantic_search results as they are surfaced.\n\n",
            );
        },
    }
    if source.len() == 0 {
        append_str(
            &mut out,
            "(no source atoms — this should be unreachable; the runner short-circuits empty scopes)\n",
        );
        return string_from_chars(&out);
    }
    append_str(&mut out, "SOURCE ATOMS (");
    let n = decimal_chars(source.len() as u64);
    append_chars(&mut out, &n);
    append_str(&mut out, " of ");
    let t = signed_decimal_chars(total_in_scope as i64);
    append_chars(&mut out, &t);
    append_str(&mut out, " in scope):\n");
    if total_in_scope as usize > source.len() {
        append_str(&mut out, "(showing the newest within the configured cap; older atoms truncated)\n\n");
    }
    let ghost prefix = out@;
    let mut i: usize = 0;
    while i < source.len()
        invariant
            i <= source.len(),
            out@ == prefix + source_entries_spec(source@.take(i as int)),
        decreases source.len() - i,
    {
        let atom = &source[i];
        let ghost before = out@;
        append_str(&mut out, "[");
        let num = decimal_chars((i + 1) as u64);
        append_chars(&mut out, &num);
        append_str(&mut out, "] ");
        let title = title_chars(atom);
        append_chars(&mut out, &title);
        append_str(&mut out, "\n    ");
        let snip = snippet_for(atom);
        append_str(&mut out, snip.as_str());
        append_str(&mut out, "\n    (atom id: ");
        append_str(&mut out, atom.atom.id.as_str());
        append_str(&mut out, ")\n\n");
        proof {
            assert(source@.take(i + 1).drop_last() == source@.take(i as int));
            assert(out@ == before + source_entry_spec((i + 1) as nat, source@[i as int]));
        }
        i = i + 1;
    }
    assert(source@.take(source.len() as int) == source@);
    append_str(&mut out, "Citation policy: ");
    match report.citation_policy {
        CitationPolicy::SourceOnly => {
            append_str(
                &mut out,
                "source_only — only the [N] above may be cited; search results are background only.",
            );
        },
        CitationPolicy::SourceAndContext => {
            append_str(
                &mut out,
                "source_and_context — search results will be assigned [N] numbers and become citable.",
            );
        },
    }
    append_str(&mut out, "\n");
    string_from_chars(&out)
}

} // verus!
