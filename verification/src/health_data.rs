//! The raw figures the knowledge-health checks work from, and the rules that
//! turn storage rows into them: status tallies, wiki coverage, edge
//! freshness, overlap candidates, similar tag names and title previews.
use vstd::prelude::*;
use crate::reports::opt_view;
use crate::text::{
    append_chars, chars_eq, chars_eq_str, chars_of, contains_chars, contains_seq,
    find_char, find_chars, first_index_of, first_line_chars, first_line_seq,
    is_first_occurrence, occurs_at, seq_lt, split_chars, split_seq, string_from_chars, sub_chars, trim_chars, trim_seq,
};

verus! {

/// A tag with enough atoms for a wiki article but without one.
#[derive(Clone, Debug)]
pub struct WikiGap {
    pub tag_id: String,
    pub tag_name: String,
    pub atom_count: i32,
}

/// A tag whose wiki article is older than its newest atom.
#[derive(Clone, Debug)]
pub struct WikiStaleEntry {
    pub tag_id: String,
    pub tag_name: String,
    pub new_atom_count: i32,
}

/// Two atoms from different sources whose content overlaps. The similarity
/// score is carried as the bit pattern of its `f32` value.
#[derive(Clone, Debug)]
pub struct DuplicatePair {
    pub pair_id: String,
    pub atom_a_id: String,
    pub atom_a_title: String,
    pub atom_a_source: Option<String>,
    pub atom_b_id: String,
    pub atom_b_title: String,
    pub atom_b_source: Option<String>,
    pub similarity_bits: u32,
    pub shared_tag_count: i32,
}

/// All data needed by the health checks.
#[derive(Clone, Debug)]
pub struct HealthRawData {
    pub total_atoms: i32,
    pub embedding_pending: i32,
    pub embedding_processing: i32,
    pub embedding_complete: i32,
    pub embedding_failed: i32,
    pub tagging_pending: i32,
    pub tagging_processing: i32,
    pub tagging_complete: i32,
    pub tagging_failed: i32,
    pub tagging_skipped: i32,
    /// Atoms whose tagging completed without any tag.
    pub untagged_complete: i32,
    /// Atoms the tagger skipped that have no tag.
    pub skipped_untagged: i32,
    /// Source URLs that occur more than once, with the ids of their atoms.
    pub duplicate_sources: Vec<(String, Vec<String>)>,
    /// Tags without atoms and children that are not auto-tagging targets.
    pub orphan_tags: Vec<(String, String)>,
    pub newest_atom_updated_at: Option<String>,
    pub newest_edge_created_at: Option<String>,
    /// Atoms updated after the newest semantic edge.
    pub atoms_since_edge_rebuild: i32,
    pub wiki_eligible_count: i32,
    pub wiki_present_count: i32,
    pub wiki_stale_count: i32,
    pub wiki_gaps: Vec<WikiGap>,
    pub wiki_stale: Vec<WikiStaleEntry>,
    pub very_short_atoms: Vec<String>,
    pub very_long_atoms: Vec<String>,
    pub no_heading_atoms: Vec<String>,
    pub no_source_atoms: Vec<String>,
    pub single_atom_tags: i32,
    pub rootless_tags: i32,
    pub similar_name_pair_count: i32,
    pub duplicate_pairs: Vec<DuplicatePair>,
    pub boilerplate_affected_atoms: Vec<String>,
    pub contradiction_pairs_checked: i32,
    pub contradiction_candidate_count: i32,
}

impl HealthRawData {
    /// Empty figures for a knowledge base of `total_atoms` atoms.
    pub fn new(total_atoms: i32) -> (d: HealthRawData)
        ensures
            d.total_atoms == total_atoms,
            d.embedding_pending == 0 && d.embedding_processing == 0 && d.embedding_complete == 0 && d.embedding_failed
                == 0,
            d.tagging_pending == 0 && d.tagging_processing == 0 && d.tagging_complete == 0 && d.tagging_failed == 0
                && d.tagging_skipped == 0,
            d.untagged_complete == 0 && d.skipped_untagged == 0,
            d.duplicate_sources@.len() == 0 && d.orphan_tags@.len() == 0,
            d.newest_atom_updated_at is None && d.newest_edge_created_at is None,
            d.atoms_since_edge_rebuild == 0,
            d.wiki_eligible_count == 0 && d.wiki_present_count == 0 && d.wiki_stale_count == 0,
            d.wiki_gaps@.len() == 0 && d.wiki_stale@.len() == 0,
            d.very_short_atoms@.len() == 0 && d.very_long_atoms@.len() == 0 && d.no_heading_atoms@.len() == 0
                && d.no_source_atoms@.len() == 0,
            d.single_atom_tags == 0 && d.rootless_tags == 0 && d.similar_name_pair_count == 0,
            d.duplicate_pairs@.len() == 0 && d.boilerplate_affected_atoms@.len() == 0,
            d.contradiction_pairs_checked == 0 && d.contradiction_candidate_count == 0,
    {
        HealthRawData {
            total_atoms,
            embedding_pending: 0,
            embedding_processing: 0,
            embedding_complete: 0,
            embedding_failed: 0,
            tagging_pending: 0,
            tagging_processing: 0,
            tagging_complete: 0,
            tagging_failed: 0,
            tagging_skipped: 0,
            untagged_complete: 0,
            skipped_untagged: 0,
            duplicate_sources: Vec::new(),
            orphan_tags: Vec::new(),
            newest_atom_updated_at: None,
            newest_edge_created_at: None,
            atoms_since_edge_rebuild: 0,
            wiki_eligible_count: 0,
            wiki_present_count: 0,
            wiki_stale_count: 0,
            wiki_gaps: Vec::new(),
            wiki_stale: Vec::new(),
            very_short_atoms: Vec::new(),
            very_long_atoms: Vec::new(),
            no_heading_atoms: Vec::new(),
            no_source_atoms: Vec::new(),
            single_atom_tags: 0,
            rootless_tags: 0,
            similar_name_pair_count: 0,
            duplicate_pairs: Vec::new(),
            boilerplate_affected_atoms: Vec::new(),
            contradiction_pairs_checked: 0,
            contradiction_candidate_count: 0,
        }
    }

    /// Records the number of atoms with an embedding status; unknown statuses
    /// are ignored.
    pub fn record_embedding_status(&mut self, status: &str, count: i32)
        ensures
            final(self).embedding_pending == if status@ == "pending"@ {
                count
            } else {
                old(self).embedding_pending
            },
            final(self).embedding_processing == if status@ == "processing"@ {
                count
            } else {
                old(self).embedding_processing
            },
            final(self).embedding_complete == if status@ == "complete"@ {
                count
            } else {
                old(self).embedding_complete
            },
            final(self).embedding_failed == if status@ == "failed"@ {
                count
            } else {
                old(self).embedding_failed
            },
            final(self).tagging_pending == old(self).tagging_pending,
            final(self).tagging_complete == old(self).tagging_complete,
            final(self).total_atoms == old(self).total_atoms,
    {
        proof {
            reveal_strlit("pending");
            reveal_strlit("processing");
            reveal_strlit("complete");
            reveal_strlit("failed");
        }
        let s = chars_of(status);
        if chars_eq_str(&s, "pending") {
            self.embedding_pending = count;
        }
        if chars_eq_str(&s, "processing") {
            self.embedding_processing = count;
        }
        if chars_eq_str(&s, "complete") {
            self.embedding_complete = count;
        }
        if chars_eq_str(&s, "failed") {
            self.embedding_failed = count;
        }
    }

    /// Records the number of atoms with a tagging status; unknown statuses
    /// are ignored.
    pub fn record_tagging_status(&mut self, status: &str, count: i32)
        ensures
            final(self).tagging_pending == if status@ == "pending"@ {
                count
            } else {
                old(self).tagging_pending
            },
            final(self).tagging_processing == if status@ == "processing"@ {
                count
            } else {
                old(self).tagging_processing
            },
            final(self).tagging_complete == if status@ == "complete"@ {
                count
            } else {
                old(self).tagging_complete
            },
            final(self).tagging_failed == if status@ == "failed"@ {
                count
            } else {
                old(self).tagging_failed
            },
            final(self).tagging_skipped == if status@ == "skipped"@ {
                count
            } else {
                old(self).tagging_skipped
            },
            final(self).embedding_pending == old(self).embedding_pending,
            final(self).embedding_complete == old(self).embedding_complete,
            final(self).total_atoms == old(self).total_atoms,
    {
        proof {
            reveal_strlit("pending");
            reveal_strlit("processing");
            reveal_strlit("complete");
            reveal_strlit("failed");
            reveal_strlit("skipped");
        }
        let s = chars_of(status);
        if chars_eq_str(&s, "pending") {
            self.tagging_pending = count;
        }
        if chars_eq_str(&s, "processing") {
            self.tagging_processing = count;
        }
        if chars_eq_str(&s, "complete") {
            self.tagging_complete = count;
        }
        if chars_eq_str(&s, "failed") {
            self.tagging_failed = count;
        }
        if chars_eq_str(&s, "skipped") {
            self.tagging_skipped = count;
        }
    }

    /// Records a source URL shared by several atoms, whose ids come as a
    /// comma-separated list.
    pub fn add_duplicate_source(&mut self, url: String, ids_csv: &str)
        ensures
            final(self).duplicate_sources@.len() == old(self).duplicate_sources@.len() + 1,
            forall|j: int|
                0 <= j < old(self).duplicate_sources@.len() ==> #[trigger] final(self).duplicate_sources@[j]
                    == old(self).duplicate_sources@[j],
            final(self).duplicate_sources@.last().0 == url,
            crate::tag_tree::strings_view(final(self).duplicate_sources@.last().1@) == split_seq(ids_csv@, ','),
            final(self).total_atoms == old(self).total_atoms,
    {
        let cs = chars_of(ids_csv);
        let parts = split_chars(&cs, ',');
        let mut ids: Vec<String> = Vec::new();
        let mut k: usize = 0;
        while k < parts.len()
            invariant
                k <= parts.len(),
                parts@.len() == split_seq(cs@, ',').len(),
                forall|i: int| 0 <= i < parts@.len() ==> #[trigger] parts@[i]@ == split_seq(cs@, ',')[i],
                crate::tag_tree::strings_view(ids@) == split_seq(cs@, ',').take(k as int),
            decreases parts.len() - k,
        {
            assert(parts@[k as int]@ == split_seq(cs@, ',')[k as int]);
            let ghost before = ids@;
            ids.push(string_from_chars(&parts[k]));
            assert(crate::tag_tree::strings_view(ids@) =~= crate::tag_tree::strings_view(before).push(
                split_seq(cs@, ',')[k as int],
            ));
            assert(split_seq(cs@, ',').take(k + 1) =~= split_seq(cs@, ',').take(k as int).push(
                split_seq(cs@, ',')[k as int],
            ));
            k = k + 1;
        }
        assert(split_seq(cs@, ',').take(parts.len() as int) == split_seq(cs@, ','));
        self.duplicate_sources.push((url, ids));
    }

    /// Records the edge freshness: with a newest edge, the atoms updated after
    /// it; without any edge, every atom.
    pub fn set_edge_freshness(&mut self, newest_edge_created_at: Option<String>, atoms_updated_after_edge: i32)
        ensures
            final(self).newest_edge_created_at == newest_edge_created_at,
            final(self).atoms_since_edge_rebuild == match newest_edge_created_at {
                Some(_) => atoms_updated_after_edge,
                None => if old(self).total_atoms > 0 {
                    old(self).total_atoms
                } else {
                    old(self).atoms_since_edge_rebuild
                },
            },
            final(self).total_atoms == old(self).total_atoms,
    {
        match &newest_edge_created_at {
            Some(_) => {
                self.atoms_since_edge_rebuild = atoms_updated_after_edge;
            },
            None => {
                if self.total_atoms > 0 {
                    self.atoms_since_edge_rebuild = self.total_atoms;
                }
            },
        }
        self.newest_edge_created_at = newest_edge_created_at;
    }

    /// Records one tag eligible for a wiki article. With an article it counts
    /// as present, and as stale when an atom was updated after the article;
    /// without one it is a gap.
    pub fn add_wiki_candidate(
        &mut self,
        tag_id: String,
        tag_name: String,
        atom_count: i32,
        has_wiki: bool,
        wiki_updated_at: Option<String>,
        last_atom_update: Option<String>,
    )
        requires
            old(self).wiki_eligible_count < i32::MAX,
            old(self).wiki_present_count < i32::MAX,
            old(self).wiki_stale_count < i32::MAX,
        ensures
            final(self).wiki_eligible_count == old(self).wiki_eligible_count + 1,
            final(self).wiki_present_count == old(self).wiki_present_count + if has_wiki {
                1int
            } else {
                0int
            },
            final(self).wiki_stale_count == old(self).wiki_stale_count + if has_wiki && wiki_is_stale(
                opt_view(wiki_updated_at),
                opt_view(last_atom_update),
            ) {
                1int
            } else {
                0int
            },
            has_wiki && wiki_is_stale(opt_view(wiki_updated_at), opt_view(last_atom_update)) ==> final(self).wiki_stale@
                == old(self).wiki_stale@.push(WikiStaleEntry { tag_id, tag_name, new_atom_count: atom_count }),
            !(has_wiki && wiki_is_stale(opt_view(wiki_updated_at), opt_view(last_atom_update))) ==> final(self).wiki_stale@ == old(self).wiki_stale@,
            !has_wiki ==> final(self).wiki_gaps@ == old(self).wiki_gaps@.push(WikiGap { tag_id, tag_name, atom_count }),
            has_wiki ==> final(self).wiki_gaps@ == old(self).wiki_gaps@,
            final(self).total_atoms == old(self).total_atoms,
    {
        self.wiki_eligible_count = self.wiki_eligible_count + 1;
        if has_wiki {
            self.wiki_present_count = self.wiki_present_count + 1;
            let stale = match (&wiki_updated_at, &last_atom_update) {
                (Some(w), Some(a)) => {
                    let wc = chars_of(w.as_str());
                    let ac = chars_of(a.as_str());
                    crate::text::chars_lt(&wc, &ac)
                },
                _ => false,
            };
            if stale {
                self.wiki_stale_count = self.wiki_stale_count + 1;
                self.wiki_stale.push(WikiStaleEntry { tag_id, tag_name, new_atom_count: atom_count });
            }
        } else {
            self.wiki_gaps.push(WikiGap { tag_id, tag_name, atom_count });
        }
    }

    /// Records a pair of atoms with overlapping content, unless both come
    /// from the same source (template clones are another check's concern).
    /// Returns whether the pair was recorded.
    pub fn add_overlap_candidate(
        &mut self,
        pair_id: String,
        atom_a_id: String,
        atom_a_source: Option<String>,
        atom_a_content: &str,
        atom_b_id: String,
        atom_b_source: Option<String>,
        atom_b_content: &str,
        similarity_bits: u32,
        shared_tag_count: i32,
    ) -> (added: bool)
        ensures
            added == (source_prefix_spec(opt_view(atom_a_source)) != source_prefix_spec(opt_view(atom_b_source))),
            added ==> final(self).duplicate_pairs@.len() == old(self).duplicate_pairs@.len() + 1 && final(self).duplicate_pairs@.drop_last() == old(self).duplicate_pairs@ && ({
                let p = final(self).duplicate_pairs@.last();
                &&& p.pair_id == pair_id
                &&& p.atom_a_id == atom_a_id
                &&& p.atom_a_title@ == title_preview_spec(atom_a_content@)
                &&& p.atom_a_source == atom_a_source
                &&& p.atom_b_id == atom_b_id
                &&& p.atom_b_title@ == title_preview_spec(atom_b_content@)
                &&& p.atom_b_source == atom_b_source
                &&& p.similarity_bits == similarity_bits
                &&& p.shared_tag_count == shared_tag_count
            }),
            !added ==> final(self).duplicate_pairs@ == old(self).duplicate_pairs@,
            final(self).total_atoms == old(self).total_atoms,
    {
        let pa = source_prefix(&atom_a_source);
        let pb = source_prefix(&atom_b_source);
        let pac = chars_of(pa.as_str());
        let pbc = chars_of(pb.as_str());
        if chars_eq(&pac, &pbc) {
            return false;
        }
        let a_title = extract_title_preview(atom_a_content);
        let b_title = extract_title_preview(atom_b_content);
        self.duplicate_pairs.push(
            DuplicatePair {
                pair_id,
                atom_a_id,
                atom_a_title: a_title,
                atom_a_source,
                atom_b_id,
                atom_b_title: b_title,
                atom_b_source,
                similarity_bits,
                shared_tag_count,
            },
        );
        assert(self.duplicate_pairs@.drop_last() =~= old(self).duplicate_pairs@);
        true
    }

    /// Records how many edges fall in the contradiction band; a tenth of them,
    /// at most ten, count as candidates.
    pub fn set_contradiction_counts(&mut self, pairs_checked: i32)
        requires
            pairs_checked >= 0,
        ensures
            final(self).contradiction_pairs_checked == pairs_checked,
            final(self).contradiction_candidate_count == if pairs_checked / 10 < 10 {
                pairs_checked / 10
            } else {
                10
            },
            final(self).total_atoms == old(self).total_atoms,
    {
        self.contradiction_pairs_checked = pairs_checked;
        let tenth = pairs_checked / 10;
        self.contradiction_candidate_count = if tenth < 10 {
            tenth
        } else {
            10
        };
    }
}

/// An article is stale when its tag's newest atom update is later than the
/// article's own update (both times known).
pub open spec fn wiki_is_stale(wiki_updated_at: Option<Seq<char>>, last_atom_update: Option<Seq<char>>) -> bool {
    match (wiki_updated_at, last_atom_update) {
        (Some(w), Some(a)) => seq_lt(w, a),
        _ => false,
    }
}

/// Names what `str::to_lowercase` returns for a text.
pub uninterp spec fn unicode_lower(s: Seq<char>) -> Seq<char>;

/// Unicode lower-casing (`str::to_lowercase`). The result depends on the text
/// alone; the contract names it and claims nothing more.
#[verifier::external_body]
fn to_lowercase(s: &str) -> (r: String)
    ensures
        r@ == unicode_lower(s@),
{
    s.to_lowercase()
}

/// Two tag names are similar when, lower-cased, they differ and one contains
/// the other.
pub open spec fn names_similar(a: Seq<char>, b: Seq<char>) -> bool {
    let la = unicode_lower(a);
    let lb = unicode_lower(b);
    la != lb && (contains_seq(la, lb) || contains_seq(lb, la))
}

/// How many of the names before position `j` are similar to name `j`.
pub open spec fn similar_before(names: Seq<Seq<char>>, j: int, i: int) -> nat
    decreases i,
{
    if i <= 0 {
        0
    } else {
        similar_before(names, j, i - 1) + if names_similar(names[i - 1], names[j]) {
            1nat
        } else {
            0nat
        }
    }
}

/// The number of unordered pairs of similar names among the first `n`.
pub open spec fn similar_pairs(names: Seq<Seq<char>>, n: int) -> nat
    decreases n,
{
    if n <= 0 {
        0
    } else {
        similar_pairs(names, n - 1) + similar_before(names, n - 1, n - 1)
    }
}

/// Counting similar names before `j` over a longer prefix never counts fewer.
proof fn lemma_similar_before_grows(names: Seq<Seq<char>>, j: int, i: int, k: int)
    requires
        i <= k,
    ensures
        similar_before(names, j, i) <= similar_before(names, j, k),
    decreases k - i,
{
    if i < k {
        lemma_similar_before_grows(names, j, i, k - 1);
    }
}

/// Counting similar pairs over a longer prefix never counts fewer.
proof fn lemma_similar_pairs_grow(names: Seq<Seq<char>>, a: int, b: int)
    requires
        a <= b,
    ensures
        similar_pairs(names, a) <= similar_pairs(names, b),
    decreases b - a,
{
    if a < b {
        lemma_similar_pairs_grow(names, a, b - 1);
    }
}

/// The similar-pair count of `names`, capped just above `i32::MAX`.
pub open spec fn capped_similar_pairs(names: Seq<String>) -> int {
    let c = similar_pairs(crate::tag_tree::strings_view(names), names.len() as int);
    if c <= i32::MAX {
        c as int
    } else {
        i32::MAX + 1
    }
}

/// Counts similar name pairs, stopping as soon as the count passes `i32::MAX`.
fn similar_pairs_capped(names: &[String]) -> (r: u64)
    ensures
        r == capped_similar_pairs(names@),
{
    let ghost nv = crate::tag_tree::strings_view(names@);
    let n = names.len();
    let mut lowered: Vec<Vec<char>> = Vec::new();
    let mut k: usize = 0;
    while k < n
        invariant
            k <= n,
            n == names@.len(),
            nv == crate::tag_tree::strings_view(names@),
            lowered@.len() == k,
            forall|i: int| 0 <= i < k ==> #[trigger] lowered@[i]@ == unicode_lower(nv[i]),
        decreases n - k,
    {
        let l = to_lowercase(names[k].as_str());
        lowered.push(chars_of(l.as_str()));
        k = k + 1;
    }
    let mut count: u64 = 0;
    let mut j: usize = 0;
    while j < n
        invariant
            j <= n,
            n == names@.len(),
            nv == crate::tag_tree::strings_view(names@),
            lowered@.len() == n,
            forall|i: int| 0 <= i < n ==> #[trigger] lowered@[i]@ == unicode_lower(nv[i]),
            count == similar_pairs(nv, j as int),
            count <= i32::MAX,
        decreases n - j,
    {
        let mut i: usize = 0;
        let ghost base = count;
        proof {
            lemma_similar_pairs_grow(nv, j + 1, n as int);
        }
        while i < j
            invariant
                i <= j < n,
                n == names@.len(),
                nv == crate::tag_tree::strings_view(names@),
                lowered@.len() == n,
                forall|x: int| 0 <= x < n ==> #[trigger] lowered@[x]@ == unicode_lower(nv[x]),
                base == similar_pairs(nv, j as int),
                count == base + similar_before(nv, j as int, i as int),
                count <= i32::MAX,
                similar_pairs(nv, j + 1) <= similar_pairs(nv, n as int),
            decreases j - i,
        {
            let la = &lowered[i];
            let lb = &lowered[j];
            proof {
                lemma_similar_before_grows(nv, j as int, i + 1, j as int);
            }
            if !chars_eq(la, lb) && (contains_chars(la, lb) || contains_chars(lb, la)) {
                count = count + 1;
                if count > 0x7fff_ffff {
                    return count;
                }
            }
            i = i + 1;
        }
        j = j + 1;
    }
    count
}

/// Counts the pairs of tag names where, ignoring case, one name strictly
/// contains the other.
pub fn count_similar_name_pairs(names: &[String]) -> (r: i32)
    requires
        similar_pairs(crate::tag_tree::strings_view(names@), names@.len() as int) <= i32::MAX,
    ensures
        r == similar_pairs(crate::tag_tree::strings_view(names@), names@.len() as int),
{
    let c = similar_pairs_capped(names);
    c as i32
}

/// The similar-pair count when it fits in an `i32`; `None` when there are
/// more pairs than that.
pub fn try_count_similar_name_pairs(names: &[String]) -> (r: Option<i32>)
    ensures
        similar_pairs(crate::tag_tree::strings_view(names@), names@.len() as int) <= i32::MAX ==> r == Some(
            similar_pairs(crate::tag_tree::strings_view(names@), names@.len() as int) as i32,
        ),
        similar_pairs(crate::tag_tree::strings_view(names@), names@.len() as int) > i32::MAX ==> r is None,
{
    if similar_pairs_capped(names) <= 0x7fff_ffff {
        Some(count_similar_name_pairs(names))
    } else {
        None
    }
}

/// `s` without its leading `c` characters.
pub open spec fn strip_leading(s: Seq<char>, c: char) -> Seq<char>
    decreases s.len(),
{
    if s.len() > 0 && s[0] == c {
        strip_leading(s.drop_first(), c)
    } else {
        s
    }
}

/// The first line of the content, trimmed, without leading `#` marks, and
/// trimmed again.
pub open spec fn title_clean(content: Seq<char>) -> Seq<char> {
    let first = match first_line_seq(content) {
        Some(l) => l,
        None => Seq::empty(),
    };
    trim_seq(strip_leading(trim_seq(first), '#'))
}

/// A title preview of about 60 characters: the cleaned first line, cut to
/// its first 60 characters and marked with an ellipsis when longer; the first
/// 60 characters of the content when the cleaned line is empty.
pub open spec fn title_preview_spec(content: Seq<char>) -> Seq<char> {
    let clean = title_clean(content);
    if clean.len() > 60 {
        clean.take(60) + seq!['\u{2026}']
    } else if clean.len() == 0 {
        content.take(if content.len() < 60 {
            content.len() as int
        } else {
            60
        })
    } else {
        clean
    }
}

/// A short title preview of an atom's content.
pub fn extract_title_preview(content: &str) -> (r: String)
    ensures
        r@ == title_preview_spec(content@),
{
    let cs = chars_of(content);
    let first = match first_line_chars(&cs) {
        Some(l) => l,
        None => Vec::new(),
    };
    let t1 = trim_chars(&first);
    let mut start: usize = 0;
    let ghost t1s = t1@;
    assert(t1@.skip(0) == t1@);
    while start < t1.len() && t1[start] == '#'
        invariant
            start <= t1.len(),
            t1@ == t1s,
            strip_leading(t1s, '#') == strip_leading(t1s.skip(start as int), '#'),
        decreases t1.len() - start,
    {
        assert(t1s.skip(start as int).drop_first() == t1s.skip(start + 1));
        start = start + 1;
    }
    let stripped = sub_chars(&t1, start, t1.len());
    assert(stripped@ == t1s.skip(start as int));
    let clean = trim_chars(&stripped);
    if clean.len() > 60 {
        let mut out = sub_chars(&clean, 0, 60);
        out.push('\u{2026}');
        string_from_chars(&out)
    } else if clean.len() == 0 {
        let m = if cs.len() < 60 {
            cs.len()
        } else {
            60
        };
        let out = sub_chars(&cs, 0, m);
        string_from_chars(&out)
    } else {
        string_from_chars(&clean)
    }
}

/// The source prefix of a URL: scheme and authority (up to the first `/`
/// after `://`); without `://`, everything before the first `/`; the whole
/// URL when there is nothing to cut; `manual` for an atom without source.
pub open spec fn source_prefix_spec(url: Option<Seq<char>>) -> Seq<char> {
    match url {
        None => "manual"@,
        Some(u) => if exists|i: int| is_first_occurrence(u, "://"@, i) {
            let i = choose|i: int| is_first_occurrence(u, "://"@, i);
            let after = u.skip(i + 3);
            if exists|k: int| first_index_of(after, '/', k) {
                let k = choose|k: int| first_index_of(after, '/', k);
                u.take(i + 3 + k)
            } else {
                u
            }
        } else if exists|k: int| first_index_of(u, '/', k) {
            let k = choose|k: int| first_index_of(u, '/', k);
            u.take(k)
        } else {
            u
        },
    }
}

/// The source prefix of an atom's source URL.
pub fn source_prefix(url: &Option<String>) -> (r: String)
    ensures
        r@ == source_prefix_spec(opt_view(*url)),
{
    let u = match url {
        Some(u) => u,
        None => {
            return String::from_str("manual");
        },
    };
    let cs = chars_of(u.as_str());
    proof {
        reveal_strlit("://");
    }
    let sep = chars_of("://");
    assert(sep@.len() == 3);
    match find_chars(&cs, &sep) {
        Some(i) => {
            assert(occurs_at(cs@, sep@, i as int));
            assert(i + 3 <= cs.len());
            let after = sub_chars(&cs, i + 3, cs.len());
            match find_char(&after, '/') {
                Some(k) => {
                    let out = sub_chars(&cs, 0, i + 3 + k);
                    proof {
                        let c = choose|c: int| is_first_occurrence(cs@, "://"@, c);
                        assert(c == i as int) by {
                            if c < i {
                            } else if c > i {
                            }
                        }
                        let d = choose|d: int| first_index_of(after@, '/', d);
                        assert(d == k as int) by {
                            if d < k {
                            } else if d > k {
                            }
                        }
                    }
                    string_from_chars(&out)
                },
                None => {
                    proof {
                        let c = choose|c: int| is_first_occurrence(cs@, "://"@, c);
                        assert(c == i as int) by {
                            if c < i {
                            } else if c > i {
                            }
                        }
                    }
                    u.clone()
                },
            }
        },
        None => match find_char(&cs, '/') {
            Some(k) => {
                let out = sub_chars(&cs, 0, k);
                proof {
                    let d = choose|d: int| first_index_of(cs@, '/', d);
                    assert(d == k as int) by {
                        if d < k {
                        } else if d > k {
                        }
                    }
                }
                string_from_chars(&out)
            },
            None => u.clone(),
        },
    }
}

/// Whether `c` equals `d` ignoring ASCII case (how SQLite's `LIKE` compares
/// letters).
pub open spec fn like_char_eq(c: char, d: char) -> bool {
    crate::text::ascii_lower(c) == crate::text::ascii_lower(d)
}

/// `needle` occurs in `hay` at `i`, letters compared ignoring ASCII case.
pub open spec fn like_at(hay: Seq<char>, needle: Seq<char>, i: int) -> bool {
    0 <= i && i + needle.len() <= hay.len() && forall|k: int|
        0 <= k < needle.len() ==> like_char_eq(#[trigger] hay[i + k], needle[k])
}

/// `needle` occurs in `hay` at or after `from` (letters ignoring ASCII case).
pub open spec fn like_contains_from(hay: Seq<char>, needle: Seq<char>, from: int) -> bool {
    exists|i: int| from <= i && #[trigger] like_at(hay, needle, i)
}

/// Content that may hold an internal link: a relative markdown link
/// (`](.` followed by `.md`, or `](./`, or `](../`) or a wikilink (`[[` and
/// `]]`), as the SQL filter `LIKE` patterns select it.
pub open spec fn link_candidate_spec(content: Seq<char>) -> bool {
    ||| exists|i: int| #[trigger] like_at(content, "](."@, i) && like_contains_from(content, ".md"@, i + 3)
    ||| like_contains_from(content, "](./"@, 0)
    ||| like_contains_from(content, "](../"@, 0)
    ||| (like_contains_from(content, "[["@, 0) && like_contains_from(content, "]]"@, 0))
}

fn like_at_exec(hay: &Vec<char>, needle: &Vec<char>, i: usize) -> (r: bool)
    ensures
        r == like_at(hay@, needle@, i as int),
{
    if needle.len() > hay.len() || i > hay.len() - needle.len() {
        return false;
    }
    let mut k: usize = 0;
    while k < needle.len()
        invariant
            k <= needle.len(),
            i + needle.len() <= hay.len(),
            forall|j: int| 0 <= j < k ==> like_char_eq(#[trigger] hay@[i + j], needle@[j]),
        decreases needle.len() - k,
    {
        let a = crate::text::ascii_lower_char(hay[i + k]);
        let b = crate::text::ascii_lower_char(needle[k]);
        if a != b {
            assert(!like_char_eq(hay@[i + k as int], needle@[k as int]));
            return false;
        }
        k = k + 1;
    }
    true
}

/// The first position at or after `from` where `needle` occurs (letters
/// ignoring ASCII case).
fn like_find_from(hay: &Vec<char>, needle: &Vec<char>, from: usize) -> (r: Option<usize>)
    ensures
        r matches Some(i) ==> from <= i && like_at(hay@, needle@, i as int) && forall|j: int|
            from <= j < i ==> !#[trigger] like_at(hay@, needle@, j),
        r is None ==> !like_contains_from(hay@, needle@, from as int),
{
    let mut i: usize = from;
    while i <= hay.len()
        invariant
            from <= i,
            forall|j: int| from <= j < i ==> !like_at(hay@, needle@, j),
        decreases hay.len() + 1 - i,
    {
        if like_at_exec(hay, needle, i) {
            return Some(i);
        }
        if i == hay.len() {
            proof {
                assert forall|j: int| from <= j implies !#[trigger] like_at(hay@, needle@, j) by {
                    if j > hay.len() {
                    }
                }
            }
            return None;
        }
        i = i + 1;
    }
    proof {
        assert forall|j: int| from <= j implies !#[trigger] like_at(hay@, needle@, j) by {}
    }
    None
}

/// Whether an atom's content may hold an internal link.
pub fn is_link_candidate(content: &str) -> (r: bool)
    ensures
        r == link_candidate_spec(content@),
{
    proof {
        reveal_strlit("](.");
        reveal_strlit(".md");
        reveal_strlit("](./");
        reveal_strlit("](../");
        reveal_strlit("[[");
        reveal_strlit("]]");
    }
    let cs = chars_of(content);
    let rel = chars_of("](.");
    let md = chars_of(".md");
    // The earliest `](.` leaves the most room for a later `.md`.
    assert(rel@.len() == 3);
    let first_rel = like_find_from(&cs, &rel, 0);
    let relative_md = match first_rel {
        Some(i) => {
            let total = cs.len();
            assert(i + 3 <= total);
            let found = like_find_from(&cs, &md, i + 3);
            proof {
                if !found.is_some() {
                    assert forall|j: int| #[trigger] like_at(cs@, rel@, j) implies !like_contains_from(cs@, md@, j + 3) by {
                        assert(j >= i);
                        if like_contains_from(cs@, md@, j + 3) {
                            let w = choose|w: int| j + 3 <= w && #[trigger] like_at(cs@, md@, w);
                            assert(i + 3 <= w);
                        }
                    }
                }
            }
            found.is_some()
        },
        None => {
            proof {
                assert forall|j: int| !#[trigger] like_at(cs@, rel@, j) by {
                    if like_at(cs@, rel@, j) {
                        assert(0 <= j);
                    }
                }
            }
            false
        },
    };
    let dot_slash = chars_of("](./");
    let dot_dot = chars_of("](../");
    let open = chars_of("[[");
    let close = chars_of("]]");
    relative_md || like_find_from(&cs, &dot_slash, 0).is_some() || like_find_from(&cs, &dot_dot, 0).is_some() || (
    like_find_from(&cs, &open, 0).is_some() && like_find_from(&cs, &close, 0).is_some())
}

/// The index of the first line that is not blank.
pub open spec fn first_nonblank_line(ls: Seq<Seq<char>>, k: int) -> bool {
    0 <= k < ls.len() && trim_seq(ls[k]).len() > 0 && forall|j: int| 0 <= j < k ==> trim_seq(#[trigger] ls[j]).len() == 0
}

/// The title shown for an atom a wikilink resolved to: its first non-blank
/// line (or its id when there is none), without leading `#` marks, trimmed,
/// at most 80 characters.
pub open spec fn wikilink_title_spec(content: Seq<char>, id: Seq<char>) -> Seq<char> {
    let ls = crate::agent_tools::lines_seq(content);
    let line = if exists|k: int| first_nonblank_line(ls, k) {
        ls[choose|k: int| first_nonblank_line(ls, k)]
    } else {
        id
    };
    let t = trim_seq(strip_leading(line, '#'));
    t.take(if t.len() < 80 {
        t.len() as int
    } else {
        80
    })
}

/// The title of the atom a wikilink resolved to.
pub fn wikilink_title(content: &str, id: &str) -> (r: String)
    requires
        content@.len() < u64::MAX - 1,
    ensures
        r@ == wikilink_title_spec(content@, id@),
{
    let ls = crate::agent_tools::lines_chars(content);
    let ghost lv = crate::agent_tools::lines_seq(content@);
    let mut k: usize = 0;
    let mut found: Option<usize> = None;
    while found.is_none() && k < ls.len()
        invariant
            k <= ls@.len(),
            ls@.len() == lv.len(),
            forall|j: int| 0 <= j < ls@.len() ==> #[trigger] ls@[j]@ == lv[j],
            found matches Some(i) ==> first_nonblank_line(lv, i as int),
            found is None ==> forall|j: int| 0 <= j < k ==> trim_seq(#[trigger] lv[j]).len() == 0,
        decreases ls@.len() - k,
    {
        let t = trim_chars(&ls[k]);
        if t.len() > 0 {
            found = Some(k);
        }
        k = k + 1;
    }
    let line: Vec<char> = match found {
        Some(i) => {
            proof {
                let c = choose|c: int| first_nonblank_line(lv, c);
                assert(c == i as int) by {
                    if c < i {
                    } else if c > i {
                        assert(trim_seq(lv[i as int]).len() == 0);
                    }
                }
            }
            crate::text::sub_chars(&ls[i], 0, ls[i].len())
        },
        None => {
            proof {
                assert forall|c: int| !first_nonblank_line(lv, c) by {
                    if 0 <= c < lv.len() {
                        assert(trim_seq(lv[c]).len() == 0);
                    }
                }
            }
            chars_of(id)
        },
    };
    let ghost lsq = line@;
    assert(lsq == (if exists|k: int| first_nonblank_line(lv, k) {
        lv[choose|k: int| first_nonblank_line(lv, k)]
    } else {
        id@
    }));
    let mut start: usize = 0;
    assert(lsq.skip(0) == lsq);
    while start < line.len() && line[start] == '#'
        invariant
            start <= line.len(),
            line@ == lsq,
            strip_leading(lsq, '#') == strip_leading(lsq.skip(start as int), '#'),
        decreases line.len() - start,
    {
        assert(lsq.skip(start as int).drop_first() == lsq.skip(start + 1));
        start = start + 1;
    }
    let stripped = crate::text::sub_chars(&line, start, line.len());
    assert(stripped@ == lsq.skip(start as int));
    let t = trim_chars(&stripped);
    let m = if t.len() < 80 {
        t.len()
    } else {
        80
    };
    let out = crate::text::sub_chars(&t, 0, m);
    assert(out@ == t@.take(m as int));
    string_from_chars(&out)
}

/// `s` with every space replaced by `c`.
pub open spec fn replace_spaces(s: Seq<char>, c: char) -> Seq<char> {
    s.map_values(|x: char| if x == ' ' { c } else { x })
}

fn replace_spaces_exec(s: &Vec<char>, c: char) -> (r: Vec<char>)
    ensures
        r@ == replace_spaces(s@, c),
{
    let mut r: Vec<char> = Vec::new();
    let mut i: usize = 0;
    while i < s.len()
        invariant
            i <= s.len(),
            r@ == replace_spaces(s@.take(i as int), c),
        decreases s.len() - i,
    {
        r.push(if s[i] == ' ' { c } else { s[i] });
        i = i + 1;
        assert(r@ =~= replace_spaces(s@.take(i as int), c));
    }
    assert(s@.take(s.len() as int) == s@);
    r
}

/// The `LIKE` patterns that find the atom a wikilink names: the lower-cased
/// name with spaces as `-`, the same with spaces as `_` (both anywhere under
/// a directory, as a `.md` file), and the name as a file directly under the
/// vault.
pub open spec fn wikilink_patterns_spec(name: Seq<char>) -> (Seq<char>, Seq<char>, Seq<char>) {
    (
        "%/"@ + replace_spaces(unicode_lower(name), '-') + "%.md"@,
        "%/"@ + replace_spaces(unicode_lower(name), '_') + "%.md"@,
        replace_spaces(name, '-') + ".md"@,
    )
}

/// The patterns to look a wikilink's target up with.
pub fn wikilink_patterns(name: &str) -> (r: (String, String, String))
    ensures
        (r.0@, r.1@, r.2@) == wikilink_patterns_spec(name@),
{
    let lower = to_lowercase(name);
    let lc = chars_of(lower.as_str());
    let nc = chars_of(name);
    let mut dash = chars_of("%/");
    let d = replace_spaces_exec(&lc, '-');
    append_chars(&mut dash, &d);
    crate::text::append_str(&mut dash, "%.md");
    let mut under = chars_of("%/");
    let u = replace_spaces_exec(&lc, '_');
    append_chars(&mut under, &u);
    crate::text::append_str(&mut under, "%.md");
    let mut direct = replace_spaces_exec(&nc, '-');
    crate::text::append_str(&mut direct, ".md");
    (string_from_chars(&dash), string_from_chars(&under), string_from_chars(&direct))
}

} // verus!
