//! Helpers of the duplicate-atom signals: which atom of a pair leads, which
//! tags the two share, how their sources compare, and which atoms a batch of
//! candidate pairs touches.
use vstd::prelude::*;
use crate::reports::{opt_str_view, opt_view};
use crate::signals::{NearDuplicateAtomEvidenceAtom, NearDuplicateTagEvidence};
use crate::text::{ascii_lower_chars, ascii_lower_seq, chars_eq, chars_le, chars_lt, chars_of, seq_le, seq_lt, string_from_chars, trim_chars, trim_seq};

verus! {

/// An atom of a candidate duplicate pair.
#[derive(Clone, Debug)]
pub struct NearDuplicateAtomInfo {
    pub id: String,
    pub title: String,
    pub source_url: Option<String>,
    pub content_length: i32,
    pub created_at: String,
    pub updated_at: String,
}

impl NearDuplicateAtomEvidenceAtom {
    /// The evidence record of an atom of a pair.
    pub fn from_info(atom: &NearDuplicateAtomInfo) -> (e: NearDuplicateAtomEvidenceAtom)
        ensures
            e.id == atom.id,
            e.title == atom.title,
            e.source_url == atom.source_url,
            e.content_length == atom.content_length,
            e.created_at == atom.created_at,
            e.updated_at == atom.updated_at,
    {
        NearDuplicateAtomEvidenceAtom {
            id: atom.id.clone(),
            title: atom.title.clone(),
            source_url: match &atom.source_url {
                Some(s) => Some(s.clone()),
                None => None,
            },
            content_length: atom.content_length,
            created_at: atom.created_at.clone(),
            updated_at: atom.updated_at.clone(),
        }
    }
}

/// A tag of an atom.
#[derive(Debug)]
pub struct AtomTagInfo {
    pub id: String,
    pub name: String,
}

impl Clone for AtomTagInfo {
    fn clone(&self) -> (r: Self)
        ensures
            r == *self,
    {
        AtomTagInfo { id: self.id.clone(), name: self.name.clone() }
    }
}

impl NearDuplicateTagEvidence {
    /// The evidence record of a shared tag.
    pub fn from_tag(tag: &AtomTagInfo) -> (e: NearDuplicateTagEvidence)
        ensures
            e.id == tag.id,
            e.name == tag.name,
    {
        NearDuplicateTagEvidence { id: tag.id.clone(), name: tag.name.clone() }
    }
}

/// The pair in display order: the more recently updated atom first (the
/// first one on a tie).
pub fn order_duplicate_atoms<'a>(a: &'a NearDuplicateAtomInfo, b: &'a NearDuplicateAtomInfo) -> (r: (
    &'a NearDuplicateAtomInfo,
    &'a NearDuplicateAtomInfo,
))
    ensures
        seq_le(b.updated_at@, a.updated_at@) ==> r.0 == a && r.1 == b,
        !seq_le(b.updated_at@, a.updated_at@) ==> r.0 == b && r.1 == a,
{
    let au = chars_of(a.updated_at.as_str());
    let bu = chars_of(b.updated_at.as_str());
    if chars_le(&bu, &au) {
        (a, b)
    } else {
        (b, a)
    }
}

/// The tags of atom `id` in a table of atoms and their tags (the first entry
/// for the atom).
pub open spec fn tags_of(table: Seq<(String, Vec<AtomTagInfo>)>, id: Seq<char>) -> Option<Seq<AtomTagInfo>> {
    if exists|k: int| 0 <= k < table.len() && table[k].0@ == id {
        let k = choose|k: int|
            0 <= k < table.len() && table[k].0@ == id && forall|j: int| 0 <= j < k ==> table[j].0@ != id;
        Some(table[k].1@)
    } else {
        None
    }
}

/// `tags` holds a tag with id `id`.
pub open spec fn has_tag_id(tags: Seq<AtomTagInfo>, id: Seq<char>) -> bool {
    exists|j: int| 0 <= j < tags.len() && tags[j].id@ == id
}

/// The tags of `a` that `b` holds too, in `a`'s order.
pub open spec fn common_tags(a: Seq<AtomTagInfo>, b: Seq<AtomTagInfo>) -> Seq<AtomTagInfo> {
    a.filter(shares_with(b))
}

/// The test "`b` holds a tag with this tag's id".
pub open spec fn shares_with(b: Seq<AtomTagInfo>) -> spec_fn(AtomTagInfo) -> bool {
    |t: AtomTagInfo| has_tag_id(b, t.id@)
}

proof fn lemma_sort_filter_step(prev: Seq<AtomTagInfo>, x: AtomTagInfo, pred: spec_fn(AtomTagInfo) -> bool)
    ensures
        sort_by_name(prev.push(x).filter(pred)) == if pred(x) {
            insert_by_name(sort_by_name(prev.filter(pred)), x)
        } else {
            sort_by_name(prev.filter(pred))
        },
{
    prev.lemma_filter_push(x, pred);
    if pred(x) {
        assert(prev.filter(pred).push(x).drop_last() == prev.filter(pred));
    }
}

/// The tags of `tags_a` that `tags_b` holds too, stably sorted by name.
fn common_tags_sorted(tags_a: &Vec<AtomTagInfo>, tags_b: &Vec<AtomTagInfo>) -> (r: Vec<AtomTagInfo>)
    ensures
        r@ == sort_by_name(common_tags(tags_a@, tags_b@)),
{
    let ghost pred = shares_with(tags_b@);
    let mut out: Vec<AtomTagInfo> = Vec::new();
    let mut i: usize = 0;
    while i < tags_a.len()
        invariant
            i <= tags_a.len(),
            pred == shares_with(tags_b@),
            out@ == sort_by_name(tags_a@.take(i as int).filter(pred)),
        decreases tags_a.len() - i,
    {
        let t = &tags_a[i];
        let idc = chars_of(t.id.as_str());
        proof {
            assert(tags_a@.take(i + 1) == tags_a@.take(i as int).push(tags_a@[i as int]));
            lemma_sort_filter_step(tags_a@.take(i as int), tags_a@[i as int], pred);
        }
        if holds_tag_id(tags_b, &idc) {
            insert_tag_by_name(&mut out, t.clone());
        }
        i = i + 1;
    }
    assert(tags_a@.take(tags_a.len() as int) == tags_a@);
    out
}

/// `t` placed into name-sorted `s`: after every tag whose name is not greater.
pub open spec fn insert_by_name(s: Seq<AtomTagInfo>, t: AtomTagInfo) -> Seq<AtomTagInfo>
    decreases s.len(),
{
    if s.len() == 0 {
        seq![t]
    } else if seq_lt(t.name@, s.last().name@) {
        insert_by_name(s.drop_last(), t).push(s.last())
    } else {
        s.push(t)
    }
}

/// `s` stably sorted by name: tags with equal names keep their order.
pub open spec fn sort_by_name(s: Seq<AtomTagInfo>) -> Seq<AtomTagInfo>
    decreases s.len(),
{
    if s.len() == 0 {
        s
    } else {
        insert_by_name(sort_by_name(s.drop_last()), s.last())
    }
}

/// The tags two atoms share, stably sorted by name; none when either atom is
/// missing from the table.
pub open spec fn shared_tags_spec(table: Seq<(String, Vec<AtomTagInfo>)>, a: Seq<char>, b: Seq<char>) -> Seq<AtomTagInfo> {
    match (tags_of(table, a), tags_of(table, b)) {
        (Some(ta), Some(tb)) => sort_by_name(common_tags(ta, tb)),
        _ => Seq::empty(),
    }
}

fn find_atom_tags<'a>(table: &'a Vec<(String, Vec<AtomTagInfo>)>, id: &str) -> (r: Option<&'a Vec<AtomTagInfo>>)
    ensures
        match r {
            Some(v) => tags_of(table@, id@) == Some(v@),
            None => tags_of(table@, id@) is None,
        },
{
    let target = chars_of(id);
    let mut k: usize = 0;
    while k < table.len()
        invariant
            k <= table.len(),
            target@ == id@,
            forall|j: int| 0 <= j < k ==> table@[j].0@ != id@,
        decreases table.len() - k,
    {
        let c = chars_of(table[k].0.as_str());
        if chars_eq(&c, &target) {
            proof {
                let w = choose|w: int|
                    0 <= w < table@.len() && table@[w].0@ == id@ && forall|j: int| 0 <= j < w ==> table@[j].0@ != id@;
                if w < k {
                } else if w > k {
                    assert(table@[k as int].0@ == id@);
                }
                assert(w == k);
            }
            return Some(&table[k].1);
        }
        k = k + 1;
    }
    None
}

fn holds_tag_id(tags: &Vec<AtomTagInfo>, id: &Vec<char>) -> (r: bool)
    ensures
        r == has_tag_id(tags@, id@),
{
    let mut j: usize = 0;
    while j < tags.len()
        invariant
            j <= tags.len(),
            forall|k: int| 0 <= k < j ==> tags@[k].id@ != id@,
        decreases tags.len() - j,
    {
        let c = chars_of(tags[j].id.as_str());
        if chars_eq(&c, id) {
            return true;
        }
        j = j + 1;
    }
    false
}

proof fn lemma_insert_at(s: Seq<AtomTagInfo>, t: AtomTagInfo, p: int)
    requires
        0 <= p <= s.len(),
        forall|j: int| p <= j < s.len() ==> seq_lt(t.name@, #[trigger] s[j].name@),
        p > 0 ==> !seq_lt(t.name@, s[p - 1].name@),
    ensures
        insert_by_name(s, t) == s.take(p).push(t) + s.skip(p),
    decreases s.len(),
{
    if s.len() == 0 {
        assert(s.take(p).push(t) + s.skip(p) =~= seq![t]);
    } else if p == s.len() {
        assert(s.take(p).push(t) + s.skip(p) =~= s.push(t));
    } else {
        assert(seq_lt(t.name@, s[s.len() - 1].name@));
        let d = s.drop_last();
        lemma_insert_at(d, t, p);
        assert(d.take(p) == s.take(p));
        assert((d.take(p).push(t) + d.skip(p)).push(s.last()) =~= s.take(p).push(t) + s.skip(p));
    }
}

/// Inserts `t` into name-sorted `out`, after every tag whose name is not
/// greater.
fn insert_tag_by_name(out: &mut Vec<AtomTagInfo>, t: AtomTagInfo)
    ensures
        final(out)@ == insert_by_name(old(out)@, t),
{
    let tn = chars_of(t.name.as_str());
    let mut p: usize = out.len();
    while p > 0
        invariant
            p <= out.len(),
            tn@ == t.name@,
            forall|j: int| p <= j < out@.len() ==> seq_lt(t.name@, #[trigger] out@[j].name@),
        ensures
            p <= out.len(),
            forall|j: int| p <= j < out@.len() ==> seq_lt(t.name@, #[trigger] out@[j].name@),
            p > 0 ==> !seq_lt(t.name@, out@[p - 1].name@),
        decreases p,
    {
        let c = chars_of(out[p - 1].name.as_str());
        if !chars_lt(&tn, &c) {
            break;
        }
        p = p - 1;
    }
    proof {
        lemma_insert_at(out@, t, p as int);
        assert(out@.take(p as int).push(t) + out@.skip(p as int) =~= out@.insert(p as int, t));
    }
    out.insert(p, t);
}

/// The tags two atoms share (by id), in name order; empty when either atom
/// has no entry in `atom_tags`.
pub fn shared_atom_tags(atom_a: &str, atom_b: &str, atom_tags: &Vec<(String, Vec<AtomTagInfo>)>) -> (r: Vec<AtomTagInfo>)
    ensures
        r@ == shared_tags_spec(atom_tags@, atom_a@, atom_b@),
{
    let tags_a = match find_atom_tags(atom_tags, atom_a) {
        Some(v) => v,
        None => {
            return Vec::new();
        },
    };
    let tags_b = match find_atom_tags(atom_tags, atom_b) {
        Some(v) => v,
        None => {
            return Vec::new();
        },
    };
    common_tags_sorted(tags_a, tags_b)
}

/// `s` without its trailing `c` characters.
pub open spec fn strip_trailing(s: Seq<char>, c: char) -> Seq<char>
    decreases s.len(),
{
    if s.len() > 0 && s.last() == c {
        strip_trailing(s.drop_last(), c)
    } else {
        s
    }
}

/// A source URL compared loosely: trimmed, trailing slashes dropped, ASCII
/// lower-cased; none when missing or blank.
pub open spec fn normalized_source(value: Option<Seq<char>>) -> Option<Seq<char>> {
    match value {
        Some(v) => if trim_seq(v).len() == 0 {
            None
        } else {
            Some(ascii_lower_seq(strip_trailing(trim_seq(v), '/')))
        },
        None => None,
    }
}

/// Normalizes a source URL for comparison.
pub fn normalize_source_url(value: Option<&str>) -> (r: Option<String>)
    ensures
        opt_view(r) == normalized_source(opt_str_view(value)),
{
    let v = match value {
        Some(v) => v,
        None => {
            return None;
        },
    };
    let cs = chars_of(v);
    let mut t = trim_chars(&cs);
    if t.len() == 0 {
        return None;
    }
    let ghost trimmed = t@;
    while t.len() > 0 && t[t.len() - 1] == '/'
        invariant
            strip_trailing(t@, '/') == strip_trailing(trimmed, '/'),
        decreases t.len(),
    {
        t.pop();
    }
    let lowered = ascii_lower_chars(&t);
    Some(string_from_chars(&lowered))
}

/// How the sources of two atoms compare.
pub open spec fn source_match_spec(a: Option<Seq<char>>, b: Option<Seq<char>>) -> Seq<char> {
    match (normalized_source(a), normalized_source(b)) {
        (Some(l), Some(r)) => if l == r {
            "same_source"@
        } else {
            "different_source"@
        },
        _ => "missing_source"@,
    }
}

/// Whether two atoms share a source, have different sources, or lack one.
pub fn source_match_status(a: Option<&str>, b: Option<&str>) -> (r: &'static str)
    ensures
        r@ == source_match_spec(opt_str_view(a), opt_str_view(b)),
{
    match (normalize_source_url(a), normalize_source_url(b)) {
        (Some(l), Some(r)) => {
            let lc = chars_of(l.as_str());
            let rc = chars_of(r.as_str());
            if chars_eq(&lc, &rc) {
                "same_source"
            } else {
                "different_source"
            }
        },
        _ => "missing_source",
    }
}

/// `ids` with `id` added at the end unless already present.
pub open spec fn push_new(ids: Seq<Seq<char>>, id: Seq<char>) -> Seq<Seq<char>> {
    if ids.contains(id) {
        ids
    } else {
        ids.push(id)
    }
}

/// The ids of the atoms of the pairs, each once, in order of first mention
/// (each pair's first atom before its second).
pub open spec fn pair_atom_ids(pairs: Seq<(NearDuplicateAtomInfo, NearDuplicateAtomInfo)>) -> Seq<Seq<char>>
    decreases pairs.len(),
{
    if pairs.len() == 0 {
        Seq::empty()
    } else {
        let p = pairs.last();
        push_new(push_new(pair_atom_ids(pairs.drop_last()), p.0.id@), p.1.id@)
    }
}

fn push_new_id(ids: &mut Vec<String>, id: &String)
    ensures
        crate::tag_tree::strings_view(final(ids)@) == push_new(crate::tag_tree::strings_view(old(ids)@), id@),
{
    let ghost before = crate::tag_tree::strings_view(ids@);
    if crate::reports::contains_id(ids, id.as_str()) {
        proof {
            let k = choose|k: int| 0 <= k < ids@.len() && #[trigger] ids@[k]@ == id@;
            assert(before[k] == id@);
        }
    } else {
        proof {
            if before.contains(id@) {
                let k = choose|k: int| 0 <= k < before.len() && before[k] == id@;
                assert(ids@[k]@ == id@);
            }
        }
        ids.push(id.clone());
        assert(crate::tag_tree::strings_view(ids@) =~= before.push(id@));
    }
}

/// The ids of the atoms a batch of candidate pairs touches, each once.
pub fn collect_near_duplicate_atom_ids(candidates: &[(NearDuplicateAtomInfo, NearDuplicateAtomInfo)]) -> (r: Vec<String>)
    ensures
        crate::tag_tree::strings_view(r@) == pair_atom_ids(candidates@),
{
    let mut ids: Vec<String> = Vec::new();
    let mut i: usize = 0;
    assert(crate::tag_tree::strings_view(ids@) =~= Seq::<Seq<char>>::empty());
    while i < candidates.len()
        invariant
            i <= candidates@.len(),
            crate::tag_tree::strings_view(ids@) == pair_atom_ids(candidates@.take(i as int)),
        decreases candidates@.len() - i,
    {
        assert(candidates@.take(i + 1).drop_last() == candidates@.take(i as int));
        push_new_id(&mut ids, &candidates[i].0.id);
        push_new_id(&mut ids, &candidates[i].1.id);
        i = i + 1;
    }
    assert(candidates@.take(candidates@.len() as int) == candidates@);
    ids
}

/// No atom id is collected twice.
pub proof fn law_collected_ids_distinct(pairs: Seq<(NearDuplicateAtomInfo, NearDuplicateAtomInfo)>)
    ensures
        pair_atom_ids(pairs).no_duplicates(),
    decreases pairs.len(),
{
    if pairs.len() > 0 {
        law_collected_ids_distinct(pairs.drop_last());
        let p = pairs.last();
        let s0 = pair_atom_ids(pairs.drop_last());
        lemma_push_new_distinct(s0, p.0.id@);
        lemma_push_new_distinct(push_new(s0, p.0.id@), p.1.id@);
    }
}

proof fn lemma_push_new_distinct(ids: Seq<Seq<char>>, id: Seq<char>)
    requires
        ids.no_duplicates(),
    ensures
        push_new(ids, id).no_duplicates(),
{
    if !ids.contains(id) {
        let r = ids.push(id);
        assert forall|a: int, b: int| 0 <= a < r.len() && 0 <= b < r.len() && a != b implies r[a] != r[b] by {
            if a == ids.len() {
                assert(ids[b] == r[b]);
            } else if b == ids.len() {
                assert(ids[a] == r[a]);
            }
        }
    }
}

} // verus!
