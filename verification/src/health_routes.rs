//! The request bodies of the knowledge-health endpoints and the decisions the
//! endpoints make before touching storage: which fix a manual-fix request
//! asks for and with what arguments, how many rows a listing returns, and how
//! a batch of verification requests is walked.
use vstd::prelude::*;
use crate::error::AtomicCoreError;
use crate::reports::opt_view;
use crate::text::{
    append_str, chars_eq_str, chars_of, contains_seq, find_char, find_chars, first_index_of, is_first_occurrence,
    occurs_at, string_from_chars, sub_chars, trim_chars, trim_seq,
};

verus! {

/// Request body of the per-item fix endpoint.
#[derive(Clone, Debug)]
pub struct ManualFixRequest {
    pub action: String,
    pub url: Option<String>,
    pub parent_id: Option<String>,
    pub into_tag_id: Option<String>,
    pub content: Option<String>,
    pub winner_atom_id: Option<String>,
    pub loser_atom_id: Option<String>,
    pub dry_run: bool,
}

/// Query of the history endpoints.
#[derive(Clone, Copy, Debug)]
pub struct HistoryQuery {
    pub limit: Option<i32>,
}

/// One item of a batch of manual fixes.
#[derive(Clone, Debug)]
pub struct BatchFixItem {
    pub check: String,
    pub item_id: String,
    pub action: String,
    pub url: Option<String>,
    pub parent_id: Option<String>,
    pub into_tag_id: Option<String>,
    pub content: Option<String>,
    pub winner_atom_id: Option<String>,
    pub loser_atom_id: Option<String>,
    pub dry_run: bool,
}

/// A batch of manual fixes.
#[derive(Clone, Debug)]
pub struct BatchFixRequest {
    pub items: Vec<BatchFixItem>,
}

/// Query of the boilerplate-stripping endpoint.
#[derive(Clone, Copy, Debug)]
pub struct StripBoilerplateQuery {
    pub dry_run: bool,
}

/// Query of the broken-link suggestion endpoint.
#[derive(Clone, Debug)]
pub struct BrokenLinkSuggestQuery {
    pub q: String,
    pub limit: Option<i32>,
}

/// Query of the resolve-all-broken-links endpoint.
#[derive(Clone, Copy, Debug)]
pub struct AutoResolveAllQuery {
    pub max: Option<u32>,
}

/// Body of the batch verification endpoint.
#[derive(Clone, Debug)]
pub struct VerifyBatchBody {
    pub item_ids: Vec<String>,
    pub max: Option<u32>,
}

/// Body of the tag-proposal application endpoint.
#[derive(Clone, Debug)]
pub struct ApplyTagProposalRequest {
    pub accepted_indices: Vec<usize>,
}

/// Body of the wiki-exclusion endpoint.
#[derive(Clone, Debug)]
pub struct SetWikiExcludedTagsBody {
    pub tag_ids: Vec<String>,
}

/// Body of the custom-checks endpoint; each check is kept as its JSON text.
#[derive(Clone, Debug)]
pub struct SetCustomHealthChecksBody {
    pub checks: Vec<String>,
}

/// Body of the custom-check preview endpoint; the rule is kept as its JSON
/// text.
#[derive(Clone, Debug)]
pub struct PreviewCustomHealthCheckBody {
    pub rule: String,
}

impl BatchFixItem {
    /// The single-item request this batch item stands for.
    pub fn to_request(&self) -> (r: ManualFixRequest)
        ensures
            r.action == self.action,
            r.url == self.url,
            r.parent_id == self.parent_id,
            r.into_tag_id == self.into_tag_id,
            r.content == self.content,
            r.winner_atom_id == self.winner_atom_id,
            r.loser_atom_id == self.loser_atom_id,
            r.dry_run == self.dry_run,
    {
        ManualFixRequest {
            action: self.action.clone(),
            url: clone_opt(&self.url),
            parent_id: clone_opt(&self.parent_id),
            into_tag_id: clone_opt(&self.into_tag_id),
            content: clone_opt(&self.content),
            winner_atom_id: clone_opt(&self.winner_atom_id),
            loser_atom_id: clone_opt(&self.loser_atom_id),
            dry_run: self.dry_run,
        }
    }
}

fn clone_opt(o: &Option<String>) -> (r: Option<String>)
    ensures
        r == *o,
{
    match o {
        Some(s) => Some(s.clone()),
        None => None,
    }
}

/// Rows of health history: 30 unless asked, at most 90.
pub fn history_limit(query: &HistoryQuery) -> (r: i32)
    ensures
        r == match query.limit {
            Some(l) => if l < 90 {
                l
            } else {
                90
            },
            None => 30,
        },
{
    let l = match query.limit {
        Some(l) => l,
        None => 30,
    };
    if l < 90 {
        l
    } else {
        90
    }
}

/// Recent fix log entries: 20 unless asked, at most 100.
pub fn recent_fixes_limit(query: &HistoryQuery) -> (r: i32)
    ensures
        r == match query.limit {
            Some(l) => if l < 100 {
                l
            } else {
                100
            },
            None => 20,
        },
{
    let l = match query.limit {
        Some(l) => l,
        None => 20,
    };
    if l < 100 {
        l
    } else {
        100
    }
}

/// Suggestions for a broken link: 5 unless asked, between 1 and 20.
pub fn suggest_limit(query: &BrokenLinkSuggestQuery) -> (r: i32)
    ensures
        1 <= r <= 20,
        r == match query.limit {
            Some(l) => if l > 20 {
                20
            } else if l < 1 {
                1
            } else {
                l
            },
            None => 5,
        },
{
    let l = match query.limit {
        Some(l) => l,
        None => 5,
    };
    let capped = if l < 20 {
        l
    } else {
        20
    };
    if capped > 1 {
        capped
    } else {
        1
    }
}

/// Broken links to resolve in one run: 25 unless asked.
pub fn resolve_all_max(max: Option<u64>) -> (r: usize)
    requires
        max matches Some(n) ==> n <= usize::MAX,
    ensures
        r == match max {
            Some(n) => n as usize,
            None => 25,
        },
{
    match max {
        Some(n) => n as usize,
        None => 25,
    }
}

/// The two parts of `item` around the first `sep`.
pub open spec fn split_pair(item: Seq<char>, sep: Seq<char>) -> Option<(Seq<char>, Seq<char>)> {
    if exists|i: int| is_first_occurrence(item, sep, i) {
        let i = choose|i: int| is_first_occurrence(item, sep, i);
        Some((item.take(i), item.skip(i + sep.len())))
    } else {
        None
    }
}

/// The two parts of `item` around the first `c`.
pub open spec fn split_pair_at(item: Seq<char>, c: char) -> Option<(Seq<char>, Seq<char>)> {
    if exists|i: int| first_index_of(item, c, i) {
        let i = choose|i: int| first_index_of(item, c, i);
        Some((item.take(i), item.skip(i + 1)))
    } else {
        None
    }
}

/// Splits `item` at the first `sep` (`splitn(2, sep)` giving two parts).
pub fn split_once(item: &str, sep: &str) -> (r: Option<(String, String)>)
    ensures
        match split_pair(item@, sep@) {
            Some(p) => r matches Some(q) && q.0@ == p.0 && q.1@ == p.1,
            None => r is None,
        },
{
    let cs = chars_of(item);
    let sc = chars_of(sep);
    match find_chars(&cs, &sc) {
        Some(i) => {
            assert(occurs_at(cs@, sc@, i as int));
            let n = sc.len();
            let total = cs.len();
            assert(i + n <= total);
            let a = sub_chars(&cs, 0, i);
            let b = sub_chars(&cs, i + n, total);
            proof {
                let c = choose|c: int| is_first_occurrence(cs@, sc@, c);
                assert(c == i as int) by {
                    if c < i {
                    } else if c > i {
                    }
                }
            }
            Some((string_from_chars(&a), string_from_chars(&b)))
        },
        None => {
            proof {
                if exists|i: int| is_first_occurrence(cs@, sc@, i) {
                    let i = choose|i: int| is_first_occurrence(cs@, sc@, i);
                    assert(contains_seq(cs@, sc@));
                }
            }
            None
        },
    }
}

/// Splits `item` at the first `c`.
pub fn split_once_char(item: &str, c: char) -> (r: Option<(String, String)>)
    ensures
        match split_pair_at(item@, c) {
            Some(p) => r matches Some(q) && q.0@ == p.0 && q.1@ == p.1,
            None => r is None,
        },
{
    let cs = chars_of(item);
    match find_char(&cs, c) {
        Some(i) => {
            let a = sub_chars(&cs, 0, i);
            let b = sub_chars(&cs, i + 1, cs.len());
            proof {
                let k = choose|k: int| first_index_of(cs@, c, k);
                assert(k == i as int) by {
                    if k < i {
                    } else if k > i {
                    }
                }
            }
            Some((string_from_chars(&a), string_from_chars(&b)))
        },
        None => None,
    }
}

/// What a manual fix request comes to, argument by argument.
pub enum FixPlanView {
    MergeDuplicateWithLlm { atom_a: Seq<char>, atom_b: Seq<char>, dry_run: bool },
    KeepOne { atom_a: Seq<char>, atom_b: Seq<char>, loser: Seq<char> },
    Dismiss { check: Seq<char>, item_id: Seq<char>, reason: Seq<char>, defer_days: Option<u32> },
    AddSource { atom_id: Seq<char>, url: Seq<char> },
    MoveUnder { tag_id: Seq<char>, parent_id: Seq<char> },
    MergeTagInto { winner_tag_id: Seq<char>, loser_tag_id: Seq<char> },
    MergeSimilarTags { pair_item_id: Seq<char>, winner_tag_id: Seq<char>, loser_tag_id: Seq<char> },
    DeleteTag { tag_id: Seq<char> },
    MergeIntoParent { tag_id: Seq<char>, parent_id: Seq<char> },
    Reembed { atom_id: Seq<char> },
    MergeWithEditedContent {
        atom_a: Seq<char>,
        atom_b: Seq<char>,
        winner: Seq<char>,
        loser: Seq<char>,
        content: Seq<char>,
    },
    RemoveLink { atom_id: Seq<char>, link_raw: Seq<char> },
    Relink { atom_id: Seq<char>, link_raw: Seq<char>, target_atom_id: Seq<char> },
    AutoResolveLink { atom_id: Seq<char>, link_raw: Seq<char>, link_text: Seq<char> },
    VerifyOverlap { atom_a: Seq<char>, atom_b: Seq<char> },
    VerifyContradiction { atom_a: Seq<char>, atom_b: Seq<char> },
    MergeContradiction { atom_a: Seq<char>, atom_b: Seq<char>, dry_run: bool },
}

/// The fix a manual fix request asks for, with its validated arguments.
#[derive(Clone, Debug)]
pub enum ManualFixPlan {
    /// Let the language model merge a duplicate pair.
    MergeDuplicateWithLlm { atom_a: String, atom_b: String, dry_run: bool },
    /// Keep one atom of an overlapping pair and delete the other.
    KeepOne { atom_a: String, atom_b: String, loser: String },
    /// Dismiss the item, for `defer_days` days when deferred.
    Dismiss { check: String, item_id: String, reason: String, defer_days: Option<u32> },
    /// Give an atom a source URL.
    AddSource { atom_id: String, url: String },
    /// Move a root tag under a parent.
    MoveUnder { tag_id: String, parent_id: String },
    /// Merge a tag into another.
    MergeTagInto { winner_tag_id: String, loser_tag_id: String },
    /// Merge a pair of similarly named tags and dismiss the pair.
    MergeSimilarTags { pair_item_id: String, winner_tag_id: String, loser_tag_id: String },
    /// Delete a tag (and log the fix).
    DeleteTag { tag_id: String },
    /// Move a tag under a new parent.
    MergeIntoParent { tag_id: String, parent_id: String },
    /// Embed an atom again.
    Reembed { atom_id: String },
    /// Merge an overlapping pair with user-edited content.
    MergeWithEditedContent { atom_a: String, atom_b: String, winner: String, loser: String, content: String },
    /// Remove a broken link from an atom.
    RemoveLink { atom_id: String, link_raw: String },
    /// Point a broken link at another atom.
    Relink { atom_id: String, link_raw: String, target_atom_id: String },
    /// Let the language model resolve a broken link.
    AutoResolveLink { atom_id: String, link_raw: String, link_text: String },
    /// Ask the language model whether a pair overlaps.
    VerifyOverlap { atom_a: String, atom_b: String },
    /// Ask the language model whether a pair contradicts.
    VerifyContradiction { atom_a: String, atom_b: String },
    /// Let the language model merge a contradicting pair.
    MergeContradiction { atom_a: String, atom_b: String, dry_run: bool },
}

impl View for ManualFixPlan {
    type V = FixPlanView;

    open spec fn view(&self) -> FixPlanView {
        match self {
            ManualFixPlan::MergeDuplicateWithLlm { atom_a, atom_b, dry_run } => FixPlanView::MergeDuplicateWithLlm {
                atom_a: atom_a@,
                atom_b: atom_b@,
                dry_run: *dry_run,
            },
            ManualFixPlan::KeepOne { atom_a, atom_b, loser } => FixPlanView::KeepOne {
                atom_a: atom_a@,
                atom_b: atom_b@,
                loser: loser@,
            },
            ManualFixPlan::Dismiss { check, item_id, reason, defer_days } => FixPlanView::Dismiss {
                check: check@,
                item_id: item_id@,
                reason: reason@,
                defer_days: *defer_days,
            },
            ManualFixPlan::AddSource { atom_id, url } => FixPlanView::AddSource { atom_id: atom_id@, url: url@ },
            ManualFixPlan::MoveUnder { tag_id, parent_id } => FixPlanView::MoveUnder {
                tag_id: tag_id@,
                parent_id: parent_id@,
            },
            ManualFixPlan::MergeTagInto { winner_tag_id, loser_tag_id } => FixPlanView::MergeTagInto {
                winner_tag_id: winner_tag_id@,
                loser_tag_id: loser_tag_id@,
            },
            ManualFixPlan::MergeSimilarTags { pair_item_id, winner_tag_id, loser_tag_id } =>
                FixPlanView::MergeSimilarTags {
                pair_item_id: pair_item_id@,
                winner_tag_id: winner_tag_id@,
                loser_tag_id: loser_tag_id@,
            },
            ManualFixPlan::DeleteTag { tag_id } => FixPlanView::DeleteTag { tag_id: tag_id@ },
            ManualFixPlan::MergeIntoParent { tag_id, parent_id } => FixPlanView::MergeIntoParent {
                tag_id: tag_id@,
                parent_id: parent_id@,
            },
            ManualFixPlan::Reembed { atom_id } => FixPlanView::Reembed { atom_id: atom_id@ },
            ManualFixPlan::MergeWithEditedContent { atom_a, atom_b, winner, loser, content } =>
                FixPlanView::MergeWithEditedContent {
                atom_a: atom_a@,
                atom_b: atom_b@,
                winner: winner@,
                loser: loser@,
                content: content@,
            },
            ManualFixPlan::RemoveLink { atom_id, link_raw } => FixPlanView::RemoveLink {
                atom_id: atom_id@,
                link_raw: link_raw@,
            },
            ManualFixPlan::Relink { atom_id, link_raw, target_atom_id } => FixPlanView::Relink {
                atom_id: atom_id@,
                link_raw: link_raw@,
                target_atom_id: target_atom_id@,
            },
            ManualFixPlan::AutoResolveLink { atom_id, link_raw, link_text } => FixPlanView::AutoResolveLink {
                atom_id: atom_id@,
                link_raw: link_raw@,
                link_text: link_text@,
            },
            ManualFixPlan::VerifyOverlap { atom_a, atom_b } => FixPlanView::VerifyOverlap {
                atom_a: atom_a@,
                atom_b: atom_b@,
            },
            ManualFixPlan::VerifyContradiction { atom_a, atom_b } => FixPlanView::VerifyContradiction {
                atom_a: atom_a@,
                atom_b: atom_b@,
            },
            ManualFixPlan::MergeContradiction { atom_a, atom_b, dry_run } => FixPlanView::MergeContradiction {
                atom_a: atom_a@,
                atom_b: atom_b@,
                dry_run: *dry_run,
            },
        }
    }
}

/// A pair check: the items are pairs of atoms.
pub open spec fn is_pair_check(check: Seq<char>) -> bool {
    check == "duplicate_detection"@ || check == "content_overlap"@
}

/// An action that dismisses an item of any check.
pub open spec fn is_dismiss_action(action: Seq<char>) -> bool {
    action == "dismiss"@ || action == "mark_intentional"@ || action == "ignore_pair"@ || action == "defer"@
}

/// The reason recorded for a dismissal.
pub open spec fn dismiss_reason(action: Seq<char>) -> Seq<char> {
    if action == "mark_intentional"@ {
        "intentional_no_source"@
    } else if action == "ignore_pair"@ {
        "ignored_pair"@
    } else if action == "defer"@ {
        "deferred"@
    } else {
        "resolved_other"@
    }
}

/// A field given with something other than white space, trimmed.
pub open spec fn given_trimmed(o: Option<Seq<char>>) -> Option<Seq<char>> {
    match o {
        Some(u) => if trim_seq(u).len() > 0 {
            Some(trim_seq(u))
        } else {
            None
        },
        None => None,
    }
}

/// A field given with something other than white space, as given.
pub open spec fn given_raw(o: Option<Seq<char>>) -> Option<Seq<char>> {
    match o {
        Some(u) => if trim_seq(u).len() > 0 {
            Some(u)
        } else {
            None
        },
        None => None,
    }
}

/// A field given and not empty, as given.
pub open spec fn given_nonempty(o: Option<Seq<char>>) -> Option<Seq<char>> {
    match o {
        Some(u) => if u.len() > 0 {
            Some(u)
        } else {
            None
        },
        None => None,
    }
}

/// The message of an unsupported check and action.
pub open spec fn unsupported_fix_message(check: Seq<char>, action: Seq<char>) -> Seq<char> {
    "unsupported check '"@ + check + "' or action '"@ + action + "'"@
}

/// The pair of a pair item, or the refusal message `msg`.
pub open spec fn pair_or(item: Seq<char>, msg: Seq<char>) -> Result<(Seq<char>, Seq<char>), Seq<char>> {
    match split_pair(item, "__"@) {
        Some(p) => Ok(p),
        None => Err(msg),
    }
}

/// The fix a manual fix request asks for on `item` of `check`, or the
/// refusal message.
pub open spec fn manual_fix_spec(check: Seq<char>, item: Seq<char>, req: ManualFixRequest) -> Result<FixPlanView, Seq<char>> {
    let action = req.action@;
    if is_pair_check(check) && action == "merge_with_llm"@ {
        match split_pair(item, "__"@) {
            Some(p) => Ok(FixPlanView::MergeDuplicateWithLlm { atom_a: p.0, atom_b: p.1, dry_run: req.dry_run }),
            None => match split_pair_at(item, '_') {
                Some(p) => Ok(FixPlanView::MergeDuplicateWithLlm { atom_a: p.0, atom_b: p.1, dry_run: req.dry_run }),
                None => Err("item_id must be 'atom_a__atom_b' for pair actions"@),
            },
        }
    } else if is_pair_check(check) && (action == "keep_a"@ || action == "keep_b"@) {
        match pair_or(item, "item_id must be 'atom_a__atom_b'"@) {
            Ok(p) => Ok(FixPlanView::KeepOne {
                atom_a: p.0,
                atom_b: p.1,
                loser: if action == "keep_a"@ {
                    p.1
                } else {
                    p.0
                },
            }),
            Err(m) => Err(m),
        }
    } else if is_dismiss_action(action) {
        Ok(FixPlanView::Dismiss {
            check,
            item_id: item,
            reason: dismiss_reason(action),
            defer_days: if action == "defer"@ {
                Some(7u32)
            } else {
                None
            },
        })
    } else if check == "content_quality"@ && action == "add_source"@ {
        match given_trimmed(opt_view(req.url)) {
            Some(u) => Ok(FixPlanView::AddSource { atom_id: item, url: u }),
            None => Err("url is required for add_source"@),
        }
    } else if check == "tag_health"@ && action == "move_under"@ {
        match given_trimmed(opt_view(req.parent_id)) {
            Some(p) => Ok(FixPlanView::MoveUnder { tag_id: item, parent_id: p }),
            None => Err("parent_id is required for move_under"@),
        }
    } else if check == "tag_health"@ && action == "merge"@ {
        match given_trimmed(opt_view(req.into_tag_id)) {
            Some(w) => Ok(FixPlanView::MergeTagInto { winner_tag_id: w, loser_tag_id: item }),
            None => Err("into_tag_id is required for merge"@),
        }
    } else if check == "tag_health"@ && action == "merge_tags"@ {
        match given_trimmed(opt_view(req.into_tag_id)) {
            Some(w) => match pair_or(item, "item_id must be 'a_id__b_id' for merge_tags"@) {
                Ok(p) => Ok(FixPlanView::MergeSimilarTags {
                    pair_item_id: item,
                    winner_tag_id: w,
                    loser_tag_id: if w == p.0 {
                        p.1
                    } else {
                        p.0
                    },
                }),
                Err(m) => Err(m),
            },
            None => Err("into_tag_id is required for merge_tags"@),
        }
    } else if check == "tag_health"@ && action == "delete_tag"@ {
        Ok(FixPlanView::DeleteTag { tag_id: item })
    } else if check == "tag_health"@ && action == "merge_into_parent"@ {
        match given_trimmed(opt_view(req.into_tag_id)) {
            Some(p) => Ok(FixPlanView::MergeIntoParent { tag_id: item, parent_id: p }),
            None => Err("into_tag_id is required for merge_into_parent"@),
        }
    } else if check == "boilerplate_pollution"@ && action == "reembed"@ {
        Ok(FixPlanView::Reembed { atom_id: item })
    } else if is_pair_check(check) && action == "merge_with_edited_content"@ {
        match pair_or(item, "item_id must be 'atom_a__atom_b'"@) {
            Ok(p) => match given_nonempty(opt_view(req.winner_atom_id)) {
                Some(w) => match given_nonempty(opt_view(req.loser_atom_id)) {
                    Some(l) => match given_raw(opt_view(req.content)) {
                        Some(c) => Ok(FixPlanView::MergeWithEditedContent {
                            atom_a: p.0,
                            atom_b: p.1,
                            winner: w,
                            loser: l,
                            content: c,
                        }),
                        None => Err("content required"@),
                    },
                    None => Err("loser_atom_id required"@),
                },
                None => Err("winner_atom_id required"@),
            },
            Err(m) => Err(m),
        }
    } else if check == "broken_internal_links"@ && action == "remove_link"@ {
        match given_raw(opt_view(req.content)) {
            Some(l) => Ok(FixPlanView::RemoveLink { atom_id: item, link_raw: l }),
            None => Err("content (link_raw) is required for remove_link"@),
        }
    } else if check == "broken_internal_links"@ && action == "relink"@ {
        match given_raw(opt_view(req.content)) {
            Some(l) => match given_trimmed(opt_view(req.into_tag_id)) {
                Some(t) => Ok(FixPlanView::Relink { atom_id: item, link_raw: l, target_atom_id: t }),
                None => Err("into_tag_id (target_atom_id) is required for relink"@),
            },
            None => Err("content (link_raw) is required for relink"@),
        }
    } else if check == "broken_internal_links"@ && action == "auto_resolve"@ {
        match given_raw(opt_view(req.content)) {
            Some(l) => Ok(FixPlanView::AutoResolveLink {
                atom_id: item,
                link_raw: l,
                link_text: match opt_view(req.url) {
                    Some(u) => u,
                    None => Seq::empty(),
                },
            }),
            None => Err("content (link_raw) is required for auto_resolve"@),
        }
    } else if is_pair_check(check) && action == "verify_with_llm"@ {
        match pair_or(item, "item_id must be 'atom_a__atom_b' for verify_with_llm"@) {
            Ok(p) => Ok(FixPlanView::VerifyOverlap { atom_a: p.0, atom_b: p.1 }),
            Err(m) => Err(m),
        }
    } else if check == "contradiction_detection"@ && action == "verify_with_llm"@ {
        match pair_or(item, "item_id must be 'atom_a__atom_b' for verify_with_llm"@) {
            Ok(p) => Ok(FixPlanView::VerifyContradiction { atom_a: p.0, atom_b: p.1 }),
            Err(m) => Err(m),
        }
    } else if check == "contradiction_detection"@ && action == "merge_with_llm"@ {
        match pair_or(item, "item_id must be 'atom_a__atom_b' for merge_with_llm"@) {
            Ok(p) => Ok(FixPlanView::MergeContradiction { atom_a: p.0, atom_b: p.1, dry_run: req.dry_run }),
            Err(m) => Err(m),
        }
    } else {
        Err(unsupported_fix_message(check, action))
    }
}

fn validation(msg: &str) -> (e: AtomicCoreError)
    ensures
        e == AtomicCoreError::Validation(e->Validation_0),
        e.message() == msg@,
{
    AtomicCoreError::Validation(String::from_str(msg))
}

fn take_trimmed(o: &Option<String>) -> (r: Option<String>)
    ensures
        opt_view(r) == given_trimmed(opt_view(*o)),
{
    match o {
        Some(u) => {
            let cs = chars_of(u.as_str());
            let t = trim_chars(&cs);
            if t.len() > 0 {
                Some(string_from_chars(&t))
            } else {
                None
            }
        },
        None => None,
    }
}

fn take_raw(o: &Option<String>) -> (r: Option<String>)
    ensures
        opt_view(r) == given_raw(opt_view(*o)),
{
    match o {
        Some(u) => {
            let cs = chars_of(u.as_str());
            let t = trim_chars(&cs);
            if t.len() > 0 {
                Some(u.clone())
            } else {
                None
            }
        },
        None => None,
    }
}

fn take_nonempty(o: &Option<String>) -> (r: Option<String>)
    ensures
        opt_view(r) == given_nonempty(opt_view(*o)),
{
    match o {
        Some(u) => {
            let cs = chars_of(u.as_str());
            if cs.len() > 0 {
                Some(u.clone())
            } else {
                None
            }
        },
        None => None,
    }
}

fn pair_of(item: &str, msg: &str) -> (r: Result<(String, String), AtomicCoreError>)
    ensures
        match pair_or(item@, msg@) {
            Ok(p) => r matches Ok(q) && q.0@ == p.0 && q.1@ == p.1,
            Err(m) => r matches Err(e) && e == AtomicCoreError::Validation(e->Validation_0) && e.message() == m,
        },
{
    proof {
        reveal_strlit("__");
    }
    match split_once(item, "__") {
        Some(p) => Ok(p),
        None => Err(validation(msg)),
    }
}

/// An occurrence of `needle` at `i` means there is a first occurrence.
proof fn lemma_first_occurrence_exists(hay: Seq<char>, needle: Seq<char>, i: int)
    requires
        occurs_at(hay, needle, i),
    ensures
        exists|k: int| is_first_occurrence(hay, needle, k),
    decreases i,
{
    if exists|j: int| 0 <= j < i && occurs_at(hay, needle, j) {
        let j = choose|j: int| 0 <= j < i && occurs_at(hay, needle, j);
        lemma_first_occurrence_exists(hay, needle, j);
    } else {
        assert(is_first_occurrence(hay, needle, i));
    }
}

/// Keeping one atom of a pair deletes the other one: for an item
/// `atom_a__atom_b` of a pair check, `keep_a` plans `atom_b` as the loser and
/// `keep_b` plans `atom_a`, where `atom_a` is the text before the first `__`
/// and `atom_b` the text after it. So for distinct atoms, `keep_a` and
/// `keep_b` never delete the same atom.
pub proof fn law_keep_one_deletes_the_other_atom(check: Seq<char>, item: Seq<char>, req: ManualFixRequest)
    requires
        is_pair_check(check),
        req.action@ == "keep_a"@ || req.action@ == "keep_b"@,
        contains_seq(item, "__"@),
    ensures
        manual_fix_spec(check, item, req) matches Ok(FixPlanView::KeepOne { atom_a, atom_b, loser }) && item
            == atom_a + "__"@ + atom_b && !contains_seq(atom_a, "__"@) && (req.action@ == "keep_a"@ ==> loser
            == atom_b) && (req.action@ == "keep_b"@ ==> loser == atom_a),
{
    reveal_strlit("__");
    reveal_strlit("keep_a");
    reveal_strlit("keep_b");
    reveal_strlit("merge_with_llm");
    let w = choose|w: int| occurs_at(item, "__"@, w);
    lemma_first_occurrence_exists(item, "__"@, w);
    let i = choose|i: int| is_first_occurrence(item, "__"@, i);
    let a = item.take(i);
    let b = item.skip(i + 2);
    assert(item.subrange(i, i + 2) == "__"@);
    assert(item =~= a + "__"@ + b);
    if contains_seq(a, "__"@) {
        let j = choose|j: int| occurs_at(a, "__"@, j);
        assert(item.subrange(j, j + 2) =~= a.subrange(j, j + 2));
        assert(occurs_at(item, "__"@, j));
    }
    assert(req.action@ != "merge_with_llm"@) by {
        assert(req.action@.len() != "merge_with_llm"@.len());
    }
    if req.action@ == "keep_b"@ {
        assert(req.action@ != "keep_a"@) by {
            assert(req.action@[5] != "keep_a"@[5]);
        }
    }
}

/// Decides which fix a manual fix request on `item_id` of `check` asks for,
/// refusing (`Validation`) a request with missing or malformed arguments or
/// an unsupported check and action.
pub fn plan_manual_fix(check: &str, item_id: &str, req: &ManualFixRequest) -> (r: Result<ManualFixPlan, AtomicCoreError>)
    ensures
        match manual_fix_spec(check@, item_id@, *req) {
            Ok(v) => r matches Ok(p) && p@ == v,
            Err(m) => r matches Err(e) && e == AtomicCoreError::Validation(e->Validation_0) && e.message() == m,
        },
{
    let c = chars_of(check);
    let a = chars_of(req.action.as_str());
    let item = String::from_str(item_id);
    let pair_check = chars_eq_str(&c, "duplicate_detection") || chars_eq_str(&c, "content_overlap");
    let tag_health = chars_eq_str(&c, "tag_health");
    let links = chars_eq_str(&c, "broken_internal_links");
    let contradiction = chars_eq_str(&c, "contradiction_detection");
    if pair_check && chars_eq_str(&a, "merge_with_llm") {
        proof {
            reveal_strlit("__");
        }
        return match split_once(item_id, "__") {
            Some((x, y)) => Ok(ManualFixPlan::MergeDuplicateWithLlm { atom_a: x, atom_b: y, dry_run: req.dry_run }),
            None => match split_once_char(item_id, '_') {
                Some((x, y)) => Ok(ManualFixPlan::MergeDuplicateWithLlm { atom_a: x, atom_b: y, dry_run: req.dry_run }),
                None => Err(validation("item_id must be 'atom_a__atom_b' for pair actions")),
            },
        };
    }
    if pair_check && (chars_eq_str(&a, "keep_a") || chars_eq_str(&a, "keep_b")) {
        let (x, y) = pair_of(item_id, "item_id must be 'atom_a__atom_b'")?;
        let loser = if chars_eq_str(&a, "keep_a") {
            y.clone()
        } else {
            x.clone()
        };
        return Ok(ManualFixPlan::KeepOne { atom_a: x, atom_b: y, loser });
    }
    if chars_eq_str(&a, "dismiss") || chars_eq_str(&a, "mark_intentional") || chars_eq_str(&a, "ignore_pair")
        || chars_eq_str(&a, "defer") {
        let reason = if chars_eq_str(&a, "mark_intentional") {
            "intentional_no_source"
        } else if chars_eq_str(&a, "ignore_pair") {
            "ignored_pair"
        } else if chars_eq_str(&a, "defer") {
            "deferred"
        } else {
            "resolved_other"
        };
        let defer_days = if chars_eq_str(&a, "defer") {
            Some(7u32)
        } else {
            None
        };
        return Ok(
            ManualFixPlan::Dismiss {
                check: String::from_str(check),
                item_id: item,
                reason: String::from_str(reason),
                defer_days,
            },
        );
    }
    if chars_eq_str(&c, "content_quality") && chars_eq_str(&a, "add_source") {
        return match take_trimmed(&req.url) {
            Some(u) => Ok(ManualFixPlan::AddSource { atom_id: item, url: u }),
            None => Err(validation("url is required for add_source")),
        };
    }
    if tag_health && chars_eq_str(&a, "move_under") {
        return match take_trimmed(&req.parent_id) {
            Some(p) => Ok(ManualFixPlan::MoveUnder { tag_id: item, parent_id: p }),
            None => Err(validation("parent_id is required for move_under")),
        };
    }
    if tag_health && chars_eq_str(&a, "merge") {
        return match take_trimmed(&req.into_tag_id) {
            Some(w) => Ok(ManualFixPlan::MergeTagInto { winner_tag_id: w, loser_tag_id: item }),
            None => Err(validation("into_tag_id is required for merge")),
        };
    }
    if tag_health && chars_eq_str(&a, "merge_tags") {
        let w = match take_trimmed(&req.into_tag_id) {
            Some(w) => w,
            None => {
                return Err(validation("into_tag_id is required for merge_tags"));
            },
        };
        let (x, y) = pair_of(item_id, "item_id must be 'a_id__b_id' for merge_tags")?;
        let wc = chars_of(w.as_str());
        let xc = chars_of(x.as_str());
        let loser = if crate::text::chars_eq(&wc, &xc) {
            y
        } else {
            x
        };
        return Ok(ManualFixPlan::MergeSimilarTags { pair_item_id: item, winner_tag_id: w, loser_tag_id: loser });
    }
    if tag_health && chars_eq_str(&a, "delete_tag") {
        return Ok(ManualFixPlan::DeleteTag { tag_id: item });
    }
    if tag_health && chars_eq_str(&a, "merge_into_parent") {
        return match take_trimmed(&req.into_tag_id) {
            Some(p) => Ok(ManualFixPlan::MergeIntoParent { tag_id: item, parent_id: p }),
            None => Err(validation("into_tag_id is required for merge_into_parent")),
        };
    }
    if chars_eq_str(&c, "boilerplate_pollution") && chars_eq_str(&a, "reembed") {
        return Ok(ManualFixPlan::Reembed { atom_id: item });
    }
    if pair_check && chars_eq_str(&a, "merge_with_edited_content") {
        let (x, y) = pair_of(item_id, "item_id must be 'atom_a__atom_b'")?;
        let winner = match take_nonempty(&req.winner_atom_id) {
            Some(w) => w,
            None => {
                return Err(validation("winner_atom_id required"));
            },
        };
        let loser = match take_nonempty(&req.loser_atom_id) {
            Some(l) => l,
            None => {
                return Err(validation("loser_atom_id required"));
            },
        };
        let content = match take_raw(&req.content) {
            Some(t) => t,
            None => {
                return Err(validation("content required"));
            },
        };
        return Ok(ManualFixPlan::MergeWithEditedContent { atom_a: x, atom_b: y, winner, loser, content });
    }
    if links && chars_eq_str(&a, "remove_link") {
        return match take_raw(&req.content) {
            Some(l) => Ok(ManualFixPlan::RemoveLink { atom_id: item, link_raw: l }),
            None => Err(validation("content (link_raw) is required for remove_link")),
        };
    }
    if links && chars_eq_str(&a, "relink") {
        let l = match take_raw(&req.content) {
            Some(l) => l,
            None => {
                return Err(validation("content (link_raw) is required for relink"));
            },
        };
        return match take_trimmed(&req.into_tag_id) {
            Some(t) => Ok(ManualFixPlan::Relink { atom_id: item, link_raw: l, target_atom_id: t }),
            None => Err(validation("into_tag_id (target_atom_id) is required for relink")),
        };
    }
    if links && chars_eq_str(&a, "auto_resolve") {
        let l = match take_raw(&req.content) {
            Some(l) => l,
            None => {
                return Err(validation("content (link_raw) is required for auto_resolve"));
            },
        };
        let text = match &req.url {
            Some(u) => u.clone(),
            None => String::new(),
        };
        return Ok(ManualFixPlan::AutoResolveLink { atom_id: item, link_raw: l, link_text: text });
    }
    if pair_check && chars_eq_str(&a, "verify_with_llm") {
        let (x, y) = pair_of(item_id, "item_id must be 'atom_a__atom_b' for verify_with_llm")?;
        return Ok(ManualFixPlan::VerifyOverlap { atom_a: x, atom_b: y });
    }
    if contradiction && chars_eq_str(&a, "verify_with_llm") {
        let (x, y) = pair_of(item_id, "item_id must be 'atom_a__atom_b' for verify_with_llm")?;
        return Ok(ManualFixPlan::VerifyContradiction { atom_a: x, atom_b: y });
    }
    if contradiction && chars_eq_str(&a, "merge_with_llm") {
        let (x, y) = pair_of(item_id, "item_id must be 'atom_a__atom_b' for merge_with_llm")?;
        return Ok(ManualFixPlan::MergeContradiction { atom_a: x, atom_b: y, dry_run: req.dry_run });
    }
    let mut m = chars_of("unsupported check '");
    append_str(&mut m, check);
    append_str(&mut m, "' or action '");
    append_str(&mut m, req.action.as_str());
    append_str(&mut m, "'");
    Err(AtomicCoreError::Validation(string_from_chars(&m)))
}

/// Which verification a batch asks the language model for.
#[derive(Clone, Copy, Debug, PartialEq, Eq, Structural)]
pub enum VerifyKind {
    /// Whether a pair overlaps.
    Overlap,
    /// Whether a pair contradicts.
    Contradiction,
}

/// The verification a check's items get.
pub open spec fn verify_kind_spec(check: Seq<char>) -> Option<VerifyKind> {
    if is_pair_check(check) {
        Some(VerifyKind::Overlap)
    } else if check == "contradiction_detection"@ {
        Some(VerifyKind::Contradiction)
    } else {
        None
    }
}

/// The first position at or after `from` whose item is a pair.
pub open spec fn next_pair_index(ids: Seq<Seq<char>>, from: int, j: int) -> bool {
    &&& from <= j < ids.len()
    &&& split_pair(ids[j], "__"@) is Some
    &&& forall|k: int| from <= k < j ==> split_pair(#[trigger] ids[k], "__"@) is None
}

/// A batch verification in progress: the items still to look at, how many
/// pairs were checked, how many the model kept, and which it dismissed.
#[derive(Debug)]
pub struct VerifyBatch {
    ids: Vec<String>,
    kind: Option<VerifyKind>,
    next: usize,
    current: Option<String>,
    checked: u32,
    kept: u32,
    dismissed: Vec<String>,
    stopped: bool,
}

impl VerifyBatch {
    #[verifier::type_invariant]
    closed spec fn inv(self) -> bool {
        &&& self.next <= self.ids@.len()
        &&& self.ids@.len() <= u32::MAX
        &&& self.checked <= self.next
        &&& self.kept + self.dismissed@.len() + (if self.current is Some {
            1int
        } else {
            0int
        }) <= self.checked
    }

    /// The items of the batch, as many as the body allows.
    pub closed spec fn items(self) -> Seq<Seq<char>> {
        crate::tag_tree::strings_view(self.ids@)
    }

    /// The verification the check asks for.
    pub closed spec fn kind(self) -> Option<VerifyKind> {
        self.kind
    }

    /// The position of the next item to look at.
    pub closed spec fn position(self) -> int {
        self.next as int
    }

    /// The item whose verdict is awaited.
    pub closed spec fn awaiting(self) -> Option<Seq<char>> {
        opt_view(self.current)
    }

    /// Pairs checked so far.
    pub closed spec fn checked_count(self) -> nat {
        self.checked as nat
    }

    /// Pairs the model kept.
    pub closed spec fn kept_count(self) -> nat {
        self.kept as nat
    }

    /// Items the model dismissed.
    pub closed spec fn dismissed_items(self) -> Seq<Seq<char>> {
        crate::tag_tree::strings_view(self.dismissed@)
    }

    /// Whether the batch is over.
    pub closed spec fn is_stopped(self) -> bool {
        self.stopped
    }

    /// A batch over the first `max` items (50 unless given) for `check`.
    pub fn new(check: &str, body: &VerifyBatchBody) -> (b: VerifyBatch)
        ensures
            b.items() == crate::tag_tree::strings_view(body.item_ids@).take(
                if body.item_ids@.len() <= (match body.max {
                    Some(m) => m,
                    None => 50,
                }) {
                    body.item_ids@.len() as int
                } else {
                    (match body.max {
                        Some(m) => m,
                        None => 50,
                    }) as int
                },
            ),
            b.kind() == verify_kind_spec(check@),
            b.position() == 0,
            b.awaiting() is None,
            b.checked_count() == 0,
            b.kept_count() == 0,
            b.dismissed_items().len() == 0,
            !b.is_stopped(),
    {
        let limit: u32 = match body.max {
            Some(m) => m,
            None => 50,
        };
        let mut ids: Vec<String> = Vec::new();
        let mut i: usize = 0;
        while i < body.item_ids.len() && (i as u64) < (limit as u64)
            invariant
                i <= body.item_ids@.len(),
                i <= limit,
                ids@ == body.item_ids@.take(i as int),
            decreases body.item_ids@.len() - i,
        {
            ids.push(body.item_ids[i].clone());
            i = i + 1;
        }
        let ghost n = if body.item_ids@.len() <= limit {
            body.item_ids@.len() as int
        } else {
            limit as int
        };
        assert(i == n);
        assert(crate::tag_tree::strings_view(ids@) =~= crate::tag_tree::strings_view(body.item_ids@).take(n));
        let c = chars_of(check);
        let kind = if chars_eq_str(&c, "duplicate_detection") || chars_eq_str(&c, "content_overlap") {
            Some(VerifyKind::Overlap)
        } else if chars_eq_str(&c, "contradiction_detection") {
            Some(VerifyKind::Contradiction)
        } else {
            None
        };
        let b = VerifyBatch {
            ids,
            kind,
            next: 0,
            current: None,
            checked: 0,
            kept: 0,
            dismissed: Vec::new(),
            stopped: false,
        };
        assert(b.dismissed_items() =~= Seq::<Seq<char>>::empty());
        b
    }

    /// The next pair to verify: skips items that are not pairs; a pair counts
    /// as checked even when the check has no verification, which ends the
    /// batch; the batch also ends when the items run out.
    pub fn next_pair(&mut self) -> (r: Option<(VerifyKind, String, String)>)
        ensures
            final(self).items() == old(self).items(),
            final(self).kind() == old(self).kind(),
            final(self).kept_count() == old(self).kept_count(),
            final(self).dismissed_items() == old(self).dismissed_items(),
            old(self).is_stopped() ==> r is None && final(self).position() == old(self).position()
                && final(self).checked_count() == old(self).checked_count() && final(self).is_stopped()
                && final(self).awaiting() == old(self).awaiting(),
            !old(self).is_stopped() && (forall|j: int| !next_pair_index(old(self).items(), old(self).position(), j))
                ==> r is None && final(self).is_stopped() && final(self).checked_count() == old(self).checked_count()
                && final(self).awaiting() == old(self).awaiting(),
            !old(self).is_stopped() ==> forall|j: int| next_pair_index(old(self).items(), old(self).position(), j)
                ==> {
                let p = split_pair(old(self).items()[j], "__"@)->0;
                &&& final(self).checked_count() == old(self).checked_count() + 1
                &&& final(self).position() == j + 1
                &&& match old(self).kind() {
                    Some(k) => r matches Some(t) && t.0 == k && t.1@ == p.0 && t.2@ == p.1 && !final(self).is_stopped()
                        && final(self).awaiting() == Some(old(self).items()[j]),
                    None => r is None && final(self).is_stopped() && final(self).awaiting() == old(self).awaiting(),
                }
            },
    {
        proof {
            use_type_invariant(&*self);
        }
        if self.stopped {
            return None;
        }
        proof {
            reveal_strlit("__");
        }
        let ghost items = self.items();
        let ghost from = self.next as int;
        let mut j: usize = self.next;
        while j < self.ids.len()
            invariant
                from <= j <= self.ids@.len(),
                *self == *old(self),
                !old(self).stopped,
                from == self.next,
                self.checked <= self.next,
                self.ids@.len() <= u32::MAX,
                self.kept + self.dismissed@.len() + (if self.current is Some {
                    1int
                } else {
                    0int
                }) <= self.checked,
                items == crate::tag_tree::strings_view(self.ids@),
                forall|k: int| from <= k < j ==> split_pair(#[trigger] items[k], "__"@) is None,
            decreases self.ids@.len() - j,
        {
            match split_once(self.ids[j].as_str(), "__") {
                Some((a, b)) => {
                    assert(next_pair_index(items, from, j as int));
                    assert(next_pair_index(old(self).items(), old(self).position(), j as int));
                    proof {
                        assert forall|x: int| next_pair_index(items, from, x) implies x == j by {
                            if x < j {
                            } else if x > j {
                                assert(split_pair(items[j as int], "__"@) is None);
                            }
                        }
                    }
                    self.next = j + 1;
                    self.checked = self.checked + 1;
                    match self.kind {
                        Some(k) => {
                            self.current = Some(self.ids[j].clone());
                            return Some((k, a, b));
                        },
                        None => {
                            self.stopped = true;
                            return None;
                        },
                    }
                },
                None => {},
            }
            j = j + 1;
        }
        self.next = j;
        self.stopped = true;
        None
    }

    /// Records the model's verdict on the awaited pair: kept, dismissed, or
    /// (on an error) neither.
    pub fn record(&mut self, verdict: Option<bool>)
        ensures
            final(self).items() == old(self).items(),
            final(self).kind() == old(self).kind(),
            final(self).position() == old(self).position(),
            final(self).checked_count() == old(self).checked_count(),
            final(self).is_stopped() == old(self).is_stopped(),
            final(self).awaiting() is None,
            match old(self).awaiting() {
                Some(id) => {
                    &&& final(self).kept_count() == old(self).kept_count() + if verdict == Some(true) {
                        1int
                    } else {
                        0int
                    }
                    &&& final(self).dismissed_items() == if verdict == Some(false) {
                        old(self).dismissed_items().push(id)
                    } else {
                        old(self).dismissed_items()
                    }
                },
                None => final(self).kept_count() == old(self).kept_count() && final(self).dismissed_items()
                    == old(self).dismissed_items(),
            },
    {
        proof {
            use_type_invariant(&*self);
        }
        let current = clone_opt(&self.current);
        self.current = None;
        match current {
            Some(id) => match verdict {
                Some(true) => {
                    self.kept = self.kept + 1;
                },
                Some(false) => {
                    let ghost before = self.dismissed@;
                    let mut d = crate::signals::clone_strings(&self.dismissed);
                    d.push(id);
                    self.dismissed = d;
                    assert(crate::tag_tree::strings_view(self.dismissed@) =~= crate::tag_tree::strings_view(
                        before,
                    ).push(old(self).awaiting()->0));
                },
                None => {},
            },
            None => {},
        }
    }

    /// The outcome: pairs checked, pairs kept, items dismissed.
    pub fn summary(&self) -> (r: (u32, u32, Vec<String>))
        ensures
            r.0 == self.checked_count(),
            r.1 == self.kept_count(),
            crate::tag_tree::strings_view(r.2@) == self.dismissed_items(),
    {
        let d = crate::signals::clone_strings(&self.dismissed);
        (self.checked, self.kept, d)
    }
}

} // verus!
