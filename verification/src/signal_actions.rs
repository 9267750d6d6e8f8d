//! The decisions behind acting on a knowledge signal: which action runs, what
//! it may touch, what the action log records, how an action is undone, and
//! how many signals per target a provider keeps.
use vstd::prelude::*;
use crate::error::AtomicCoreError;
use crate::signals::{
    KnowledgeSignalAction, EMPTY_TAG_PROVIDER_ID, MISSING_TAG_OVERLAP_PROVIDER_ID, TAG_REDUNDANCY_PROVIDER_ID,
    WIKI_CANDIDATE_PROVIDER_ID, WIKI_UPDATE_PROVIDER_ID,
};
use crate::reports::opt_str_view;
use crate::text::{append_str, chars_eq, chars_eq_str, chars_of, string_from_chars};

verus! {

/// The actions a signal can carry out.
#[derive(Clone, Copy, Debug, PartialEq, Eq, Structural)]
pub enum SignalActionKind {
    GenerateWiki,
    UpdateWiki,
    AddTagToAtom,
    DeleteEmptyTag,
    MergeTags,
}

/// The action an action name designates.
pub open spec fn action_kind_of(name: Seq<char>) -> Option<SignalActionKind> {
    if name == "generate_wiki"@ {
        Some(SignalActionKind::GenerateWiki)
    } else if name == "update_wiki"@ {
        Some(SignalActionKind::UpdateWiki)
    } else if name == "add_tag_to_atom"@ {
        Some(SignalActionKind::AddTagToAtom)
    } else if name == "delete_empty_tag"@ {
        Some(SignalActionKind::DeleteEmptyTag)
    } else if name == "merge_tags"@ {
        Some(SignalActionKind::MergeTags)
    } else {
        None
    }
}

/// The action name stored for each action in the action log.
pub open spec fn action_name(kind: SignalActionKind) -> Seq<char> {
    match kind {
        SignalActionKind::GenerateWiki => "generate_wiki"@,
        SignalActionKind::UpdateWiki => "update_wiki"@,
        SignalActionKind::AddTagToAtom => "add_tag_to_atom"@,
        SignalActionKind::DeleteEmptyTag => "delete_empty_tag"@,
        SignalActionKind::MergeTags => "merge_tags"@,
    }
}

/// An action name designates the action stored under that very name, and
/// every action is designated by its stored name: requesting `generate_wiki`
/// plans `GenerateWiki`, `update_wiki` plans `UpdateWiki`, and so on.
pub proof fn law_action_planned_by_its_name(name: Seq<char>, kind: SignalActionKind)
    ensures
        action_kind_of(name) matches Some(k) ==> action_name(k) == name,
        action_kind_of(action_name(kind)) == Some(kind),
{
    reveal_strlit("generate_wiki");
    reveal_strlit("update_wiki");
    reveal_strlit("add_tag_to_atom");
    reveal_strlit("delete_empty_tag");
    reveal_strlit("merge_tags");
    assert("generate_wiki"@ != "update_wiki"@ && "generate_wiki"@ != "add_tag_to_atom"@
        && "generate_wiki"@ != "delete_empty_tag"@ && "generate_wiki"@ != "merge_tags"@) by {
        assert("generate_wiki"@[0] != "update_wiki"@[0]);
        assert("generate_wiki"@[0] != "add_tag_to_atom"@[0]);
        assert("generate_wiki"@[0] != "delete_empty_tag"@[0]);
        assert("generate_wiki"@[0] != "merge_tags"@[0]);
    }
    assert("update_wiki"@ != "add_tag_to_atom"@ && "update_wiki"@ != "delete_empty_tag"@
        && "update_wiki"@ != "merge_tags"@) by {
        assert("update_wiki"@[0] != "add_tag_to_atom"@[0]);
        assert("update_wiki"@[0] != "delete_empty_tag"@[0]);
        assert("update_wiki"@[0] != "merge_tags"@[0]);
    }
    assert("add_tag_to_atom"@ != "delete_empty_tag"@ && "add_tag_to_atom"@ != "merge_tags"@) by {
        assert("add_tag_to_atom"@[0] != "delete_empty_tag"@[0]);
        assert("add_tag_to_atom"@[0] != "merge_tags"@[0]);
    }
    assert("delete_empty_tag"@ != "merge_tags"@) by {
        assert("delete_empty_tag"@[0] != "merge_tags"@[0]);
    }
}

/// The signal suggests an action with this id.
pub open spec fn action_offered(actions: Seq<KnowledgeSignalAction>, name: Seq<char>) -> bool {
    exists|j: int| 0 <= j < actions.len() && actions[j].id@ == name
}

/// The message of an action the signal does not offer.
pub open spec fn not_available_message(name: Seq<char>) -> Seq<char> {
    "Action '"@ + name + "' is not available for this signal"@
}

/// The message of an offered action that no handler carries out.
pub open spec fn unsupported_message(name: Seq<char>) -> Seq<char> {
    "Unsupported knowledge signal action: "@ + name
}

/// Chooses the action to run: `Validation` when the signal does not suggest
/// it, or when no handler carries it out.
pub fn plan_signal_action(suggested: &[KnowledgeSignalAction], action: &str) -> (r: Result<SignalActionKind, AtomicCoreError>)
    ensures
        !action_offered(suggested@, action@) ==> (r matches Err(e) && e == AtomicCoreError::Validation(
            e->Validation_0,
        ) && e.message() == not_available_message(action@)),
        action_offered(suggested@, action@) && action_kind_of(action@) is None ==> (r matches Err(e) && e
            == AtomicCoreError::Validation(e->Validation_0) && e.message() == unsupported_message(action@)),
        action_offered(suggested@, action@) && action_kind_of(action@) is Some ==> r == Ok::<
            SignalActionKind,
            AtomicCoreError,
        >(action_kind_of(action@)->0),
        r matches Ok(k) ==> action_name(k) == action@,
{
    proof {
        law_action_planned_by_its_name(action@, SignalActionKind::GenerateWiki);
    }
    let a = chars_of(action);
    let mut offered = false;
    let mut j: usize = 0;
    while j < suggested.len()
        invariant
            j <= suggested@.len(),
            a@ == action@,
            offered <==> exists|k: int| 0 <= k < j && suggested@[k].id@ == action@,
        decreases suggested@.len() - j,
    {
        let c = chars_of(suggested[j].id.as_str());
        if chars_eq(&c, &a) {
            offered = true;
        }
        j = j + 1;
    }
    if !offered {
        let mut m = chars_of("Action '");
        append_str(&mut m, action);
        append_str(&mut m, "' is not available for this signal");
        return Err(AtomicCoreError::Validation(string_from_chars(&m)));
    }
    if chars_eq_str(&a, "generate_wiki") {
        Ok(SignalActionKind::GenerateWiki)
    } else if chars_eq_str(&a, "update_wiki") {
        Ok(SignalActionKind::UpdateWiki)
    } else if chars_eq_str(&a, "add_tag_to_atom") {
        Ok(SignalActionKind::AddTagToAtom)
    } else if chars_eq_str(&a, "delete_empty_tag") {
        Ok(SignalActionKind::DeleteEmptyTag)
    } else if chars_eq_str(&a, "merge_tags") {
        Ok(SignalActionKind::MergeTags)
    } else {
        let mut m = chars_of("Unsupported knowledge signal action: ");
        append_str(&mut m, action);
        Err(AtomicCoreError::Validation(string_from_chars(&m)))
    }
}

/// The provider whose signals an action applies to.
pub open spec fn action_provider(kind: SignalActionKind) -> Seq<char> {
    match kind {
        SignalActionKind::GenerateWiki => "wiki_candidate"@,
        SignalActionKind::UpdateWiki => "wiki_update"@,
        SignalActionKind::AddTagToAtom => "missing_tag_overlap"@,
        SignalActionKind::DeleteEmptyTag => "empty_tag"@,
        SignalActionKind::MergeTags => "tag_redundancy"@,
    }
}

/// The message of an action applied to another provider's signal.
pub open spec fn wrong_provider_message(kind: SignalActionKind) -> Seq<char> {
    match kind {
        SignalActionKind::GenerateWiki => "generate_wiki is only supported for wiki-candidate signals"@,
        SignalActionKind::UpdateWiki => "update_wiki is only supported for wiki-update signals"@,
        SignalActionKind::AddTagToAtom => "add_tag_to_atom is only supported for missing-tag signals"@,
        SignalActionKind::DeleteEmptyTag => "delete_empty_tag is only supported for empty-tag signals"@,
        SignalActionKind::MergeTags => "merge_tags is only supported for tag-redundancy signals"@,
    }
}

/// Checks that an action applies to a signal of `provider_id`.
pub fn check_action_provider(kind: SignalActionKind, provider_id: &str) -> (r: Result<(), AtomicCoreError>)
    ensures
        r is Ok <==> provider_id@ == action_provider(kind),
        r matches Err(e) ==> e == AtomicCoreError::Validation(e->Validation_0) && e.message()
            == wrong_provider_message(kind),
{
    proof {
        reveal_strlit("wiki_candidate");
        reveal_strlit("wiki_update");
        reveal_strlit("missing_tag_overlap");
        reveal_strlit("empty_tag");
        reveal_strlit("tag_redundancy");
    }
    let p = chars_of(provider_id);
    let (expected, message) = match kind {
        SignalActionKind::GenerateWiki => (
            WIKI_CANDIDATE_PROVIDER_ID,
            "generate_wiki is only supported for wiki-candidate signals",
        ),
        SignalActionKind::UpdateWiki => (WIKI_UPDATE_PROVIDER_ID, "update_wiki is only supported for wiki-update signals"),
        SignalActionKind::AddTagToAtom => (
            MISSING_TAG_OVERLAP_PROVIDER_ID,
            "add_tag_to_atom is only supported for missing-tag signals",
        ),
        SignalActionKind::DeleteEmptyTag => (
            EMPTY_TAG_PROVIDER_ID,
            "delete_empty_tag is only supported for empty-tag signals",
        ),
        SignalActionKind::MergeTags => (TAG_REDUNDANCY_PROVIDER_ID, "merge_tags is only supported for tag-redundancy signals"),
    };
    if chars_eq_str(&p, expected) {
        Ok(())
    } else {
        Err(AtomicCoreError::Validation(String::from_str(message)))
    }
}

/// The outcome of a merge request for the reviewed pair `{primary,
/// secondary}`: the source and target ids, or the refusal message.
pub open spec fn merge_request_spec(
    primary: Seq<char>,
    secondary: Seq<char>,
    source: Option<Seq<char>>,
    target: Option<Seq<char>>,
) -> Result<(Seq<char>, Seq<char>), Seq<char>> {
    match source {
        None => Err("source_tag_id is required"@),
        Some(s) => match target {
            None => Err("target_tag_id is required"@),
            Some(t) => if (s == primary || s == secondary) && (t == primary || t == secondary) && s != t {
                Ok((s, t))
            } else {
                Err("Merge tags must match the reviewed signal pair"@)
            },
        },
    }
}

/// Checks a merge request against the reviewed pair: both ids are required,
/// must belong to the pair, and must differ.
pub fn check_merge_tags_request(
    primary_id: &str,
    secondary_id: &str,
    source_tag_id: Option<&str>,
    target_tag_id: Option<&str>,
) -> (r: Result<(String, String), AtomicCoreError>)
    ensures
        match merge_request_spec(primary_id@, secondary_id@, opt_str_view(source_tag_id), opt_str_view(target_tag_id)) {
            Ok(p) => r matches Ok(v) && v.0@ == p.0 && v.1@ == p.1,
            Err(m) => r matches Err(e) && e == AtomicCoreError::Validation(e->Validation_0) && e.message() == m,
        },
{
    let s = match source_tag_id {
        Some(s) => s,
        None => {
            return Err(AtomicCoreError::Validation(String::from_str("source_tag_id is required")));
        },
    };
    let t = match target_tag_id {
        Some(t) => t,
        None => {
            return Err(AtomicCoreError::Validation(String::from_str("target_tag_id is required")));
        },
    };
    let pc = chars_of(primary_id);
    let sc = chars_of(secondary_id);
    let src = chars_of(s);
    let tgt = chars_of(t);
    let source_in_pair = chars_eq(&src, &pc) || chars_eq(&src, &sc);
    let target_in_pair = chars_eq(&tgt, &pc) || chars_eq(&tgt, &sc);
    if !source_in_pair || !target_in_pair || chars_eq(&src, &tgt) {
        return Err(AtomicCoreError::Validation(String::from_str("Merge tags must match the reviewed signal pair")));
    }
    Ok((String::from_str(s), String::from_str(t)))
}

/// Checks what adding a tag to an atom needs: the atom (whose last update
/// time is returned) and the tag must exist.
pub fn check_add_tag_targets(previous_updated_at: Option<String>, tag_exists: bool) -> (r: Result<String, AtomicCoreError>)
    ensures
        match previous_updated_at {
            None => r matches Err(e) && e == AtomicCoreError::NotFound(e->NotFound_0) && e.message() == "Atom not found"@,
            Some(u) => if tag_exists {
                r == Ok::<String, AtomicCoreError>(u)
            } else {
                r matches Err(e) && e == AtomicCoreError::NotFound(e->NotFound_0) && e.message() == "Tag not found"@
            },
        },
{
    match previous_updated_at {
        None => Err(AtomicCoreError::NotFound(String::from_str("Atom not found"))),
        Some(u) => if tag_exists {
            Ok(u)
        } else {
            Err(AtomicCoreError::NotFound(String::from_str("Tag not found")))
        },
    }
}

/// What the action log records of adding a tag to an atom: the assignment
/// before and after, whether this action created it, and the atom's update
/// time before and after.
#[derive(Clone, Debug)]
pub struct AddTagRecord {
    pub atom_id: String,
    pub tag_id: String,
    pub assignment_existed: bool,
    pub action_added_assignment: bool,
    pub atom_updated_at_before: String,
    pub atom_updated_at_after: String,
}

/// The record of adding tag `tag_id` to atom `atom_id`: `inserted_rows` rows
/// were inserted; the atom's update time moves to `updated_at` only when a row
/// was inserted.
pub fn add_tag_record(
    atom_id: &str,
    tag_id: &str,
    assignment_existed: bool,
    inserted_rows: u64,
    previous_updated_at: String,
    updated_at: String,
) -> (r: AddTagRecord)
    ensures
        r.atom_id@ == atom_id@,
        r.tag_id@ == tag_id@,
        r.assignment_existed == assignment_existed,
        r.action_added_assignment == (inserted_rows > 0),
        r.atom_updated_at_before == previous_updated_at,
        r.atom_updated_at_after == if inserted_rows > 0 {
            updated_at
        } else {
            previous_updated_at
        },
{
    let added = inserted_rows > 0;
    let after = if added {
        updated_at
    } else {
        previous_updated_at.clone()
    };
    AddTagRecord {
        atom_id: String::from_str(atom_id),
        tag_id: String::from_str(tag_id),
        assignment_existed,
        action_added_assignment: added,
        atom_updated_at_before: previous_updated_at,
        atom_updated_at_after: after,
    }
}

/// Checks that a tag can still be deleted as empty: it exists and has no
/// atoms and no child tags.
pub fn check_tag_still_empty(tag_exists: bool, atom_assignment_count: i64, child_count: i64) -> (r: Result<(), AtomicCoreError>)
    ensures
        !tag_exists ==> (r matches Err(e) && e == AtomicCoreError::NotFound(e->NotFound_0) && e.message()
            == "Tag not found"@),
        tag_exists && (atom_assignment_count != 0 || child_count != 0) ==> (r matches Err(e) && e
            == AtomicCoreError::Validation(e->Validation_0) && e.message() == "Tag is no longer empty"@),
        tag_exists && atom_assignment_count == 0 && child_count == 0 ==> r is Ok,
{
    if !tag_exists {
        return Err(AtomicCoreError::NotFound(String::from_str("Tag not found")));
    }
    if atom_assignment_count != 0 || child_count != 0 {
        return Err(AtomicCoreError::Validation(String::from_str("Tag is no longer empty")));
    }
    Ok(())
}

/// What undoing a logged action comes to.
#[derive(Clone, Copy, Debug, PartialEq, Eq, Structural)]
pub enum UndoDecision {
    /// The action was undone before: report it again, with whether undo is
    /// supported for it.
    AlreadyUndone { undo_supported: bool },
    /// Undo an applied tag addition.
    UndoAddTag,
}

/// The decision for undoing a logged action with this status and action
/// name, or the refusal message.
pub open spec fn undo_decision_spec(status: Seq<char>, action: Seq<char>) -> Result<UndoDecision, Seq<char>> {
    if status == "undone"@ {
        Ok(UndoDecision::AlreadyUndone { undo_supported: action == "add_tag_to_atom"@ })
    } else if status != "applied"@ {
        Err("Only applied signal actions can be undone"@)
    } else if action == "add_tag_to_atom"@ {
        Ok(UndoDecision::UndoAddTag)
    } else {
        Err("Undo is not supported for this signal action"@)
    }
}

/// Decides how to undo a logged action: an undone action is reported again,
/// only applied actions are undone, and only tag additions support undo.
pub fn plan_undo_signal_action(status: &str, action: &str) -> (r: Result<UndoDecision, AtomicCoreError>)
    ensures
        match undo_decision_spec(status@, action@) {
            Ok(d) => r == Ok::<UndoDecision, AtomicCoreError>(d),
            Err(m) => r matches Err(e) && e == AtomicCoreError::Validation(e->Validation_0) && e.message() == m,
        },
{
    let st = chars_of(status);
    let ac = chars_of(action);
    if chars_eq_str(&st, "undone") {
        return Ok(UndoDecision::AlreadyUndone { undo_supported: chars_eq_str(&ac, "add_tag_to_atom") });
    }
    if !chars_eq_str(&st, "applied") {
        return Err(AtomicCoreError::Validation(String::from_str("Only applied signal actions can be undone")));
    }
    if chars_eq_str(&ac, "add_tag_to_atom") {
        Ok(UndoDecision::UndoAddTag)
    } else {
        Err(AtomicCoreError::Validation(String::from_str("Undo is not supported for this signal action")))
    }
}

/// How to undo a tag addition: which assignment, and whether to remove it
/// (only when the action created it).
#[derive(Clone, Debug)]
pub struct UndoAddTagPlan {
    pub atom_id: String,
    pub tag_id: String,
    pub remove_assignment: bool,
}

/// Plans undoing a tag addition from the fields of its logged after-state;
/// the atom and tag ids are required, a missing flag counts as "not added".
pub fn plan_undo_add_tag(
    atom_id: Option<&str>,
    tag_id: Option<&str>,
    action_added_assignment: Option<bool>,
) -> (r: Result<UndoAddTagPlan, AtomicCoreError>)
    ensures
        atom_id is None ==> (r matches Err(e) && e == AtomicCoreError::Validation(e->Validation_0) && e.message()
            == "Action log missing atom_id"@),
        atom_id is Some && tag_id is None ==> (r matches Err(e) && e == AtomicCoreError::Validation(
            e->Validation_0,
        ) && e.message() == "Action log missing tag_id"@),
        atom_id is Some && tag_id is Some ==> (r matches Ok(p) && p.atom_id@ == atom_id->0@ && p.tag_id@
            == tag_id->0@ && p.remove_assignment == (action_added_assignment == Some(true))),
{
    let a = match atom_id {
        Some(a) => a,
        None => {
            return Err(AtomicCoreError::Validation(String::from_str("Action log missing atom_id")));
        },
    };
    let t = match tag_id {
        Some(t) => t,
        None => {
            return Err(AtomicCoreError::Validation(String::from_str("Action log missing tag_id")));
        },
    };
    let remove = match action_added_assignment {
        Some(b) => b,
        None => false,
    };
    Ok(UndoAddTagPlan { atom_id: String::from_str(a), tag_id: String::from_str(t), remove_assignment: remove })
}

/// The undo plan of a tag-addition record.
pub fn undo_plan_for(record: &AddTagRecord) -> (p: UndoAddTagPlan)
    ensures
        p.atom_id@ == record.atom_id@,
        p.tag_id@ == record.tag_id@,
        p.remove_assignment == record.action_added_assignment,
{
    UndoAddTagPlan {
        atom_id: record.atom_id.clone(),
        tag_id: record.tag_id.clone(),
        remove_assignment: record.action_added_assignment,
    }
}

/// Atom-tag assignments as (atom id, tag id) pairs.
pub type Assignments = Set<(Seq<char>, Seq<char>)>;

/// The assignments after an insert-if-absent of (`atom`, `tag`).
pub open spec fn after_add(s: Assignments, atom: Seq<char>, tag: Seq<char>) -> Assignments {
    s.insert((atom, tag))
}

/// The assignments after carrying out an undo plan.
pub open spec fn after_undo(s: Assignments, atom: Seq<char>, tag: Seq<char>, remove: bool) -> Assignments {
    if remove {
        s.remove((atom, tag))
    } else {
        s
    }
}

/// Undoing a tag addition restores the assignments as they were before it:
/// the undo plan of the record removes the assignment exactly when the
/// addition inserted it.
pub proof fn law_undo_add_tag_restores(s: Assignments, record: AddTagRecord, plan: UndoAddTagPlan)
    requires
        record.assignment_existed == s.contains((record.atom_id@, record.tag_id@)),
        record.action_added_assignment == !s.contains((record.atom_id@, record.tag_id@)),
        plan.atom_id@ == record.atom_id@,
        plan.tag_id@ == record.tag_id@,
        plan.remove_assignment == record.action_added_assignment,
    ensures
        after_undo(after_add(s, record.atom_id@, record.tag_id@), plan.atom_id@, plan.tag_id@, plan.remove_assignment)
            == s,
{
    let k = (record.atom_id@, record.tag_id@);
    if s.contains(k) {
        assert(s.insert(k) =~= s);
    } else {
        assert(s.insert(k).remove(k) =~= s);
    }
}

/// How many of the kept positions `kept` have key `k`.
pub open spec fn kept_with_key(keys: Seq<Seq<char>>, kept: Seq<int>, k: Seq<char>) -> nat
    decreases kept.len(),
{
    if kept.len() == 0 {
        0
    } else {
        kept_with_key(keys, kept.drop_last(), k) + if keys[kept.last()] == k {
            1nat
        } else {
            0nat
        }
    }
}

/// The positions kept when at most `cap` signals per key are allowed, going
/// in order.
pub open spec fn capped_positions(keys: Seq<Seq<char>>, cap: nat) -> Seq<int>
    decreases keys.len(),
{
    if keys.len() == 0 {
        Seq::empty()
    } else {
        let before = capped_positions(keys.drop_last(), cap);
        let i = keys.len() - 1;
        if kept_with_key(keys, before, keys[i]) < cap {
            before.push(i)
        } else {
            before
        }
    }
}

proof fn lemma_kept_with_key_prefix(keys: Seq<Seq<char>>, longer: Seq<Seq<char>>, kept: Seq<int>, k: Seq<char>)
    requires
        keys.len() <= longer.len(),
        forall|j: int| 0 <= j < keys.len() ==> longer[j] == keys[j],
        forall|j: int| 0 <= j < kept.len() ==> 0 <= #[trigger] kept[j] < keys.len(),
    ensures
        kept_with_key(longer, kept, k) == kept_with_key(keys, kept, k),
    decreases kept.len(),
{
    if kept.len() > 0 {
        lemma_kept_with_key_prefix(keys, longer, kept.drop_last(), k);
        assert(0 <= kept[kept.len() - 1] < keys.len());
    }
}

proof fn lemma_capped_bounds(keys: Seq<Seq<char>>, cap: nat)
    ensures
        forall|j: int| 0 <= j < capped_positions(keys, cap).len() ==> 0 <= #[trigger] capped_positions(keys, cap)[j] < keys.len(),
        forall|a: int, b: int| 0 <= a < b < capped_positions(keys, cap).len() ==> capped_positions(keys, cap)[a] < capped_positions(keys, cap)[b],
    decreases keys.len(),
{
    if keys.len() > 0 {
        let d = keys.drop_last();
        lemma_capped_bounds(d, cap);
        let before = capped_positions(d, cap);
        let r = capped_positions(keys, cap);
        let i = keys.len() - 1;
        assert(r == before || r == before.push(i));
        assert forall|j: int| 0 <= j < r.len() implies 0 <= #[trigger] r[j] < keys.len() by {
            if j < before.len() {
                assert(r[j] == before[j]);
            }
        }
        assert forall|a: int, b: int| 0 <= a < b < r.len() implies r[a] < r[b] by {
            assert(r[a] == before[a]);
            if b < before.len() {
                assert(r[b] == before[b]);
            } else {
                assert(before[a] < d.len());
            }
        }
    }
}

/// Keeps, in order, the positions of signals whose key has not yet been kept
/// `cap` times, then at most `max_total` of them.
pub fn select_per_key(keys: &[String], cap: usize, max_total: usize) -> (r: Vec<usize>)
    ensures
        r@.map_values(|i: usize| i as int) == capped_positions(crate::tag_tree::strings_view(keys@), cap as nat).take(
            if capped_positions(crate::tag_tree::strings_view(keys@), cap as nat).len() <= max_total {
                capped_positions(crate::tag_tree::strings_view(keys@), cap as nat).len() as int
            } else {
                max_total as int
            },
        ),
{
    let ghost all = crate::tag_tree::strings_view(keys@);
    let mut kept: Vec<usize> = Vec::new();
    let mut i: usize = 0;
    while i < keys.len()
        invariant
            i <= keys@.len(),
            all == crate::tag_tree::strings_view(keys@),
            kept@.map_values(|x: usize| x as int) == capped_positions(all.take(i as int), cap as nat),
            forall|j: int| 0 <= j < kept@.len() ==> #[trigger] kept@[j] < i,
        decreases keys@.len() - i,
    {
        let ghost prefix = all.take(i as int);
        let ghost next = all.take(i + 1);
        let ghost before = capped_positions(prefix, cap as nat);
        proof {
            assert(next.drop_last() == prefix);
            lemma_capped_bounds(prefix, cap as nat);
        }
        let key = chars_of(keys[i].as_str());
        let mut count: usize = 0;
        let mut m: usize = 0;
        while m < kept.len()
            invariant
                m <= kept@.len(),
                i < keys@.len(),
                key@ == all[i as int],
                all == crate::tag_tree::strings_view(keys@),
                kept@.map_values(|x: usize| x as int) == before,
                forall|j: int| 0 <= j < kept@.len() ==> #[trigger] kept@[j] < i,
                count == kept_with_key(all, before.take(m as int), all[i as int]),
                count <= m,
            decreases kept@.len() - m,
        {
            let c = chars_of(keys[kept[m]].as_str());
            assert(before.take(m + 1).drop_last() == before.take(m as int));
            assert(before[m as int] == kept@[m as int] as int);
            if chars_eq(&c, &key) {
                count = count + 1;
            }
            m = m + 1;
        }
        proof {
            assert(before.take(kept@.len() as int) == before);
            lemma_kept_with_key_prefix(prefix, next, before, all[i as int]);
            lemma_kept_with_key_prefix(prefix, all, before, all[i as int]);
            assert(next[i as int] == all[i as int]);
        }
        if count < cap {
            kept.push(i);
            assert(kept@.map_values(|x: usize| x as int) =~= before.push(i as int));
        }
        i = i + 1;
    }
    assert(all.take(keys@.len() as int) == all);
    let ghost full = capped_positions(all, cap as nat);
    if kept.len() > max_total {
        kept.truncate(max_total);
    }
    assert(kept@.map_values(|x: usize| x as int) =~= full.take(
        if full.len() <= max_total { full.len() as int } else { max_total as int },
    ));
    kept
}

/// The view of optional id pairs.
pub open spec fn pairs_view(v: Seq<Option<(String, String)>>) -> Seq<Option<(Seq<char>, Seq<char>)>> {
    v.map_values(
        |p: Option<(String, String)>|
            match p {
                Some(q) => Some((q.0@, q.1@)),
                None => None,
            },
    )
}

/// How often atom `x` occurs in the kept pairs (both positions count).
pub open spec fn kept_with_atom(pairs: Seq<Option<(Seq<char>, Seq<char>)>>, kept: Seq<int>, x: Seq<char>) -> nat
    decreases kept.len(),
{
    if kept.len() == 0 {
        0
    } else {
        kept_with_atom(pairs, kept.drop_last(), x) + match pairs[kept.last()] {
            Some(p) => (if p.0 == x {
                1nat
            } else {
                0nat
            }) + (if p.1 == x {
                1nat
            } else {
                0nat
            }),
            None => 0nat,
        }
    }
}

/// The positions kept when each atom may appear in at most `cap` kept pairs,
/// going in order; entries without a readable pair are always kept.
pub open spec fn capped_pair_positions(pairs: Seq<Option<(Seq<char>, Seq<char>)>>, cap: nat) -> Seq<int>
    decreases pairs.len(),
{
    if pairs.len() == 0 {
        Seq::empty()
    } else {
        let before = capped_pair_positions(pairs.drop_last(), cap);
        let i = pairs.len() - 1;
        match pairs[i] {
            Some(p) => if kept_with_atom(pairs, before, p.0) < cap && kept_with_atom(pairs, before, p.1) < cap {
                before.push(i)
            } else {
                before
            },
            None => before.push(i),
        }
    }
}

proof fn lemma_kept_with_atom_prefix(
    pairs: Seq<Option<(Seq<char>, Seq<char>)>>,
    longer: Seq<Option<(Seq<char>, Seq<char>)>>,
    kept: Seq<int>,
    x: Seq<char>,
)
    requires
        pairs.len() <= longer.len(),
        forall|j: int| 0 <= j < pairs.len() ==> longer[j] == pairs[j],
        forall|j: int| 0 <= j < kept.len() ==> 0 <= #[trigger] kept[j] < pairs.len(),
    ensures
        kept_with_atom(longer, kept, x) == kept_with_atom(pairs, kept, x),
    decreases kept.len(),
{
    if kept.len() > 0 {
        lemma_kept_with_atom_prefix(pairs, longer, kept.drop_last(), x);
        assert(0 <= kept[kept.len() - 1] < pairs.len());
    }
}

proof fn lemma_capped_pair_bounds(pairs: Seq<Option<(Seq<char>, Seq<char>)>>, cap: nat)
    ensures
        forall|j: int| 0 <= j < capped_pair_positions(pairs, cap).len() ==> 0 <= #[trigger] capped_pair_positions(pairs, cap)[j] < pairs.len(),
    decreases pairs.len(),
{
    if pairs.len() > 0 {
        let d = pairs.drop_last();
        lemma_capped_pair_bounds(d, cap);
        let before = capped_pair_positions(d, cap);
        let r = capped_pair_positions(pairs, cap);
        assert forall|j: int| 0 <= j < r.len() implies 0 <= #[trigger] r[j] < pairs.len() by {
            if j < before.len() {
                assert(r[j] == before[j]);
            }
        }
    }
}

fn count_atom(pairs: &[Option<(String, String)>], kept: &Vec<usize>, x: &Vec<char>) -> (n: usize)
    requires
        forall|j: int| 0 <= j < kept@.len() ==> #[trigger] kept@[j] < pairs@.len(),
        kept@.len() < usize::MAX / 2,
    ensures
        n == kept_with_atom(pairs_view(pairs@), kept@.map_values(|v: usize| v as int), x@),
{
    let ghost pv = pairs_view(pairs@);
    let ghost ks = kept@.map_values(|v: usize| v as int);
    let mut count: usize = 0;
    let mut m: usize = 0;
    while m < kept.len()
        invariant
            m <= kept@.len(),
            kept@.len() < usize::MAX / 2,
            pv == pairs_view(pairs@),
            ks == kept@.map_values(|v: usize| v as int),
            forall|j: int| 0 <= j < kept@.len() ==> #[trigger] kept@[j] < pairs@.len(),
            count == kept_with_atom(pv, ks.take(m as int), x@),
            count <= 2 * m,
        decreases kept@.len() - m,
    {
        assert(ks.take(m + 1).drop_last() == ks.take(m as int));
        assert(ks[m as int] == kept@[m as int] as int);
        match &pairs[kept[m]] {
            Some(p) => {
                let a = chars_of(p.0.as_str());
                let b = chars_of(p.1.as_str());
                if chars_eq(&a, x) {
                    count = count + 1;
                }
                if chars_eq(&b, x) {
                    count = count + 1;
                }
            },
            None => {},
        }
        m = m + 1;
    }
    assert(ks.take(kept@.len() as int) == ks);
    count
}

/// Keeps, in order, the positions of pairs whose two atoms have each been
/// kept fewer than `cap` times (entries without a readable pair always), then
/// at most `max_total` of them.
pub fn select_per_pair(pairs: &[Option<(String, String)>], cap: usize, max_total: usize) -> (r: Vec<usize>)
    requires
        pairs@.len() < usize::MAX / 2,
    ensures
        r@.map_values(|i: usize| i as int) == capped_pair_positions(pairs_view(pairs@), cap as nat).take(
            if capped_pair_positions(pairs_view(pairs@), cap as nat).len() <= max_total {
                capped_pair_positions(pairs_view(pairs@), cap as nat).len() as int
            } else {
                max_total as int
            },
        ),
{
    let ghost all = pairs_view(pairs@);
    let mut kept: Vec<usize> = Vec::new();
    let mut i: usize = 0;
    while i < pairs.len()
        invariant
            i <= pairs@.len(),
            pairs@.len() < usize::MAX / 2,
            all == pairs_view(pairs@),
            kept@.map_values(|x: usize| x as int) == capped_pair_positions(all.take(i as int), cap as nat),
            forall|j: int| 0 <= j < kept@.len() ==> #[trigger] kept@[j] < i,
            kept@.len() <= i,
        decreases pairs@.len() - i,
    {
        let ghost prefix = all.take(i as int);
        let ghost next = all.take(i + 1);
        let ghost before = capped_pair_positions(prefix, cap as nat);
        proof {
            assert(next.drop_last() == prefix);
            lemma_capped_pair_bounds(prefix, cap as nat);
            lemma_kept_with_atom_prefix(prefix, next, before, Seq::empty());
        }
        let keep = match &pairs[i] {
            Some(p) => {
                let a = chars_of(p.0.as_str());
                let b = chars_of(p.1.as_str());
                let ca = count_atom(pairs, &kept, &a);
                let cb = count_atom(pairs, &kept, &b);
                proof {
                    lemma_kept_with_atom_prefix(prefix, next, before, a@);
                    lemma_kept_with_atom_prefix(prefix, all, before, a@);
                    lemma_kept_with_atom_prefix(prefix, next, before, b@);
                    lemma_kept_with_atom_prefix(prefix, all, before, b@);
                    assert(next[i as int] == all[i as int]);
                }
                ca < cap && cb < cap
            },
            None => {
                assert(next[i as int] == all[i as int]);
                true
            },
        };
        if keep {
            kept.push(i);
            assert(kept@.map_values(|x: usize| x as int) =~= before.push(i as int));
        }
        i = i + 1;
    }
    assert(all.take(pairs@.len() as int) == all);
    let ghost full = capped_pair_positions(all, cap as nat);
    if kept.len() > max_total {
        kept.truncate(max_total);
    }
    assert(kept@.map_values(|x: usize| x as int) =~= full.take(
        if full.len() <= max_total { full.len() as int } else { max_total as int },
    ));
    kept
}

} // verus!
