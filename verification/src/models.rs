//! Shared data model: atoms, tags and reports as the knowledge base holds them.
use vstd::prelude::*;

verus! {

/// Where an atom came from.
#[derive(Clone, Copy, Debug, PartialEq, Eq, Structural)]
pub enum AtomKind {
    /// Captured by the user (notes, clips, imports).
    Captured,
    /// Written by a report run.
    Report,
}

/// Which citations a report run may admit.
#[derive(Clone, Copy, Debug, PartialEq, Eq, Structural)]
pub enum CitationPolicy {
    /// Only the numbered source atoms may be cited.
    SourceOnly,
    /// Search results become citable as they are surfaced.
    SourceAndContext,
}

/// How the context corpus of a report is chosen.
#[derive(Clone, Copy, Debug, PartialEq, Eq, Structural)]
pub enum ContextScopeMode {
    /// Every atom is context.
    All,
    /// Only atoms under the configured tags are context.
    Tags,
}

/// Time window for a report's source batch.
#[derive(Clone, Copy, Debug, PartialEq, Eq, Structural)]
pub enum SourceScopeWindow {
    /// Atoms captured since the report last ran.
    SinceLastRun,
}

/// Which atom kinds a scope admits.
#[derive(Clone, Debug)]
pub enum KindFilter {
    /// Every kind.
    All,
    /// Only the listed kinds; an empty list admits nothing.
    Only(Vec<AtomKind>),
}

/// A tag as the knowledge base stores it.
#[derive(Clone, Debug)]
pub struct Tag {
    pub id: String,
    pub name: String,
    pub parent_id: Option<String>,
    pub created_at: String,
}

/// An atom: one unit of captured or generated knowledge.
#[derive(Clone, Debug)]
pub struct Atom {
    pub id: String,
    pub content: String,
    pub title: String,
    pub snippet: String,
    pub source_url: Option<String>,
    pub source: Option<String>,
    pub published_at: Option<String>,
    pub created_at: String,
    pub updated_at: String,
    pub embedding_status: String,
    pub tagging_status: String,
    pub embedding_error: Option<String>,
    pub tagging_error: Option<String>,
    pub kind: AtomKind,
}

/// An atom together with its tags.
#[derive(Clone, Debug)]
pub struct AtomWithTags {
    pub atom: Atom,
    pub tags: Vec<Tag>,
}

/// A scheduled research report.
#[derive(Clone, Debug)]
pub struct Report {
    pub id: String,
    pub name: String,
    pub description: Option<String>,
    pub research_prompt: String,
    pub source_scope_tag_ids: Vec<String>,
    pub source_scope_window: Option<SourceScopeWindow>,
    pub source_include_kinds: Vec<AtomKind>,
    pub context_scope_mode: ContextScopeMode,
    pub context_scope_tag_ids: Vec<String>,
    pub context_scope_window: Option<SourceScopeWindow>,
    pub context_include_kinds: Vec<AtomKind>,
    pub citation_policy: CitationPolicy,
    pub max_source_atoms: Option<i32>,
    pub max_source_tokens: Option<i32>,
    pub max_tool_iterations: Option<i32>,
    pub schedule: String,
    pub schedule_tz: Option<String>,
    pub enabled: bool,
    pub output_atom_tags: Vec<String>,
    pub last_run_at: Option<String>,
    pub last_finding_atom_id: Option<String>,
    pub last_error: Option<String>,
    pub created_at: String,
    pub updated_at: String,
}

/// What creating a report needs.
#[derive(Clone, Debug)]
pub struct CreateReportRequest {
    pub name: String,
    pub description: Option<String>,
    pub research_prompt: String,
    pub source_scope_tag_ids: Vec<String>,
    pub source_scope_window: Option<SourceScopeWindow>,
    pub source_include_kinds: Vec<AtomKind>,
    pub context_scope_mode: ContextScopeMode,
    pub context_scope_tag_ids: Vec<String>,
    pub context_scope_window: Option<SourceScopeWindow>,
    pub context_include_kinds: Vec<AtomKind>,
    pub citation_policy: CitationPolicy,
    pub max_source_atoms: Option<i32>,
    pub max_source_tokens: Option<i32>,
    pub max_tool_iterations: Option<i32>,
    pub schedule: String,
    pub schedule_tz: Option<String>,
    pub enabled: bool,
    pub output_atom_tags: Vec<String>,
}

/// What creating an atom needs.
#[derive(Clone, Debug)]
pub struct CreateAtomRequest {
    pub content: String,
    pub source_url: Option<String>,
    pub published_at: Option<String>,
    pub tag_ids: Vec<String>,
    pub skip_if_source_exists: bool,
}

/// Provenance of a finding atom written by a report.
#[derive(Clone, Debug)]
pub struct ReportFinding {
    pub finding_atom_id: String,
    pub report_id: Option<String>,
    pub run_id: Option<String>,
    pub report_name_snapshot: String,
    pub created_at: String,
}

/// One `[N]` citation of a finding atom.
#[derive(Clone, Debug)]
pub struct ReportFindingCitation {
    pub finding_atom_id: String,
    pub cited_atom_id: String,
    pub position: i32,
    pub excerpt: String,
}

} // verus!
