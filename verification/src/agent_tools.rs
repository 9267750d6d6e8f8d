//! What the research tools of a report run decide: which window of an atom
//! `read_atom` shows and how it labels it, and which search hits
//! `semantic_search` shows with which citation numbers.
use vstd::prelude::*;
use crate::models::AtomWithTags;
use crate::reports::{
    excerpt_for, excerpt_spec, id_listed, passes_context_filter, passes_context_filter_spec, register_entries,
    register_number, CitationAdmission, CitationLedger, CitationSource, ContextFilter, LedgerEntry, ToolResult,
};
use crate::text::{append_chars, append_str, chars_of, decimal, decimal_chars, split_chars, split_seq, string_from_chars};

verus! {

/// The default and largest window `read_atom` shows, in lines.
pub const READ_LIMIT: i64 = 500;
/// The default number of search results shown.
pub const DEFAULT_SEARCH_LIMIT: i64 = 5;
/// The largest number of search results shown or fetched.
pub const MAX_SEARCH_LIMIT: i64 = 10;

/// `l` without one trailing carriage return.
pub open spec fn strip_cr(l: Seq<char>) -> Seq<char> {
    if l.len() > 0 && l.last() == '\r' {
        l.drop_last()
    } else {
        l
    }
}

/// The lines of `s` as `str::lines` yields them: split at `\n`, a `\r`
/// before a `\n` dropped, and no empty line after a final `\n`.
pub open spec fn lines_seq(s: Seq<char>) -> Seq<Seq<char>> {
    let pieces = split_seq(s, '\n');
    let ended = pieces.drop_last().map_values(|l: Seq<char>| strip_cr(l));
    if pieces.last().len() == 0 {
        ended
    } else {
        ended.push(pieces.last())
    }
}

/// Lines joined with `\n`.
pub open spec fn join_lines(ls: Seq<Seq<char>>) -> Seq<char>
    decreases ls.len(),
{
    if ls.len() == 0 {
        Seq::empty()
    } else if ls.len() == 1 {
        ls[0]
    } else {
        join_lines(ls.drop_last()) + seq!['\n'] + ls.last()
    }
}

/// The number of lines a read shows: 500 unless asked, between 1 and 500.
pub open spec fn read_limit_spec(limit: Option<i64>) -> int {
    match limit {
        Some(l) => if l < 1 {
            1
        } else if l > 500 {
            500
        } else {
            l as int
        },
        None => 500,
    }
}

/// The first line a read shows: 0 unless asked, never negative.
pub open spec fn read_offset_spec(offset: Option<i64>) -> int {
    match offset {
        Some(o) => if o < 0 {
            0
        } else {
            o as int
        },
        None => 0,
    }
}

/// The title a tool shows for an atom.
pub open spec fn shown_title(title: Seq<char>) -> Seq<char> {
    if title.len() == 0 {
        "(untitled)"@
    } else {
        title
    }
}

/// What `read_atom` returns for an atom: a header with the line range, the
/// lines of the window, and a hint to continue when more lines follow.
pub open spec fn read_window_spec(title: Seq<char>, content: Seq<char>, limit: Option<i64>, offset: Option<i64>) -> Seq<char> {
    let ls = lines_seq(content);
    let total = ls.len() as int;
    let start = if read_offset_spec(offset) < total {
        read_offset_spec(offset)
    } else {
        total
    };
    let end = if start + read_limit_spec(limit) < total {
        start + read_limit_spec(limit)
    } else {
        total
    };
    "# "@ + shown_title(title) + "\n(lines "@ + decimal((start + 1) as nat) + "-"@ + decimal(end as nat) + " of "@
        + decimal(total as nat) + ")\n\n"@ + join_lines(ls.subrange(start, end)) + if end < total {
        "\n\n(More content available. Call read_atom again with offset="@ + decimal(end as nat) + " to continue.)"@
    } else {
        Seq::empty()
    }
}

proof fn lemma_split_len(s: Seq<char>, sep: char)
    ensures
        split_seq(s, sep).len() >= 1,
        split_seq(s, sep).len() <= s.len() + 1,
    decreases s.len(),
{
    if s.len() > 0 {
        lemma_split_len(s.drop_last(), sep);
    }
}

/// The lines of `content` (as `str::lines` yields them).
pub fn lines_chars(content: &str) -> (r: Vec<Vec<char>>)
    ensures
        r@.len() == lines_seq(content@).len(),
        r@.len() <= content@.len() + 1,
        forall|i: int| 0 <= i < r@.len() ==> #[trigger] r@[i]@ == lines_seq(content@)[i],
{
    let cs = chars_of(content);
    let pieces = split_chars(&cs, '\n');
    let ghost ps = split_seq(cs@, '\n');
    proof {
        lemma_split_len(cs@, '\n');
    }
    let n = pieces.len();
    let mut out: Vec<Vec<char>> = Vec::new();
    let mut i: usize = 0;
    while i + 1 < n
        invariant
            n == pieces@.len(),
            n == ps.len(),
            n >= 1,
            i + 1 <= n,
            forall|j: int| 0 <= j < n ==> #[trigger] pieces@[j]@ == ps[j],
            out@.len() == i,
            forall|j: int| 0 <= j < i ==> #[trigger] out@[j]@ == strip_cr(ps[j]),
        decreases n - i,
    {
        let mut l = crate::text::sub_chars(&pieces[i], 0, pieces[i].len());
        assert(l@ == ps[i as int]);
        if l.len() > 0 && l[l.len() - 1] == '\r' {
            l.pop();
        }
        out.push(l);
        i = i + 1;
    }
    let last = &pieces[n - 1];
    if last.len() > 0 {
        out.push(crate::text::sub_chars(last, 0, last.len()));
    }
    proof {
        let ended = ps.drop_last().map_values(|l: Seq<char>| strip_cr(l));
        assert(ps.last() == pieces@[n - 1]@);
        assert forall|j: int| 0 <= j < out@.len() implies #[trigger] out@[j]@ == lines_seq(cs@)[j] by {
            if j < n - 1 {
                assert(ended[j] == strip_cr(ps[j]));
            }
        }
    }
    out
}

fn read_header(title: &str, start: usize, end: usize, total: usize) -> (r: Vec<char>)
    requires
        start < u64::MAX,
    ensures
        r@ == "# "@ + shown_title(title@) + "\n(lines "@ + decimal((start + 1) as nat) + "-"@ + decimal(end as nat)
            + " of "@ + decimal(total as nat) + ")\n\n"@,
{
    let mut out = chars_of("# ");
    if title.is_empty() {
        append_str(&mut out, "(untitled)");
    } else {
        append_str(&mut out, title);
    }
    append_str(&mut out, "\n(lines ");
    let a = decimal_chars((start as u64) + 1);
    append_chars(&mut out, &a);
    append_str(&mut out, "-");
    let b = decimal_chars(end as u64);
    append_chars(&mut out, &b);
    append_str(&mut out, " of ");
    let c = decimal_chars(total as u64);
    append_chars(&mut out, &c);
    append_str(&mut out, ")\n\n");
    out
}

fn join_line_range(ls: &Vec<Vec<char>>, start: usize, end: usize) -> (r: Vec<char>)
    requires
        start <= end <= ls@.len(),
    ensures
        r@ == join_lines(ls@.map_values(|l: Vec<char>| l@).subrange(start as int, end as int)),
{
    let ghost lv = ls@.map_values(|l: Vec<char>| l@);
    let mut out: Vec<char> = Vec::new();
    let mut k: usize = start;
    while k < end
        invariant
            start <= k <= end <= ls@.len(),
            lv == ls@.map_values(|l: Vec<char>| l@),
            out@ == join_lines(lv.subrange(start as int, k as int)),
        decreases end - k,
    {
        if k > start {
            out.push('\n');
        }
        append_chars(&mut out, &ls[k]);
        proof {
            let prev = lv.subrange(start as int, k as int);
            let next = lv.subrange(start as int, k + 1);
            assert(next.drop_last() == prev);
            assert(next.last() == lv[k as int]);
            if k == start {
                assert(next.len() == 1);
            }
        }
        k = k + 1;
    }
    out
}

/// The window of lines `read_atom` shows of an atom, with its header and a
/// hint to continue when more lines follow.
pub fn read_atom_window(title: &str, content: &str, limit: Option<i64>, offset: Option<i64>) -> (r: ToolResult)
    requires
        content@.len() < u64::MAX - 1,
    ensures
        r.output@ == read_window_spec(title@, content@, limit, offset),
        r.results_count == 1,
        !r.failed,
{
    let ls = lines_chars(content);
    let ghost lv = lines_seq(content@);
    assert(ls@.map_values(|l: Vec<char>| l@) =~= lv);
    let total = ls.len();
    let lim: usize = match limit {
        Some(l) => if l < 1 {
            1
        } else if l > 500 {
            500
        } else {
            l as usize
        },
        None => 500,
    };
    let start: usize = match offset {
        Some(o) => if o < 0 {
            0
        } else if (o as u64) < (total as u64) {
            o as usize
        } else {
            total
        },
        None => 0,
    };
    let end: usize = if lim < total - start {
        start + lim
    } else {
        total
    };
    let mut out = read_header(title, start, end, total);
    let body = join_line_range(&ls, start, end);
    append_chars(&mut out, &body);
    if end < total {
        append_str(&mut out, "\n\n(More content available. Call read_atom again with offset=");
        let d = decimal_chars(end as u64);
        append_chars(&mut out, &d);
        append_str(&mut out, " to continue.)");
    }
    proof {
        reveal_strlit("");
    }
    ToolResult::ok(string_from_chars(&out), 1)
}

/// The number of results a search shows: 5 unless asked, between 1 and 10.
pub open spec fn search_requested_spec(limit: Option<i64>) -> int {
    match limit {
        Some(l) => if l < 1 {
            1
        } else if l > 10 {
            10
        } else {
            l as int
        },
        None => 5,
    }
}

/// How many results a search shows and how many it fetches (three times as
/// many, at most ten), or the failure for an empty query.
pub fn search_limits(query: &str, limit: Option<i64>) -> (r: Result<(i32, i32), ToolResult>)
    ensures
        query@.len() == 0 ==> (r matches Err(t) && t.failed && t.output@ == "query is required"@),
        query@.len() > 0 ==> (r matches Ok(p) && p.0 == search_requested_spec(limit) && p.1 == if 3 * p.0 < 10 {
            3 * p.0
        } else {
            10
        }),
{
    if query.is_empty() {
        return Err(ToolResult::failed(String::from_str("query is required")));
    }
    let requested: i32 = match limit {
        Some(l) => if l < 1 {
            1
        } else if l > 10 {
            10
        } else {
            l as i32
        },
        None => 5,
    };
    let fetch = if 3 * requested < 10 {
        3 * requested
    } else {
        10
    };
    Ok((requested, fetch))
}

/// A search hit: the atom and the chunk that matched.
#[derive(Clone, Debug)]
pub struct SearchHit {
    pub atom: AtomWithTags,
    pub matching_chunk: String,
}

/// A hit may be shown: it passes the context filter and, when the report is
/// scoped to tags, its atom is in the scope.
pub open spec fn hit_admitted(hit: SearchHit, ctx: ContextFilter, scope: Option<Vec<String>>) -> bool {
    &&& passes_context_filter_spec(hit.atom, ctx)
    &&& match scope {
        Some(set) => id_listed(set@, hit.atom.atom.id@),
        None => true,
    }
}

/// The ledger entry a shown hit registers.
pub open spec fn hit_entry(hit: SearchHit) -> LedgerEntry {
    (CitationSource::Atom, hit.atom.atom.id@, None, excerpt_spec(hit.atom))
}

/// The hits shown among the first `i` (as citation number and position) and
/// the ledger entries after registering them: admitted hits are shown in
/// order until `requested` are; an uncitable hit gets number 0.
pub open spec fn shown_hits(
    hits: Seq<SearchHit>,
    ctx: ContextFilter,
    scope: Option<Vec<String>>,
    requested: int,
    admission: CitationAdmission,
    entries: Seq<LedgerEntry>,
    i: int,
) -> (Seq<(i32, int)>, Seq<LedgerEntry>)
    decreases i,
{
    if i <= 0 {
        (Seq::empty(), entries)
    } else {
        let prev = shown_hits(hits, ctx, scope, requested, admission, entries, i - 1);
        let hit = hits[i - 1];
        if prev.0.len() >= requested || !hit_admitted(hit, ctx, scope) {
            prev
        } else {
            let n = match register_number(prev.1, admission, CitationSource::Atom, hit.atom.atom.id@) {
                Some(n) => n,
                None => 0i32,
            };
            (prev.0.push((n, i - 1)), register_entries(prev.1, admission, hit_entry(hit)))
        }
    }
}

proof fn lemma_shown_bounds(
    hits: Seq<SearchHit>,
    ctx: ContextFilter,
    scope: Option<Vec<String>>,
    requested: int,
    admission: CitationAdmission,
    entries: Seq<LedgerEntry>,
    i: int,
)
    requires
        0 <= i,
    ensures
        shown_hits(hits, ctx, scope, requested, admission, entries, i).0.len() <= i,
        shown_hits(hits, ctx, scope, requested, admission, entries, i).1.len() <= entries.len() + i,
    decreases i,
{
    if i > 0 {
        lemma_shown_bounds(hits, ctx, scope, requested, admission, entries, i - 1);
    }
}

/// The shown hits and ledger entries agree with the selection `s`.
pub open spec fn selection_matches(
    shown: Seq<(i32, usize)>,
    entries: Seq<LedgerEntry>,
    s: (Seq<(i32, int)>, Seq<LedgerEntry>),
) -> bool {
    &&& shown.len() == s.0.len()
    &&& forall|k: int| 0 <= k < shown.len() ==> #[trigger] shown[k].0 == s.0[k].0 && shown[k].1 as int == s.0[k].1
    &&& entries == s.1
}

/// Picks the hits a search shows, registering each with the ledger: hits
/// outside the report's context are skipped; at most `requested` are shown.
/// Returns each shown hit's citation number (0 when it may not be cited) and
/// position.
pub fn select_search_hits(
    hits: &Vec<SearchHit>,
    ctx: &ContextFilter,
    scope: &Option<Vec<String>>,
    requested: usize,
    ledger: &mut CitationLedger,
) -> (r: Vec<(i32, usize)>)
    requires
        requested >= 1,
        old(ledger).entries().len() + hits@.len() + 1 < i32::MAX,
    ensures
        final(ledger).admission() == old(ledger).admission(),
        ({
            let s = shown_hits(
                hits@,
                *ctx,
                *scope,
                requested as int,
                old(ledger).admission(),
                old(ledger).entries(),
                hits@.len() as int,
            );
            &&& r@.len() == s.0.len()
            &&& forall|k: int| 0 <= k < r@.len() ==> #[trigger] r@[k].0 == s.0[k].0 && r@[k].1 as int == s.0[k].1
            &&& final(ledger).entries() == s.1
        }),
{
    let ghost admission = ledger.admission();
    let ghost e0 = ledger.entries();
    let mut shown: Vec<(i32, usize)> = Vec::new();
    let mut i: usize = 0;
    while i < hits.len()
        invariant
            i <= hits@.len(),
            requested >= 1,
            ledger.admission() == admission,
            e0.len() + hits@.len() + 1 < i32::MAX,
            selection_matches(
                shown@,
                ledger.entries(),
                shown_hits(hits@, *ctx, *scope, requested as int, admission, e0, i as int),
            ),
        decreases hits@.len() - i,
    {
        proof {
            lemma_shown_bounds(hits@, *ctx, *scope, requested as int, admission, e0, i as int);
        }
        let ghost prev = shown_hits(hits@, *ctx, *scope, requested as int, admission, e0, i as int);
        assert(shown_hits(hits@, *ctx, *scope, requested as int, admission, e0, i + 1) == (if prev.0.len()
            >= requested || !hit_admitted(hits@[i as int], *ctx, *scope) {
            prev
        } else {
            (
                prev.0.push(
                    (
                        match register_number(prev.1, admission, CitationSource::Atom, hits@[i as int].atom.atom.id@) {
                            Some(n) => n,
                            None => 0i32,
                        },
                        i as int,
                    ),
                ),
                register_entries(prev.1, admission, hit_entry(hits@[i as int])),
            )
        }));
        if shown.len() >= requested {
            assert(selection_matches(shown@, ledger.entries(), shown_hits(hits@, *ctx, *scope, requested as int, admission, e0, i + 1)));
            i = i + 1;
        } else {
            let hit = &hits[i];
            let in_scope = match scope {
                Some(set) => crate::reports::contains_id(set, hit.atom.atom.id.as_str()),
                None => true,
            };
            if !passes_context_filter(&hit.atom, ctx) || !in_scope {
                assert(!hit_admitted(hits@[i as int], *ctx, *scope));
                assert(selection_matches(shown@, ledger.entries(), shown_hits(hits@, *ctx, *scope, requested as int, admission, e0, i + 1)));
                i = i + 1;
            } else {
                let ex = excerpt_for(&hit.atom);
                let number = match ledger.register(CitationSource::Atom, hit.atom.atom.id.as_str(), None, ex.as_str()) {
                    Some(n) => n,
                    None => 0,
                };
                let ghost before = shown@;
                assert(forall|k: int| 0 <= k < before.len() ==> before[k].0 == prev.0[k].0 && before[k].1 as int == prev.0[k].1);
                shown.push((number, i));
                proof {
                    let nxt = shown_hits(hits@, *ctx, *scope, requested as int, admission, e0, i + 1);
                    assert(hit_admitted(hits@[i as int], *ctx, *scope));
                    assert(nxt.0 == prev.0.push((number, i as int)));
                    assert forall|k: int| 0 <= k < shown@.len() implies #[trigger] shown@[k].0 == nxt.0[k].0
                        && shown@[k].1 as int == nxt.0[k].1 by {
                        if k < before.len() {
                            assert(shown@[k] == before[k]);
                            assert(nxt.0[k] == prev.0[k]);
                        } else {
                            assert(shown@[k] == (number, i));
                        }
                    }
                    assert(ledger.entries() == nxt.1);
                    assert(shown@.len() == nxt.0.len());
                    assert(selection_matches(shown@, ledger.entries(), nxt));
                }
                i = i + 1;
            }
        }
    }
    shown
}

/// How a shown hit is marked: its citation number when citable, otherwise as
/// context only.
pub open spec fn citation_marker_spec(number: i32) -> Seq<char> {
    if number > 0 {
        "["@ + decimal(number as nat) + "] citable"@
    } else {
        "(context only, not citable)"@
    }
}

/// The marker of a shown hit.
pub fn citation_marker(number: i32) -> (r: String)
    ensures
        r@ == citation_marker_spec(number),
{
    if number > 0 {
        let mut out = chars_of("[");
        let d = decimal_chars(number as u64);
        append_chars(&mut out, &d);
        append_str(&mut out, "] citable");
        string_from_chars(&out)
    } else {
        String::from_str("(context only, not citable)")
    }
}

/// The title a tool shows for an atom.
pub fn display_title(title: &str) -> (r: String)
    ensures
        r@ == shown_title(title@),
{
    if title.is_empty() {
        String::from_str("(untitled)")
    } else {
        String::from_str(title)
    }
}

} // verus!
