//! The tag hierarchy as the knowledge-signal providers see it: parent links,
//! each tag's path of names from its root, ancestry, and the normalization of
//! tag names used to compare them.
use vstd::prelude::*;
use crate::reports::opt_view;
use crate::text::{ascii_lower, ascii_lower_char, chars_eq, chars_eq_str, chars_of, split_chars, split_seq, string_from_chars};

verus! {

/// A tag row as read from storage, before its path is known.
#[derive(Clone, Debug)]
pub struct RawTag {
    pub id: String,
    pub name: String,
    pub parent_id: Option<String>,
    pub atom_count: i32,
    pub child_count: i32,
    pub has_wiki: bool,
    pub is_autotag_target: bool,
}

/// A tag together with the names on its path from the root (its own name
/// last).
#[derive(Clone, Debug)]
pub struct TagCleanupTag {
    pub id: String,
    pub name: String,
    pub parent_id: Option<String>,
    pub path: Vec<String>,
    pub atom_count: i32,
    pub child_count: i32,
    pub has_wiki: bool,
    pub is_autotag_target: bool,
}

/// A parent link: a tag id and the id of its parent, if any.
pub type Link = (Seq<char>, Option<Seq<char>>);

/// The views of a list of strings.
pub open spec fn strings_view(v: Seq<String>) -> Seq<Seq<char>> {
    v.map_values(|s: String| s@)
}

/// The parent links of raw tag rows.
pub open spec fn raw_links(s: Seq<RawTag>) -> Seq<Link> {
    s.map_values(|t: RawTag| (t.id@, opt_view(t.parent_id)))
}

/// The parent links of tags.
pub open spec fn tag_links(s: Seq<TagCleanupTag>) -> Seq<Link> {
    s.map_values(|t: TagCleanupTag| (t.id@, opt_view(t.parent_id)))
}

/// No id occurs twice.
pub open spec fn ids_unique(links: Seq<Link>) -> bool {
    forall|a: int, b: int|
        0 <= a < links.len() && 0 <= b < links.len() && #[trigger] links[a].0 == #[trigger] links[b].0 ==> a == b
}

/// The position of the tag with id `id`.
pub open spec fn link_index(links: Seq<Link>, id: Seq<char>) -> Option<int> {
    if exists|k: int| 0 <= k < links.len() && links[k].0 == id {
        Some(choose|k: int| 0 <= k < links.len() && links[k].0 == id)
    } else {
        None
    }
}

/// The parent of tag `id`: none when the tag is unknown or a root.
pub open spec fn parent_link(links: Seq<Link>, id: Seq<char>) -> Option<Seq<char>> {
    match link_index(links, id) {
        Some(k) => links[k].1,
        None => None,
    }
}

/// The id reached from `id` after following `k` parent links (none once the
/// chain has ended).
pub open spec fn up(links: Seq<Link>, id: Seq<char>, k: nat) -> Option<Seq<char>>
    decreases k,
{
    if k == 0 {
        Some(id)
    } else {
        match up(links, id, (k - 1) as nat) {
            Some(c) => parent_link(links, c),
            None => None,
        }
    }
}

/// The parent chain from `id` ends within as many steps as there are tags.
pub open spec fn chain_ends(links: Seq<Link>, id: Seq<char>) -> bool {
    up(links, id, links.len() + 1) is None
}

/// No parent chain runs in a cycle.
pub open spec fn acyclic(links: Seq<Link>) -> bool {
    forall|id: Seq<char>| #[trigger] chain_ends(links, id)
}

/// `a` lies on the parent chain above `c`.
pub open spec fn is_ancestor(links: Seq<Link>, a: Seq<char>, c: Seq<char>) -> bool {
    exists|k: nat| k >= 1 && #[trigger] up(links, c, k) == Some(a)
}

/// The names on the path to tag `id`, following at most `fuel` links: the
/// parent's path (empty when the parent is unknown) followed by the tag's own
/// name; empty for an unknown id.
pub open spec fn path_k(raw: Seq<RawTag>, id: Seq<char>, fuel: nat) -> Seq<Seq<char>>
    decreases fuel,
{
    if fuel == 0 {
        Seq::empty()
    } else {
        match link_index(raw_links(raw), id) {
            Some(k) => {
                let prefix = match raw[k].parent_id {
                    Some(p) => path_k(raw, p@, (fuel - 1) as nat),
                    None => Seq::empty(),
                };
                prefix.push(raw[k].name@)
            },
            None => Seq::empty(),
        }
    }
}

/// The path of names from the root to tag `id`.
pub open spec fn tag_path(raw: Seq<RawTag>, id: Seq<char>) -> Seq<Seq<char>> {
    path_k(raw, id, raw.len() + 1)
}

/// The tag built from raw row `r` with path `path`.
pub open spec fn tag_from_raw(t: TagCleanupTag, r: RawTag, path: Seq<Seq<char>>) -> bool {
    &&& t.id@ == r.id@
    &&& t.name@ == r.name@
    &&& opt_view(t.parent_id) == opt_view(r.parent_id)
    &&& strings_view(t.path@) == path
    &&& t.atom_count == r.atom_count
    &&& t.child_count == r.child_count
    &&& t.has_wiki == r.has_wiki
    &&& t.is_autotag_target == r.is_autotag_target
}

proof fn lemma_up_none_stays(links: Seq<Link>, id: Seq<char>, k: nat, k2: nat)
    requires
        up(links, id, k) is None,
        k <= k2,
    ensures
        up(links, id, k2) is None,
    decreases k2 - k,
{
    if k < k2 {
        lemma_up_none_stays(links, id, k, (k2 - 1) as nat);
    }
}

/// Following `k + 1` links from `id` is following `k` links from its parent.
proof fn lemma_up_via_parent(links: Seq<Link>, id: Seq<char>, p: Seq<char>, k: nat)
    requires
        parent_link(links, id) == Some(p),
    ensures
        up(links, id, k + 1) == up(links, p, k),
    decreases k,
{
    reveal_with_fuel(up, 2);
    if k > 0 {
        lemma_up_via_parent(links, id, p, (k - 1) as nat);
    }
}

/// More fuel changes no path once the chain has ended.
proof fn lemma_path_fuel(raw: Seq<RawTag>, id: Seq<char>, f: nat)
    requires
        up(raw_links(raw), id, f) is None,
    ensures
        path_k(raw, id, f) == path_k(raw, id, f + 1),
    decreases f,
{
    let links = raw_links(raw);
    if f > 0 {
        match link_index(links, id) {
            Some(k) => {
                match raw[k].parent_id {
                    Some(p) => {
                        assert(links[k].1 == Some(p@));
                        lemma_up_via_parent(links, id, p@, (f - 1) as nat);
                        lemma_path_fuel(raw, p@, (f - 1) as nat);
                    },
                    None => {},
                }
            },
            None => {},
        }
    }
}

/// A tag's path is its parent's path followed by its own name, when the parent
/// is a known tag.
pub proof fn law_path_extends_parent_path(raw: Seq<RawTag>, k: int, pk: int)
    requires
        ids_unique(raw_links(raw)),
        acyclic(raw_links(raw)),
        0 <= k < raw.len(),
        0 <= pk < raw.len(),
        opt_view(raw[k].parent_id) == Some(raw[pk].id@),
    ensures
        tag_path(raw, raw[k].id@) == tag_path(raw, raw[pk].id@).push(raw[k].name@),
{
    let links = raw_links(raw);
    let id = raw[k].id@;
    let p = raw[pk].id@;
    assert(links[k].0 == id);
    assert(link_index(links, id) == Some(k));
    assert(parent_link(links, id) == Some(p));
    assert(chain_ends(links, id));
    lemma_up_via_parent(links, id, p, raw.len());
    lemma_path_fuel(raw, p, raw.len());
}

/// A tag's path ends with its own name.
pub proof fn law_path_ends_with_name(raw: Seq<RawTag>, k: int)
    requires
        ids_unique(raw_links(raw)),
        0 <= k < raw.len(),
    ensures
        tag_path(raw, raw[k].id@).len() >= 1,
        tag_path(raw, raw[k].id@).last() == raw[k].name@,
{
    let links = raw_links(raw);
    assert(links[k].0 == raw[k].id@);
    assert(link_index(links, raw[k].id@) == Some(k));
}

/// The position of the raw row with id `id`.
fn find_raw(raw: &Vec<RawTag>, id: &str) -> (r: Option<usize>)
    requires
        ids_unique(raw_links(raw@)),
    ensures
        r matches Some(k) ==> link_index(raw_links(raw@), id@) == Some(k as int),
        r is None ==> link_index(raw_links(raw@), id@) is None,
{
    let ghost links = raw_links(raw@);
    let target = chars_of(id);
    let mut k: usize = 0;
    while k < raw.len()
        invariant
            k <= raw.len(),
            links == raw_links(raw@),
            target@ == id@,
            ids_unique(links),
            forall|j: int| 0 <= j < k ==> links[j].0 != id@,
        decreases raw.len() - k,
    {
        let c = chars_of(raw[k].id.as_str());
        if chars_eq(&c, &target) {
            proof {
                assert(links[k as int].0 == id@);
                let w = choose|j: int| 0 <= j < links.len() && links[j].0 == id@;
                assert(links[w].0 == links[k as int].0);
            }
            return Some(k);
        }
        assert(links[k as int].0 == raw@[k as int].id@);
        k = k + 1;
    }
    None
}

fn path_for(raw: &Vec<RawTag>, id: &str, fuel: usize) -> (r: Vec<String>)
    requires
        ids_unique(raw_links(raw@)),
    ensures
        strings_view(r@) == path_k(raw@, id@, fuel as nat),
    decreases fuel,
{
    if fuel == 0 {
        let r: Vec<String> = Vec::new();
        assert(strings_view(r@) =~= Seq::<Seq<char>>::empty());
        return r;
    }
    match find_raw(raw, id) {
        Some(k) => {
            let mut p: Vec<String> = match &raw[k].parent_id {
                Some(pid) => path_for(raw, pid.as_str(), fuel - 1),
                None => {
                    let e: Vec<String> = Vec::new();
                    assert(strings_view(e@) =~= Seq::<Seq<char>>::empty());
                    e
                },
            };
            let ghost before = p@;
            p.push(raw[k].name.clone());
            assert(strings_view(p@) =~= strings_view(before).push(raw@[k as int].name@));
            p
        },
        None => {
            let r: Vec<String> = Vec::new();
            assert(strings_view(r@) =~= Seq::<Seq<char>>::empty());
            r
        },
    }
}

/// The tags of the knowledge base, each with its path; ids are unique and no
/// parent chain is a cycle.
#[derive(Debug)]
pub struct TagTable {
    tags: Vec<TagCleanupTag>,
}

impl TagTable {
    #[verifier::type_invariant]
    closed spec fn inv(self) -> bool {
        ids_unique(tag_links(self.tags@)) && acyclic(tag_links(self.tags@))
    }

    /// The tags, in the order they were read.
    pub closed spec fn entries(self) -> Seq<TagCleanupTag> {
        self.tags@
    }

    /// The parent links of the tags.
    pub open spec fn links(self) -> Seq<Link> {
        tag_links(self.entries())
    }

    /// The tags, in the order they were read.
    pub fn tags(&self) -> (r: &Vec<TagCleanupTag>)
        ensures
            r@ == self.entries(),
    {
        &self.tags
    }

    /// The position of the tag with id `id`.
    pub fn position(&self, id: &str) -> (r: Option<usize>)
        ensures
            r matches Some(k) ==> link_index(self.links(), id@) == Some(k as int) && k < self.entries().len(),
            r is None ==> link_index(self.links(), id@) is None,
    {
        proof {
            use_type_invariant(self);
        }
        let ghost links = self.links();
        let target = chars_of(id);
        let mut k: usize = 0;
        while k < self.tags.len()
            invariant
                k <= self.tags.len(),
                links == tag_links(self.tags@),
                target@ == id@,
                ids_unique(links),
                forall|j: int| 0 <= j < k ==> links[j].0 != id@,
            decreases self.tags.len() - k,
        {
            let c = chars_of(self.tags[k].id.as_str());
            if chars_eq(&c, &target) {
                proof {
                    assert(links[k as int].0 == id@);
                    let w = choose|j: int| 0 <= j < links.len() && links[j].0 == id@;
                    assert(links[w].0 == links[k as int].0);
                }
                return Some(k);
            }
            assert(links[k as int].0 == self.tags@[k as int].id@);
            k = k + 1;
        }
        None
    }

    /// The parent id of tag `id` (none for an unknown tag or a root).
    fn parent_of(&self, id: &str) -> (r: Option<String>)
        ensures
            opt_view(r) == parent_link(self.links(), id@),
    {
        match self.position(id) {
            Some(k) => {
                let ghost links = self.links();
                assert(links[k as int].1 == opt_view(self.entries()[k as int].parent_id));
                match &self.tags[k].parent_id {
                    Some(p) => Some(p.clone()),
                    None => None,
                }
            },
            None => None,
        }
    }
}

/// Builds the tag table from raw rows, computing each tag's path from the root.
pub fn build_tag_cleanup_tags(raw: Vec<RawTag>) -> (t: TagTable)
    requires
        ids_unique(raw_links(raw@)),
        acyclic(raw_links(raw@)),
        raw@.len() < usize::MAX,
    ensures
        t.entries().len() == raw@.len(),
        forall|i: int| 0 <= i < raw@.len() ==> tag_from_raw(#[trigger] t.entries()[i], raw@[i], tag_path(raw@, raw@[i].id@)),
        t.links() == raw_links(raw@),
{
    let n = raw.len();
    let mut out: Vec<TagCleanupTag> = Vec::new();
    let mut i: usize = 0;
    while i < n
        invariant
            n == raw@.len(),
            n < usize::MAX,
            i <= n,
            ids_unique(raw_links(raw@)),
            acyclic(raw_links(raw@)),
            out@.len() == i,
            forall|j: int| 0 <= j < i ==> tag_from_raw(#[trigger] out@[j], raw@[j], tag_path(raw@, raw@[j].id@)),
        decreases n - i,
    {
        let r = &raw[i];
        let path = path_for(&raw, r.id.as_str(), n + 1);
        let t = TagCleanupTag {
            id: r.id.clone(),
            name: r.name.clone(),
            parent_id: match &r.parent_id {
                Some(p) => Some(p.clone()),
                None => None,
            },
            path,
            atom_count: r.atom_count,
            child_count: r.child_count,
            has_wiki: r.has_wiki,
            is_autotag_target: r.is_autotag_target,
        };
        out.push(t);
        i = i + 1;
    }
    assert(tag_links(out@) =~= raw_links(raw@)) by {
        assert forall|j: int| 0 <= j < out@.len() implies #[trigger] tag_links(out@)[j] == raw_links(raw@)[j] by {
            assert(tag_from_raw(out@[j], raw@[j], tag_path(raw@, raw@[j].id@)));
        }
    }
    TagTable { tags: out }
}

/// Whether `ancestor_id` lies on the parent chain above `child_id`.
pub fn tag_is_ancestor_of(ancestor_id: &str, child_id: &str, tags: &TagTable) -> (r: bool)
    ensures
        r == is_ancestor(tags.links(), ancestor_id@, child_id@),
{
    proof {
        use_type_invariant(tags);
    }
    let ghost links = tags.links();
    let ghost n = links.len();
    let target = chars_of(ancestor_id);
    let mut current = tags.parent_of(child_id);
    let ghost mut steps: nat = 1;
    assert(up(links, child_id@, 1) == parent_link(links, child_id@)) by {
        reveal_with_fuel(up, 2);
    }
    assert(chain_ends(links, child_id@));
    while current.is_some()
        invariant
            links == tags.links(),
            n == links.len(),
            target@ == ancestor_id@,
            acyclic(links),
            chain_ends(links, child_id@),
            1 <= steps <= n + 1,
            opt_view(current) == up(links, child_id@, steps),
            forall|j: nat| 1 <= j < steps ==> #[trigger] up(links, child_id@, j) != Some(ancestor_id@),
        decreases n + 1 - steps,
    {
        let p = match current {
            Some(p) => p,
            None => String::new(),
        };
        proof {
            if steps == n + 1 {
                assert(up(links, child_id@, steps) is None);
            }
        }
        let pc = chars_of(p.as_str());
        if chars_eq(&pc, &target) {
            assert(up(links, child_id@, steps) == Some(ancestor_id@));
            return true;
        }
        current = tags.parent_of(p.as_str());
        proof {
            assert(up(links, child_id@, steps + 1) == parent_link(links, p@));
            steps = steps + 1;
        }
    }
    proof {
        assert forall|k: nat| k >= 1 implies #[trigger] up(links, child_id@, k) != Some(ancestor_id@) by {
            if k >= steps {
                lemma_up_none_stays(links, child_id@, steps, k);
            }
        }
    }
    false
}

/// Tags are hierarchically related when they are the same tag or one is an
/// ancestor of the other.
pub open spec fn related_spec(links: Seq<Link>, a: Seq<char>, b: Seq<char>) -> bool {
    a == b || is_ancestor(links, a, b) || is_ancestor(links, b, a)
}

/// Whether two tags are the same or one is an ancestor of the other.
pub fn tags_are_hierarchically_related(a_id: &str, b_id: &str, tags: &TagTable) -> (r: bool)
    ensures
        r == related_spec(tags.links(), a_id@, b_id@),
{
    let a = chars_of(a_id);
    let b = chars_of(b_id);
    chars_eq(&a, &b) || tag_is_ancestor_of(a_id, b_id, tags) || tag_is_ancestor_of(b_id, a_id, tags)
}

/// Whether some tag an atom already carries is the suggested tag, one of its
/// ancestors or one of its descendants; such a suggestion adds nothing.
pub fn any_related_tag(current_tag_ids: &[String], tag_id: &str, tags: &TagTable) -> (r: bool)
    ensures
        r == exists|i: int|
            0 <= i < current_tag_ids@.len() && #[trigger] related_spec(
                tags.links(),
                current_tag_ids@[i]@,
                tag_id@,
            ),
{
    let mut i: usize = 0;
    while i < current_tag_ids.len()
        invariant
            0 <= i <= current_tag_ids@.len(),
            forall|j: int| 0 <= j < i ==> !#[trigger] related_spec(tags.links(), current_tag_ids@[j]@, tag_id@),
        decreases current_tag_ids@.len() - i,
    {
        if tags_are_hierarchically_related(current_tag_ids[i].as_str(), tag_id, tags) {
            return true;
        }
        i = i + 1;
    }
    false
}

/// Being hierarchically related does not depend on the order of the two tags.
pub proof fn law_hierarchically_related_symmetric(links: Seq<Link>, a: Seq<char>, b: Seq<char>)
    ensures
        related_spec(links, a, b) == related_spec(links, b, a),
{
}

/// No tag is its own ancestor when parent chains have no cycle.
pub proof fn law_no_tag_is_its_own_ancestor(links: Seq<Link>, a: Seq<char>)
    requires
        acyclic(links),
    ensures
        !is_ancestor(links, a, a),
{
    if is_ancestor(links, a, a) {
        let k = choose|k: nat| k >= 1 && #[trigger] up(links, a, k) == Some(a);
        assert(chain_ends(links, a));
        lemma_up_cycle(links, a, k, links.len() + 1);
    }
}

/// Following `j` more links after returning to the start is following `j`
/// links from the start.
proof fn lemma_up_add(links: Seq<Link>, a: Seq<char>, k: nat, j: nat)
    requires
        up(links, a, k) == Some(a),
    ensures
        up(links, a, k + j) == up(links, a, j),
    decreases j,
{
    if j > 0 {
        lemma_up_add(links, a, k, (j - 1) as nat);
    }
}

/// A chain that returns to its start never ends.
proof fn lemma_up_cycle(links: Seq<Link>, a: Seq<char>, k: nat, m: nat)
    requires
        k >= 1,
        up(links, a, k) == Some(a),
    ensures
        up(links, a, m) is Some,
    decreases m,
{
    if m >= k {
        lemma_up_cycle(links, a, k, (m - k) as nat);
        lemma_up_add(links, a, k, (m - k) as nat);
    } else {
        // Within the first round every step is defined, since the chain
        // reaches `a` again at step `k`.
        if up(links, a, m) is None {
            lemma_up_none_stays(links, a, m, k);
        }
    }
}

/// The five top-level category tags.
pub open spec fn is_category_name(name: Seq<char>) -> bool {
    ||| name == "Topics"@
    ||| name == "People"@
    ||| name == "Locations"@
    ||| name == "Organizations"@
    ||| name == "Events"@
}

/// A structural tag is a root that is an auto-tagging target or one of the
/// category tags.
pub open spec fn structural_spec(tag: TagCleanupTag) -> bool {
    tag.parent_id is None && (tag.is_autotag_target || is_category_name(tag.name@))
}

/// The names of the five category roots every knowledge base starts with.
pub open spec fn category_roots() -> Seq<Seq<char>> {
    seq!["Topics"@, "People"@, "Locations"@, "Organizations"@, "Events"@]
}

/// Structural tags are exactly the roots that are auto-tagging targets or
/// carry one of the category-root names: a root named Topics, People,
/// Locations, Organizations or Events is structural whether or not it is an
/// auto-tag target, and a tag with a parent never is.
pub proof fn law_category_roots_are_structural(tag: TagCleanupTag)
    ensures
        structural_spec(tag) <==> tag.parent_id is None && (tag.is_autotag_target || category_roots().contains(
            tag.name@,
        )),
{
    let c = category_roots();
    assert(c[0] == "Topics"@ && c[1] == "People"@ && c[2] == "Locations"@ && c[3] == "Organizations"@
        && c[4] == "Events"@);
    if is_category_name(tag.name@) {
        if tag.name@ == "Topics"@ {
            assert(c[0] == tag.name@);
        } else if tag.name@ == "People"@ {
            assert(c[1] == tag.name@);
        } else if tag.name@ == "Locations"@ {
            assert(c[2] == tag.name@);
        } else if tag.name@ == "Organizations"@ {
            assert(c[3] == tag.name@);
        } else {
            assert(c[4] == tag.name@);
        }
    }
    if c.contains(tag.name@) {
        let i = choose|i: int| 0 <= i < c.len() && c[i] == tag.name@;
        assert(is_category_name(tag.name@));
    }
}

/// Whether a tag is structural (never proposed for cleanup).
pub fn is_structural_tag(tag: &TagCleanupTag) -> (r: bool)
    ensures
        r == structural_spec(*tag),
        r <==> tag.parent_id is None && (tag.is_autotag_target || category_roots().contains(tag.name@)),
{
    proof {
        law_category_roots_are_structural(*tag);
    }
    if tag.parent_id.is_some() {
        return false;
    }
    if tag.is_autotag_target {
        return true;
    }
    let n = chars_of(tag.name.as_str());
    chars_eq_str(&n, "Topics") || chars_eq_str(&n, "People") || chars_eq_str(&n, "Locations")
        || chars_eq_str(&n, "Organizations") || chars_eq_str(&n, "Events")
}

/// How two tags sit in the hierarchy: siblings under one parent, parent and
/// child, under different roots, or otherwise unrelated.
pub open spec fn relationship_spec(a: TagCleanupTag, b: TagCleanupTag) -> Seq<char> {
    if a.parent_id is Some && opt_view(a.parent_id) == opt_view(b.parent_id) {
        "sibling"@
    } else if opt_view(a.parent_id) == Some(b.id@) || opt_view(b.parent_id) == Some(a.id@) {
        "parent_child"@
    } else if a.path@.len() > 0 && b.path@.len() > 0 && a.path@[0]@ != b.path@[0]@ {
        "cross_category"@
    } else {
        "unrelated"@
    }
}

fn opt_eq(a: &Option<String>, b: &Option<String>) -> (r: bool)
    ensures
        r == (opt_view(*a) == opt_view(*b)),
{
    match (a, b) {
        (Some(x), Some(y)) => {
            let xc = chars_of(x.as_str());
            let yc = chars_of(y.as_str());
            chars_eq(&xc, &yc)
        },
        (None, None) => true,
        _ => false,
    }
}

fn opt_is(a: &Option<String>, b: &String) -> (r: bool)
    ensures
        r == (opt_view(*a) == Some(b@)),
{
    match a {
        Some(x) => {
            let xc = chars_of(x.as_str());
            let yc = chars_of(b.as_str());
            chars_eq(&xc, &yc)
        },
        None => false,
    }
}

/// The hierarchy relationship between two tags.
pub fn hierarchy_relationship(a: &TagCleanupTag, b: &TagCleanupTag) -> (r: String)
    ensures
        r@ == relationship_spec(*a, *b),
{
    if a.parent_id.is_some() && opt_eq(&a.parent_id, &b.parent_id) {
        return String::from_str("sibling");
    }
    if opt_is(&a.parent_id, &b.id) || opt_is(&b.parent_id, &a.id) {
        return String::from_str("parent_child");
    }
    if a.path.len() > 0 && b.path.len() > 0 {
        let x = chars_of(a.path[0].as_str());
        let y = chars_of(b.path[0].as_str());
        if !chars_eq(&x, &y) {
            return String::from_str("cross_category");
        }
    }
    String::from_str("unrelated")
}

/// Whether `c` is an ASCII letter or digit.
pub open spec fn is_ascii_alnum(c: char) -> bool {
    ('0' <= c <= '9') || ('a' <= c <= 'z') || ('A' <= c <= 'Z')
}

/// A character as tag-name normalization sees it: ASCII letters and digits
/// in lower case, anything else a space.
pub open spec fn tag_name_char(c: char) -> char {
    if is_ascii_alnum(c) {
        ascii_lower(c)
    } else {
        ' '
    }
}

/// The non-empty pieces of `pieces`, joined by single spaces.
pub open spec fn join_nonempty(pieces: Seq<Seq<char>>) -> Seq<char>
    decreases pieces.len(),
{
    if pieces.len() == 0 {
        Seq::empty()
    } else {
        let before = join_nonempty(pieces.drop_last());
        let w = pieces.last();
        if w.len() == 0 {
            before
        } else if before.len() == 0 {
            w
        } else {
            before + seq![' '] + w
        }
    }
}

/// A tag name reduced to its lower-case ASCII words joined by single spaces.
pub open spec fn normalize_tag_name_spec(value: Seq<char>) -> Seq<char> {
    join_nonempty(split_seq(value.map_values(|c: char| tag_name_char(c)), ' '))
}

fn tag_name_char_exec(c: char) -> (r: char)
    ensures
        r == tag_name_char(c),
{
    if ('0' <= c && c <= '9') || ('a' <= c && c <= 'z') || ('A' <= c && c <= 'Z') {
        ascii_lower_char(c)
    } else {
        ' '
    }
}

/// Lower-cases the ASCII letters and digits of `value`, treats every other
/// character as a separator, and joins the remaining words with single spaces.
pub fn normalize_tag_name(value: &str) -> (r: String)
    ensures
        r@ == normalize_tag_name_spec(value@),
{
    let cs = chars_of(value);
    let mut mapped: Vec<char> = Vec::new();
    let mut i: usize = 0;
    while i < cs.len()
        invariant
            i <= cs.len(),
            cs@ == value@,
            mapped@ == cs@.take(i as int).map_values(|c: char| tag_name_char(c)),
        decreases cs.len() - i,
    {
        mapped.push(tag_name_char_exec(cs[i]));
        i = i + 1;
        assert(mapped@ =~= cs@.take(i as int).map_values(|c: char| tag_name_char(c)));
    }
    assert(cs@.take(cs.len() as int) == cs@);
    let pieces = split_chars(&mapped, ' ');
    let ghost ps = split_seq(mapped@, ' ');
    let mut out: Vec<char> = Vec::new();
    let mut k: usize = 0;
    while k < pieces.len()
        invariant
            k <= pieces.len(),
            pieces@.len() == ps.len(),
            forall|j: int| 0 <= j < pieces@.len() ==> #[trigger] pieces@[j]@ == ps[j],
            out@ == join_nonempty(ps.take(k as int)),
        decreases pieces.len() - k,
    {
        assert(ps.take(k + 1).drop_last() == ps.take(k as int));
        assert(ps.take(k + 1).last() == pieces@[k as int]@);
        let w = &pieces[k];
        if w.len() > 0 {
            if out.len() > 0 {
                out.push(' ');
            }
            let mut j: usize = 0;
            let ghost base = out@;
            while j < w.len()
                invariant
                    j <= w.len(),
                    out@ == base + w@.take(j as int),
                decreases w.len() - j,
            {
                out.push(w[j]);
                j = j + 1;
                assert(out@ =~= base + w@.take(j as int));
            }
            assert(w@.take(w.len() as int) == w@);
        }
        k = k + 1;
    }
    assert(ps.take(ps.len() as int) == ps);
    string_from_chars(&out)
}

} // verus!
