use crate::name::{
    content_attr_name, html_ns, opt_view, sentinel_ns, sentinel_prefix, str_is,
    text_element_name, Attribute, QualName,
};
use crate::resource::{
    add_text, find_script_link, find_style_link, resource_at, script_link, style_link,
    with_text, HtmlResource, ResourceView,
};
use std::collections::HashMap;
use vstd::prelude::*;
use vstd::string::*;

verus! {

/// An element of the document: its name, its attributes in source order,
/// the ids of its children in order, and the id of its parent (0 for none).
pub struct HtmlElement {
    pub element_type: QualName,
    pub attributes: Vec<Attribute>,
    pub children: Vec<usize>,
    pub parent: usize,
}

/// The id of the document itself, which is never an element.
pub const DOCUMENT: usize = 0;

/// Builds the document tree from the tree-construction events of an HTML
/// parser, and records the styles and scripts it meets on the way.
pub struct Sink {
    pub next_id: usize,
    pub elements: HashMap<usize, HtmlElement>,
    pub styles: HashMap<usize, HtmlResource>,
    pub scripts: HashMap<usize, HtmlResource>,
    /// The depth of each element: 0 for a root, one more than its parent's
    /// otherwise. It shows that no element is its own ancestor.
    pub depth: Ghost<Map<usize, nat>>,
    /// How many elements the parser created.
    pub tags: Ghost<nat>,
    /// How many elements were made up for runs of text.
    pub texts: Ghost<nat>,
}

/// Whether a run of text holds anything but spaces, newlines and tabs.
pub open spec fn has_content(t: Seq<char>) -> bool {
    exists|i: int| 0 <= i < t.len() && t[i] != ' ' && t[i] != '\n' && t[i] != '\t'
}

/// Whether text `t` arriving under an element named `local` makes a new
/// text element: it is not inside a `style` or `script`, and it holds more
/// than spaces, newlines and tabs.
pub open spec fn needs_text_element(local: Seq<char>, t: Seq<char>) -> bool {
    local != "style"@ && local != "script"@ && has_content(t)
}

/// Whether `e` is the element that the builder makes for the text `t`.
pub open spec fn is_text_element(e: HtmlElement, t: Seq<char>) -> bool {
    &&& opt_view(e.element_type.prefix) == Some(sentinel_prefix())
    &&& e.element_type.ns@ == sentinel_ns()
    &&& e.element_type.local@ == "text"@
    &&& e.attributes@.len() == 1
    &&& opt_view(e.attributes@[0].name.prefix) == Some(sentinel_prefix())
    &&& e.attributes@[0].name.ns@ == sentinel_ns()
    &&& e.attributes@[0].name.local@ == "content"@
    &&& e.attributes@[0].value@ == t
    &&& e.children@.len() == 0
}

/// Whether `new` is `old` with `child` appended under `parent`: the child's
/// parent is set, the child is added last to the parent's children, and
/// nothing else changes.
pub open spec fn appended(
    old: Map<usize, HtmlElement>,
    new: Map<usize, HtmlElement>,
    parent: usize,
    child: usize,
) -> bool {
    &&& new.dom() == old.dom()
    &&& forall|k: usize| #![trigger new[k]]
        old.contains_key(k) && k != parent && k != child ==> new[k] == old[k]
    &&& new[child].element_type == old[child].element_type
    &&& new[child].attributes == old[child].attributes
    &&& new[child].parent == parent
    &&& child != parent ==> new[child].children@ == old[child].children@
    &&& new[parent].element_type == old[parent].element_type
    &&& new[parent].attributes == old[parent].attributes
    &&& new[parent].children@ == old[parent].children@.push(child)
    &&& child != parent ==> new[parent].parent == old[parent].parent
}

/// Whether appending `child` under `parent` keeps a tree: `parent` is not
/// the document, `child` has no parent yet, and `child` is neither `parent`
/// nor any ancestor of it.
pub open spec fn can_append(m: Map<usize, HtmlElement>, parent: usize, child: usize) -> bool {
    &&& parent != 0
    &&& m[child].parent == 0
    &&& forall|n: nat| #[trigger] nth_parent(m, parent, n) != child
}

/// Whether `k` lies in the subtree of `c`, read off the depths: the
/// ancestor of `k` at the depth of `c` is `c`.
pub open spec fn in_subtree(m: Map<usize, HtmlElement>, depth: Map<usize, nat>, k: usize, c: usize) -> bool {
    depth[k] >= depth[c] && nth_parent(m, k, (depth[k] - depth[c]) as nat) == c
}

/// One step up, then `n`: the `n + 1`-th ancestor of `k` is the `n`-th
/// ancestor of its parent.
proof fn lemma_nth_parent_step(m: Map<usize, HtmlElement>, k: usize, n: nat)
    requires
        m.contains_key(k),
    ensures
        nth_parent(m, k, n + 1) == nth_parent(m, m[k].parent, n),
    decreases n,
{
    assert(nth_parent(m, k, 0) == k);
    if n > 0 {
        lemma_nth_parent_step(m, k, (n - 1) as nat);
        let a = nth_parent(m, k, n);
        let b = nth_parent(m, m[k].parent, (n - 1) as nat);
        assert(nth_parent(m, k, n + 1) == if m.contains_key(a) { m[a].parent } else { 0 });
        assert(nth_parent(m, m[k].parent, n) == if m.contains_key(b) { m[b].parent } else { 0 });
    }
}

/// Once the chain of ancestors reaches the document it stays there.
proof fn lemma_nth_parent_stays_zero(m: Map<usize, HtmlElement>, k: usize, n: nat, j: nat)
    requires
        !m.contains_key(0),
        nth_parent(m, k, n) == 0,
    ensures
        nth_parent(m, k, n + j) == 0,
    decreases j,
{
    if j > 0 {
        lemma_nth_parent_stays_zero(m, k, n, (j - 1) as nat);
        assert(nth_parent(m, k, n + j) == if m.contains_key(nth_parent(m, k, (n + j - 1) as nat)) {
            m[nth_parent(m, k, (n + j - 1) as nat)].parent
        } else {
            0
        });
    }
}

/// Whether `n` names a `template` of the HTML namespace.
pub open spec fn is_template_name(n: QualName) -> bool {
    n.ns@ == html_ns() && n.local@ == "template"@
}

/// Whether a run of text holds anything but spaces, newlines and tabs.
pub fn has_text_content(t: &String) -> (r: bool)
    ensures
        r == has_content(t@),
{
    let s = t.as_str();
    let n = s.unicode_len();
    let mut i: usize = 0;
    while i < n
        invariant
            n == t@.len(),
            s@ == t@,
            i <= n,
            forall|j: int| 0 <= j < i ==> t@[j] == ' ' || t@[j] == '\n' || t@[j] == '\t',
        decreases n - i,
    {
        let c = s.get_char(i);
        if c != ' ' && c != '\n' && c != '\t' {
            return true;
        }
        i = i + 1;
    }
    false
}

/// Whether the elements form a tree built by appending alone: the document
/// (id 0) is no element, every child is an element, no list of children
/// holds an id twice, and `c` is among the children of `p` exactly when the
/// parent of `c` is `p`. So every element but the roots has exactly one
/// parent, and appears exactly once among that parent's children.
pub open spec fn strict_tree(m: Map<usize, HtmlElement>) -> bool {
    &&& !m.contains_key(0)
    &&& forall|c: usize| #[trigger] m.contains_key(c) ==> m[c].parent == 0 || m.contains_key(m[c].parent)
    &&& forall|p: usize, i: int| #[trigger] m.contains_key(p) && 0 <= i < m[p].children@.len()
        ==> m.contains_key(#[trigger] m[p].children@[i])
    &&& forall|p: usize| #[trigger] m.contains_key(p) ==> m[p].children@.no_duplicates()
    &&& forall|p: usize, c: usize| #[trigger] m.contains_key(p) && #[trigger] m.contains_key(c)
        ==> (m[p].children@.contains(c) <==> m[c].parent == p)
}

/// Creating an element adds exactly one node, and a new element without
/// parent or children keeps the tree strict.
pub proof fn lemma_create_counts_one(
    old: Map<usize, HtmlElement>,
    id: usize,
    e: HtmlElement,
)
    requires
        old.dom().finite(),
        id != 0,
        !old.contains_key(id),
        e.children@.len() == 0,
        e.parent == 0,
    ensures
        old.insert(id, e).dom().len() == old.dom().len() + 1,
        strict_tree(old) ==> strict_tree(old.insert(id, e)),
{
    let new = old.insert(id, e);
    if strict_tree(old) {
        assert forall|p: usize, c: usize| #[trigger] new.contains_key(p) && #[trigger] new.contains_key(c)
            implies (new[p].children@.contains(c) <==> new[c].parent == p) by {
            if p != id && c == id {
                if new[p].children@.contains(c) {
                    let i = choose|i: int| 0 <= i < new[p].children@.len() && new[p].children@[i] == c;
                    assert(old.contains_key(old[p].children@[i]));
                }
            }
        }
        assert forall|p: usize, i: int| #[trigger] new.contains_key(p) && 0 <= i < new[p].children@.len()
            implies new.contains_key(#[trigger] new[p].children@[i]) by {
            if p != id {
                assert(old.contains_key(old[p].children@[i]));
            }
        }
    }
}

/// Appending an element that has no parent under another element keeps the
/// tree strict and the number of nodes unchanged.
pub proof fn lemma_append_keeps_tree(
    old: Map<usize, HtmlElement>,
    new: Map<usize, HtmlElement>,
    parent: usize,
    child: usize,
)
    requires
        strict_tree(old),
        old.contains_key(parent),
        old.contains_key(child),
        child != parent,
        old[child].parent == 0,
        appended(old, new, parent, child),
    ensures
        strict_tree(new),
        new.dom() == old.dom(),
{
    assert(!old[parent].children@.contains(child));
    assert forall|p: usize, i: int| #[trigger] new.contains_key(p) && 0 <= i < new[p].children@.len()
        implies new.contains_key(#[trigger] new[p].children@[i]) by {
        if p == parent && i == old[p].children@.len() {
        } else {
            assert(new[p].children@[i] == old[p].children@[i]);
        }
    }
    assert forall|p: usize| #[trigger] new.contains_key(p) implies new[p].children@.no_duplicates() by {
        if p == parent {
            assert forall|i: int, j: int| 0 <= i < j < new[p].children@.len()
                implies new[p].children@[i] != new[p].children@[j] by {
                if j == old[p].children@.len() {
                    assert(old[p].children@[i] == new[p].children@[i]);
                }
            }
        }
    }
    assert forall|p: usize, c: usize| #[trigger] new.contains_key(p) && #[trigger] new.contains_key(c)
        implies (new[p].children@.contains(c) <==> new[c].parent == p) by {
        if p == parent {
            if new[p].children@.contains(c) && c != child {
                let i = choose|i: int| 0 <= i < new[p].children@.len() && new[p].children@[i] == c;
                assert(old[p].children@[i] == c);
            }
            if c != child && old[p].children@.contains(c) {
                let i = choose|i: int| 0 <= i < old[p].children@.len() && old[p].children@[i] == c;
                assert(new[p].children@[i] == c);
            }
            if c == child {
                assert(new[p].children@[old[p].children@.len() as int] == c);
            }
        }
    }
}

impl Sink {
    /// The builder's invariant without the count of elements: ids are odd
    /// and below the next one, the elements form a strict tree in which each
    /// element lies one deeper than its parent, and styles and scripts are recorded for
    /// elements only.
    pub open spec fn tree_wf(&self) -> bool {
        &&& self.next_id % 2 == 1
        &&& forall|k: usize| #[trigger] self.elements@.contains_key(k) ==> k % 2 == 1
            && k < self.next_id
        &&& strict_tree(self.elements@)
        &&& forall|k: usize| #[trigger] self.depth@.contains_key(k)
        &&& forall|k: usize| #[trigger] self.elements@.contains_key(k) ==> if self.elements@[k].parent == 0 {
            self.depth@[k] == 0
        } else {
            self.depth@[k] == self.depth@[self.elements@[k].parent] + 1
        }
        &&& forall|k: usize| #[trigger] self.styles@.contains_key(k) ==> self.elements@.contains_key(k)
        &&& forall|k: usize| #[trigger] self.scripts@.contains_key(k) ==> self.elements@.contains_key(k)
        &&& self.elements@.dom().finite()
    }

    /// The builder's invariant: [`Sink::tree_wf`], and there are exactly as
    /// many elements as the parser created plus those made up for text.
    pub open spec fn wf(&self) -> bool {
        &&& self.tree_wf()
        &&& self.elements@.dom().len() == self.tags@ + self.texts@
    }

    /// Whether one more id can be handed out.
    pub open spec fn has_room(&self) -> bool {
        self.next_id + 2 <= usize::MAX
    }

    /// An empty document.
    pub fn new() -> (r: Sink)
        ensures
            r.wf(),
            r.next_id == 1,
            r.elements@ == Map::<usize, HtmlElement>::empty(),
            r.styles@ == Map::<usize, HtmlResource>::empty(),
            r.scripts@ == Map::<usize, HtmlResource>::empty(),
    {
        Sink {
            next_id: 1,
            elements: HashMap::new(),
            styles: HashMap::new(),
            scripts: HashMap::new(),
            depth: Ghost(Map::new(|k: usize| true, |k: usize| 0nat)),
            tags: Ghost(0),
            texts: Ghost(0),
        }
    }

    /// Hands out a fresh id; ids step by two, so that `id + 1` stays free.
    pub fn get_id(&mut self) -> (r: usize)
        requires
            old(self).has_room(),
        ensures
            r == old(self).next_id,
            final(self).next_id == old(self).next_id + 2,
            final(self).elements == old(self).elements,
            final(self).styles == old(self).styles,
            final(self).scripts == old(self).scripts,
            final(self).depth == old(self).depth,
            final(self).tags == old(self).tags,
            final(self).texts == old(self).texts,
    {
        let id = self.next_id;
        self.next_id = self.next_id + 2;
        id
    }

    /// Adds an element, as `create_element` does, without counting it.
    fn add_element(&mut self, name: QualName, attrs: Vec<Attribute>) -> (r: usize)
        requires
            old(self).wf(),
            old(self).has_room(),
        ensures
            final(self).tree_wf(),
            final(self).elements@.dom().len() == old(self).elements@.dom().len() + 1,
            final(self).tags == old(self).tags,
            final(self).texts == old(self).texts,
            r == old(self).next_id,
            !old(self).styles@.contains_key(r),
            !old(self).scripts@.contains_key(r),
            final(self).next_id == old(self).next_id + 2,
            !old(self).elements@.contains_key(r),
            final(self).elements@ == old(self).elements@.insert(r, final(self).elements@[r]),
            final(self).elements@[r].element_type == name,
            final(self).elements@[r].attributes == attrs,
            final(self).elements@[r].children@.len() == 0,
            final(self).elements@[r].parent == 0,
            match style_link(name.local@, attrs@) {
                Some(u) => final(self).styles@ == old(self).styles@.insert(r, final(self).styles@[r])
                    && final(self).styles@[r]@ == ResourceView::Linked(u),
                None => final(self).styles@ == old(self).styles@,
            },
            match script_link(name.local@, attrs@) {
                Some(u) => final(self).scripts@ == old(self).scripts@.insert(r, final(self).scripts@[r])
                    && final(self).scripts@[r]@ == ResourceView::Linked(u),
                None => final(self).scripts@ == old(self).scripts@,
            },
    {
        broadcast use vstd::std_specs::hash::group_hash_axioms;
        let id = self.get_id();
        match find_style_link(&name.local, &attrs) {
            Some(u) => {
                self.styles.insert(id, HtmlResource::Linked(u));
            },
            None => {},
        }
        match find_script_link(&name.local, &attrs) {
            Some(u) => {
                self.scripts.insert(id, HtmlResource::Linked(u));
            },
            None => {},
        }
        self.elements.insert(
            id,
            HtmlElement { element_type: name, attributes: attrs, children: Vec::new(), parent: 0 },
        );
        let ghost e = self.elements@[id];
        assert(self.elements@ =~= old(self).elements@.insert(id, e));
        self.depth = Ghost(self.depth@.insert(id, 0));
        proof {
            lemma_create_counts_one(old(self).elements@, id, e);
        }
        id
    }

    /// Creates an element, records the stylesheet or script it links, and
    /// returns its id. The element has no children and no parent yet.
    pub fn create_element(&mut self, name: QualName, attrs: Vec<Attribute>) -> (r: usize)
        requires
            old(self).wf(),
            old(self).has_room(),
        ensures
            final(self).wf(),
            final(self).tags@ == old(self).tags@ + 1,
            final(self).texts == old(self).texts,
            r == old(self).next_id,
            final(self).next_id == old(self).next_id + 2,
            !old(self).elements@.contains_key(r),
            !old(self).styles@.contains_key(r),
            !old(self).scripts@.contains_key(r),
            final(self).elements@ == old(self).elements@.insert(r, final(self).elements@[r]),
            final(self).elements@[r].element_type == name,
            final(self).elements@[r].attributes == attrs,
            final(self).elements@[r].children@.len() == 0,
            final(self).elements@[r].parent == 0,
            match style_link(name.local@, attrs@) {
                Some(u) => final(self).styles@ == old(self).styles@.insert(r, final(self).styles@[r])
                    && final(self).styles@[r]@ == ResourceView::Linked(u),
                None => final(self).styles@ == old(self).styles@,
            },
            match script_link(name.local@, attrs@) {
                Some(u) => final(self).scripts@ == old(self).scripts@.insert(r, final(self).scripts@[r])
                    && final(self).scripts@[r]@ == ResourceView::Linked(u),
                None => final(self).scripts@ == old(self).scripts@,
            },
    {
        let id = self.add_element(name, attrs);
        self.tags = Ghost(self.tags@ + 1);
        id
    }

    /// Appends the element `child` as the last child of `parent`. A child of
    /// the document itself is left unlinked, and `child` keeps its own
    /// children. An append that would move an element that already has a
    /// parent, or put an element under itself or under one of its own
    /// descendants, is left out: like the other relocations of the parser,
    /// the builder omits it, and the tree stays a tree.
    pub fn append_node(&mut self, parent: usize, child: usize)
        requires
            old(self).wf(),
            parent != 0 ==> old(self).elements@.contains_key(parent) && old(self).elements@.contains_key(child),
        ensures
            final(self).wf(),
            final(self).next_id == old(self).next_id,
            final(self).styles == old(self).styles,
            final(self).scripts == old(self).scripts,
            final(self).tags == old(self).tags,
            final(self).texts == old(self).texts,
            can_append(old(self).elements@, parent, child)
                ==> appended(old(self).elements@, final(self).elements@, parent, child),
            !can_append(old(self).elements@, parent, child)
                ==> final(self).elements == old(self).elements,
    {
        broadcast use vstd::std_specs::hash::group_hash_axioms;
        if parent == 0 || child == parent {
            assert(nth_parent(self.elements@, parent, 0) == parent);
            return;
        }
        let unparented = self.elements.get(&child).unwrap().parent == 0;
        if !unparented {
            return;
        }
        let ghost m0 = self.elements@;
        let ghost d = self.depth@;
        // walk up from `parent`: `child` must not be met on the way
        let mut x: usize = parent;
        let ghost mut i: nat = 0;
        while x != 0
            invariant
                self.wf(),
                self.elements@ == m0,
                self.depth@ == d,
                child != 0,
                x == nth_parent(m0, parent, i),
                x == 0 || m0.contains_key(x),
                forall|j: nat| j < i ==> #[trigger] nth_parent(m0, parent, j) != child,
            decreases if x == 0 { 0 } else { d[x] + 1 },
        {
            if x == child {
                assert(!can_append(m0, parent, child));
                return;
            }
            let up = self.elements.get(&x).unwrap().parent;
            proof {
                assert(up != 0 ==> m0.contains_key(up) && d[x] == d[up] + 1);
                assert(nth_parent(m0, parent, i + 1) == up);
                i = i + 1;
            }
            x = up;
        }
        proof {
            assert forall|n: nat| #[trigger] nth_parent(m0, parent, n) != child by {
                if n >= i {
                    lemma_nth_parent_stays_zero(m0, parent, i, (n - i) as nat);
                    assert(nth_parent(m0, parent, (i + (n - i)) as nat) == 0);
                }
            }
        }
        let mut c = self.elements.remove(&child).unwrap();
        c.parent = parent;
        self.elements.insert(child, c);
        let ghost m1 = self.elements@;
        let mut p = self.elements.remove(&parent).unwrap();
        p.children.push(child);
        self.elements.insert(parent, p);
        let ghost m2 = self.elements@;
        let ghost shift = d[parent] + 1;
        self.depth = Ghost(Map::new(
            |k: usize| true,
            |k: usize| if in_subtree(m0, d, k, child) { d[k] + shift } else { d[k] },
        ));
        proof {
            assert(m2.dom() =~= m0.dom());
            assert forall|k: usize| #![trigger m2[k]]
                m0.contains_key(k) && k != parent && k != child implies m2[k] == m0[k] by {
                assert(m1[k] == m0[k]);
            }
            assert(appended(m0, m2, parent, child));
            lemma_append_keeps_tree(m0, m2, parent, child);
            assert(!in_subtree(m0, d, parent, child)) by {
                assert(nth_parent(m0, parent, (d[parent] - d[child]) as nat) != child);
            }
            assert(in_subtree(m0, d, child, child));
            let nd = self.depth@;
            assert forall|k: usize| #[trigger] m2.contains_key(k) implies if m2[k].parent == 0 {
                nd[k] == 0
            } else {
                nd[k] == nd[m2[k].parent] + 1
            } by {
                if k != child {
                    let q = m0[k].parent;
                    assert(m2[k].parent == q);
                    assert(nth_parent(m0, k, 0) == k);
                    if q == 0 {
                        assert(!in_subtree(m0, d, k, child));
                    } else {
                        assert(d[k] == d[q] + 1);
                        if in_subtree(m0, d, k, child) {
                            let dd = (d[k] - d[child]) as nat;
                            assert(dd >= 1);
                            lemma_nth_parent_step(m0, k, (dd - 1) as nat);
                            assert(in_subtree(m0, d, q, child));
                        }
                        if in_subtree(m0, d, q, child) {
                            let dq = (d[q] - d[child]) as nat;
                            lemma_nth_parent_step(m0, k, dq);
                            assert(in_subtree(m0, d, k, child));
                        }
                    }
                }
            }
        }
    }

    /// Appends a run of text under `parent`. Under a `style` or `script`
    /// it becomes (part of) that element's inline source, unless the element
    /// links its resource; elsewhere, text that is not all spaces, newlines
    /// and tabs becomes a new text element, appended as the last child.
    pub fn append_text(&mut self, parent: usize, text: String)
        requires
            old(self).wf(),
            old(self).elements@.contains_key(parent),
            needs_text_element(old(self).elements@[parent].element_type.local@, text@)
                ==> old(self).has_room(),
        ensures
            final(self).wf(),
            final(self).tags == old(self).tags,
            needs_text_element(old(self).elements@[parent].element_type.local@, text@)
                ==> final(self).texts@ == old(self).texts@ + 1,
            !needs_text_element(old(self).elements@[parent].element_type.local@, text@)
                ==> final(self).texts == old(self).texts && final(self).depth == old(self).depth,
            ({
                let local = old(self).elements@[parent].element_type.local@;
                let id = old(self).next_id;
                if local == "style"@ {
                    &&& final(self).elements == old(self).elements
                    &&& final(self).next_id == old(self).next_id
                    &&& final(self).scripts == old(self).scripts
                    &&& final(self).styles@ == old(self).styles@.insert(parent, final(self).styles@[parent])
                    &&& final(self).styles@[parent]@ == with_text(resource_at(old(self).styles@, parent), text@)
                } else if local == "script"@ {
                    &&& final(self).elements == old(self).elements
                    &&& final(self).next_id == old(self).next_id
                    &&& final(self).styles == old(self).styles
                    &&& final(self).scripts@ == old(self).scripts@.insert(parent, final(self).scripts@[parent])
                    &&& final(self).scripts@[parent]@ == with_text(resource_at(old(self).scripts@, parent), text@)
                } else if has_content(text@) {
                    &&& final(self).next_id == old(self).next_id + 2
                    &&& final(self).styles@ == old(self).styles@
                    &&& final(self).scripts@ == old(self).scripts@
                    &&& !old(self).elements@.contains_key(id)
                    &&& final(self).elements@.dom() == old(self).elements@.dom().insert(id)
                    &&& appended(old(self).elements@.insert(id, final(self).elements@[id]), final(self).elements@, parent, id)
                    &&& is_text_element(final(self).elements@[id], text@)
                    &&& final(self).elements@[id].parent == parent
                } else {
                    &&& final(self).elements == old(self).elements
                    &&& final(self).next_id == old(self).next_id
                    &&& final(self).styles == old(self).styles
                    &&& final(self).scripts == old(self).scripts
                }
            }),
    {
        broadcast use vstd::std_specs::hash::group_hash_axioms;
        let (is_style, is_script) = {
            let local = &self.elements.get(&parent).unwrap().element_type.local;
            (str_is(local, "style"), str_is(local, "script"))
        };
        if is_style {
            add_text(&mut self.styles, parent, &text);
        } else if is_script {
            add_text(&mut self.scripts, parent, &text);
        } else if has_text_content(&text) {
            let name = text_element_name();
            proof {
                reveal_strlit("text");
                reveal_strlit("style");
                reveal_strlit("link");
                reveal_strlit("script");
                assert(name.local@[0] != "style"@[0]);
                assert(name.local@[0] != "link"@[0]);
                assert(name.local@[0] != "script"@[0]);
            }
            let attr = Attribute { name: content_attr_name(), value: text };
            let node = self.add_element(name, vec![attr]);
            self.texts = Ghost(self.texts@ + 1);
            let ghost mid = self.elements@;
            self.append_node(parent, node);
            proof {
                let m = old(self).elements@.insert(node, self.elements@[node]);
                assert(m.dom() =~= mid.dom());
                assert forall|k: usize| #![trigger self.elements@[k]]
                    m.contains_key(k) && k != parent && k != node implies self.elements@[k] == m[k] by {
                    assert(mid[k] == m[k]);
                }
                assert(appended(m, self.elements@, parent, node));
                assert(self.elements@.dom() =~= old(self).elements@.dom().insert(node));
                assert(is_text_element(self.elements@[node], text@));
            }
        }
    }

    /// Hands out an id for a comment; comments are not kept.
    pub fn create_comment(&mut self) -> (r: usize)
        requires
            old(self).wf(),
            old(self).has_room(),
        ensures
            final(self).wf(),
            r == old(self).next_id,
            final(self).next_id == old(self).next_id + 2,
            final(self).elements == old(self).elements,
            final(self).styles == old(self).styles,
            final(self).scripts == old(self).scripts,
    {
        self.get_id()
    }

    /// The document's own id.
    pub fn get_document(&self) -> (r: usize)
        ensures
            r == DOCUMENT,
    {
        DOCUMENT
    }

    /// Whether `id` names an element.
    pub fn contains(&self, id: usize) -> (r: bool)
        ensures
            r == self.elements@.contains_key(id),
    {
        broadcast use vstd::std_specs::hash::group_hash_axioms;
        self.elements.contains_key(&id)
    }

    /// The name of the element `target`.
    pub fn elem_name(&self, target: usize) -> (r: &QualName)
        requires
            self.elements@.contains_key(target),
        ensures
            *r == self.elements@[target].element_type,
    {
        broadcast use vstd::std_specs::hash::group_hash_axioms;
        &self.elements.get(&target).unwrap().element_type
    }

    /// Whether `target` is a `template` element of the HTML namespace.
    pub fn is_template(&self, target: usize) -> (r: bool)
        ensures
            r == (self.elements@.contains_key(target)
                && is_template_name(self.elements@[target].element_type)),
    {
        broadcast use vstd::std_specs::hash::group_hash_axioms;
        match self.elements.get(&target) {
            Some(e) => str_is(&e.element_type.ns, "http://www.w3.org/1999/xhtml")
                && str_is(&e.element_type.local, "template"),
            None => false,
        }
    }

    /// The handle of a template's contents: the id just after the template's.
    pub fn get_template_contents(&self, target: usize) -> (r: usize)
        requires
            self.wf(),
            self.elements@.contains_key(target),
            is_template_name(self.elements@[target].element_type),
        ensures
            r == target + 1,
            !self.elements@.contains_key(r),
    {
        target + 1
    }

    /// Whether two handles name the same node.
    pub fn same_node(&self, x: usize, y: usize) -> (r: bool)
        ensures
            r == (x == y),
    {
        x == y
    }

    /// The stylesheet recorded for `id`, if any.
    pub fn style(&self, id: usize) -> (r: Option<&HtmlResource>)
        ensures
            match r {
                Some(v) => resource_at(self.styles@, id) == Some(v@),
                None => resource_at(self.styles@, id).is_none(),
            },
    {
        broadcast use vstd::std_specs::hash::group_hash_axioms;
        self.styles.get(&id)
    }

    /// The script recorded for `id`, if any.
    pub fn script(&self, id: usize) -> (r: Option<&HtmlResource>)
        ensures
            match r {
                Some(v) => resource_at(self.scripts@, id) == Some(v@),
                None => resource_at(self.scripts@, id).is_none(),
            },
    {
        broadcast use vstd::std_specs::hash::group_hash_axioms;
        self.scripts.get(&id)
    }

    /// The element `id`, if there is one.
    pub fn element(&self, id: usize) -> (r: Option<&HtmlElement>)
        ensures
            match r {
                Some(e) => self.elements@.contains_key(id) && *e == self.elements@[id],
                None => !self.elements@.contains_key(id),
            },
    {
        broadcast use vstd::std_specs::hash::group_hash_axioms;
        self.elements.get(&id)
    }
}

/// The `n`-th ancestor of `k` (0 once the chain leaves the elements).
pub open spec fn nth_parent(m: Map<usize, HtmlElement>, k: usize, n: nat) -> usize
    decreases n,
{
    if n == 0 {
        k
    } else {
        let q = nth_parent(m, k, (n - 1) as nat);
        if m.contains_key(q) {
            m[q].parent
        } else {
            0
        }
    }
}

proof fn lemma_ancestor_depth(s: Sink, k: usize, n: nat)
    requires
        s.wf(),
        s.elements@.contains_key(k),
        n >= 1,
    ensures
        nth_parent(s.elements@, k, n) == 0 || (s.elements@.contains_key(nth_parent(s.elements@, k, n))
            && s.depth@[nth_parent(s.elements@, k, n)] < s.depth@[k]),
    decreases n,
{
    let m = s.elements@;
    let prev = nth_parent(m, k, (n - 1) as nat);
    if n > 1 {
        lemma_ancestor_depth(s, k, (n - 1) as nat);
    } else {
        assert(prev == k);
    }
    assert(nth_parent(m, k, n) == if m.contains_key(prev) { m[prev].parent } else { 0 });
    if m.contains_key(prev) && m[prev].parent != 0 {
        assert(m.contains_key(m[prev].parent));
        assert(s.depth@[prev] == s.depth@[m[prev].parent] + 1);
    }
}

/// The shape of every document the builder holds: there are exactly as many
/// elements as the parser created plus those made up for text; every
/// element but the roots has exactly one parent and appears exactly once
/// among that parent's children; and no element is its own ancestor.
pub proof fn lemma_tree_shape(s: Sink)
    requires
        s.wf(),
    ensures
        s.elements@.dom().len() == s.tags@ + s.texts@,
        strict_tree(s.elements@),
        forall|k: usize, n: nat| #[trigger] s.elements@.contains_key(k) && n >= 1
            ==> #[trigger] nth_parent(s.elements@, k, n) != k,
{
    assert forall|k: usize, n: nat| #[trigger] s.elements@.contains_key(k) && n >= 1
        implies #[trigger] nth_parent(s.elements@, k, n) != k by {
        lemma_ancestor_depth(s, k, n);
    }
}

} // verus!
