use crate::name::{content_lookup, find_content, sentinel_ns, str_is};
use crate::sink::{HtmlElement, Sink};
use vstd::prelude::*;

verus! {

/// What kind of widget an element becomes: a generic block, or a text label.
#[derive(Debug, PartialEq, Eq)]
pub enum HtmlNodeType {
    Generic,
    Text(String),
}

/// The mathematical value of an [`HtmlNodeType`].
pub enum NodeKind {
    Generic,
    Text(Seq<char>),
}

impl HtmlNodeType {
    pub open spec fn view(&self) -> NodeKind {
        match self {
            HtmlNodeType::Generic => NodeKind::Generic,
            HtmlNodeType::Text(s) => NodeKind::Text(s@),
        }
    }
}

/// The widget kind of an element: a builder text element gives a label with
/// the value of its first `growser:content` attribute (empty if it has
/// none); anything else is generic.
pub open spec fn kind_of(e: HtmlElement) -> NodeKind {
    if e.element_type.ns@ == sentinel_ns() && e.element_type.local@ == "text"@ {
        match content_lookup(e.attributes@) {
            Some(v) => NodeKind::Text(v),
            None => NodeKind::Text(Seq::empty()),
        }
    } else {
        NodeKind::Generic
    }
}

/// The kinds of the elements of `m` with an id below `n`, in id order.
pub open spec fn mapped(m: Map<usize, HtmlElement>, n: nat) -> Seq<(usize, NodeKind)>
    decreases n,
{
    if n == 0 {
        Seq::empty()
    } else {
        let prev = mapped(m, (n - 1) as nat);
        let id = (n - 1) as usize;
        if m.contains_key(id) {
            prev.push((id, kind_of(m[id])))
        } else {
            prev
        }
    }
}

/// The elements below id `n` that have no parent, each as `(0, id)`, in id order.
pub open spec fn roots(m: Map<usize, HtmlElement>, n: nat) -> Seq<(usize, usize)>
    decreases n,
{
    if n == 0 {
        Seq::empty()
    } else {
        let prev = roots(m, (n - 1) as nat);
        let id = (n - 1) as usize;
        if m.contains_key(id) && m[id].parent == 0 {
            prev.push((0usize, id))
        } else {
            prev
        }
    }
}

/// Each `(parent, child)` link of the elements below id `n`: parents in id
/// order, each parent's children in their order.
pub open spec fn links(m: Map<usize, HtmlElement>, n: nat) -> Seq<(usize, usize)>
    decreases n,
{
    if n == 0 {
        Seq::empty()
    } else {
        let prev = links(m, (n - 1) as nat);
        let id = (n - 1) as usize;
        if m.contains_key(id) {
            prev + m[id].children@.map_values(|c: usize| (id, c))
        } else {
            prev
        }
    }
}

/// The kinds of a list of classified nodes.
pub open spec fn kinds_view(v: Seq<(usize, HtmlNodeType)>) -> Seq<(usize, NodeKind)> {
    v.map_values(|p: (usize, HtmlNodeType)| (p.0, p.1@))
}

/// Mapping is a function of the elements alone: two results of
/// [`Sink::map_nodes`] on the same store classify every node alike.
pub proof fn lemma_mapping_deterministic(
    s: Sink,
    r1: Seq<(usize, HtmlNodeType)>,
    r2: Seq<(usize, HtmlNodeType)>,
)
    requires
        kinds_view(r1) == mapped(s.elements@, s.next_id as nat),
        kinds_view(r2) == mapped(s.elements@, s.next_id as nat),
    ensures
        kinds_view(r1) == kinds_view(r2),
        r1.len() == r2.len(),
        forall|i: int| 0 <= i < r1.len() ==> r1[i].0 == r2[i].0 && (#[trigger] r1[i]).1@ == r2[i].1@,
{
    assert(kinds_view(r1).len() == r1.len());
    assert(kinds_view(r2).len() == r2.len());
    assert forall|i: int| 0 <= i < r1.len() implies r1[i].0 == r2[i].0 && (#[trigger] r1[i]).1@ == r2[i].1@ by {
        assert(kinds_view(r1)[i] == (r1[i].0, r1[i].1@));
        assert(kinds_view(r2)[i] == (r2[i].0, r2[i].1@));
    }
}

/// An element whose name lies outside the builder's namespace is generic,
/// whatever its attributes.
pub proof fn lemma_foreign_is_generic(e: HtmlElement)
    requires
        e.element_type.ns@ != sentinel_ns(),
    ensures
        kind_of(e) == NodeKind::Generic,
{
}

/// The widget kind of one element.
pub fn node_type_of(e: &HtmlElement) -> (r: HtmlNodeType)
    ensures
        r@ == kind_of(*e),
{
    if str_is(&e.element_type.ns, "https://hugo4it.com/growser/2022") && str_is(
        &e.element_type.local,
        "text",
    ) {
        match find_content(&e.attributes) {
            Some(v) => HtmlNodeType::Text(v),
            None => HtmlNodeType::Text(String::new()),
        }
    } else {
        HtmlNodeType::Generic
    }
}

impl Sink {
    /// Classifies every element, in id order (the order of creation).
    pub fn map_nodes(&self) -> (r: Vec<(usize, HtmlNodeType)>)
        ensures
            kinds_view(r@) == mapped(self.elements@, self.next_id as nat),
    {
        broadcast use vstd::std_specs::hash::group_hash_axioms;
        let mut out: Vec<(usize, HtmlNodeType)> = Vec::new();
        let mut id: usize = 0;
        while id < self.next_id
            invariant
                id <= self.next_id,
                kinds_view(out@) == mapped(self.elements@, id as nat),
            decreases self.next_id - id,
        {
            match self.elements.get(&id) {
                Some(e) => {
                    let k = node_type_of(e);
                    let ghost before = out@;
                    out.push((id, k));
                    assert(kinds_view(out@) =~= kinds_view(before).push((id, kind_of(*e))));
                },
                None => {},
            }
            id = id + 1;
        }
        out
    }

    /// The order in which widgets are attached: first each element without
    /// a parent, to the root (as `(0, id)`), then each element's children
    /// to it, parents in id order and children in their order.
    pub fn attach_plan(&self) -> (r: Vec<(usize, usize)>)
        ensures
            r@ == roots(self.elements@, self.next_id as nat) + links(
                self.elements@,
                self.next_id as nat,
            ),
    {
        broadcast use vstd::std_specs::hash::group_hash_axioms;
        let mut out: Vec<(usize, usize)> = Vec::new();
        let mut id: usize = 0;
        while id < self.next_id
            invariant
                id <= self.next_id,
                out@ == roots(self.elements@, id as nat),
            decreases self.next_id - id,
        {
            match self.elements.get(&id) {
                Some(e) => {
                    if e.parent == 0 {
                        out.push((0, id));
                    }
                },
                None => {},
            }
            id = id + 1;
        }
        let ghost base = out@;
        id = 0;
        while id < self.next_id
            invariant
                id <= self.next_id,
                base == roots(self.elements@, self.next_id as nat),
                out@ == base + links(self.elements@, id as nat),
            decreases self.next_id - id,
        {
            match self.elements.get(&id) {
                Some(e) => {
                    let ghost start = out@;
                    let mut j: usize = 0;
                    while j < e.children.len()
                        invariant
                            j <= e.children@.len(),
                            out@ == start + e.children@.subrange(0, j as int).map_values(
                                |c: usize| (id, c),
                            ),
                        decreases e.children@.len() - j,
                    {
                        out.push((id, e.children[j]));
                        assert(e.children@.subrange(0, j as int + 1).map_values(|c: usize| (id, c))
                            =~= e.children@.subrange(0, j as int).map_values(|c: usize| (id, c)).push(
                            (id, e.children@[j as int]),
                        ));
                        j = j + 1;
                    }
                    assert(e.children@.subrange(0, e.children@.len() as int) =~= e.children@);
                    assert(out@ =~= base + links(self.elements@, (id + 1) as nat));
                },
                None => {},
            }
            id = id + 1;
        }
        out
    }
}

} // verus!
