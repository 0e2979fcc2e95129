use crate::name::{attr_lookup, find_attr, str_is, Attribute};
use std::collections::HashMap;
use vstd::prelude::*;
use vstd::string::*;

verus! {

/// Where a style or script comes from: inline text, or a URL.
#[derive(Debug, PartialEq, Eq)]
pub enum HtmlResource {
    Source(String),
    Linked(String),
}

/// The mathematical value of an [`HtmlResource`].
pub enum ResourceView {
    Source(Seq<char>),
    Linked(Seq<char>),
}

impl HtmlResource {
    pub open spec fn view(&self) -> ResourceView {
        match self {
            HtmlResource::Source(s) => ResourceView::Source(s@),
            HtmlResource::Linked(u) => ResourceView::Linked(u@),
        }
    }
}

/// The resource recorded for `id` in `m`, if any.
pub open spec fn resource_at(m: Map<usize, HtmlResource>, id: usize) -> Option<ResourceView> {
    if m.contains_key(id) {
        Some(m[id]@)
    } else {
        None
    }
}

/// The URL that a new element with local name `local` links as a stylesheet:
/// the `src` of a `style`, or the `src` of a `link` whose `rel` is exactly `stylesheet`.
pub open spec fn style_link(local: Seq<char>, attrs: Seq<Attribute>) -> Option<Seq<char>> {
    if local == "style"@ {
        attr_lookup(attrs, "src"@)
    } else if local == "link"@ && attr_lookup(attrs, "rel"@) == Some("stylesheet"@) {
        attr_lookup(attrs, "src"@)
    } else {
        None
    }
}

/// The URL that a new element with local name `local` links as a script.
pub open spec fn script_link(local: Seq<char>, attrs: Seq<Attribute>) -> Option<Seq<char>> {
    if local == "script"@ {
        attr_lookup(attrs, "src"@)
    } else {
        None
    }
}

/// The resource after inline text `t` arrives: a new source, a longer source,
/// or a link left as it was.
pub open spec fn with_text(old: Option<ResourceView>, t: Seq<char>) -> ResourceView {
    match old {
        None => ResourceView::Source(t),
        Some(ResourceView::Source(s)) => ResourceView::Source(s + t),
        Some(ResourceView::Linked(u)) => ResourceView::Linked(u),
    }
}

/// The stylesheet URL that an element named `local` with `attrs` links.
pub fn find_style_link(local: &String, attrs: &Vec<Attribute>) -> (r: Option<String>)
    ensures
        crate::name::opt_view(r) == style_link(local@, attrs@),
{
    if str_is(local, "style") {
        find_attr(attrs, "src")
    } else if str_is(local, "link") {
        let rel = find_attr(attrs, "rel");
        let is_stylesheet = match &rel {
            Some(v) => str_is(v, "stylesheet"),
            None => false,
        };
        if is_stylesheet {
            find_attr(attrs, "src")
        } else {
            None
        }
    } else {
        None
    }
}

/// The script URL that an element named `local` with `attrs` links.
pub fn find_script_link(local: &String, attrs: &Vec<Attribute>) -> (r: Option<String>)
    ensures
        crate::name::opt_view(r) == script_link(local@, attrs@),
{
    if str_is(local, "script") {
        find_attr(attrs, "src")
    } else {
        None
    }
}

/// Records inline text `t` for the element `id` in `table`.
pub fn add_text(table: &mut HashMap<usize, HtmlResource>, id: usize, t: &String)
    ensures
        final(table)@ == old(table)@.insert(id, final(table)@[id]),
        final(table)@[id]@ == with_text(resource_at(old(table)@, id), t@),
{
    broadcast use vstd::std_specs::hash::group_hash_axioms;
    let cur = table.remove(&id);
    let next = match cur {
        None => HtmlResource::Source(t.clone()),
        Some(HtmlResource::Source(s)) => {
            let mut s = s;
            s.append(t.as_str());
            HtmlResource::Source(s)
        },
        Some(HtmlResource::Linked(u)) => HtmlResource::Linked(u),
    };
    table.insert(id, next);
    assert(table@ =~= old(table)@.insert(id, table@[id]));
}

} // verus!
