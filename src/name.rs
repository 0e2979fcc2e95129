use vstd::prelude::*;

verus! {

/// A qualified tag or attribute name: namespace, optional prefix, local name.
#[derive(Debug, PartialEq, Eq)]
pub struct QualName {
    pub prefix: Option<String>,
    pub ns: String,
    pub local: String,
}

/// One `name="value"` pair of an element.
#[derive(Debug, PartialEq, Eq)]
pub struct Attribute {
    pub name: QualName,
    pub value: String,
}

/// The namespace of the elements that the builder makes up for runs of text.
pub open spec fn sentinel_ns() -> Seq<char> {
    "https://hugo4it.com/growser/2022"@
}

/// The prefix of the builder's own elements.
pub open spec fn sentinel_prefix() -> Seq<char> {
    "growser"@
}

/// The HTML namespace.
pub open spec fn html_ns() -> Seq<char> {
    "http://www.w3.org/1999/xhtml"@
}

/// The value of the first attribute whose local name is `name`, if any.
pub open spec fn attr_lookup(attrs: Seq<Attribute>, name: Seq<char>) -> Option<Seq<char>>
    decreases attrs.len(),
{
    if attrs.len() == 0 {
        None
    } else {
        match attr_lookup(attrs.drop_last(), name) {
            Some(v) => Some(v),
            None => if attrs.last().name.local@ == name {
                Some(attrs.last().value@)
            } else {
                None
            },
        }
    }
}

/// Whether `n` is the builder's own `growser:content` attribute name.
pub open spec fn is_content_name(n: QualName) -> bool {
    &&& opt_view(n.prefix) == Some(sentinel_prefix())
    &&& n.ns@ == sentinel_ns()
    &&& n.local@ == "content"@
}

/// The value of the first attribute named `growser:content`, if any.
pub open spec fn content_lookup(attrs: Seq<Attribute>) -> Option<Seq<char>>
    decreases attrs.len(),
{
    if attrs.len() == 0 {
        None
    } else {
        match content_lookup(attrs.drop_last()) {
            Some(v) => Some(v),
            None => if is_content_name(attrs.last().name) {
                Some(attrs.last().value@)
            } else {
                None
            },
        }
    }
}

/// The characters of an optional string.
pub open spec fn opt_view(o: Option<String>) -> Option<Seq<char>> {
    match o {
        Some(s) => Some(s@),
        None => None,
    }
}

/// Whether `s` holds exactly the characters of `lit`.
pub fn str_is(s: &String, lit: &str) -> (r: bool)
    ensures
        r == (s@ == lit@),
{
    let l: String = lit.to_owned();
    *s == l
}

/// The value of the first attribute whose local name is `name`.
pub fn find_attr(attrs: &Vec<Attribute>, name: &str) -> (r: Option<String>)
    ensures
        opt_view(r) == attr_lookup(attrs@, name@),
{
    let mut found: Option<String> = None;
    let mut i: usize = 0;
    while i < attrs.len()
        invariant
            i <= attrs@.len(),
            opt_view(found) == attr_lookup(attrs@.subrange(0, i as int), name@),
        decreases attrs@.len() - i,
    {
        assert(attrs@.subrange(0, i as int + 1).drop_last() =~= attrs@.subrange(0, i as int));
        if found.is_none() && str_is(&attrs[i].name.local, name) {
            found = Some(attrs[i].value.clone());
        }
        i = i + 1;
    }
    assert(attrs@.subrange(0, attrs@.len() as int) =~= attrs@);
    found
}

/// Whether `n` is the builder's own `growser:content` attribute name.
pub fn is_content(n: &QualName) -> (r: bool)
    ensures
        r == is_content_name(*n),
{
    match &n.prefix {
        Some(p) => str_is(p, "growser") && str_is(&n.ns, "https://hugo4it.com/growser/2022")
            && str_is(&n.local, "content"),
        None => false,
    }
}

/// The value of the first attribute named `growser:content`.
pub fn find_content(attrs: &Vec<Attribute>) -> (r: Option<String>)
    ensures
        opt_view(r) == content_lookup(attrs@),
{
    let mut found: Option<String> = None;
    let mut i: usize = 0;
    while i < attrs.len()
        invariant
            i <= attrs@.len(),
            opt_view(found) == content_lookup(attrs@.subrange(0, i as int)),
        decreases attrs@.len() - i,
    {
        assert(attrs@.subrange(0, i as int + 1).drop_last() =~= attrs@.subrange(0, i as int));
        if found.is_none() && is_content(&attrs[i].name) {
            found = Some(attrs[i].value.clone());
        }
        i = i + 1;
    }
    assert(attrs@.subrange(0, attrs@.len() as int) =~= attrs@);
    found
}

/// The name of the elements that stand for runs of text.
pub fn text_element_name() -> (r: QualName)
    ensures
        opt_view(r.prefix) == Some(sentinel_prefix()),
        r.ns@ == sentinel_ns(),
        r.local@ == "text"@,
{
    QualName {
        prefix: Some("growser".to_owned()),
        ns: "https://hugo4it.com/growser/2022".to_owned(),
        local: "text".to_owned(),
    }
}

/// The name of the attribute that holds a text element's content.
pub fn content_attr_name() -> (r: QualName)
    ensures
        opt_view(r.prefix) == Some(sentinel_prefix()),
        r.ns@ == sentinel_ns(),
        r.local@ == "content"@,
{
    QualName {
        prefix: Some("growser".to_owned()),
        ns: "https://hugo4it.com/growser/2022".to_owned(),
        local: "content".to_owned(),
    }
}

} // verus!
