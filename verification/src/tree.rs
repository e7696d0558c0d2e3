//! The document tree that the extraction walks: a plain, owned model of a
//! parsed XML element, holding exactly what the extraction reads of one —
//! its namespace-qualified tag, its attributes, its child elements, and its
//! direct text content.

use vstd::prelude::*;

verus! {

/// One attribute of an element: a key and its string value.
pub struct XmlAttr {
    pub key: String,
    pub value: String,
}

/// An element of the document tree.
///
/// `text` is the element's direct text content: the concatenation of the
/// text nodes standing immediately under it, in document order.
pub struct XmlNode {
    pub name: String,
    pub ns: String,
    pub attrs: Vec<XmlAttr>,
    pub children: Vec<XmlNode>,
    pub text: String,
}

/// The namespace of the roster schema; every element the extraction
/// matches on must carry it.
pub open spec fn schema_ns() -> Seq<char> {
    "http://www.battlescribe.net/schema/rosterSchema"@
}

/// Whether `n` is tagged `tag` under the roster schema namespace.
pub open spec fn node_is(n: XmlNode, tag: Seq<char>) -> bool {
    n.name@ == tag && n.ns@ == schema_ns()
}

/// The value of the first attribute named `key` in `attrs`, or the empty
/// string when none is.
pub open spec fn attr_value_in(attrs: Seq<XmlAttr>, key: Seq<char>) -> Seq<char>
    decreases attrs.len(),
{
    if attrs.len() == 0 {
        Seq::empty()
    } else if attrs.first().key@ == key {
        attrs.first().value@
    } else {
        attr_value_in(attrs.drop_first(), key)
    }
}

/// The value of attribute `key` on `n`, or the empty string when `n` does
/// not carry it.
pub open spec fn attr_of(n: XmlNode, key: Seq<char>) -> Seq<char> {
    attr_value_in(n.attrs@, key)
}

impl XmlNode {
    /// Whether this element is tagged `tag` under namespace `ns`.
    pub fn is_named(&self, tag: &str, ns: &str) -> (r: bool)
        ensures
            r == (self.name@ == tag@ && self.ns@ == ns@),
    {
        self.name == tag.to_owned() && self.ns == ns.to_owned()
    }
}

/// The attribute accessor: every attribute read goes through it, so a
/// missing attribute uniformly becomes the empty string.
pub fn get_attr(e: &XmlNode, s: &str) -> (r: String)
    ensures
        r@ == attr_of(*e, s@),
{
    let key = s.to_owned();
    let mut i: usize = 0;
    proof {
        assert(e.attrs@.skip(0) =~= e.attrs@);
    }
    while i < e.attrs.len()
        invariant
            0 <= i <= e.attrs@.len(),
            key@ == s@,
            attr_value_in(e.attrs@.skip(i as int), s@) == attr_of(*e, s@),
        decreases e.attrs@.len() - i,
    {
        proof {
            assert(e.attrs@.skip(i as int).first() == e.attrs@[i as int]);
            assert(e.attrs@.skip(i as int).drop_first() =~= e.attrs@.skip(i as int + 1));
        }
        if e.attrs[i].key == key {
            return e.attrs[i].value.clone();
        }
        i = i + 1;
    }
    proof {
        assert(e.attrs@.skip(i as int) =~= Seq::<XmlAttr>::empty());
    }
    String::new()
}

} // verus!
