//! XML documents, as far as their elements and texts are read.

use crate::text::{opt_text, same};
use vstd::prelude::*;
use vstd::utf8::{decode_utf8, valid_utf8};

verus! {

/// `std::str::from_utf8`: the text that bytes encode, if they are valid UTF-8.
#[verifier::external_body]
pub(crate) fn utf8_text(bytes: &Vec<u8>) -> (r: Option<String>)
    ensures
        match r {
            Some(text) => valid_utf8(bytes@) && text@ == decode_utf8(bytes@),
            None => !valid_utf8(bytes@),
        },
{
    match std::str::from_utf8(bytes) {
        Ok(text) => Some(text.to_string()),
        Err(_) => None,
    }
}

/// A node of a document: the local name of an element, or an empty name for what is no element,
/// and the text that roxmltree gives for it, for an element the text that it starts with.
pub struct XmlNode {
    pub name: String,
    pub text: Option<String>,
}

impl View for XmlNode {
    type V = (Seq<char>, Option<Seq<char>>);

    open spec fn view(&self) -> (Seq<char>, Option<Seq<char>>) {
        (self.name@, opt_text(self.text))
    }
}

/// The values of nodes.
pub open spec fn node_views(nodes: Seq<XmlNode>) -> Seq<(Seq<char>, Option<Seq<char>>)> {
    nodes.map_values(|n: XmlNode| n@)
}

/// The value of an optional list of nodes.
pub open spec fn opt_nodes(nodes: Option<Vec<XmlNode>>) -> Option<
    Seq<(Seq<char>, Option<Seq<char>>)>,
> {
    match nodes {
        Some(list) => Some(node_views(list@)),
        None => None,
    }
}

/// The nodes of the document that a text is, in document order, by their names and texts;
/// `None` for a text that is no XML document.
pub uninterp spec fn xml_nodes(text: Seq<char>) -> Option<Seq<(Seq<char>, Option<Seq<char>>)>>;

/// `roxmltree::Document::parse` and the descendants of the document that it gives.
#[verifier::external_body]
pub(crate) fn parse_nodes(text: &str) -> (r: Option<Vec<XmlNode>>)
    ensures
        opt_nodes(r) == xml_nodes(text@),
{
    let document = roxmltree::Document::parse(text).ok()?;
    let node = |n: roxmltree::Node| {
        XmlNode {
            name: n.tag_name().name().to_string(),
            text: n.text().map(|t| t.to_string()),
        }
    };
    Some(document.descendants().map(node).collect())
}

/// The text of the first node with the given name.
pub open spec fn text_named(
    nodes: Seq<(Seq<char>, Option<Seq<char>>)>,
    name: Seq<char>,
) -> Option<Seq<char>>
    decreases nodes.len(),
{
    if nodes.len() == 0 {
        None
    } else if nodes[0].0 == name {
        nodes[0].1
    } else {
        text_named(nodes.drop_first(), name)
    }
}

/// The text of the first node with the given name.
pub fn first_text(nodes: &Vec<XmlNode>, name: &str) -> (r: Option<String>)
    ensures
        opt_text(r) == text_named(node_views(nodes@), name@),
{
    let ghost all = node_views(nodes@);
    let mut i: usize = 0;
    assert(all.skip(0) =~= all);
    while i < nodes.len()
        invariant
            i <= nodes@.len(),
            all == node_views(nodes@),
            text_named(all, name@) == text_named(all.skip(i as int), name@),
        decreases nodes@.len() - i,
    {
        assert(all.skip(i as int)[0] == nodes@[i as int]@);
        if same(nodes[i].name.as_str(), name) {
            return nodes[i].text.clone();
        }
        assert(all.skip(i as int).drop_first() =~= all.skip(i + 1));
        i += 1;
    }
    None
}

/// The text that is found for a name is that of the first node with the name; nodes before it have
/// other names.
pub proof fn first_node_of_the_name_is_found(
    nodes: Seq<(Seq<char>, Option<Seq<char>>)>,
    name: Seq<char>,
    i: int,
)
    requires
        0 <= i < nodes.len(),
        nodes[i].0 == name,
        forall|j: int| 0 <= j < i ==> (#[trigger] nodes[j]).0 != name,
    ensures
        text_named(nodes, name) == nodes[i].1,
    decreases nodes.len(),
{
    if i > 0 {
        assert(nodes[0].0 != name);
        let rest = nodes.drop_first();
        assert forall|j: int| 0 <= j < i - 1 implies (#[trigger] rest[j]).0 != name by {
            assert(rest[j] == nodes[j + 1]);
        }
        first_node_of_the_name_is_found(rest, name, i - 1);
    }
}

/// Without a node of the name nothing is found.
pub proof fn missing_name_finds_nothing(
    nodes: Seq<(Seq<char>, Option<Seq<char>>)>,
    name: Seq<char>,
)
    requires
        forall|j: int| 0 <= j < nodes.len() ==> (#[trigger] nodes[j]).0 != name,
    ensures
        text_named(nodes, name) is None,
    decreases nodes.len(),
{
    if nodes.len() > 0 {
        assert(nodes[0].0 != name);
        let rest = nodes.drop_first();
        assert forall|j: int| 0 <= j < rest.len() implies (#[trigger] rest[j]).0 != name by {
            assert(rest[j] == nodes[j + 1]);
        }
        missing_name_finds_nothing(rest, name);
    }
}

} // verus!
