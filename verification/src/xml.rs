//! An XML document as the IPJ parser reads it: its nodes in document order, each with what
//! the parser looks at. The XML grammar itself is `roxmltree`'s.
use vstd::prelude::*;

verus! {

/// One node of a parsed XML document.
pub struct XmlNode {
    /// Whether the node is an element (and not the document root, a text node, a comment, ...).
    pub is_element: bool,
    /// The element's local name; empty for other nodes.
    pub name: String,
    /// The element's attributes, as (local name, value) pairs, in document order.
    pub attributes: Vec<(String, String)>,
    /// The node's text: for an element, that of its first child when that child is text.
    pub text: Option<String>,
    /// The node itself and then its ancestors up to the document root, each as
    /// (is an element, local name).
    pub ancestors: Vec<(bool, String)>,
}

pub struct XmlNodeView {
    pub is_element: bool,
    pub name: Seq<char>,
    pub attributes: Seq<(Seq<char>, Seq<char>)>,
    pub text: Option<Seq<char>>,
    pub ancestors: Seq<(bool, Seq<char>)>,
}

impl View for XmlNode {
    type V = XmlNodeView;

    open spec fn view(&self) -> XmlNodeView {
        XmlNodeView {
            is_element: self.is_element,
            name: self.name@,
            attributes: self.attributes@.map_values(|a: (String, String)| (a.0@, a.1@)),
            text: match self.text {
                Some(t) => Some(t@),
                None => None,
            },
            ancestors: self.ancestors@.map_values(|a: (bool, String)| (a.0, a.1@)),
        }
    }
}

/// The views of a sequence of nodes.
pub open spec fn nodes_view(nodes: Seq<XmlNode>) -> Seq<XmlNodeView> {
    nodes.map_values(|n: XmlNode| n@)
}

/// What `roxmltree::Document::parse` makes of `text`: the document's nodes in document order
/// (`Document::descendants`), or the text of the error it reports.
pub uninterp spec fn xml_parse(text: Seq<char>) -> Result<Seq<XmlNodeView>, Seq<char>>;

/// Parses `text` with `roxmltree::Document::parse` and lists the document's nodes in document
/// order; on failure, the parser error's `Display` text.
#[verifier::external_body]
pub(crate) fn parse_xml_nodes(text: &str) -> (r: Result<Vec<XmlNode>, String>)
    ensures
        xml_parse(text@) == (match r {
            Ok(v) => Ok(nodes_view(v@)),
            Err(e) => Err(e@),
        }),
{
    let doc = roxmltree::Document::parse(text).map_err(|e| e.to_string())?;
    Ok(doc.descendants().map(|n| XmlNode {
        is_element: n.is_element(),
        name: n.tag_name().name().to_string(),
        attributes: n.attributes().map(|a| (a.name().to_string(), a.value().to_string())).collect(),
        text: n.text().map(|t| t.to_string()),
        ancestors: n.ancestors().map(|a| (a.is_element(), a.tag_name().name().to_string())).collect(),
    }).collect())
}

} // verus!
