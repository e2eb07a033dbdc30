//! Reading XML into a flat document.
use vstd::prelude::*;

use crate::tree::{Document, Node, NodeData};

verus! {

#[verifier::external_type_specification]
#[verifier::external_body]
pub struct ExXmlParseError(xmltree::ParseError);

/// The nodes of the tree that `xmltree::Element::parse` builds from `bytes`,
/// in document order, each with its depth; nothing when it reports an error.
pub uninterp spec fn xml_document_nodes(bytes: Seq<u8>) -> Option<Seq<Node>>;

/// Parses `bytes` with `xmltree::Element::parse` and lists the nodes of the
/// resulting tree in document order, starting with the root element at depth
/// 0: each element with its namespace, its local name and its attributes
/// (in the order of their names), each text node with its text, anything
/// else as `Other`. The contract claims only that the result, or the fact
/// that parsing failed, depends on `bytes` alone.
#[verifier::external_body]
fn parse_xml_nodes(bytes: &[u8]) -> (r: Result<Vec<Node>, xmltree::ParseError>)
    ensures
        match r {
            Ok(v) => xml_document_nodes(bytes@) == Some(v@),
            Err(_) => xml_document_nodes(bytes@) is None,
        },
{
    let root = xmltree::XMLNode::Element(xmltree::Element::parse(bytes)?);
    let (mut stack, mut out) = (vec![(&root, 0)], Vec::new());
    while let Some((n, depth)) = stack.pop() {
        out.push(Node { data: match n {
            xmltree::XMLNode::Element(e) => {
                stack.extend(e.children.iter().rev().map(|c| (c, depth + 1)));
                NodeData::element(e.namespace.clone(), e.name.clone(), e.attributes.clone().into_iter().collect(), String::new())
            },
            xmltree::XMLNode::Text(t) => NodeData::text(t.to_string()),
            _ => NodeData::other(),
        }, depth });
    }
    Ok(out)
}

/// Parses an XML document.
pub fn parse_xml(bytes: &[u8]) -> (r: Result<Document, xmltree::ParseError>)
    ensures
        match r {
            Ok(d) => xml_document_nodes(bytes@) == Some(d.nodes@),
            Err(_) => xml_document_nodes(bytes@) is None,
        },
{
    match parse_xml_nodes(bytes) {
        Ok(nodes) => Ok(Document { nodes }),
        Err(e) => Err(e),
    }
}

} // verus!
