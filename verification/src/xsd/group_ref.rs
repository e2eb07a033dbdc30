//! References to groups of fields.
use vstd::prelude::*;

use crate::tree::{attr, attr_of, Document, Node};
use crate::xsd::{is_xs, node_is_xs};

verus! {

/// A reference to a group of fields (`group`) or of attributes
/// (`attributeGroup`), by name.
#[derive(Debug, PartialEq)]
pub struct GroupRef {
    pub reference: String,
}

/// Why a node is not a reference to a group.
#[derive(Debug, PartialEq)]
pub enum GroupRefParseError {
    MissingRefAttribute,
    NotGroupNode,
}

/// Whether node `i` is a reference to a group of elements or of attributes.
pub open spec fn is_group_node(ns: Seq<Node>, i: int) -> bool {
    is_xs(ns[i].data, "group"@) || is_xs(ns[i].data, "attributeGroup"@)
}

/// The group that node `i` refers to.
pub open spec fn group_ref_of(ns: Seq<Node>, i: int) -> Result<Seq<char>, GroupRefParseError> {
    if is_group_node(ns, i) {
        match attr_of(ns[i].data, "ref"@) {
            Some(r) => Ok(r@),
            None => Err(GroupRefParseError::MissingRefAttribute),
        }
    } else {
        Err(GroupRefParseError::NotGroupNode)
    }
}

impl GroupRef {
    /// Reads the reference to a group of node `i`.
    pub fn try_from(doc: &Document, i: usize) -> (r: Result<GroupRef, GroupRefParseError>)
        requires
            i < doc.nodes@.len(),
        ensures
            match r {
                Ok(g) => group_ref_of(doc.nodes@, i as int) == Ok::<Seq<char>, GroupRefParseError>(g.reference@),
                Err(e) => group_ref_of(doc.nodes@, i as int) == Err::<Seq<char>, GroupRefParseError>(e),
            },
    {
        let d = &doc.nodes[i].data;
        if node_is_xs(d, "group") || node_is_xs(d, "attributeGroup") {
            match attr(d, "ref") {
                Some(r) => Ok(GroupRef { reference: r.clone() }),
                None => Err(GroupRefParseError::MissingRefAttribute),
            }
        } else {
            Err(GroupRefParseError::NotGroupNode)
        }
    }
}

} // verus!
