use vstd::prelude::*;

verus! {

/// The kinds of node of the generic syntax tree that the grammar produces.
#[derive(Debug, Clone, Copy, PartialEq, Eq, Structural)]
pub enum AstNodeType {
    File,
    StatementConst,
    StatementConstName,
    StatementEmit,
    StatementFn,
    StatementFnName,
    StatementFnBody,
    AtomUtf8,
    AtomHex,
    AtomConst,
    AtomFn,
    AtomFnParam,
    AtomFnParamValue,
    AtomFnParamIdentifier,
    AtomFnParams,
    AtomBaseNumber,
    AtomBaseNumberBase,
    AtomBaseNumberValue,
    AtomFnName,
}

/// The kinds of node that carry the text they matched.
pub open spec fn captures_value(t: AstNodeType) -> bool {
    match t {
        AstNodeType::AtomUtf8 | AstNodeType::AtomHex | AstNodeType::AtomFnName
        | AstNodeType::StatementConstName | AstNodeType::AtomBaseNumberBase
        | AstNodeType::AtomBaseNumberValue | AstNodeType::StatementFnName
        | AstNodeType::AtomFnParamIdentifier | AstNodeType::AtomConst => true,
        _ => false,
    }
}

impl AstNodeType {
    /// Whether a node of this kind carries the text it matched.
    pub fn must_capture_value(&self) -> (r: bool)
        ensures
            r == captures_value(*self),
    {
        match self {
            AstNodeType::AtomUtf8 | AstNodeType::AtomHex | AstNodeType::AtomFnName
            | AstNodeType::StatementConstName | AstNodeType::AtomBaseNumberBase
            | AstNodeType::AtomBaseNumberValue | AstNodeType::StatementFnName
            | AstNodeType::AtomFnParamIdentifier | AstNodeType::AtomConst => true,
            _ => false,
        }
    }
}

/// A node of the generic syntax tree: its kind, the text it captured if any,
/// and its children in source order.
#[derive(Debug)]
pub struct AstNode {
    pub node_type: AstNodeType,
    pub content: Option<String>,
    pub children: Vec<AstNode>,
}

impl AstNode {
    pub fn new(node_type: AstNodeType, content: Option<String>, children: Vec<AstNode>) -> (r:
        AstNode)
        ensures
            r.node_type == node_type,
            r.content == content,
            r.children == children,
    {
        AstNode { node_type, content, children }
    }

    pub fn children(&self) -> (r: &Vec<AstNode>)
        ensures
            *r == self.children,
    {
        &self.children
    }

    pub fn node_type(&self) -> (r: AstNodeType)
        ensures
            r == self.node_type,
    {
        self.node_type
    }

    pub fn content(&self) -> (r: Option<&String>)
        ensures
            r is Some <==> self.content is Some,
            r is Some ==> *r->0 == self.content->0,
    {
        match &self.content {
            Some(c) => Some(c),
            None => None,
        }
    }
}

} // verus!
