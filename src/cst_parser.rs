use vstd::prelude::*;
use vstd::string::*;

use crate::ast::{AstNode, AstNodeType};
use crate::cst::{
    atoms_model, constants_model, emits_model, function_model, functions_model, group_cst_model,
    params_model, AtomModel, ConstantModel, CstActualParameter, CstAtom, CstConstantStatement,
    CstEmitStatement, CstFile, CstFunctionStatement, FunctionModel, ParamModel,
};
use crate::encoding::{decimal, decimal_string, decode_bytes_from_string, hex_decode, parse_u32_radix, parsed_u32};

verus! {

broadcast use group_cst_model;

/// A syntax tree that does not have the shape the language requires.
#[derive(Debug)]
pub enum CstError {
    UnexpectedNode { expected: Vec<AstNodeType>, actual: AstNodeType },
    MalformedNodeValue { message: String },
    MissingContent { node_type: AstNodeType },
    UnexpectedChildren { node_type: AstNodeType, children: Vec<AstNodeType> },
    DuplicateNode,
}

pub enum CstErrorModel {
    UnexpectedNode(Seq<AstNodeType>, AstNodeType),
    MalformedNodeValue(Seq<char>),
    MissingContent(AstNodeType),
    UnexpectedChildren(AstNodeType, Seq<AstNodeType>),
    DuplicateNode,
}

impl View for CstError {
    type V = CstErrorModel;

    open spec fn view(&self) -> CstErrorModel {
        match self {
            CstError::UnexpectedNode { expected, actual } => CstErrorModel::UnexpectedNode(
                expected@,
                *actual,
            ),
            CstError::MalformedNodeValue { message } => CstErrorModel::MalformedNodeValue(message@),
            CstError::MissingContent { node_type } => CstErrorModel::MissingContent(*node_type),
            CstError::UnexpectedChildren { node_type, children } =>
                CstErrorModel::UnexpectedChildren(*node_type, children@),
            CstError::DuplicateNode => CstErrorModel::DuplicateNode,
        }
    }
}

pub type Body = (Seq<Seq<AtomModel>>, Seq<FunctionModel>, Seq<ConstantModel>);

pub open spec fn child_types(node: AstNode) -> Seq<AstNodeType> {
    Seq::new(node.children@.len(), |i: int| node.children@[i].node_type)
}

/// The text of a leaf node.
pub open spec fn value_of(node: AstNode) -> Result<Seq<char>, CstErrorModel> {
    if node.children@.len() != 0 {
        Err(CstErrorModel::UnexpectedChildren(node.node_type, child_types(node)))
    } else {
        match node.content {
            Some(c) => Ok(c@),
            None => Err(CstErrorModel::MissingContent(node.node_type)),
        }
    }
}

pub open spec fn unexpected(expected: Seq<AstNodeType>, node: AstNode) -> CstErrorModel {
    CstErrorModel::UnexpectedNode(expected, node.node_type)
}

pub open spec fn atom_kinds() -> Seq<AstNodeType> {
    seq![
        AstNodeType::AtomHex,
        AstNodeType::AtomUtf8,
        AstNodeType::AtomBaseNumber,
        AstNodeType::AtomConst,
        AstNodeType::AtomFn,
    ]
}

pub open spec fn hex_atoms(bytes: Seq<u8>) -> Seq<AtomModel> {
    Seq::new(bytes.len(), |i: int| AtomModel::Hex(bytes[i]))
}

/// The atoms one atom node stands for (a hex literal gives one per byte).
pub open spec fn atom_of(node: AstNode) -> Result<Seq<AtomModel>, CstErrorModel>
    decreases node, 0nat,
{
    match node.node_type {
        AstNodeType::AtomHex => match node.content {
            None => Err(CstErrorModel::MissingContent(AstNodeType::AtomHex)),
            Some(c) => match hex_decode(c@) {
                Some(bytes) => Ok(hex_atoms(bytes)),
                None => Err(CstErrorModel::MalformedNodeValue("can't parse bytes "@ + c@)),
            },
        },
        AstNodeType::AtomUtf8 => match value_of(node) {
            Ok(v) => Ok(seq![AtomModel::Text(v)]),
            Err(e) => Err(e),
        },
        AstNodeType::AtomConst => match value_of(node) {
            Ok(v) => Ok(seq![AtomModel::Constant(v)]),
            Err(e) => Err(e),
        },
        AstNodeType::AtomBaseNumber => match base_number_fields(node.children@, 0, None, None) {
            Err(e) => Err(e),
            Ok((None, _)) => Err(CstErrorModel::MissingContent(AstNodeType::AtomBaseNumberBase)),
            Ok((_, None)) => Err(CstErrorModel::MissingContent(AstNodeType::AtomBaseNumberValue)),
            Ok((Some(base), Some(value))) => match parsed_u32(value, base as nat) {
                Some(n) => Ok(seq![AtomModel::Number(n)]),
                None => Err(CstErrorModel::MalformedNodeValue("can't parse number "@ + value)),
            },
        },
        AstNodeType::AtomFn => match function_fields(node.children@, 0, None, None) {
            Err(e) => Err(e),
            Ok((None, _)) => Err(CstErrorModel::MissingContent(AstNodeType::AtomFnName)),
            Ok((Some(name), params)) => Ok(
                seq![AtomModel::Function(name, match params { Some(p) => p, None => Seq::empty() })],
            ),
        },
        _ => Err(unexpected(atom_kinds(), node)),
    }
}

/// The atoms of the nodes `nodes` from `k` on, after `acc`.
pub open spec fn atoms_of(nodes: Seq<AstNode>, k: nat, acc: Seq<AtomModel>) -> Result<
    Seq<AtomModel>,
    CstErrorModel,
>
    decreases nodes, nodes.len() - k,
{
    if k >= nodes.len() {
        Ok(acc)
    } else {
        match atom_of(nodes[k as int]) {
            Ok(a) => atoms_of(nodes, k + 1, acc + a),
            Err(e) => Err(e),
        }
    }
}

/// The base and the digits of a number literal, from its children `k` on.
pub open spec fn base_number_fields(
    nodes: Seq<AstNode>,
    k: nat,
    base: Option<u32>,
    value: Option<Seq<char>>,
) -> Result<(Option<u32>, Option<Seq<char>>), CstErrorModel>
    decreases nodes.len() - k,
{
    if k >= nodes.len() {
        Ok((base, value))
    } else {
        let child = nodes[k as int];
        match child.node_type {
            AstNodeType::AtomBaseNumberBase => if base is Some {
                Err(CstErrorModel::DuplicateNode)
            } else {
                match value_of(child) {
                    Err(e) => Err(e),
                    Ok(text) => match parsed_u32(text, 10) {
                        None => Err(CstErrorModel::MalformedNodeValue("can't parse base "@ + text)),
                        Some(b) => base_number_fields(nodes, k + 1, Some(b), value),
                    },
                }
            },
            AstNodeType::AtomBaseNumberValue => if value is Some {
                Err(CstErrorModel::DuplicateNode)
            } else {
                match value_of(child) {
                    Err(e) => Err(e),
                    Ok(text) => base_number_fields(nodes, k + 1, base, Some(text)),
                }
            },
            _ => Err(
                unexpected(
                    seq![AstNodeType::AtomBaseNumberBase, AstNodeType::AtomBaseNumberValue],
                    child,
                ),
            ),
        }
    }
}

/// The name and the parameters of a call, from its children `k` on.
pub open spec fn function_fields(
    nodes: Seq<AstNode>,
    k: nat,
    name: Option<Seq<char>>,
    params: Option<Seq<ParamModel>>,
) -> Result<(Option<Seq<char>>, Option<Seq<ParamModel>>), CstErrorModel>
    decreases nodes, nodes.len() - k,
{
    if k >= nodes.len() {
        Ok((name, params))
    } else {
        let child = nodes[k as int];
        match child.node_type {
            AstNodeType::AtomFnName => if name is Some {
                Err(CstErrorModel::DuplicateNode)
            } else {
                match value_of(child) {
                    Err(e) => Err(e),
                    Ok(text) => function_fields(nodes, k + 1, Some(text), params),
                }
            },
            AstNodeType::AtomFnParams => if params is Some {
                Err(CstErrorModel::DuplicateNode)
            } else {
                match params_of(child) {
                    Err(e) => Err(e),
                    Ok(p) => function_fields(nodes, k + 1, name, Some(p)),
                }
            },
            _ => Err(unexpected(seq![AstNodeType::AtomFnName, AstNodeType::AtomFnParams], child)),
        }
    }
}

/// The actual parameters under an `AtomFnParams` node.
pub open spec fn params_of(node: AstNode) -> Result<Seq<ParamModel>, CstErrorModel>
    decreases node, 1nat,
{
    if node.node_type != AstNodeType::AtomFnParams {
        Err(unexpected(seq![AstNodeType::AtomFnParams], node))
    } else {
        params_from(node.children@, 0, Seq::empty())
    }
}

/// The parameters `nodes` from `k` on (the `k`-th named `k` unless it has an
/// identifier), after `acc`.
pub open spec fn params_from(nodes: Seq<AstNode>, k: nat, acc: Seq<ParamModel>) -> Result<
    Seq<ParamModel>,
    CstErrorModel,
>
    decreases nodes, nodes.len() - k,
{
    if k >= nodes.len() {
        Ok(acc)
    } else {
        let child = nodes[k as int];
        if child.node_type != AstNodeType::AtomFnParam {
            Err(unexpected(seq![AstNodeType::AtomFnParam], child))
        } else {
            match param_fields(child.children@, 0, None, Seq::empty()) {
                Err(e) => Err(e),
                Ok((name, value)) => params_from(
                    nodes,
                    k + 1,
                    acc.push(
                        ParamModel {
                            name: match name {
                                Some(n) => n,
                                None => decimal(k),
                            },
                            value,
                        },
                    ),
                ),
            }
        }
    }
}

/// The identifier and the value atoms of one parameter, from its children
/// `k` on.
pub open spec fn param_fields(
    nodes: Seq<AstNode>,
    k: nat,
    name: Option<Seq<char>>,
    value: Seq<AtomModel>,
) -> Result<(Option<Seq<char>>, Seq<AtomModel>), CstErrorModel>
    decreases nodes, nodes.len() - k,
{
    if k >= nodes.len() {
        Ok((name, value))
    } else {
        let child = nodes[k as int];
        match child.node_type {
            AstNodeType::AtomFnParamValue => match atoms_of(child.children@, 0, value) {
                Err(e) => Err(e),
                Ok(v) => param_fields(nodes, k + 1, name, v),
            },
            AstNodeType::AtomFnParamIdentifier => if name is Some {
                Err(CstErrorModel::DuplicateNode)
            } else {
                match value_of(child) {
                    Err(e) => Err(e),
                    Ok(text) => param_fields(nodes, k + 1, Some(text), value),
                }
            },
            _ => Err(unexpected(seq![AstNodeType::AtomFnParamValue], child)),
        }
    }
}

/// An emit statement's atoms.
pub open spec fn emit_of(node: AstNode) -> Result<Seq<AtomModel>, CstErrorModel> {
    if node.node_type != AstNodeType::StatementEmit {
        Err(unexpected(seq![AstNodeType::StatementEmit], node))
    } else {
        atoms_of(node.children@, 0, Seq::empty())
    }
}

/// A constant statement: its name child, every other child an atom.
pub open spec fn constant_of(node: AstNode) -> Result<ConstantModel, CstErrorModel> {
    if node.node_type != AstNodeType::StatementConst {
        Err(unexpected(seq![AstNodeType::StatementConst], node))
    } else {
        match constant_fields(node.children@, 0, None, Seq::empty()) {
            Err(e) => Err(e),
            Ok((None, _)) => Err(CstErrorModel::MissingContent(AstNodeType::StatementConstName)),
            Ok((Some(name), atoms)) => Ok(ConstantModel { name, atoms }),
        }
    }
}

pub open spec fn constant_fields(
    nodes: Seq<AstNode>,
    k: nat,
    name: Option<Seq<char>>,
    atoms: Seq<AtomModel>,
) -> Result<(Option<Seq<char>>, Seq<AtomModel>), CstErrorModel>
    decreases nodes.len() - k,
{
    if k >= nodes.len() {
        Ok((name, atoms))
    } else {
        let child = nodes[k as int];
        if child.node_type == AstNodeType::StatementConstName {
            if name is Some {
                Err(CstErrorModel::DuplicateNode)
            } else {
                match value_of(child) {
                    Err(e) => Err(e),
                    Ok(text) => constant_fields(nodes, k + 1, Some(text), atoms),
                }
            }
        } else {
            match atom_of(child) {
                Err(e) => Err(e),
                Ok(a) => constant_fields(nodes, k + 1, name, atoms + a),
            }
        }
    }
}

pub open spec fn statement_kinds() -> Seq<AstNodeType> {
    seq![AstNodeType::StatementConst, AstNodeType::StatementEmit, AstNodeType::StatementFn]
}

/// The statements of a body, from child `k` on, added to `acc`.
pub open spec fn body_of(nodes: Seq<AstNode>, k: nat, acc: Body) -> Result<Body, CstErrorModel>
    decreases nodes, nodes.len() - k,
{
    if k >= nodes.len() {
        Ok(acc)
    } else {
        let child = nodes[k as int];
        match child.node_type {
            AstNodeType::StatementConst => match constant_of(child) {
                Err(e) => Err(e),
                Ok(c) => body_of(nodes, k + 1, (acc.0, acc.1, acc.2.push(c))),
            },
            AstNodeType::StatementEmit => match emit_of(child) {
                Err(e) => Err(e),
                Ok(a) => body_of(nodes, k + 1, (acc.0.push(a), acc.1, acc.2)),
            },
            AstNodeType::StatementFn => match function_of(child) {
                Err(e) => Err(e),
                Ok(f) => body_of(nodes, k + 1, (acc.0, acc.1.push(f), acc.2)),
            },
            _ => Err(unexpected(statement_kinds(), child)),
        }
    }
}

pub open spec fn empty_body() -> Body {
    (Seq::empty(), Seq::empty(), Seq::empty())
}

/// A function statement: its name and its body.
pub open spec fn function_of(node: AstNode) -> Result<FunctionModel, CstErrorModel>
    decreases node, 1nat,
{
    match function_statement_fields(node.children@, 0, None, None) {
        Err(e) => Err(e),
        Ok((None, _)) => Err(CstErrorModel::MissingContent(AstNodeType::StatementFnName)),
        Ok((Some(name), body)) => {
            let b = match body {
                Some(b) => b,
                None => empty_body(),
            };
            Ok(FunctionModel { name, emits: b.0, functions: b.1, constants: b.2 })
        },
    }
}

pub open spec fn function_statement_fields(
    nodes: Seq<AstNode>,
    k: nat,
    name: Option<Seq<char>>,
    body: Option<Body>,
) -> Result<(Option<Seq<char>>, Option<Body>), CstErrorModel>
    decreases nodes, nodes.len() - k,
{
    if k >= nodes.len() {
        Ok((name, body))
    } else {
        let child = nodes[k as int];
        match child.node_type {
            AstNodeType::StatementFnName => if name is Some {
                Err(CstErrorModel::DuplicateNode)
            } else {
                match value_of(child) {
                    Err(e) => Err(e),
                    Ok(text) => function_statement_fields(nodes, k + 1, Some(text), body),
                }
            },
            AstNodeType::StatementFnBody => if body is Some {
                Err(CstErrorModel::DuplicateNode)
            } else {
                match body_of(child.children@, 0, empty_body()) {
                    Err(e) => Err(e),
                    Ok(b) => function_statement_fields(nodes, k + 1, name, Some(b)),
                }
            },
            _ => Err(
                unexpected(seq![AstNodeType::StatementFnName, AstNodeType::StatementFnBody], child),
            ),
        }
    }
}

/// A whole file: its statements form the body of `main`.
pub open spec fn file_of(node: AstNode) -> Result<FunctionModel, CstErrorModel> {
    if node.node_type != AstNodeType::File {
        Err(unexpected(seq![AstNodeType::File], node))
    } else {
        match body_of(node.children@, 0, empty_body()) {
            Err(e) => Err(e),
            Ok(b) => Ok(FunctionModel { name: "main"@, emits: b.0, functions: b.1, constants: b.2 }),
        }
    }
}

pub open spec fn opt_text(o: Option<String>) -> Option<Seq<char>> {
    match o {
        Some(s) => Some(s@),
        None => None,
    }
}

pub open spec fn opt_params(o: Option<Vec<CstActualParameter>>) -> Option<Seq<ParamModel>> {
    match o {
        Some(p) => Some(params_model(p@)),
        None => None,
    }
}

pub open spec fn body_model(
    b: (Vec<CstEmitStatement>, Vec<CstFunctionStatement>, Vec<CstConstantStatement>),
) -> Body {
    (emits_model(b.0@), functions_model(b.1@), constants_model(b.2@))
}

pub open spec fn opt_body(
    o: Option<(Vec<CstEmitStatement>, Vec<CstFunctionStatement>, Vec<CstConstantStatement>)>,
) -> Option<Body> {
    match o {
        Some(b) => Some(body_model(b)),
        None => None,
    }
}

fn message(prefix: &str, text: &str) -> (r: String)
    ensures
        r@ == prefix@ + text@,
{
    let mut m = prefix.to_owned();
    m.append(text);
    m
}

fn node_types(node: &AstNode) -> (r: Vec<AstNodeType>)
    ensures
        r@ == child_types(*node),
{
    let mut r: Vec<AstNodeType> = Vec::new();
    let mut i: usize = 0;
    while i < node.children.len()
        invariant
            i <= node.children@.len(),
            r@ =~= child_types(*node).subrange(0, i as int),
        decreases node.children@.len() - i,
    {
        r.push(node.children[i].node_type);
        i = i + 1;
    }
    r
}

/// The text of a leaf node.
fn parse_value_of(node: &AstNode) -> (r: Result<String, CstError>)
    ensures
        match value_of(*node) {
            Ok(v) => r is Ok && r->Ok_0@ == v,
            Err(e) => r is Err && r->Err_0@ == e,
        },
{
    if node.children.len() != 0 {
        return Err(
            CstError::UnexpectedChildren { node_type: node.node_type, children: node_types(node) },
        );
    }
    match &node.content {
        Some(c) => Ok(c.clone()),
        None => Err(CstError::MissingContent { node_type: node.node_type }),
    }
}

fn guard_node_type(node: &AstNode, expected_type: AstNodeType) -> (r: Result<(), CstError>)
    ensures
        node.node_type == expected_type ==> r is Ok,
        node.node_type != expected_type ==> r is Err && r->Err_0@ == unexpected(
            seq![expected_type],
            *node,
        ),
{
    if node.node_type != expected_type {
        let expected = vec![expected_type];
        assert(expected@ =~= seq![expected_type]);
        return Err(CstError::UnexpectedNode { actual: node.node_type, expected });
    }
    Ok(())
}

fn guard_empty<T>(option: &Option<T>) -> (r: Result<(), CstError>)
    ensures
        option is Some ==> r is Err && r->Err_0@ == CstErrorModel::DuplicateNode,
        option is None ==> r is Ok,
{
    if option.is_some() {
        return Err(CstError::DuplicateNode);
    }
    Ok(())
}

fn parse_atom_hex_into(node: &AstNode, buf: &mut Vec<CstAtom>) -> (r: Result<(), CstError>)
    requires
        node.node_type == AstNodeType::AtomHex,
    ensures
        match atom_of(*node) {
            Ok(a) => r is Ok && atoms_model(final(buf)@) == atoms_model(old(buf)@) + a,
            Err(e) => r is Err && r->Err_0@ == e,
        },
        r is Err ==> final(buf)@ == old(buf)@,
{
    let content = match &node.content {
        Some(c) => c,
        None => {
            return Err(CstError::MissingContent { node_type: AstNodeType::AtomHex });
        },
    };
    let bytes = match decode_bytes_from_string(content.as_str()) {
        Ok(b) => b,
        Err(_) => {
            return Err(
                CstError::MalformedNodeValue { message: message("can't parse bytes ", content.as_str()) },
            );
        },
    };
    let ghost start = atoms_model(buf@);
    let mut i: usize = 0;
    while i < bytes.len()
        invariant
            i <= bytes@.len(),
            atoms_model(buf@) == start + hex_atoms(bytes@.subrange(0, i as int)),
        decreases bytes@.len() - i,
    {
        buf.push(CstAtom::Hex(bytes[i]));
        i = i + 1;
        assert(start + hex_atoms(bytes@.subrange(0, i as int)) =~= (start + hex_atoms(
            bytes@.subrange(0, i - 1),
        )).push(AtomModel::Hex(bytes@[i - 1])));
    }
    assert(bytes@.subrange(0, i as int) =~= bytes@);
    Ok(())
}

fn parse_atom_utf8_into(node: &AstNode, buf: &mut Vec<CstAtom>) -> (r: Result<(), CstError>)
    requires
        node.node_type == AstNodeType::AtomUtf8,
    ensures
        match atom_of(*node) {
            Ok(a) => r is Ok && atoms_model(final(buf)@) == atoms_model(old(buf)@) + a,
            Err(e) => r is Err && r->Err_0@ == e,
        },
        r is Err ==> final(buf)@ == old(buf)@,
{
    guard_node_type(node, AstNodeType::AtomUtf8)?;
    let content = parse_value_of(node)?;
    buf.push(CstAtom::String(content));
    Ok(())
}

fn parse_atom_constant_into(node: &AstNode, buf: &mut Vec<CstAtom>) -> (r: Result<(), CstError>)
    requires
        node.node_type == AstNodeType::AtomConst,
    ensures
        match atom_of(*node) {
            Ok(a) => r is Ok && atoms_model(final(buf)@) == atoms_model(old(buf)@) + a,
            Err(e) => r is Err && r->Err_0@ == e,
        },
        r is Err ==> final(buf)@ == old(buf)@,
{
    guard_node_type(node, AstNodeType::AtomConst)?;
    let content = parse_value_of(node)?;
    buf.push(CstAtom::Constant { name: content });
    Ok(())
}

fn parse_number_base(base: &String) -> (r: Result<u32, CstError>)
    ensures
        match parsed_u32(base@, 10) {
            Some(b) => r is Ok && r->Ok_0 == b,
            None => r is Err && r->Err_0@ == CstErrorModel::MalformedNodeValue(
                "can't parse base "@ + base@,
            ),
        },
{
    match parse_u32_radix(base.as_str(), 10) {
        Some(b) => Ok(b),
        None => Err(CstError::MalformedNodeValue { message: message("can't parse base ", base.as_str()) }),
    }
}

fn parse_atom_base_num_into(node: &AstNode, buf: &mut Vec<CstAtom>) -> (r: Result<(), CstError>)
    requires
        node.node_type == AstNodeType::AtomBaseNumber,
    ensures
        match atom_of(*node) {
            Ok(a) => r is Ok && atoms_model(final(buf)@) == atoms_model(old(buf)@) + a,
            Err(e) => r is Err && r->Err_0@ == e,
        },
        r is Err ==> final(buf)@ == old(buf)@,
{
    guard_node_type(node, AstNodeType::AtomBaseNumber)?;
    let mut base: Option<u32> = None;
    let mut value: Option<String> = None;
    let mut i: usize = 0;
    while i < node.children.len()
        invariant
            i <= node.children@.len(),
            node.node_type == AstNodeType::AtomBaseNumber,
            base_number_fields(node.children@, 0, None, None) == base_number_fields(
                node.children@,
                i as nat,
                base,
                opt_text(value),
            ),
        decreases node.children@.len() - i,
    {
        let child = &node.children[i];
        if child.node_type == AstNodeType::AtomBaseNumberBase {
            guard_empty(&base)?;
            let text = parse_value_of(child)?;
            base = Some(parse_number_base(&text)?);
        } else if child.node_type == AstNodeType::AtomBaseNumberValue {
            guard_empty(&value)?;
            value = Some(parse_value_of(child)?);
        } else {
            let expected = vec![AstNodeType::AtomBaseNumberBase, AstNodeType::AtomBaseNumberValue];
            assert(expected@ =~= seq![AstNodeType::AtomBaseNumberBase, AstNodeType::AtomBaseNumberValue]);
            return Err(CstError::UnexpectedNode { actual: child.node_type, expected });
        }
        i = i + 1;
    }
    let base = match base {
        Some(b) => b,
        None => {
            return Err(CstError::MissingContent { node_type: AstNodeType::AtomBaseNumberBase });
        },
    };
    let value = match value {
        Some(v) => v,
        None => {
            return Err(CstError::MissingContent { node_type: AstNodeType::AtomBaseNumberValue });
        },
    };
    match parse_u32_radix(value.as_str(), base) {
        Some(n) => {
            buf.push(CstAtom::Number(n));
            Ok(())
        },
        None => Err(
            CstError::MalformedNodeValue { message: message("can't parse number ", value.as_str()) },
        ),
    }
}

/// Decodes the atoms under `nodes`, in order, onto the end of `buf`.
fn parse_atoms_into(nodes: &Vec<AstNode>, buf: &mut Vec<CstAtom>) -> (r: Result<(), CstError>)
    ensures
        match atoms_of(nodes@, 0, atoms_model(old(buf)@)) {
            Ok(a) => r is Ok && atoms_model(final(buf)@) == a,
            Err(e) => r is Err && r->Err_0@ == e,
        },
    decreases nodes@, 0nat,
{
    let mut i: usize = 0;
    while i < nodes.len()
        invariant
            i <= nodes@.len(),
            atoms_of(nodes@, 0, atoms_model(old(buf)@)) == atoms_of(
                nodes@,
                i as nat,
                atoms_model(buf@),
            ),
        decreases nodes@.len() - i,
    {
        assert(decreases_to!(nodes@ => nodes@[i as int]));
        parse_atom_into(&nodes[i], buf)?;
        i = i + 1;
    }
    Ok(())
}

/// The identifier and the value atoms of one `AtomFnParam` node.
fn parse_param_fields(node: &AstNode) -> (r: Result<(Option<String>, Vec<CstAtom>), CstError>)
    ensures
        match param_fields(node.children@, 0, None, Seq::empty()) {
            Ok((name, value)) => r is Ok && opt_text(r->Ok_0.0) == name && atoms_model(
                r->Ok_0.1@,
            ) == value,
            Err(e) => r is Err && r->Err_0@ == e,
        },
    decreases *node, 0nat,
{
    let mut value: Vec<CstAtom> = Vec::new();
    let mut name: Option<String> = None;
    let mut j: usize = 0;
    assert(atoms_model(value@) =~= Seq::<AtomModel>::empty());
    while j < node.children.len()
        invariant
            j <= node.children@.len(),
            param_fields(node.children@, 0, None, Seq::empty()) == param_fields(
                node.children@,
                j as nat,
                opt_text(name),
                atoms_model(value@),
            ),
        decreases node.children@.len() - j,
    {
        let p_child = &node.children[j];
        if p_child.node_type == AstNodeType::AtomFnParamValue {
            assert(decreases_to!(*node => p_child.children@));
            parse_atoms_into(&p_child.children, &mut value)?;
        } else if p_child.node_type == AstNodeType::AtomFnParamIdentifier {
            guard_empty(&name)?;
            name = Some(parse_value_of(p_child)?);
        } else {
            let expected = vec![AstNodeType::AtomFnParamValue];
            assert(expected@ =~= seq![AstNodeType::AtomFnParamValue]);
            return Err(CstError::UnexpectedNode { actual: p_child.node_type, expected });
        }
        j = j + 1;
    }
    Ok((name, value))
}

fn parse_atom_fn_params(node: &AstNode) -> (r: Result<Vec<CstActualParameter>, CstError>)
    ensures
        match params_of(*node) {
            Ok(p) => r is Ok && params_model(r->Ok_0@) == p,
            Err(e) => r is Err && r->Err_0@ == e,
        },
    decreases *node, 1nat,
{
    guard_node_type(node, AstNodeType::AtomFnParams)?;
    let mut buf: Vec<CstActualParameter> = Vec::new();
    let mut i: usize = 0;
    assert(params_model(buf@) =~= Seq::<ParamModel>::empty());
    while i < node.children.len()
        invariant
            i <= node.children@.len(),
            node.node_type == AstNodeType::AtomFnParams,
            params_of(*node) == params_from(node.children@, i as nat, params_model(buf@)),
        decreases node.children@.len() - i,
    {
        let child = &node.children[i];
        guard_node_type(child, AstNodeType::AtomFnParam)?;
        let (name, value) = parse_param_fields(child)?;
        let param_name = match name {
            Some(n) => n,
            None => decimal_string(i),
        };
        buf.push(CstActualParameter::new(param_name, value));
        i = i + 1;
    }
    Ok(buf)
}

fn parse_atom_function_into(node: &AstNode, buf: &mut Vec<CstAtom>) -> (r: Result<(), CstError>)
    requires
        node.node_type == AstNodeType::AtomFn,
    ensures
        match atom_of(*node) {
            Ok(a) => r is Ok && atoms_model(final(buf)@) == atoms_model(old(buf)@) + a,
            Err(e) => r is Err && r->Err_0@ == e,
        },
        r is Err ==> final(buf)@ == old(buf)@,
    decreases *node, 2nat,
{
    guard_node_type(node, AstNodeType::AtomFn)?;
    let mut name: Option<String> = None;
    let mut params: Option<Vec<CstActualParameter>> = None;
    let mut i: usize = 0;
    while i < node.children.len()
        invariant
            i <= node.children@.len(),
            node.node_type == AstNodeType::AtomFn,
            function_fields(node.children@, 0, None, None) == function_fields(
                node.children@,
                i as nat,
                opt_text(name),
                opt_params(params),
            ),
        decreases node.children@.len() - i,
    {
        let child = &node.children[i];
        if child.node_type == AstNodeType::AtomFnName {
            guard_empty(&name)?;
            name = Some(parse_value_of(child)?);
        } else if child.node_type == AstNodeType::AtomFnParams {
            guard_empty(&params)?;
            params = Some(parse_atom_fn_params(child)?);
        } else {
            let expected = vec![AstNodeType::AtomFnName, AstNodeType::AtomFnParams];
            assert(expected@ =~= seq![AstNodeType::AtomFnName, AstNodeType::AtomFnParams]);
            return Err(CstError::UnexpectedNode { actual: child.node_type, expected });
        }
        i = i + 1;
    }
    let name_value = match name {
        Some(n) => n,
        None => {
            return Err(CstError::MissingContent { node_type: AstNodeType::AtomFnName });
        },
    };
    let params_value = match params {
        Some(p) => p,
        None => {
            let p: Vec<CstActualParameter> = Vec::new();
            assert(params_model(p@) =~= Seq::<ParamModel>::empty());
            p
        },
    };
    buf.push(CstAtom::Function { name: name_value, params: params_value });
    Ok(())
}

/// Decodes one atom node onto the end of `buf`.
fn parse_atom_into(node: &AstNode, buf: &mut Vec<CstAtom>) -> (r: Result<(), CstError>)
    ensures
        match atom_of(*node) {
            Ok(a) => r is Ok && atoms_model(final(buf)@) == atoms_model(old(buf)@) + a,
            Err(e) => r is Err && r->Err_0@ == e,
        },
        r is Err ==> final(buf)@ == old(buf)@,
    decreases *node, 3nat,
{
    match node.node_type {
        AstNodeType::AtomHex => parse_atom_hex_into(node, buf),
        AstNodeType::AtomUtf8 => parse_atom_utf8_into(node, buf),
        AstNodeType::AtomBaseNumber => parse_atom_base_num_into(node, buf),
        AstNodeType::AtomConst => parse_atom_constant_into(node, buf),
        AstNodeType::AtomFn => parse_atom_function_into(node, buf),
        _ => {
            let expected = vec![
                AstNodeType::AtomHex,
                AstNodeType::AtomUtf8,
                AstNodeType::AtomBaseNumber,
                AstNodeType::AtomConst,
                AstNodeType::AtomFn,
            ];
            assert(expected@ =~= atom_kinds());
            Err(CstError::UnexpectedNode { actual: node.node_type, expected })
        },
    }
}

fn parse_emit_statement(node: &AstNode) -> (r: Result<CstEmitStatement, CstError>)
    ensures
        match emit_of(*node) {
            Ok(a) => r is Ok && atoms_model(r->Ok_0.atoms@) == a,
            Err(e) => r is Err && r->Err_0@ == e,
        },
    decreases *node, 0nat,
{
    guard_node_type(node, AstNodeType::StatementEmit)?;
    let mut atoms: Vec<CstAtom> = Vec::new();
    assert(atoms_model(atoms@) =~= Seq::<AtomModel>::empty());
    assert(decreases_to!(*node => node.children@));
    parse_atoms_into(&node.children, &mut atoms)?;
    Ok(CstEmitStatement::new(atoms))
}

fn parse_constant(node: &AstNode) -> (r: Result<CstConstantStatement, CstError>)
    ensures
        match constant_of(*node) {
            Ok(c) => r is Ok && c == (ConstantModel {
                name: r->Ok_0.name@,
                atoms: atoms_model(r->Ok_0.atoms@),
            }),
            Err(e) => r is Err && r->Err_0@ == e,
        },
    decreases *node, 0nat,
{
    guard_node_type(node, AstNodeType::StatementConst)?;
    let mut atom_buff: Vec<CstAtom> = Vec::new();
    let mut name: Option<String> = None;
    let mut i: usize = 0;
    assert(atoms_model(atom_buff@) =~= Seq::<AtomModel>::empty());
    while i < node.children.len()
        invariant
            i <= node.children@.len(),
            node.node_type == AstNodeType::StatementConst,
            constant_fields(node.children@, 0, None, Seq::empty()) == constant_fields(
                node.children@,
                i as nat,
                opt_text(name),
                atoms_model(atom_buff@),
            ),
        decreases node.children@.len() - i,
    {
        let child = &node.children[i];
        if child.node_type == AstNodeType::StatementConstName {
            guard_empty(&name)?;
            name = Some(parse_value_of(child)?);
        } else {
            parse_atom_into(child, &mut atom_buff)?;
        }
        i = i + 1;
    }
    match name {
        Some(n) => Ok(CstConstantStatement::new(n, atom_buff)),
        None => Err(CstError::MissingContent { node_type: AstNodeType::StatementConstName }),
    }
}

fn parse_function(node: &AstNode) -> (r: Result<CstFunctionStatement, CstError>)
    ensures
        match function_of(*node) {
            Ok(f) => r is Ok && function_model(r->Ok_0) == f,
            Err(e) => r is Err && r->Err_0@ == e,
        },
    decreases *node, 1nat,
{
    let mut name: Option<String> = None;
    let mut body: Option<(Vec<CstEmitStatement>, Vec<CstFunctionStatement>, Vec<CstConstantStatement>)> = None;
    let mut i: usize = 0;
    while i < node.children.len()
        invariant
            i <= node.children@.len(),
            function_statement_fields(node.children@, 0, None, None) == function_statement_fields(
                node.children@,
                i as nat,
                opt_text(name),
                opt_body(body),
            ),
        decreases node.children@.len() - i,
    {
        let child = &node.children[i];
        if child.node_type == AstNodeType::StatementFnName {
            guard_empty(&name)?;
            name = Some(parse_value_of(child)?);
        } else if child.node_type == AstNodeType::StatementFnBody {
            guard_empty(&body)?;
            body = Some(parse_function_body(child)?);
        } else {
            let expected = vec![AstNodeType::StatementFnName, AstNodeType::StatementFnBody];
            assert(expected@ =~= seq![AstNodeType::StatementFnName, AstNodeType::StatementFnBody]);
            return Err(CstError::UnexpectedNode { actual: child.node_type, expected });
        }
        i = i + 1;
    }
    let name = match name {
        Some(n) => n,
        None => {
            return Err(CstError::MissingContent { node_type: AstNodeType::StatementFnName });
        },
    };
    let (emits, functions, constants) = match body {
        Some(b) => b,
        None => {
            let b = (Vec::new(), Vec::new(), Vec::new());
            assert(body_model(b) =~~= empty_body());
            b
        },
    };
    Ok(CstFunctionStatement::new(name, emits, functions, constants))
}

/// The statements of a body, sorted into emits, functions and constants.
fn parse_function_body(node: &AstNode) -> (r: Result<
    (Vec<CstEmitStatement>, Vec<CstFunctionStatement>, Vec<CstConstantStatement>),
    CstError,
>)
    ensures
        match body_of(node.children@, 0, empty_body()) {
            Ok(b) => r is Ok && body_model(r->Ok_0) == b,
            Err(e) => r is Err && r->Err_0@ == e,
        },
    decreases *node, 0nat,
{
    let mut emits: Vec<CstEmitStatement> = Vec::new();
    let mut functions: Vec<CstFunctionStatement> = Vec::new();
    let mut constants: Vec<CstConstantStatement> = Vec::new();
    let mut i: usize = 0;
    assert(body_model((emits, functions, constants)) =~~= empty_body());
    while i < node.children.len()
        invariant
            i <= node.children@.len(),
            body_of(node.children@, 0, empty_body()) == body_of(
                node.children@,
                i as nat,
                (emits_model(emits@), functions_model(functions@), constants_model(constants@)),
            ),
        decreases node.children@.len() - i,
    {
        let child = &node.children[i];
        if child.node_type == AstNodeType::StatementConst {
            constants.push(parse_constant(child)?);
        } else if child.node_type == AstNodeType::StatementEmit {
            emits.push(parse_emit_statement(child)?);
        } else if child.node_type == AstNodeType::StatementFn {
            functions.push(parse_function(child)?);
        } else {
            let expected = vec![
                AstNodeType::StatementConst,
                AstNodeType::StatementEmit,
                AstNodeType::StatementFn,
            ];
            assert(expected@ =~= statement_kinds());
            return Err(CstError::UnexpectedNode { actual: child.node_type, expected });
        }
        i = i + 1;
    }
    Ok((emits, functions, constants))
}

fn parse_file(path: &str, node: &AstNode) -> (r: Result<CstFile, CstError>)
    ensures
        match file_of(*node) {
            Ok(f) => r is Ok && function_model(r->Ok_0.main) == f && r->Ok_0.path@ == path@,
            Err(e) => r is Err && r->Err_0@ == e,
        },
{
    guard_node_type(node, AstNodeType::File)?;
    let (emits, functions, constants) = parse_function_body(node)?;
    let main = CstFunctionStatement::new("main".to_owned(), emits, functions, constants);
    Ok(CstFile::new(path.to_owned(), main))
}

/// Builds the typed tree of a file from its syntax tree.
#[derive(Debug)]
pub struct CstParser {}

impl CstParser {
    pub fn new() -> (r: CstParser) {
        CstParser {  }
    }

    /// The typed tree of the file at `path` whose syntax tree is `ast_root`:
    /// its statements become the body of an implicit `main` function.
    pub fn parse(&self, path: &str, ast_root: AstNode) -> (r: Result<CstFile, CstError>)
        ensures
            match file_of(ast_root) {
                Ok(f) => r is Ok && function_model(r->Ok_0.main) == f && r->Ok_0.path@ == path@,
                Err(e) => r is Err && r->Err_0@ == e,
            },
    {
        parse_file(path, &ast_root)
    }
}

} // verus!
