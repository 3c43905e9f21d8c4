use vstd::prelude::*;
use vstd::utf8::encode_utf8;

use crate::ast::AstNode;
use crate::byte_buffer::shrunk;
use crate::cst::{AtomModel, ConstantModel, FunctionModel};
use crate::cst_parser::file_of;
use crate::id::HexoId;
use crate::rst::{
    bind_constants, bind_functions, build_scope, compile_spec, eval_atom, eval_atoms, eval_emits,
    Flow, Forest, Log,
};
use crate::scope::bind_constant;

verus! {

/// An atom that stands for fixed bytes: hex, text or a number.
pub open spec fn is_literal(a: AtomModel) -> bool {
    a is Hex || a is Text || a is Number
}

pub open spec fn literal_atoms(s: Seq<AtomModel>) -> bool {
    forall|i: int| 0 <= i < s.len() ==> is_literal(#[trigger] s[i])
}

/// The bytes a literal atom stands for.
pub open spec fn atom_bytes(a: AtomModel) -> Seq<u8> {
    match a {
        AtomModel::Hex(b) => seq![b],
        AtomModel::Text(t) => encode_utf8(t),
        AtomModel::Number(n) => shrunk(n as nat),
        _ => Seq::empty(),
    }
}

/// The bytes of literal atoms, concatenated in order.
pub open spec fn literal_bytes(s: Seq<AtomModel>) -> Seq<u8>
    decreases s.len(),
{
    if s.len() == 0 {
        Seq::empty()
    } else {
        atom_bytes(s[0]) + literal_bytes(s.subrange(1, s.len() as int))
    }
}

/// The bytes of the literal atoms of emit statements, concatenated in order.
pub open spec fn emitted_literals(emits: Seq<Seq<AtomModel>>) -> Seq<u8>
    decreases emits.len(),
{
    if emits.len() == 0 {
        Seq::empty()
    } else {
        literal_bytes(emits[0]) + emitted_literals(emits.subrange(1, emits.len() as int))
    }
}

/// A function, with everything nested in it, whose atoms are all literal:
/// no constant references and no calls.
pub open spec fn literal_program(f: FunctionModel) -> bool
    decreases f,
{
    &&& forall|i: int| 0 <= i < f.emits.len() ==> literal_atoms(#[trigger] f.emits[i])
    &&& forall|i: int| 0 <= i < f.constants.len() ==> literal_atoms(#[trigger] f.constants[i].atoms)
    &&& forall|i: int| 0 <= i < f.functions.len() ==> literal_program(#[trigger] f.functions[i])
}

proof fn lemma_literal_atoms(
    depth: nat,
    safe: bool,
    forest: Forest,
    scope: HexoId,
    s: Seq<AtomModel>,
    acc: Seq<u8>,
    log: Log,
)
    requires
        literal_atoms(s),
    ensures
        eval_atoms(depth, safe, forest, scope, s, acc, log) == Flow::Done(
            ((forest, acc + literal_bytes(s)), log),
        ),
    decreases s.len(),
{
    if s.len() == 0 {
        assert(acc + Seq::<u8>::empty() =~= acc);
    } else {
        let rest = s.subrange(1, s.len() as int);
        assert(is_literal(s[0]));
        assert(literal_atoms(rest)) by {
            assert forall|i: int| 0 <= i < rest.len() implies is_literal(#[trigger] rest[i]) by {
                assert(rest[i] == s[i + 1]);
            }
        }
        let acc1 = acc + atom_bytes(s[0]);
        match s[0] {
            AtomModel::Hex(b) => {
                assert(acc.push(b) =~= acc1);
            },
            _ => {},
        }
        assert(eval_atom(depth, safe, forest, scope, s[0], acc, log) == Flow::Done(((forest, acc1), log)));
        lemma_literal_atoms(depth, safe, forest, scope, rest, acc1, log);
        assert(acc1 + literal_bytes(rest) =~= acc + literal_bytes(s));
    }
}

proof fn lemma_literal_emits(
    depth: nat,
    safe: bool,
    forest: Forest,
    scope: HexoId,
    emits: Seq<Seq<AtomModel>>,
    acc: Seq<u8>,
    log: Log,
)
    requires
        forall|i: int| 0 <= i < emits.len() ==> literal_atoms(#[trigger] emits[i]),
    ensures
        eval_emits(depth, safe, forest, scope, emits, acc, log) == Flow::Done(
            ((forest, acc + emitted_literals(emits)), log),
        ),
    decreases emits.len(),
{
    if emits.len() == 0 {
        assert(acc + Seq::<u8>::empty() =~= acc);
    } else {
        let rest = emits.subrange(1, emits.len() as int);
        assert(literal_atoms(emits[0]));
        lemma_literal_atoms(depth, safe, forest, scope, emits[0], acc, log);
        let acc1 = acc + literal_bytes(emits[0]);
        assert forall|i: int| 0 <= i < rest.len() implies literal_atoms(#[trigger] rest[i]) by {
            assert(rest[i] == emits[i + 1]);
        }
        lemma_literal_emits(depth, safe, forest, scope, rest, acc1, log);
        assert(acc1 + emitted_literals(rest) =~= acc + emitted_literals(emits));
    }
}

proof fn lemma_literal_constants(
    depth: nat,
    safe: bool,
    forest: Forest,
    id: HexoId,
    cs: Seq<ConstantModel>,
    log: Log,
)
    requires
        forall|i: int| 0 <= i < cs.len() ==> literal_atoms(#[trigger] cs[i].atoms),
    ensures
        bind_constants(depth, safe, forest, id, cs, log) matches Flow::Done((_, l)) && l == log,
    decreases cs.len(),
{
    if cs.len() > 0 {
        let rest = cs.subrange(1, cs.len() as int);
        assert(literal_atoms(cs[0].atoms));
        lemma_literal_atoms(depth, safe, forest, id, cs[0].atoms, Seq::empty(), log);
        assert forall|i: int| 0 <= i < rest.len() implies literal_atoms(#[trigger] rest[i].atoms) by {
            assert(rest[i] == cs[i + 1]);
        }
        let bytes = Seq::<u8>::empty() + literal_bytes(cs[0].atoms);
        lemma_literal_constants(depth, safe, bind_constant(forest, id, cs[0].name, bytes), id, rest, log);
    }
}

proof fn lemma_literal_scope(depth: nat, safe: bool, forest: Forest, id: HexoId, f: FunctionModel, log: Log)
    requires
        literal_program(f),
    ensures
        build_scope(depth, safe, forest, id, f, log) matches Flow::Done((_, l)) && l == log,
    decreases f, 1nat,
{
    lemma_literal_constants(depth, safe, forest, id, f.constants, log);
    let f1 = match bind_constants(depth, safe, forest, id, f.constants, log) {
        Flow::Done((f1, _)) => f1,
        _ => forest,
    };
    lemma_literal_functions(depth, safe, f1, id, f.functions, log);
}

proof fn lemma_literal_functions(
    depth: nat,
    safe: bool,
    forest: Forest,
    id: HexoId,
    fs: Seq<FunctionModel>,
    log: Log,
)
    requires
        forall|i: int| 0 <= i < fs.len() ==> literal_program(#[trigger] fs[i]),
    ensures
        bind_functions(depth, safe, forest, id, fs, log) matches Flow::Done((_, l)) && l == log,
    decreases fs, 0nat,
{
    if fs.len() > 0 {
        assert(literal_program(fs[0]));
        let inner = crate::scope::next_scope_id(forest);
        let f1 = crate::scope::bind_function(
            forest.push((inner, crate::scope::empty_scope())),
            id,
            fs[0].name,
            crate::scope::FunctionBindingModel { identifier: inner, emits: fs[0].emits },
        );
        lemma_literal_scope(depth, safe, f1, inner, fs[0], log);
        let f2 = match build_scope(depth, safe, f1, inner, fs[0], log) {
            Flow::Done((f2, _)) => f2,
            _ => f1,
        };
        let rest = fs.subrange(1, fs.len() as int);
        assert forall|i: int| 0 <= i < rest.len() implies literal_program(#[trigger] rest[i]) by {
            assert(rest[i] == fs[i + 1]);
        }
        lemma_literal_functions(
            depth,
            safe,
            crate::scope::attach_parents(f2, inner, seq![id]),
            id,
            rest,
            log,
        );
    }
}

/// A `main` function whose atoms are all literal compiles, in either mode
/// and whatever the host would answer, to the bytes of the literal atoms of
/// its emit statements in source order; the host is never asked.
pub proof fn literal_main_emits_its_literals(main: FunctionModel, safe: bool, depth: nat, log: Log)
    requires
        literal_program(main),
    ensures
        compile_spec(main, safe, depth, log) matches Flow::Done(((_, out), rest)) && out
            == emitted_literals(main.emits) && rest == log,
{
    let start = seq![(crate::rst::root_scope_id(), crate::scope::empty_scope())];
    let id = crate::rst::root_scope_id();
    lemma_literal_scope(depth, safe, start, id, main, log);
    let f1 = match build_scope(depth, safe, start, id, main, log) {
        Flow::Done((f1, _)) => f1,
        _ => start,
    };
    lemma_literal_emits(depth, safe, f1, id, main.emits, Seq::empty(), log);
    assert(Seq::<u8>::empty() + emitted_literals(main.emits) =~= emitted_literals(main.emits));
}

/// A program whose atoms are all literal compiles, in either mode and
/// whatever the host would answer, to the bytes of the literal atoms of
/// `main`'s emit statements, in source order, as the typed tree built from
/// its syntax tree holds them; the host is never asked.
pub proof fn literal_program_emits_its_literals(root: AstNode, safe: bool, depth: nat, log: Log)
    requires
        file_of(root) is Ok,
        literal_program(file_of(root)->Ok_0),
    ensures
        compile_spec(file_of(root)->Ok_0, safe, depth, log) matches Flow::Done(((_, out), rest))
            && out == emitted_literals(file_of(root)->Ok_0.emits) && rest == log,
{
    literal_main_emits_its_literals(file_of(root)->Ok_0, safe, depth, log);
}

} // verus!
