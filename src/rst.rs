use vstd::prelude::*;
use vstd::utf8::encode_utf8;

use crate::byte_buffer::{shrunk, ByteBuffer};
use crate::cst::{
    atom_model, atoms_model, emits_model, function_model, group_cst_model, params_model,
    AtomModel, ConstantModel, CstActualParameter, CstAtom, CstEmitStatement, CstFile,
    CstFunctionStatement, FunctionModel, ParamModel,
};
use crate::id::HexoId;
use crate::native::{
    kind_is_safe, native_kind, native_with_log, run_native, Exchange, NativeErrorModel,
    NativeFnError, NativeFunctionArguments, NativeHost,
};
use crate::scope::{
    attach_parents, bind_constant, bind_function, empty_scope, lookup_constant, lookup_function,
    next_scope_id, table_set, CompilationScope, ConstantBinding, ForestModel, FunctionBinding,
    FunctionBindingModel,
};

verus! {

broadcast use group_cst_model;

/// How deeply user function calls may nest unless the compiler is given
/// another limit: deeper calls fail with `CallDepthExceeded` instead of
/// exhausting the stack. The limit counts nested calls, recursive or not.
pub const DEFAULT_MAX_CALL_DEPTH: usize = 256;

/// A failure to resolve or emit a program.
#[derive(Debug)]
pub enum RstError {
    UnresolvedConstant { name: String },
    UnresolvedFunction { name: String },
    NativeFunctionExecution(NativeFnError),
    NativeFunctionIsUnsafe { name: String },
    CallDepthExceeded { name: String },
}

pub enum RstErrorModel {
    UnresolvedConstant(Seq<char>),
    UnresolvedFunction(Seq<char>),
    NativeFunctionExecution(NativeErrorModel),
    NativeFunctionIsUnsafe(Seq<char>),
    CallDepthExceeded(Seq<char>),
}

impl View for RstError {
    type V = RstErrorModel;

    open spec fn view(&self) -> RstErrorModel {
        match self {
            RstError::UnresolvedConstant { name } => RstErrorModel::UnresolvedConstant(name@),
            RstError::UnresolvedFunction { name } => RstErrorModel::UnresolvedFunction(name@),
            RstError::NativeFunctionExecution(e) => RstErrorModel::NativeFunctionExecution(e@),
            RstError::NativeFunctionIsUnsafe { name } => RstErrorModel::NativeFunctionIsUnsafe(name@),
            RstError::CallDepthExceeded { name } => RstErrorModel::CallDepthExceeded(name@),
        }
    }
}

/// Where an evaluation ends: a value with the host exchanges not yet used,
/// a failure, or a request to the host that the log does not answer.
pub enum Flow<T> {
    Done(T),
    Failed(RstErrorModel),
    Outside,
}

pub type Forest = ForestModel;

pub type Args = Seq<(Seq<char>, Seq<u8>)>;

/// The host's answers, in the order they were asked for.
pub type Log = Seq<Exchange>;

/// The flow an executable step settles to: its value with the exchanges
/// `rest` left over, or its failure.
pub open spec fn settled<T>(r: Result<(), RstError>, value: T, rest: Log) -> Flow<(T, Log)> {
    match r {
        Ok(_) => Flow::Done((value, rest)),
        Err(e) => Flow::Failed(e@),
    }
}

/// Emits one atom in scope `scope`, after the bytes `acc`; the host answers
/// its requests from `log`, in order.
pub open spec fn eval_atom(
    depth: nat,
    safe: bool,
    forest: Forest,
    scope: HexoId,
    a: AtomModel,
    acc: Seq<u8>,
    log: Log,
) -> Flow<((Forest, Seq<u8>), Log)>
    decreases depth, a, 0nat,
{
    match a {
        AtomModel::Hex(b) => Flow::Done(((forest, acc.push(b)), log)),
        AtomModel::Text(s) => Flow::Done(((forest, acc + encode_utf8(s)), log)),
        AtomModel::Number(n) => Flow::Done(((forest, acc + shrunk(n as nat)), log)),
        AtomModel::Constant(name) => match lookup_constant(forest, scope, name) {
            Some(v) => Flow::Done(((forest, acc + v), log)),
            None => Flow::Failed(RstErrorModel::UnresolvedConstant(name)),
        },
        AtomModel::Function(name, params) => match native_kind(name) {
            Some(k) => if safe && !kind_is_safe(k) {
                Flow::Failed(RstErrorModel::NativeFunctionIsUnsafe(name))
            } else {
                match eval_args(depth, safe, forest, scope, params, Seq::empty(), log) {
                    Flow::Done(((f1, args), log1)) => match native_with_log(k, args, log1) {
                        Some((Ok(b), log2)) => Flow::Done(((f1, acc + b), log2)),
                        Some((Err(e), _)) => Flow::Failed(RstErrorModel::NativeFunctionExecution(e)),
                        None => Flow::Outside,
                    },
                    Flow::Failed(e) => Flow::Failed(e),
                    Flow::Outside => Flow::Outside,
                }
            },
            None => match lookup_function(forest, scope, name) {
                None => Flow::Failed(RstErrorModel::UnresolvedFunction(name)),
                Some(fb) => if depth == 0 {
                    Flow::Failed(RstErrorModel::CallDepthExceeded(name))
                } else {
                    match bind_args(depth, safe, forest, scope, fb.identifier, params, log) {
                        Flow::Done((f1, log1)) => eval_emits(
                            (depth - 1) as nat,
                            safe,
                            f1,
                            fb.identifier,
                            fb.emits,
                            acc,
                            log1,
                        ),
                        Flow::Failed(e) => Flow::Failed(e),
                        Flow::Outside => Flow::Outside,
                    }
                },
            },
        },
    }
}

/// Emits the atoms `atoms` in order, after the bytes `acc`.
pub open spec fn eval_atoms(
    depth: nat,
    safe: bool,
    forest: Forest,
    scope: HexoId,
    atoms: Seq<AtomModel>,
    acc: Seq<u8>,
    log: Log,
) -> Flow<((Forest, Seq<u8>), Log)>
    decreases depth, atoms, 0nat,
{
    if atoms.len() == 0 {
        Flow::Done(((forest, acc), log))
    } else {
        match eval_atom(depth, safe, forest, scope, atoms[0], acc, log) {
            Flow::Done(((f1, acc1), log1)) => eval_atoms(
                depth,
                safe,
                f1,
                scope,
                atoms.subrange(1, atoms.len() as int),
                acc1,
                log1,
            ),
            Flow::Failed(e) => Flow::Failed(e),
            Flow::Outside => Flow::Outside,
        }
    }
}

/// Evaluates the actual parameters of a builtin call into named arguments,
/// added to `args`.
pub open spec fn eval_args(
    depth: nat,
    safe: bool,
    forest: Forest,
    scope: HexoId,
    params: Seq<ParamModel>,
    args: Args,
    log: Log,
) -> Flow<((Forest, Args), Log)>
    decreases depth, params, 0nat,
{
    if params.len() == 0 {
        Flow::Done(((forest, args), log))
    } else {
        match eval_atoms(depth, safe, forest, scope, params[0].value, Seq::empty(), log) {
            Flow::Done(((f1, bytes), log1)) => eval_args(
                depth,
                safe,
                f1,
                scope,
                params.subrange(1, params.len() as int),
                table_set(args, params[0].name, bytes),
                log1,
            ),
            Flow::Failed(e) => Flow::Failed(e),
            Flow::Outside => Flow::Outside,
        }
    }
}

/// Evaluates each actual parameter in `scope` and binds it as a constant in
/// the called function's scope `target`, one after the other.
pub open spec fn bind_args(
    depth: nat,
    safe: bool,
    forest: Forest,
    scope: HexoId,
    target: HexoId,
    params: Seq<ParamModel>,
    log: Log,
) -> Flow<(Forest, Log)>
    decreases depth, params, 0nat,
{
    if params.len() == 0 {
        Flow::Done((forest, log))
    } else {
        match eval_atoms(depth, safe, forest, scope, params[0].value, Seq::empty(), log) {
            Flow::Done(((f1, bytes), log1)) => bind_args(
                depth,
                safe,
                bind_constant(f1, target, params[0].name, bytes),
                scope,
                target,
                params.subrange(1, params.len() as int),
                log1,
            ),
            Flow::Failed(e) => Flow::Failed(e),
            Flow::Outside => Flow::Outside,
        }
    }
}

/// Emits the atom lists of emit statements in order, after the bytes `acc`.
pub open spec fn eval_emits(
    depth: nat,
    safe: bool,
    forest: Forest,
    scope: HexoId,
    emits: Seq<Seq<AtomModel>>,
    acc: Seq<u8>,
    log: Log,
) -> Flow<((Forest, Seq<u8>), Log)>
    decreases depth, emits, 0nat,
{
    if emits.len() == 0 {
        Flow::Done(((forest, acc), log))
    } else {
        match eval_atoms(depth, safe, forest, scope, emits[0], acc, log) {
            Flow::Done(((f1, acc1), log1)) => eval_emits(
                depth,
                safe,
                f1,
                scope,
                emits.subrange(1, emits.len() as int),
                acc1,
                log1,
            ),
            Flow::Failed(e) => Flow::Failed(e),
            Flow::Outside => Flow::Outside,
        }
    }
}

/// Evaluates each constant statement in scope `id` and binds its bytes there.
pub open spec fn bind_constants(
    depth: nat,
    safe: bool,
    forest: Forest,
    id: HexoId,
    constants: Seq<ConstantModel>,
    log: Log,
) -> Flow<(Forest, Log)>
    decreases constants.len(),
{
    if constants.len() == 0 {
        Flow::Done((forest, log))
    } else {
        match eval_atoms(depth, safe, forest, id, constants[0].atoms, Seq::empty(), log) {
            Flow::Done(((f1, bytes), log1)) => bind_constants(
                depth,
                safe,
                bind_constant(f1, id, constants[0].name, bytes),
                id,
                constants.subrange(1, constants.len() as int),
                log1,
            ),
            Flow::Failed(e) => Flow::Failed(e),
            Flow::Outside => Flow::Outside,
        }
    }
}

/// Builds the scope `id` of a function: its constants first, then, for each
/// nested function, a new scope bound under its name, built the same way and
/// then given `id` as its parent.
pub open spec fn build_scope(
    depth: nat,
    safe: bool,
    forest: Forest,
    id: HexoId,
    f: FunctionModel,
    log: Log,
) -> Flow<(Forest, Log)>
    decreases f, 1nat,
{
    match bind_constants(depth, safe, forest, id, f.constants, log) {
        Flow::Done((f1, log1)) => bind_functions(depth, safe, f1, id, f.functions, log1),
        Flow::Failed(e) => Flow::Failed(e),
        Flow::Outside => Flow::Outside,
    }
}

pub open spec fn bind_functions(
    depth: nat,
    safe: bool,
    forest: Forest,
    id: HexoId,
    functions: Seq<FunctionModel>,
    log: Log,
) -> Flow<(Forest, Log)>
    decreases functions, 0nat,
{
    if functions.len() == 0 {
        Flow::Done((forest, log))
    } else {
        let inner = next_scope_id(forest);
        let f1 = bind_function(
            forest.push((inner, empty_scope())),
            id,
            functions[0].name,
            FunctionBindingModel { identifier: inner, emits: functions[0].emits },
        );
        match build_scope(depth, safe, f1, inner, functions[0], log) {
            Flow::Done((f2, log1)) => bind_functions(
                depth,
                safe,
                attach_parents(f2, inner, seq![id]),
                id,
                functions.subrange(1, functions.len() as int),
                log1,
            ),
            Flow::Failed(e) => Flow::Failed(e),
            Flow::Outside => Flow::Outside,
        }
    }
}

/// The root scope of a compilation.
pub open spec fn root_scope_id() -> HexoId {
    next_scope_id(Seq::empty())
}

/// A whole compilation: the scope forest of `main`, then its emit statements
/// in the root scope, with calls nested at most `depth` deep and the host
/// answering from `log`.
pub open spec fn compile_spec(main: FunctionModel, safe: bool, depth: nat, log: Log) -> Flow<
    ((Forest, Seq<u8>), Log),
> {
    match build_scope(depth, safe, seq![(root_scope_id(), empty_scope())], root_scope_id(), main, log) {
        Flow::Done((f1, log1)) => eval_emits(
            depth,
            safe,
            f1,
            root_scope_id(),
            main.emits,
            Seq::empty(),
            log1,
        ),
        Flow::Failed(e) => Flow::Failed(e),
        Flow::Outside => Flow::Outside,
    }
}

/// The result of compiling one file: its path, its scope forest and the
/// bytes it emits.
#[derive(Debug)]
pub struct HexoFile<'a> {
    pub path: String,
    pub scope: CompilationScope<'a>,
    pub emits: ByteBuffer,
}

/// `r` is what the flow `f` of a compilation of the file at `path` says,
/// with every exchange of the log used.
pub open spec fn compiled_as(f: Flow<((Forest, Seq<u8>), Log)>, r: Result<HexoFile, RstError>, path: Seq<char>) -> bool {
    match f {
        Flow::Done(((forest, out), rest)) => rest.len() == 0 && r is Ok && r->Ok_0.emits@ == out
            && r->Ok_0.scope@ == forest && r->Ok_0.path@ == path,
        Flow::Failed(e) => r is Err && r->Err_0@ == e,
        Flow::Outside => false,
    }
}

impl<'a> HexoFile<'a> {
    pub fn new(path: String, scope: CompilationScope<'a>, emits: ByteBuffer) -> (r: HexoFile<'a>)
        ensures
            r.path@ == path@,
            r.emits@ == emits@,
            r.scope@ == scope@,
    {
        HexoFile { path, scope, emits }
    }

    pub fn emits(&self) -> (r: &ByteBuffer)
        ensures
            r@ == self.emits@,
    {
        &self.emits
    }
}

/// Resolves names and emits the bytes of a program.
#[derive(Debug)]
pub struct RstCompiler {
    pub safe_mode: bool,
    pub max_call_depth: usize,
}

impl RstCompiler {
    /// A compiler with the default call depth limit.
    pub fn new(safe_mode: bool) -> (r: RstCompiler)
        ensures
            r.safe_mode == safe_mode,
            r.max_call_depth == DEFAULT_MAX_CALL_DEPTH,
    {
        RstCompiler { safe_mode, max_call_depth: DEFAULT_MAX_CALL_DEPTH }
    }

    /// A compiler that lets user function calls nest `max_call_depth` deep.
    pub fn with_max_call_depth(safe_mode: bool, max_call_depth: usize) -> (r: RstCompiler)
        ensures
            r.safe_mode == safe_mode,
            r.max_call_depth == max_call_depth,
    {
        RstCompiler { safe_mode, max_call_depth }
    }

    /// Compiles `cst`: builds the scope forest of its `main` function from a
    /// fresh root scope, then emits `main`'s statements in that scope. The
    /// result is what the semantics gives when the host's answers are those
    /// it actually gave; in safe mode the host is never asked.
    pub fn compile<'a, H: NativeHost>(&self, cst: &'a CstFile, host: &H) -> (r: Result<
        HexoFile<'a>,
        RstError,
    >)
        ensures
            exists|log: Log|
                (self.safe_mode ==> log.len() == 0) && compiled_as(
                    #[trigger] compile_spec(function_model(cst.main), self.safe_mode, self.max_call_depth as nat, log),
                    r,
                    cst.path@,
                ),
            self.safe_mode ==> compiled_as(
                compile_spec(function_model(cst.main), true, self.max_call_depth as nat, Seq::empty()),
                r,
                cst.path@,
            ),
    {
        let ghost d = self.max_call_depth as nat;
        let ghost s = self.safe_mode;
        let ghost main = function_model(cst.main);
        let mut context = CompilationScope::new(cst.path());
        let scope_id = context.new_scope();
        let ghost start = context@;
        assert(start =~= seq![(root_scope_id(), empty_scope())]);
        let (r1, made1) = self.build_context_into(self.max_call_depth, scope_id, cst.main(), &mut context, host);
        match r1 {
            Ok(()) => {},
            Err(e) => {
                let result: Result<HexoFile<'a>, RstError> = Err(e);
                proof {
                    let log = made1@;
                    assert(log + Seq::<Exchange>::empty() =~= log);
                    assert(build_scope(d, s, start, scope_id, main, log + Seq::<Exchange>::empty())
                        == settled(Err(e), context@, Seq::<Exchange>::empty()));
                    assert(compiled_as(compile_spec(main, s, d, log), result, cst.path@));
                    if s {
                        assert(log =~= Seq::<Exchange>::empty());
                    }
                    assert((s ==> log.len() == 0) && compiled_as(compile_spec(main, s, d, log), result, cst.path@));
                }
                return result;
            },
        }
        let ghost built = context@;
        let mut buffer = ByteBuffer::new();
        let (r2, made2) = self.build_emits_into(self.max_call_depth, scope_id, &mut context, cst.main().emits(), &mut buffer, host);
        let result = match r2 {
            Ok(()) => Ok(HexoFile::new(cst.path().to_owned(), context, buffer)),
            Err(e) => Err(e),
        };
        proof {
            let log = made1@ + made2@;
            assert(build_scope(d, s, start, scope_id, main, made1@ + made2@)
                == settled(Ok(()), built, made2@));
            assert(made2@ + Seq::<Exchange>::empty() =~= made2@);
            assert(compiled_as(compile_spec(main, s, d, log), result, cst.path@));
            if s {
                assert(log =~= Seq::<Exchange>::empty());
            }
            assert((s ==> log.len() == 0) && compiled_as(compile_spec(main, s, d, log), result, cst.path@));
        }
        result
    }

    /// Emits the statements `emits` in scope `scope_id` at the end of `buffer`.
    fn build_emits_into<'a, H: NativeHost>(
        &self,
        depth: usize,
        scope_id: HexoId,
        context: &mut CompilationScope<'a>,
        emits: &Vec<CstEmitStatement>,
        buffer: &mut ByteBuffer,
        host: &H,
    ) -> (r: (Result<(), RstError>, Ghost<Log>))
        requires
            old(context).wf(),
        ensures
            final(context).wf(),
            final(context).path() == old(context).path(),
            forall|rest: Log|
                #[trigger] eval_emits(
                    depth as nat,
                    self.safe_mode,
                    old(context)@,
                    scope_id,
                    emits_model(emits@),
                    old(buffer)@,
                    r.1@ + rest,
                ) == settled(r.0, (final(context)@, final(buffer)@), rest),
            self.safe_mode ==> r.1@ == Seq::<Exchange>::empty(),
        decreases depth, emits_model(emits@), 1nat,
    {
        let ghost m = emits_model(emits@);
        let ghost n = emits@.len() as int;
        let ghost mut made: Log = Seq::empty();
        let mut i: usize = 0;
        assert(m.subrange(0, n) =~= m);
        assert forall|rest: Log| #[trigger] eval_emits(depth as nat, self.safe_mode, old(context)@, scope_id, m, old(buffer)@, made + rest)
            == eval_emits(depth as nat, self.safe_mode, context@, scope_id, m.subrange(0, n), buffer@, rest) by {
            assert(made + rest =~= rest);
        }
        while i < emits.len()
            invariant
                context.wf(),
                context.path() == old(context).path(),
                i <= n,
                n == emits@.len(),
                m == emits_model(emits@),
                forall|rest: Log|
                    #[trigger] eval_emits(depth as nat, self.safe_mode, old(context)@, scope_id, m, old(buffer)@, made + rest)
                        == eval_emits(depth as nat, self.safe_mode, context@, scope_id, m.subrange(i as int, n), buffer@, rest),
                self.safe_mode ==> made == Seq::<Exchange>::empty(),
            decreases n - i,
        {
            let ghost sub = m.subrange(i as int, n);
            let ghost before_ctx = context@;
            let ghost before_buf = buffer@;
            assert(sub[0] == atoms_model(emits@[i as int].atoms@));
            assert(sub.subrange(1, sub.len() as int) =~= m.subrange(i + 1, n));
            assert(decreases_to!(m => sub[0]));
            let (r, step) = self.build_bytes_into(depth, scope_id, context, emits[i].atoms(), buffer, host);
            let ghost rg = r;
            proof {
                assert forall|rest: Log| #[trigger] eval_emits(depth as nat, self.safe_mode, old(context)@, scope_id, m, old(buffer)@, (made + step@) + rest)
                    == match rg {
                        Ok(_) => eval_emits(depth as nat, self.safe_mode, context@, scope_id, m.subrange(i + 1, n), buffer@, rest),
                        Err(e) => Flow::Failed(e@),
                    } by {
                    assert((made + step@) + rest =~= made + (step@ + rest));
                    assert(eval_emits(depth as nat, self.safe_mode, old(context)@, scope_id, m, old(buffer)@, made + (step@ + rest))
                        == eval_emits(depth as nat, self.safe_mode, before_ctx, scope_id, sub, before_buf, step@ + rest));
                    assert(eval_atoms(depth as nat, self.safe_mode, before_ctx, scope_id, sub[0], before_buf, step@ + rest)
                        == settled(rg, (context@, buffer@), rest));
                }
                made = made + step@;
            }
            match r {
                Ok(()) => {},
                Err(e) => {
                    proof {
                        assert forall|rest: Log| #[trigger] eval_emits(depth as nat, self.safe_mode, old(context)@, scope_id, m, old(buffer)@, made + rest)
                            == settled(Err::<(), RstError>(e), (context@, buffer@), rest) by {}
                    }
                    return (Err(e), Ghost(made));
                },
            }
            i = i + 1;
        }
        proof {
            assert forall|rest: Log| #[trigger] eval_emits(depth as nat, self.safe_mode, old(context)@, scope_id, m, old(buffer)@, made + rest)
                == settled(Ok::<(), RstError>(()), (context@, buffer@), rest) by {
                assert(m.subrange(n, n) =~= Seq::<Seq<AtomModel>>::empty());
            }
        }
        (Ok(()), Ghost(made))
    }

    /// Emits `atoms` in scope `scope_id` at the end of `buffer`.
    pub fn build_bytes_into<'a, H: NativeHost>(
        &self,
        depth: usize,
        scope_id: HexoId,
        context: &mut CompilationScope<'a>,
        atoms: &Vec<CstAtom>,
        buffer: &mut ByteBuffer,
        host: &H,
    ) -> (r: (Result<(), RstError>, Ghost<Log>))
        requires
            old(context).wf(),
        ensures
            final(context).wf(),
            final(context).path() == old(context).path(),
            forall|rest: Log|
                #[trigger] eval_atoms(
                    depth as nat,
                    self.safe_mode,
                    old(context)@,
                    scope_id,
                    atoms_model(atoms@),
                    old(buffer)@,
                    r.1@ + rest,
                ) == settled(r.0, (final(context)@, final(buffer)@), rest),
            self.safe_mode ==> r.1@ == Seq::<Exchange>::empty(),
        decreases depth, atoms_model(atoms@), 1nat,
    {
        let ghost m = atoms_model(atoms@);
        let ghost n = atoms@.len() as int;
        let ghost mut made: Log = Seq::empty();
        let mut i: usize = 0;
        assert(m.subrange(0, n) =~= m);
        assert forall|rest: Log| #[trigger] eval_atoms(depth as nat, self.safe_mode, old(context)@, scope_id, m, old(buffer)@, made + rest)
            == eval_atoms(depth as nat, self.safe_mode, context@, scope_id, m.subrange(0, n), buffer@, rest) by {
            assert(made + rest =~= rest);
        }
        while i < atoms.len()
            invariant
                context.wf(),
                context.path() == old(context).path(),
                i <= n,
                n == atoms@.len(),
                m == atoms_model(atoms@),
                forall|rest: Log|
                    #[trigger] eval_atoms(depth as nat, self.safe_mode, old(context)@, scope_id, m, old(buffer)@, made + rest)
                        == eval_atoms(depth as nat, self.safe_mode, context@, scope_id, m.subrange(i as int, n), buffer@, rest),
                self.safe_mode ==> made == Seq::<Exchange>::empty(),
            decreases n - i,
        {
            let ghost sub = m.subrange(i as int, n);
            let ghost before_ctx = context@;
            let ghost before_buf = buffer@;
            assert(sub[0] == atom_model(atoms@[i as int]));
            assert(sub.subrange(1, sub.len() as int) =~= m.subrange(i + 1, n));
            assert(decreases_to!(m => sub[0]));
            let (r, step) = self.build_atom_into(depth, scope_id, context, &atoms[i], buffer, host);
            let ghost rg = r;
            proof {
                assert forall|rest: Log| #[trigger] eval_atoms(depth as nat, self.safe_mode, old(context)@, scope_id, m, old(buffer)@, (made + step@) + rest)
                    == match rg {
                        Ok(_) => eval_atoms(depth as nat, self.safe_mode, context@, scope_id, m.subrange(i + 1, n), buffer@, rest),
                        Err(e) => Flow::Failed(e@),
                    } by {
                    assert((made + step@) + rest =~= made + (step@ + rest));
                    assert(eval_atoms(depth as nat, self.safe_mode, old(context)@, scope_id, m, old(buffer)@, made + (step@ + rest))
                        == eval_atoms(depth as nat, self.safe_mode, before_ctx, scope_id, sub, before_buf, step@ + rest));
                    assert(eval_atom(depth as nat, self.safe_mode, before_ctx, scope_id, sub[0], before_buf, step@ + rest)
                        == settled(rg, (context@, buffer@), rest));
                }
                made = made + step@;
            }
            match r {
                Ok(()) => {},
                Err(e) => {
                    proof {
                        assert forall|rest: Log| #[trigger] eval_atoms(depth as nat, self.safe_mode, old(context)@, scope_id, m, old(buffer)@, made + rest)
                            == settled(Err::<(), RstError>(e), (context@, buffer@), rest) by {}
                    }
                    return (Err(e), Ghost(made));
                },
            }
            i = i + 1;
        }
        proof {
            assert forall|rest: Log| #[trigger] eval_atoms(depth as nat, self.safe_mode, old(context)@, scope_id, m, old(buffer)@, made + rest)
                == settled(Ok::<(), RstError>(()), (context@, buffer@), rest) by {
                assert(m.subrange(n, n) =~= Seq::<AtomModel>::empty());
            }
        }
        (Ok(()), Ghost(made))
    }

    /// Emits one atom in scope `scope_id` at the end of `buffer`.
    fn build_atom_into<'a, H: NativeHost>(
        &self,
        depth: usize,
        scope_id: HexoId,
        context: &mut CompilationScope<'a>,
        atom: &CstAtom,
        buffer: &mut ByteBuffer,
        host: &H,
    ) -> (r: (Result<(), RstError>, Ghost<Log>))
        requires
            old(context).wf(),
        ensures
            final(context).wf(),
            final(context).path() == old(context).path(),
            forall|rest: Log|
                #[trigger] eval_atom(
                    depth as nat,
                    self.safe_mode,
                    old(context)@,
                    scope_id,
                    atom_model(*atom),
                    old(buffer)@,
                    r.1@ + rest,
                ) == settled(r.0, (final(context)@, final(buffer)@), rest),
            self.safe_mode ==> r.1@ == Seq::<Exchange>::empty(),
        decreases depth, atom_model(*atom), 1nat,
    {
        let ghost none: Log = Seq::empty();
        match atom {
            CstAtom::Hex(byte) => {
                buffer.push_byte(*byte);
                assert forall|rest: Log| #[trigger] (none + rest) == rest by {
                    assert(none + rest =~= rest);
                }
                (Ok(()), Ghost(none))
            },
            CstAtom::String(string) => {
                buffer.push_string(string.clone());
                assert forall|rest: Log| #[trigger] (none + rest) == rest by {
                    assert(none + rest =~= rest);
                }
                (Ok(()), Ghost(none))
            },
            CstAtom::Number(number) => {
                buffer.push_u32_shrunk(*number);
                assert forall|rest: Log| #[trigger] (none + rest) == rest by {
                    assert(none + rest =~= rest);
                }
                (Ok(()), Ghost(none))
            },
            CstAtom::Constant { name } => {
                let r = Self::build_constant_into(scope_id, context, name, buffer);
                assert forall|rest: Log| #[trigger] (none + rest) == rest by {
                    assert(none + rest =~= rest);
                }
                (r, Ghost(none))
            },
            CstAtom::Function { name, params } => {
                proof {
                    let a = atom_model(*atom);
                    assert(a == AtomModel::Function(name@, params_model(params@)));
                    if let AtomModel::Function(_, ps) = a {
                        assert(decreases_to!(a => ps));
                    }
                }
                self.build_function_into(depth, scope_id, context, name, params, buffer, host)
            },
        }
    }

    /// Emits the bytes bound to the constant `name` as seen from `scope_id`.
    fn build_constant_into<'a>(
        scope_id: HexoId,
        context: &CompilationScope<'a>,
        name: &String,
        buffer: &mut ByteBuffer,
    ) -> (r: Result<(), RstError>)
        requires
            context.wf(),
        ensures
            match lookup_constant(context@, scope_id, name@) {
                Some(v) => r is Ok && final(buffer)@ == old(buffer)@ + v,
                None => r is Err && r->Err_0@ == RstErrorModel::UnresolvedConstant(name@)
                    && final(buffer)@ == old(buffer)@,
            },
    {
        match context.get_local_constant(scope_id, name) {
            Some(binding) => {
                buffer.push_byte_buffer(&binding.byte_buffer);
                Ok(())
            },
            None => Err(RstError::UnresolvedConstant { name: name.clone() }),
        }
    }

    /// Emits a call: a builtin runs on its evaluated arguments (unless it is
    /// unsafe in safe mode); a user function gets its arguments bound as
    /// constants in its own scope and its body emitted there, in place.
    fn build_function_into<'a, H: NativeHost>(
        &self,
        depth: usize,
        scope_id: HexoId,
        context: &mut CompilationScope<'a>,
        function_name: &String,
        params: &Vec<CstActualParameter>,
        buffer: &mut ByteBuffer,
        host: &H,
    ) -> (r: (Result<(), RstError>, Ghost<Log>))
        requires
            old(context).wf(),
        ensures
            final(context).wf(),
            final(context).path() == old(context).path(),
            forall|rest: Log|
                #[trigger] eval_atom(
                    depth as nat,
                    self.safe_mode,
                    old(context)@,
                    scope_id,
                    AtomModel::Function(function_name@, params_model(params@)),
                    old(buffer)@,
                    r.1@ + rest,
                ) == settled(r.0, (final(context)@, final(buffer)@), rest),
            self.safe_mode ==> r.1@ == Seq::<Exchange>::empty(),
            ({
                let refused = match native_kind(function_name@) {
                    Some(k) => self.safe_mode && !kind_is_safe(k),
                    None => lookup_function(old(context)@, scope_id, function_name@) is None
                        || depth == 0,
                };
                refused ==> r.0 is Err && final(buffer)@ == old(buffer)@ && final(context)@
                    == old(context)@ && r.1@ == Seq::<Exchange>::empty()
            }),
        decreases depth, params_model(params@), 2nat,
    {
        let ghost none: Log = Seq::empty();
        let ghost pm = params_model(params@);
        let ghost a = AtomModel::Function(function_name@, pm);
        let ghost before_ctx = context@;
        let ghost before_buf = buffer@;
        match context.get_native_function(function_name) {
            Some(native_function) => {
                if self.safe_mode && !native_function.signature().is_safe() {
                    let r: Result<(), RstError> = Err(
                        RstError::NativeFunctionIsUnsafe {
                            name: native_function.signature().name().to_owned(),
                        },
                    );
                    assert forall|rest: Log| #[trigger] eval_atom(depth as nat, self.safe_mode, before_ctx, scope_id, a, before_buf, none + rest)
                        == settled(r, (context@, buffer@), rest) by {}
                    return (r, Ghost(none));
                }
                let kind = native_function.kind;
                let mut arguments = NativeFunctionArguments::new();
                let (ra, made_a) = self.build_arguments(depth, scope_id, context, params, &mut arguments, host);
                match ra {
                    Ok(()) => {},
                    Err(e) => {
                        let r: Result<(), RstError> = Err(e);
                        assert forall|rest: Log| #[trigger] eval_atom(depth as nat, self.safe_mode, before_ctx, scope_id, a, before_buf, made_a@ + rest)
                            == settled(r, (context@, buffer@), rest) by {
                            assert(eval_args(depth as nat, self.safe_mode, before_ctx, scope_id, pm, Seq::empty(), made_a@ + rest)
                                == settled(ra, (context@, arguments@), rest));
                        }
                        return (r, made_a);
                    },
                }
                let ghost args_ctx = context@;
                let (rn, made_n) = run_native(kind, &arguments, host);
                let r: Result<(), RstError> = match rn {
                    Ok(bytes) => {
                        buffer.push_byte_buffer(&bytes);
                        Ok(())
                    },
                    Err(e) => Err(RstError::NativeFunctionExecution(e)),
                };
                proof {
                    assert forall|rest: Log| #[trigger] eval_atom(depth as nat, self.safe_mode, before_ctx, scope_id, a, before_buf, (made_a@ + made_n@) + rest)
                        == settled(r, (context@, buffer@), rest) by {
                        assert((made_a@ + made_n@) + rest =~= made_a@ + (made_n@ + rest));
                        assert(eval_args(depth as nat, self.safe_mode, before_ctx, scope_id, pm, Seq::empty(), made_a@ + (made_n@ + rest))
                            == settled(ra, (args_ctx, arguments@), made_n@ + rest));
                        crate::native::lemma_native_with_log_extend(kind, arguments@, made_n@, rest);
                    }
                    if self.safe_mode {
                        assert(made_a@ + made_n@ =~= Seq::<Exchange>::empty());
                    }
                }
                (r, Ghost(made_a@ + made_n@))
            },
            None => {
                let (identifier, emits) = match context.get_local_function(scope_id, function_name) {
                    Some(binding) => (binding.identifier, binding.emits),
                    None => {
                        let r: Result<(), RstError> = Err(RstError::UnresolvedFunction { name: function_name.clone() });
                        assert forall|rest: Log| #[trigger] eval_atom(depth as nat, self.safe_mode, before_ctx, scope_id, a, before_buf, none + rest)
                            == settled(r, (context@, buffer@), rest) by {}
                        return (r, Ghost(none));
                    },
                };
                if depth == 0 {
                    let r: Result<(), RstError> = Err(RstError::CallDepthExceeded { name: function_name.clone() });
                    assert forall|rest: Log| #[trigger] eval_atom(depth as nat, self.safe_mode, before_ctx, scope_id, a, before_buf, none + rest)
                        == settled(r, (context@, buffer@), rest) by {}
                    return (r, Ghost(none));
                }
                let (rb, made_b) = self.bind_arguments(depth, scope_id, identifier, context, params, host);
                match rb {
                    Ok(()) => {},
                    Err(e) => {
                        let r: Result<(), RstError> = Err(e);
                        assert forall|rest: Log| #[trigger] eval_atom(depth as nat, self.safe_mode, before_ctx, scope_id, a, before_buf, made_b@ + rest)
                            == settled(r, (context@, buffer@), rest) by {
                            assert(bind_args(depth as nat, self.safe_mode, before_ctx, scope_id, identifier, pm, made_b@ + rest)
                                == settled(rb, context@, rest));
                        }
                        return (r, made_b);
                    },
                }
                let ghost bound_ctx = context@;
                let (re, made_e) = self.build_emits_into(depth - 1, identifier, context, emits, buffer, host);
                proof {
                    assert forall|rest: Log| #[trigger] eval_atom(depth as nat, self.safe_mode, before_ctx, scope_id, a, before_buf, (made_b@ + made_e@) + rest)
                        == settled(re, (context@, buffer@), rest) by {
                        assert((made_b@ + made_e@) + rest =~= made_b@ + (made_e@ + rest));
                        assert(bind_args(depth as nat, self.safe_mode, before_ctx, scope_id, identifier, pm, made_b@ + (made_e@ + rest))
                            == settled(rb, bound_ctx, made_e@ + rest));
                        assert(eval_emits((depth - 1) as nat, self.safe_mode, bound_ctx, identifier, emits_model(emits@), before_buf, made_e@ + rest)
                            == settled(re, (context@, buffer@), rest));
                    }
                    if self.safe_mode {
                        assert(made_b@ + made_e@ =~= Seq::<Exchange>::empty());
                    }
                }
                (re, Ghost(made_b@ + made_e@))
            },
        }
    }

    /// Evaluates the actual parameters of a builtin call into `arguments`.
    fn build_arguments<'a, H: NativeHost>(
        &self,
        depth: usize,
        scope_id: HexoId,
        context: &mut CompilationScope<'a>,
        params: &Vec<CstActualParameter>,
        arguments: &mut NativeFunctionArguments,
        host: &H,
    ) -> (r: (Result<(), RstError>, Ghost<Log>))
        requires
            old(context).wf(),
        ensures
            final(context).wf(),
            final(context).path() == old(context).path(),
            forall|rest: Log|
                #[trigger] eval_args(
                    depth as nat,
                    self.safe_mode,
                    old(context)@,
                    scope_id,
                    params_model(params@),
                    old(arguments)@,
                    r.1@ + rest,
                ) == settled(r.0, (final(context)@, final(arguments)@), rest),
            self.safe_mode ==> r.1@ == Seq::<Exchange>::empty(),
        decreases depth, params_model(params@), 1nat,
    {
        let ghost m = params_model(params@);
        let ghost n = params@.len() as int;
        let ghost mut made: Log = Seq::empty();
        let mut i: usize = 0;
        assert(m.subrange(0, n) =~= m);
        assert forall|rest: Log| #[trigger] eval_args(depth as nat, self.safe_mode, old(context)@, scope_id, m, old(arguments)@, made + rest)
            == eval_args(depth as nat, self.safe_mode, context@, scope_id, m.subrange(0, n), arguments@, rest) by {
            assert(made + rest =~= rest);
        }
        while i < params.len()
            invariant
                context.wf(),
                context.path() == old(context).path(),
                i <= n,
                n == params@.len(),
                m == params_model(params@),
                forall|rest: Log|
                    #[trigger] eval_args(depth as nat, self.safe_mode, old(context)@, scope_id, m, old(arguments)@, made + rest)
                        == eval_args(depth as nat, self.safe_mode, context@, scope_id, m.subrange(i as int, n), arguments@, rest),
                self.safe_mode ==> made == Seq::<Exchange>::empty(),
            decreases n - i,
        {
            let ghost sub = m.subrange(i as int, n);
            let ghost before_ctx = context@;
            let ghost before_args = arguments@;
            assert(sub[0].value == atoms_model(params@[i as int].value@));
            assert(sub[0].name == params@[i as int].name@);
            assert(sub.subrange(1, sub.len() as int) =~= m.subrange(i + 1, n));
            assert(decreases_to!(m => sub[0].value));
            let param = &params[i];
            let mut param_buffer = ByteBuffer::new();
            let (r, step) = self.build_bytes_into(depth, scope_id, context, param.value(), &mut param_buffer, host);
            let ghost rg = r;
            let ghost evaluated_ctx = context@;
            let failed = match r {
                Ok(()) => {
                    arguments.insert(param.name().to_owned(), param_buffer);
                    None
                },
                Err(e) => Some(e),
            };
            proof {
                assert forall|rest: Log| #[trigger] eval_args(depth as nat, self.safe_mode, old(context)@, scope_id, m, old(arguments)@, (made + step@) + rest)
                    == match rg {
                        Ok(_) => eval_args(depth as nat, self.safe_mode, context@, scope_id, m.subrange(i + 1, n), arguments@, rest),
                        Err(e) => Flow::Failed(e@),
                    } by {
                    assert((made + step@) + rest =~= made + (step@ + rest));
                    assert(eval_args(depth as nat, self.safe_mode, old(context)@, scope_id, m, old(arguments)@, made + (step@ + rest))
                        == eval_args(depth as nat, self.safe_mode, before_ctx, scope_id, sub, before_args, step@ + rest));
                    assert(eval_atoms(depth as nat, self.safe_mode, before_ctx, scope_id, sub[0].value, Seq::empty(), step@ + rest)
                        == settled(rg, (evaluated_ctx, param_buffer@), rest));
                }
                made = made + step@;
            }
            match failed {
                None => {},
                Some(e) => {
                    proof {
                        assert forall|rest: Log| #[trigger] eval_args(depth as nat, self.safe_mode, old(context)@, scope_id, m, old(arguments)@, made + rest)
                            == settled(rg, (context@, arguments@), rest) by {}
                    }
                    return (Err(e), Ghost(made));
                },
            }
            i = i + 1;
        }
        proof {
            assert forall|rest: Log| #[trigger] eval_args(depth as nat, self.safe_mode, old(context)@, scope_id, m, old(arguments)@, made + rest)
                == settled(Ok::<(), RstError>(()), (context@, arguments@), rest) by {
                assert(m.subrange(n, n) =~= Seq::<ParamModel>::empty());
            }
        }
        (Ok(()), Ghost(made))
    }

    /// Evaluates each actual parameter in `scope_id` and binds it as a
    /// constant in the called function's scope `target`.
    fn bind_arguments<'a, H: NativeHost>(
        &self,
        depth: usize,
        scope_id: HexoId,
        target: HexoId,
        context: &mut CompilationScope<'a>,
        params: &Vec<CstActualParameter>,
        host: &H,
    ) -> (r: (Result<(), RstError>, Ghost<Log>))
        requires
            old(context).wf(),
        ensures
            final(context).wf(),
            final(context).path() == old(context).path(),
            forall|rest: Log|
                #[trigger] bind_args(
                    depth as nat,
                    self.safe_mode,
                    old(context)@,
                    scope_id,
                    target,
                    params_model(params@),
                    r.1@ + rest,
                ) == settled(r.0, final(context)@, rest),
            self.safe_mode ==> r.1@ == Seq::<Exchange>::empty(),
        decreases depth, params_model(params@), 1nat,
    {
        let ghost m = params_model(params@);
        let ghost n = params@.len() as int;
        let ghost mut made: Log = Seq::empty();
        let mut i: usize = 0;
        assert(m.subrange(0, n) =~= m);
        assert forall|rest: Log| #[trigger] bind_args(depth as nat, self.safe_mode, old(context)@, scope_id, target, m, made + rest)
            == bind_args(depth as nat, self.safe_mode, context@, scope_id, target, m.subrange(0, n), rest) by {
            assert(made + rest =~= rest);
        }
        while i < params.len()
            invariant
                context.wf(),
                context.path() == old(context).path(),
                i <= n,
                n == params@.len(),
                m == params_model(params@),
                forall|rest: Log|
                    #[trigger] bind_args(depth as nat, self.safe_mode, old(context)@, scope_id, target, m, made + rest)
                        == bind_args(depth as nat, self.safe_mode, context@, scope_id, target, m.subrange(i as int, n), rest),
                self.safe_mode ==> made == Seq::<Exchange>::empty(),
            decreases n - i,
        {
            let ghost sub = m.subrange(i as int, n);
            let ghost before_ctx = context@;
            assert(sub[0].value == atoms_model(params@[i as int].value@));
            assert(sub[0].name == params@[i as int].name@);
            assert(sub.subrange(1, sub.len() as int) =~= m.subrange(i + 1, n));
            assert(decreases_to!(m => sub[0].value));
            let param = &params[i];
            let mut param_buffer = ByteBuffer::new();
            let (r, step) = self.build_bytes_into(depth, scope_id, context, param.value(), &mut param_buffer, host);
            let ghost rg = r;
            let ghost evaluated_ctx = context@;
            let failed = match r {
                Ok(()) => {
                    context.bind_local_constant(
                        target,
                        ConstantBinding { name: param.name().to_owned(), byte_buffer: param_buffer },
                    );
                    None
                },
                Err(e) => Some(e),
            };
            proof {
                assert forall|rest: Log| #[trigger] bind_args(depth as nat, self.safe_mode, old(context)@, scope_id, target, m, (made + step@) + rest)
                    == match rg {
                        Ok(_) => bind_args(depth as nat, self.safe_mode, context@, scope_id, target, m.subrange(i + 1, n), rest),
                        Err(e) => Flow::Failed(e@),
                    } by {
                    assert((made + step@) + rest =~= made + (step@ + rest));
                    assert(bind_args(depth as nat, self.safe_mode, old(context)@, scope_id, target, m, made + (step@ + rest))
                        == bind_args(depth as nat, self.safe_mode, before_ctx, scope_id, target, sub, step@ + rest));
                    assert(eval_atoms(depth as nat, self.safe_mode, before_ctx, scope_id, sub[0].value, Seq::empty(), step@ + rest)
                        == settled(rg, (evaluated_ctx, param_buffer@), rest));
                }
                made = made + step@;
            }
            match failed {
                None => {},
                Some(e) => {
                    proof {
                        assert forall|rest: Log| #[trigger] bind_args(depth as nat, self.safe_mode, old(context)@, scope_id, target, m, made + rest)
                            == settled(rg, context@, rest) by {}
                    }
                    return (Err(e), Ghost(made));
                },
            }
            i = i + 1;
        }
        proof {
            assert forall|rest: Log| #[trigger] bind_args(depth as nat, self.safe_mode, old(context)@, scope_id, target, m, made + rest)
                == settled(Ok::<(), RstError>(()), context@, rest) by {
                assert(m.subrange(n, n) =~= Seq::<ParamModel>::empty());
            }
        }
        (Ok(()), Ghost(made))
    }

    /// Builds the scope `scope_id` of the function `cst`: constants, then
    /// nested functions.
    fn build_context_into<'a, H: NativeHost>(
        &self,
        depth: usize,
        scope_id: HexoId,
        cst: &'a CstFunctionStatement,
        context: &mut CompilationScope<'a>,
        host: &H,
    ) -> (r: (Result<(), RstError>, Ghost<Log>))
        requires
            old(context).wf(),
        ensures
            final(context).wf(),
            final(context).path() == old(context).path(),
            forall|rest: Log|
                #[trigger] build_scope(depth as nat, self.safe_mode, old(context)@, scope_id, function_model(*cst), r.1@ + rest)
                    == settled(r.0, final(context)@, rest),
            self.safe_mode ==> r.1@ == Seq::<Exchange>::empty(),
        decreases function_model(*cst), 1nat,
    {
        let ghost f = function_model(*cst);
        let ghost before = context@;
        let (r1, m1) = self.build_context_constants_into(depth, scope_id, cst, context, host);
        match r1 {
            Ok(()) => {},
            Err(e) => {
                let r: Result<(), RstError> = Err(e);
                assert forall|rest: Log| #[trigger] build_scope(depth as nat, self.safe_mode, before, scope_id, f, m1@ + rest)
                    == settled(r, context@, rest) by {
                    assert(bind_constants(depth as nat, self.safe_mode, before, scope_id, f.constants, m1@ + rest)
                        == settled(r1, context@, rest));
                }
                return (r, m1);
            },
        }
        let ghost mid = context@;
        assert(decreases_to!(function_model(*cst) => function_model(*cst).functions));
        let (r2, m2) = self.build_context_functions_into(depth, scope_id, cst, context, host);
        proof {
            assert forall|rest: Log| #[trigger] build_scope(depth as nat, self.safe_mode, before, scope_id, f, (m1@ + m2@) + rest)
                == settled(r2, context@, rest) by {
                assert((m1@ + m2@) + rest =~= m1@ + (m2@ + rest));
                assert(bind_constants(depth as nat, self.safe_mode, before, scope_id, f.constants, m1@ + (m2@ + rest))
                    == settled(r1, mid, m2@ + rest));
                assert(bind_functions(depth as nat, self.safe_mode, mid, scope_id, f.functions, m2@ + rest)
                    == settled(r2, context@, rest));
            }
            if self.safe_mode {
                assert(m1@ + m2@ =~= Seq::<Exchange>::empty());
            }
        }
        (r2, Ghost(m1@ + m2@))
    }

    /// Evaluates and binds each constant of `cst` in scope `scope_id`.
    fn build_context_constants_into<'a, H: NativeHost>(
        &self,
        depth: usize,
        scope_id: HexoId,
        cst: &'a CstFunctionStatement,
        context: &mut CompilationScope<'a>,
        host: &H,
    ) -> (r: (Result<(), RstError>, Ghost<Log>))
        requires
            old(context).wf(),
        ensures
            final(context).wf(),
            final(context).path() == old(context).path(),
            forall|rest: Log|
                #[trigger] bind_constants(depth as nat, self.safe_mode, old(context)@, scope_id, function_model(*cst).constants, r.1@ + rest)
                    == settled(r.0, final(context)@, rest),
            self.safe_mode ==> r.1@ == Seq::<Exchange>::empty(),
    {
        let constants = cst.constants();
        let ghost m = function_model(*cst).constants;
        let ghost n = constants@.len() as int;
        assert(m == crate::cst::constants_model(constants@));
        let ghost mut made: Log = Seq::empty();
        let mut i: usize = 0;
        assert(m.subrange(0, n) =~= m);
        assert forall|rest: Log| #[trigger] bind_constants(depth as nat, self.safe_mode, old(context)@, scope_id, m, made + rest)
            == bind_constants(depth as nat, self.safe_mode, context@, scope_id, m.subrange(0, n), rest) by {
            assert(made + rest =~= rest);
        }
        while i < constants.len()
            invariant
                context.wf(),
                context.path() == old(context).path(),
                i <= n,
                n == constants@.len(),
                m == crate::cst::constants_model(constants@),
                m == function_model(*cst).constants,
                forall|rest: Log|
                    #[trigger] bind_constants(depth as nat, self.safe_mode, old(context)@, scope_id, m, made + rest)
                        == bind_constants(depth as nat, self.safe_mode, context@, scope_id, m.subrange(i as int, n), rest),
                self.safe_mode ==> made == Seq::<Exchange>::empty(),
            decreases n - i,
        {
            let ghost sub = m.subrange(i as int, n);
            let ghost before_ctx = context@;
            assert(sub[0].atoms == atoms_model(constants@[i as int].atoms@));
            assert(sub[0].name == constants@[i as int].name@);
            assert(sub.subrange(1, sub.len() as int) =~= m.subrange(i + 1, n));
            let constant = &constants[i];
            let mut buff = ByteBuffer::new();
            let (r, step) = self.build_bytes_into(depth, scope_id, context, constant.atoms(), &mut buff, host);
            let ghost rg = r;
            let ghost evaluated_ctx = context@;
            let failed = match r {
                Ok(()) => {
                    context.bind_local_constant(
                        scope_id,
                        ConstantBinding { name: constant.name().to_owned(), byte_buffer: buff },
                    );
                    None
                },
                Err(e) => Some(e),
            };
            proof {
                assert forall|rest: Log| #[trigger] bind_constants(depth as nat, self.safe_mode, old(context)@, scope_id, m, (made + step@) + rest)
                    == match rg {
                        Ok(_) => bind_constants(depth as nat, self.safe_mode, context@, scope_id, m.subrange(i + 1, n), rest),
                        Err(e) => Flow::Failed(e@),
                    } by {
                    assert((made + step@) + rest =~= made + (step@ + rest));
                    assert(bind_constants(depth as nat, self.safe_mode, old(context)@, scope_id, m, made + (step@ + rest))
                        == bind_constants(depth as nat, self.safe_mode, before_ctx, scope_id, sub, step@ + rest));
                    assert(eval_atoms(depth as nat, self.safe_mode, before_ctx, scope_id, sub[0].atoms, Seq::empty(), step@ + rest)
                        == settled(rg, (evaluated_ctx, buff@), rest));
                }
                made = made + step@;
            }
            match failed {
                None => {},
                Some(e) => {
                    proof {
                        assert forall|rest: Log| #[trigger] bind_constants(depth as nat, self.safe_mode, old(context)@, scope_id, m, made + rest)
                            == settled(rg, context@, rest) by {}
                    }
                    return (Err(e), Ghost(made));
                },
            }
            i = i + 1;
        }
        proof {
            assert forall|rest: Log| #[trigger] bind_constants(depth as nat, self.safe_mode, old(context)@, scope_id, m, made + rest)
                == settled(Ok::<(), RstError>(()), context@, rest) by {
                assert(m.subrange(n, n) =~= Seq::<ConstantModel>::empty());
            }
        }
        (Ok(()), Ghost(made))
    }

    /// For each nested function of `cst`: allocates its scope, binds it under
    /// its name in `scope_id`, builds its scope, and attaches `scope_id` as
    /// its parent.
    fn build_context_functions_into<'a, H: NativeHost>(
        &self,
        depth: usize,
        scope_id: HexoId,
        cst: &'a CstFunctionStatement,
        context: &mut CompilationScope<'a>,
        host: &H,
    ) -> (r: (Result<(), RstError>, Ghost<Log>))
        requires
            old(context).wf(),
        ensures
            final(context).wf(),
            final(context).path() == old(context).path(),
            forall|rest: Log|
                #[trigger] bind_functions(depth as nat, self.safe_mode, old(context)@, scope_id, function_model(*cst).functions, r.1@ + rest)
                    == settled(r.0, final(context)@, rest),
            self.safe_mode ==> r.1@ == Seq::<Exchange>::empty(),
        decreases function_model(*cst).functions, 0nat,
    {
        let functions = cst.functions();
        let ghost m = function_model(*cst).functions;
        let ghost n = functions@.len() as int;
        assert(m == crate::cst::functions_model(functions@));
        let ghost mut made: Log = Seq::empty();
        let mut i: usize = 0;
        assert(m.subrange(0, n) =~= m);
        assert forall|rest: Log| #[trigger] bind_functions(depth as nat, self.safe_mode, old(context)@, scope_id, m, made + rest)
            == bind_functions(depth as nat, self.safe_mode, context@, scope_id, m.subrange(0, n), rest) by {
            assert(made + rest =~= rest);
        }
        while i < functions.len()
            invariant
                context.wf(),
                context.path() == old(context).path(),
                i <= n,
                n == functions@.len(),
                m == crate::cst::functions_model(functions@),
                m == function_model(*cst).functions,
                forall|rest: Log|
                    #[trigger] bind_functions(depth as nat, self.safe_mode, old(context)@, scope_id, m, made + rest)
                        == bind_functions(depth as nat, self.safe_mode, context@, scope_id, m.subrange(i as int, n), rest),
                self.safe_mode ==> made == Seq::<Exchange>::empty(),
            decreases n - i,
        {
            let ghost sub = m.subrange(i as int, n);
            let ghost before_ctx = context@;
            assert(sub[0] == function_model(functions@[i as int]));
            assert(sub.subrange(1, sub.len() as int) =~= m.subrange(i + 1, n));
            let function = &functions[i];
            let inner = context.new_scope();
            context.bind_local_function(
                scope_id,
                FunctionBinding { identifier: inner, name: function.name().to_owned(), emits: function.emits() },
            );
            let ghost bound_ctx = context@;
            assert(decreases_to!(m => sub[0]));
            let (r, step) = self.build_context_into(depth, inner, function, context, host);
            let ghost rg = r;
            let ghost built_ctx = context@;
            let failed = match r {
                Ok(()) => {
                    let mut parents: Vec<HexoId> = Vec::new();
                    parents.push(scope_id);
                    assert(parents@ =~= seq![scope_id]);
                    context.bind_parents(inner, parents);
                    None
                },
                Err(e) => Some(e),
            };
            proof {
                assert forall|rest: Log| #[trigger] bind_functions(depth as nat, self.safe_mode, old(context)@, scope_id, m, (made + step@) + rest)
                    == match rg {
                        Ok(_) => bind_functions(depth as nat, self.safe_mode, context@, scope_id, m.subrange(i + 1, n), rest),
                        Err(e) => Flow::Failed(e@),
                    } by {
                    assert((made + step@) + rest =~= made + (step@ + rest));
                    assert(bind_functions(depth as nat, self.safe_mode, old(context)@, scope_id, m, made + (step@ + rest))
                        == bind_functions(depth as nat, self.safe_mode, before_ctx, scope_id, sub, step@ + rest));
                    assert(build_scope(depth as nat, self.safe_mode, bound_ctx, inner, sub[0], step@ + rest)
                        == settled(rg, built_ctx, rest));
                }
                made = made + step@;
            }
            match failed {
                None => {},
                Some(e) => {
                    proof {
                        assert forall|rest: Log| #[trigger] bind_functions(depth as nat, self.safe_mode, old(context)@, scope_id, m, made + rest)
                            == settled(rg, context@, rest) by {}
                    }
                    return (Err(e), Ghost(made));
                },
            }
            i = i + 1;
        }
        proof {
            assert forall|rest: Log| #[trigger] bind_functions(depth as nat, self.safe_mode, old(context)@, scope_id, m, made + rest)
                == settled(Ok::<(), RstError>(()), context@, rest) by {
                assert(m.subrange(n, n) =~= Seq::<FunctionModel>::empty());
            }
        }
        (Ok(()), Ghost(made))
    }
}

} // verus!
