use vstd::prelude::*;

use crate::ast::AstNode;
use crate::cst::{function_model, CstFile};
use crate::cst_parser::{file_of, CstError, CstErrorModel, CstParser};
use crate::native::NativeHost;
use crate::rst::{
    compile_spec, compiled_as, Flow, HexoFile, Log, RstCompiler, RstError, RstErrorModel,
    DEFAULT_MAX_CALL_DEPTH,
};

verus! {

/// Settings of a compilation.
#[derive(Debug, Clone, Copy)]
pub struct HexoCompilerContext {
    safe_mode: bool,
    max_call_depth: usize,
}

impl HexoCompilerContext {
    /// Settings with the default limit on nested user function calls.
    pub fn new(safe_mode: bool) -> (r: HexoCompilerContext)
        ensures
            r.spec_safe_mode() == safe_mode,
            r.spec_max_call_depth() == DEFAULT_MAX_CALL_DEPTH,
    {
        HexoCompilerContext { safe_mode, max_call_depth: DEFAULT_MAX_CALL_DEPTH }
    }

    /// Settings that let user function calls nest `max_call_depth` deep.
    pub fn with_max_call_depth(safe_mode: bool, max_call_depth: usize) -> (r: HexoCompilerContext)
        ensures
            r.spec_safe_mode() == safe_mode,
            r.spec_max_call_depth() == max_call_depth,
    {
        HexoCompilerContext { safe_mode, max_call_depth }
    }

    pub closed spec fn spec_max_call_depth(&self) -> usize {
        self.max_call_depth
    }

    /// How deeply user function calls may nest.
    pub fn max_call_depth(&self) -> (r: usize)
        ensures
            r == self.spec_max_call_depth(),
    {
        self.max_call_depth
    }

    pub closed spec fn spec_safe_mode(&self) -> bool {
        self.safe_mode
    }

    /// Whether unsafe builtins are refused.
    pub fn safe_mode(&self) -> (r: bool)
        ensures
            r == self.spec_safe_mode(),
    {
        self.safe_mode
    }
}

/// The bytes a compilation produced.
#[derive(Debug)]
pub struct Compilation {
    pub content: Vec<u8>,
}

impl Compilation {
    pub fn from(content: Vec<u8>) -> (r: Compilation)
        ensures
            r.content@ == content@,
    {
        Compilation { content }
    }
}

/// A failure of a compilation stage.
#[derive(Debug)]
pub enum Error {
    Cst(CstError),
    Rst(RstError),
}

pub enum ErrorModel {
    Cst(CstErrorModel),
    Rst(RstErrorModel),
}

impl View for Error {
    type V = ErrorModel;

    open spec fn view(&self) -> ErrorModel {
        match self {
            Error::Cst(e) => ErrorModel::Cst(e@),
            Error::Rst(e) => ErrorModel::Rst(e@),
        }
    }
}

/// Runs the stages after parsing: typed tree, then scopes and bytes.
#[derive(Debug)]
pub struct HexoCompiler {
    context: HexoCompilerContext,
}

impl HexoCompiler {
    pub fn new(context: HexoCompilerContext) -> (r: HexoCompiler)
        ensures
            r.safe_mode() == context.spec_safe_mode(),
            r.max_call_depth() == context.spec_max_call_depth(),
    {
        HexoCompiler { context }
    }

    pub closed spec fn safe_mode(&self) -> bool {
        self.context.spec_safe_mode()
    }

    pub closed spec fn max_call_depth(&self) -> usize {
        self.context.spec_max_call_depth()
    }

    /// The typed tree of the file at `path` whose syntax tree is `ast`.
    pub fn compile_cst(&self, path: &str, ast: AstNode) -> (r: Result<CstFile, Error>)
        ensures
            match file_of(ast) {
                Ok(f) => r is Ok && function_model(r->Ok_0.main) == f && r->Ok_0.path@ == path@,
                Err(e) => r is Err && r->Err_0@ == ErrorModel::Cst(e),
            },
    {
        let parser = CstParser::new();
        match parser.parse(path, ast) {
            Ok(f) => Ok(f),
            Err(e) => Err(Error::Cst(e)),
        }
    }

    /// Resolves and emits a typed tree: what the semantics gives for the
    /// host's answers, none of which are asked for in safe mode.
    pub fn compile_rst<'a, H: NativeHost>(&self, cst: &'a CstFile, host: &H) -> (r: Result<
        HexoFile<'a>,
        Error,
    >)
        ensures
            exists|log: Log|
                (self.safe_mode() ==> log.len() == 0) && match #[trigger] compile_spec(
                    function_model(cst.main),
                    self.safe_mode(),
                    self.max_call_depth() as nat,
                    log,
                ) {
                    Flow::Done(((f, out), rest)) => rest.len() == 0 && r is Ok && r->Ok_0.emits@
                        == out && r->Ok_0.scope@ == f,
                    Flow::Failed(e) => r is Err && r->Err_0@ == ErrorModel::Rst(e),
                    Flow::Outside => false,
                },
    {
        let rst_compiler = RstCompiler::with_max_call_depth(
            self.context.safe_mode(),
            self.context.max_call_depth(),
        );
        let compiled = rst_compiler.compile(cst, host);
        let ghost log = choose|log: Log|
            (rst_compiler.safe_mode ==> log.len() == 0) && compiled_as(
                #[trigger] compile_spec(function_model(cst.main), rst_compiler.safe_mode, rst_compiler.max_call_depth as nat, log),
                compiled,
                cst.path@,
            );
        let r = match compiled {
            Ok(f) => Ok(f),
            Err(e) => Err(Error::Rst(e)),
        };
        assert((self.safe_mode() ==> log.len() == 0) && match compile_spec(
            function_model(cst.main),
            self.safe_mode(),
            self.max_call_depth() as nat,
            log,
        ) {
            Flow::Done(((f, out), rest)) => rest.len() == 0 && r is Ok && r->Ok_0.emits@ == out
                && r->Ok_0.scope@ == f,
            Flow::Failed(e) => r is Err && r->Err_0@ == ErrorModel::Rst(e),
            Flow::Outside => false,
        });
        r
    }

    /// Compiles the syntax tree of the file at `path` to its bytes: what the
    /// semantics gives for the host's answers, none of which are asked for in
    /// safe mode.
    pub fn compile<H: NativeHost>(&self, path: &str, ast: AstNode, host: &H) -> (r: Result<
        Compilation,
        Error,
    >)
        ensures
            match file_of(ast) {
                Err(e) => r is Err && r->Err_0@ == ErrorModel::Cst(e),
                Ok(main) => exists|log: Log|
                    (self.safe_mode() ==> log.len() == 0) && match #[trigger] compile_spec(
                        main,
                        self.safe_mode(),
                        self.max_call_depth() as nat,
                        log,
                    ) {
                        Flow::Done(((_, out), rest)) => rest.len() == 0 && r is Ok
                            && r->Ok_0.content@ == out,
                        Flow::Failed(e) => r is Err && r->Err_0@ == ErrorModel::Rst(e),
                        Flow::Outside => false,
                    },
            },
    {
        let cst = self.compile_cst(path, ast)?;
        let rst = self.compile_rst(&cst, host);
        let ghost log = choose|log: Log|
            (self.safe_mode() ==> log.len() == 0) && match #[trigger] compile_spec(
                function_model(cst.main),
                self.safe_mode(),
                self.max_call_depth() as nat,
                log,
            ) {
                Flow::Done(((f, out), rest)) => rest.len() == 0 && rst is Ok && rst->Ok_0.emits@
                    == out && rst->Ok_0.scope@ == f,
                Flow::Failed(e) => rst is Err && rst->Err_0@ == ErrorModel::Rst(e),
                Flow::Outside => false,
            };
        let r = match rst {
            Ok(file) => Ok(Compilation::from(file.emits().to_vec())),
            Err(e) => Err(e),
        };
        assert((self.safe_mode() ==> log.len() == 0) && match compile_spec(
            function_model(cst.main),
            self.safe_mode(),
            self.max_call_depth() as nat,
            log,
        ) {
            Flow::Done(((_, out), rest)) => rest.len() == 0 && r is Ok && r->Ok_0.content@ == out,
            Flow::Failed(e) => r is Err && r->Err_0@ == ErrorModel::Rst(e),
            Flow::Outside => false,
        });
        r
    }
}

} // verus!
