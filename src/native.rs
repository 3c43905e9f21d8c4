use vstd::prelude::*;
use vstd::string::*;
use vstd::utf8::{decode_utf8, valid_utf8};

use crate::byte_buffer::{as_size, left_padded, right_padded, shrunk, ByteBuffer};
use crate::encoding::{decimal, decimal_string};
use crate::scope::{constants_view, find_constant, lemma_find_index, set_constant, table_get, table_set, ConstantBinding};

verus! {

/// The builtin functions.
#[derive(Debug, Clone, Copy, PartialEq, Eq, Structural)]
pub enum NativeKind {
    Len,
    PadLeft,
    PadRight,
    Cmd,
    ReadFile,
    Pad,
    Eval,
}

/// The builtin called `name`, if any.
pub open spec fn native_kind(name: Seq<char>) -> Option<NativeKind> {
    if name == "len"@ {
        Some(NativeKind::Len)
    } else if name == "pad_left"@ {
        Some(NativeKind::PadLeft)
    } else if name == "pad_right"@ {
        Some(NativeKind::PadRight)
    } else if name == "cmd"@ {
        Some(NativeKind::Cmd)
    } else if name == "read_file"@ {
        Some(NativeKind::ReadFile)
    } else if name == "pad"@ {
        Some(NativeKind::Pad)
    } else if name == "eval"@ {
        Some(NativeKind::Eval)
    } else {
        None
    }
}

/// Only the builtins that reach outside the compiler are unsafe.
pub open spec fn kind_is_safe(k: NativeKind) -> bool {
    match k {
        NativeKind::Cmd | NativeKind::ReadFile | NativeKind::Eval => false,
        _ => true,
    }
}

pub open spec fn kind_name(k: NativeKind) -> Seq<char> {
    match k {
        NativeKind::Len => "len"@,
        NativeKind::PadLeft => "pad_left"@,
        NativeKind::PadRight => "pad_right"@,
        NativeKind::Cmd => "cmd"@,
        NativeKind::ReadFile => "read_file"@,
        NativeKind::Pad => "pad"@,
        NativeKind::Eval => "eval"@,
    }
}

/// A failure of a builtin.
#[derive(Debug)]
pub enum NativeFnError {
    Unknown(String),
    MissingArgument { name: String, available_arguments: Vec<String>, function_name: String },
}

pub enum NativeErrorModel {
    Unknown(Seq<char>),
    MissingArgument(Seq<char>, Seq<Seq<char>>, Seq<char>),
}

pub open spec fn strings_view(v: Seq<String>) -> Seq<Seq<char>> {
    Seq::new(v.len(), |i: int| v[i]@)
}

impl View for NativeFnError {
    type V = NativeErrorModel;

    open spec fn view(&self) -> NativeErrorModel {
        match self {
            NativeFnError::Unknown(m) => NativeErrorModel::Unknown(m@),
            NativeFnError::MissingArgument { name, available_arguments, function_name } =>
                NativeErrorModel::MissingArgument(
                name@,
                strings_view(available_arguments@),
                function_name@,
            ),
        }
    }
}

/// Work that an unsafe builtin asks of the host.
pub enum HostRequest {
    Command(Seq<char>),
    ReadFile(Seq<char>),
    Compile(Seq<char>),
}

/// What the host answered: bytes, or the text of its failure.
pub type HostAnswer = Result<Seq<u8>, Seq<char>>;

/// One request to the host and its answer.
pub type Exchange = (HostRequest, HostAnswer);

pub open spec fn answer_model(answer: Result<Vec<u8>, String>) -> HostAnswer {
    match answer {
        Ok(b) => Ok(b@),
        Err(m) => Err(m@),
    }
}

/// The request an unsafe builtin makes with the text of its first argument.
pub open spec fn host_request(k: NativeKind, text: Seq<char>) -> HostRequest {
    match k {
        NativeKind::Cmd => HostRequest::Command(text),
        NativeKind::ReadFile => HostRequest::ReadFile(text),
        _ => HostRequest::Compile(text),
    }
}

/// What a builtin call comes to: bytes, a failure, or a request to the host.
pub enum NativeOutcome {
    Bytes(Seq<u8>),
    Failed(NativeErrorModel),
    Host(HostRequest),
}

/// The result of a builtin once the host has answered: its bytes, or its
/// failure as an `Unknown` error.
pub open spec fn answered(answer: HostAnswer) -> Result<Seq<u8>, NativeErrorModel> {
    match answer {
        Ok(b) => Ok(b),
        Err(m) => Err(NativeErrorModel::Unknown(m)),
    }
}

/// What a builtin call gives when the host's answers are `log`: the result
/// and the exchanges left over.
pub open spec fn native_with_log(
    k: NativeKind,
    args: Seq<(Seq<char>, Seq<u8>)>,
    log: Seq<Exchange>,
) -> Option<(Result<Seq<u8>, NativeErrorModel>, Seq<Exchange>)> {
    match native_outcome(k, args) {
        NativeOutcome::Bytes(b) => Some((Ok(b), log)),
        NativeOutcome::Failed(e) => Some((Err(e), log)),
        NativeOutcome::Host(q) => if log.len() > 0 && log[0].0 == q {
            Some((answered(log[0].1), log.subrange(1, log.len() as int)))
        } else {
            None
        },
    }
}

pub open spec fn argument_keys(args: Seq<(Seq<char>, Seq<u8>)>) -> Seq<Seq<char>> {
    Seq::new(args.len(), |i: int| args[i].0)
}

pub open spec fn missing(name: Seq<char>, args: Seq<(Seq<char>, Seq<u8>)>, function: Seq<char>) -> NativeErrorModel {
    NativeErrorModel::MissingArgument(name, argument_keys(args), function)
}

pub open spec fn not_utf8_message() -> Seq<char> {
    "argument is not valid UTF-8"@
}

/// The byte length of `b` as `len` reports it: shrunk, as a 32-bit value.
pub open spec fn length_bytes(b: Seq<u8>) -> Seq<u8> {
    shrunk(b.len() % 0x1_0000_0000)
}

/// What the builtin `k` returns on the named arguments `args`.
pub open spec fn native_outcome(k: NativeKind, args: Seq<(Seq<char>, Seq<u8>)>) -> NativeOutcome {
    let first = table_get(args, decimal(0));
    match k {
        NativeKind::Len => match table_get(args, "utf8"@) {
            Some(b) => NativeOutcome::Bytes(length_bytes(b)),
            None => match first {
                Some(b) => NativeOutcome::Bytes(length_bytes(b)),
                None => NativeOutcome::Failed(missing(decimal(0), args, "len"@)),
            },
        },
        NativeKind::PadLeft | NativeKind::PadRight => match first {
            None => NativeOutcome::Failed(missing(decimal(0), args, kind_name(k))),
            Some(data) => match table_get(args, decimal(1)) {
                None => NativeOutcome::Failed(missing(decimal(1), args, kind_name(k))),
                Some(size) => NativeOutcome::Bytes(
                    if k == NativeKind::PadLeft {
                        left_padded(data, as_size(size))
                    } else {
                        right_padded(data, as_size(size))
                    },
                ),
            },
        },
        NativeKind::Pad => match first {
            None => NativeOutcome::Failed(missing(decimal(0), args, "pad"@)),
            Some(data) => {
                let left = match table_get(args, "left"@) {
                    Some(l) => left_padded(data, as_size(l)),
                    None => data,
                };
                NativeOutcome::Bytes(
                    match table_get(args, "right"@) {
                        Some(r) => right_padded(left, as_size(r)),
                        None => left,
                    },
                )
            },
        },
        _ => match first {
            None => NativeOutcome::Failed(missing(decimal(0), args, kind_name(k))),
            Some(b) => if valid_utf8(b) {
                NativeOutcome::Host(host_request(k, decode_utf8(b)))
            } else {
                NativeOutcome::Failed(NativeErrorModel::Unknown(not_utf8_message()))
            },
        },
    }
}

/// What the unsafe builtins need from the program around the compiler.
pub trait NativeHost {
    /// Runs the program `command` and returns what it wrote to standard output.
    fn run_command(&self, command: &str) -> Result<Vec<u8>, String>;

    /// Returns the contents of the file at `path`.
    fn read_file(&self, path: &str) -> Result<Vec<u8>, String>;

    /// Compiles `source` as an independent, anonymous source unit.
    fn compile_source(&self, source: &str) -> Result<Vec<u8>, String>;
}

/// The arguments of a builtin call, by name, in the order they were first
/// given.
#[derive(Debug)]
pub struct NativeFunctionArguments {
    args: Vec<ConstantBinding>,
}

impl View for NativeFunctionArguments {
    type V = Seq<(Seq<char>, Seq<u8>)>;

    closed spec fn view(&self) -> Seq<(Seq<char>, Seq<u8>)> {
        constants_view(self.args@)
    }
}

impl NativeFunctionArguments {
    pub fn new() -> (r: NativeFunctionArguments)
        ensures
            r@ == Seq::<(Seq<char>, Seq<u8>)>::empty(),
    {
        let r = NativeFunctionArguments { args: Vec::new() };
        assert(r@ =~= Seq::<(Seq<char>, Seq<u8>)>::empty());
        r
    }

    /// Sets the argument `name`; a later value for a name replaces the earlier.
    pub fn insert(&mut self, name: String, value: ByteBuffer)
        ensures
            final(self)@ == table_set(old(self)@, name@, value@),
    {
        set_constant(&mut self.args, ConstantBinding { name, byte_buffer: value });
    }

    fn get(&self, name: &String) -> (r: Option<&ByteBuffer>)
        ensures
            match table_get(self@, name@) {
                Some(v) => r is Some && r->0@ == v,
                None => r is None,
            },
    {
        proof {
            lemma_find_index(self@, name@);
        }
        match find_constant(&self.args, name) {
            Some(i) => Some(&self.args[i].byte_buffer),
            None => None,
        }
    }

    /// The names of the arguments given.
    pub fn keys(&self) -> (r: Vec<String>)
        ensures
            strings_view(r@) == argument_keys(self@),
    {
        let mut r: Vec<String> = Vec::new();
        let mut i: usize = 0;
        while i < self.args.len()
            invariant
                i <= self.args@.len(),
                r@.len() == i,
                forall|j: int| 0 <= j < i ==> #[trigger] r@[j]@ == self.args@[j].name@,
            decreases self.args@.len() - i,
        {
            r.push(self.args[i].name.clone());
            i = i + 1;
        }
        assert(strings_view(r@) =~= argument_keys(self@));
        r
    }

    /// The positional argument `pos`, or the error that names what is there.
    pub fn get_argument_at(&self, pos: usize, fn_name: &str) -> (r: Result<&ByteBuffer, NativeFnError>)
        ensures
            match table_get(self@, decimal(pos as nat)) {
                Some(v) => r is Ok && r->Ok_0@ == v,
                None => r is Err && r->Err_0@ == missing(decimal(pos as nat), self@, fn_name@),
            },
    {
        let name = decimal_string(pos);
        match self.get(&name) {
            Some(b) => Ok(b),
            None => Err(
                NativeFnError::MissingArgument {
                    name,
                    available_arguments: self.keys(),
                    function_name: fn_name.to_owned(),
                },
            ),
        }
    }

    /// The argument called `name`, if given.
    pub fn get_named_argument(&self, name: &str) -> (r: Option<&ByteBuffer>)
        ensures
            match table_get(self@, name@) {
                Some(v) => r is Some && r->0@ == v,
                None => r is None,
            },
    {
        self.get(&name.to_owned())
    }
}

/// The name and safety of a builtin.
#[derive(Debug)]
pub struct NativeFunctionSignature {
    pub name: String,
    pub is_safe: bool,
}

impl NativeFunctionSignature {
    pub fn new(name: &str) -> (r: NativeFunctionSignature)
        ensures
            r.name@ == name@,
            r.is_safe,
    {
        NativeFunctionSignature { name: name.to_owned(), is_safe: true }
    }

    pub fn new_unsafe(name: &str) -> (r: NativeFunctionSignature)
        ensures
            r.name@ == name@,
            !r.is_safe,
    {
        NativeFunctionSignature { name: name.to_owned(), is_safe: false }
    }

    pub fn name(&self) -> (r: &str)
        ensures
            r@ == self.name@,
    {
        self.name.as_str()
    }

    pub fn is_safe(&self) -> (r: bool)
        ensures
            r == self.is_safe,
    {
        self.is_safe
    }
}

/// A builtin: its signature and which operation it performs.
#[derive(Debug)]
pub struct NativeFunction {
    pub signature: NativeFunctionSignature,
    pub kind: NativeKind,
}

fn length_of(b: &ByteBuffer) -> (r: ByteBuffer)
    ensures
        r@ == length_bytes(b@),
{
    let mut result = ByteBuffer::new();
    let n: usize = b.len();
    let len: u32 = ((n as u64) % 0x1_0000_0000u64) as u32;
    result.push_u32_shrunk(len);
    assert(result@ =~= length_bytes(b@));
    result
}

/// `len`: the byte length of its argument (`utf8`, else the first).
pub fn len_native(arguments: &NativeFunctionArguments) -> (r: Result<ByteBuffer, NativeFnError>)
    ensures
        match native_outcome(NativeKind::Len, arguments@) {
            NativeOutcome::Bytes(b) => r is Ok && r->Ok_0@ == b,
            NativeOutcome::Failed(e) => r is Err && r->Err_0@ == e,
            NativeOutcome::Host(_) => false,
        },
{
    match arguments.get_named_argument("utf8") {
        Some(b) => Ok(length_of(b)),
        None => match arguments.get_argument_at(0, "len") {
            Ok(b) => Ok(length_of(b)),
            Err(e) => Err(e),
        },
    }
}

/// `pad_left`: the first argument left-padded to the size the second gives.
pub fn pad_left_native(arguments: &NativeFunctionArguments) -> (r: Result<ByteBuffer, NativeFnError>)
    ensures
        match native_outcome(NativeKind::PadLeft, arguments@) {
            NativeOutcome::Bytes(b) => r is Ok && r->Ok_0@ == b,
            NativeOutcome::Failed(e) => r is Err && r->Err_0@ == e,
            NativeOutcome::Host(_) => false,
        },
{
    let mut data = arguments.get_argument_at(0, "pad_left")?.clone();
    let size = arguments.get_argument_at(1, "pad_left")?;
    data.pad_left(size.as_usize_unsafe());
    Ok(data)
}

/// `pad_right`: the first argument right-padded to the size the second gives.
pub fn pad_right_native(arguments: &NativeFunctionArguments) -> (r: Result<ByteBuffer, NativeFnError>)
    ensures
        match native_outcome(NativeKind::PadRight, arguments@) {
            NativeOutcome::Bytes(b) => r is Ok && r->Ok_0@ == b,
            NativeOutcome::Failed(e) => r is Err && r->Err_0@ == e,
            NativeOutcome::Host(_) => false,
        },
{
    let mut data = arguments.get_argument_at(0, "pad_right")?.clone();
    let size = arguments.get_argument_at(1, "pad_right")?;
    data.pad_right(size.as_usize_unsafe());
    Ok(data)
}

/// `pad`: the first argument padded on the left to `left`, then on the
/// right to `right`, each only where given.
pub fn pad_native(arguments: &NativeFunctionArguments) -> (r: Result<ByteBuffer, NativeFnError>)
    ensures
        match native_outcome(NativeKind::Pad, arguments@) {
            NativeOutcome::Bytes(b) => r is Ok && r->Ok_0@ == b,
            NativeOutcome::Failed(e) => r is Err && r->Err_0@ == e,
            NativeOutcome::Host(_) => false,
        },
{
    let mut buffer = arguments.get_argument_at(0, "pad")?.clone();
    match arguments.get_named_argument("left") {
        Some(l) => buffer.pad_left(l.as_usize_unsafe()),
        None => {},
    }
    match arguments.get_named_argument("right") {
        Some(r) => buffer.pad_right(r.as_usize_unsafe()),
        None => {},
    }
    Ok(buffer)
}

/// The first argument of an unsafe builtin, read as UTF-8 text.
fn text_argument(arguments: &NativeFunctionArguments, fn_name: &str) -> (r: Result<String, NativeFnError>)
    ensures
        match table_get(arguments@, decimal(0)) {
            None => r is Err && r->Err_0@ == missing(decimal(0), arguments@, fn_name@),
            Some(b) => if valid_utf8(b) {
                r is Ok && r->Ok_0@ == decode_utf8(b)
            } else {
                r is Err && r->Err_0@ == NativeErrorModel::Unknown(not_utf8_message())
            },
        },
{
    let arg = arguments.get_argument_at(0, fn_name)?;
    match arg.to_string() {
        Ok(s) => Ok(s),
        Err(_) => Err(NativeFnError::Unknown("argument is not valid UTF-8".to_owned())),
    }
}

/// What the host answered, as the result of a builtin.
pub fn host_result(answer: Result<Vec<u8>, String>) -> (r: Result<ByteBuffer, NativeFnError>)
    ensures
        match answer {
            Ok(b) => r is Ok && r->Ok_0@ == b@,
            Err(m) => r is Err && r->Err_0@ == NativeErrorModel::Unknown(m@),
        },
{
    match answer {
        Ok(bytes) => Ok(ByteBuffer::from_vec(bytes)),
        Err(message) => Err(NativeFnError::Unknown(message)),
    }
}

/// Asks the host for the request of the unsafe builtin `k`, made with the
/// text of its first argument, and logs the exchange.
fn ask_host<H: NativeHost>(k: NativeKind, arguments: &NativeFunctionArguments, fn_name: &str, host: &H) -> (r: (
    Result<ByteBuffer, NativeFnError>,
    Ghost<Seq<Exchange>>,
))
    requires
        !kind_is_safe(k),
        fn_name@ == kind_name(k),
    ensures
        match native_with_log(k, arguments@, r.1@) {
            Some((Ok(b), rest)) => r.0 is Ok && r.0->Ok_0@ == b && rest.len() == 0,
            Some((Err(e), rest)) => r.0 is Err && r.0->Err_0@ == e && rest.len() == 0,
            None => false,
        },
        native_outcome(k, arguments@) is Host || r.1@.len() == 0,
{
    let text = match text_argument(arguments, fn_name) {
        Ok(t) => t,
        Err(e) => {
            return (Err(e), Ghost(Seq::empty()));
        },
    };
    let answer = if k == NativeKind::Cmd {
        host.run_command(text.as_str())
    } else if k == NativeKind::ReadFile {
        host.read_file(text.as_str())
    } else {
        host.compile_source(text.as_str())
    };
    let ghost exchange = (host_request(k, text@), answer_model(answer));
    let r = host_result(answer);
    let ghost log = seq![exchange];
    assert(log.subrange(1, 1) =~= Seq::<Exchange>::empty());
    (r, Ghost(log))
}

/// `cmd`: runs the program its first argument names, through the host.
pub fn cmd_native<H: NativeHost>(arguments: &NativeFunctionArguments, host: &H) -> (r: (
    Result<ByteBuffer, NativeFnError>,
    Ghost<Seq<Exchange>>,
))
    ensures
        match native_with_log(NativeKind::Cmd, arguments@, r.1@) {
            Some((Ok(b), rest)) => r.0 is Ok && r.0->Ok_0@ == b && rest.len() == 0,
            Some((Err(e), rest)) => r.0 is Err && r.0->Err_0@ == e && rest.len() == 0,
            None => false,
        },
{
    ask_host(NativeKind::Cmd, arguments, "cmd", host)
}

/// `read_file`: the contents of the file its first argument names, through
/// the host.
pub fn read_file_native<H: NativeHost>(arguments: &NativeFunctionArguments, host: &H) -> (r: (
    Result<ByteBuffer, NativeFnError>,
    Ghost<Seq<Exchange>>,
))
    ensures
        match native_with_log(NativeKind::ReadFile, arguments@, r.1@) {
            Some((Ok(b), rest)) => r.0 is Ok && r.0->Ok_0@ == b && rest.len() == 0,
            Some((Err(e), rest)) => r.0 is Err && r.0->Err_0@ == e && rest.len() == 0,
            None => false,
        },
{
    ask_host(NativeKind::ReadFile, arguments, "read_file", host)
}

/// `eval`: its first argument compiled as a source unit of its own, through
/// the host.
pub fn eval_native<H: NativeHost>(arguments: &NativeFunctionArguments, host: &H) -> (r: (
    Result<ByteBuffer, NativeFnError>,
    Ghost<Seq<Exchange>>,
))
    ensures
        match native_with_log(NativeKind::Eval, arguments@, r.1@) {
            Some((Ok(b), rest)) => r.0 is Ok && r.0->Ok_0@ == b && rest.len() == 0,
            Some((Err(e), rest)) => r.0 is Err && r.0->Err_0@ == e && rest.len() == 0,
            None => false,
        },
{
    ask_host(NativeKind::Eval, arguments, "eval", host)
}

impl NativeFunction {
    pub fn new(signature: NativeFunctionSignature, kind: NativeKind) -> (r: NativeFunction)
        ensures
            r.signature == signature,
            r.kind == kind,
    {
        NativeFunction { signature, kind }
    }

    pub fn signature(&self) -> (r: &NativeFunctionSignature)
        ensures
            *r == self.signature,
    {
        &self.signature
    }

    /// Runs the builtin on `arguments`; the unsafe ones ask `host`, and the
    /// exchange is logged.
    pub fn execute<H: NativeHost>(&self, arguments: &NativeFunctionArguments, host: &H) -> (r: (
        Result<ByteBuffer, NativeFnError>,
        Ghost<Seq<Exchange>>,
    ))
        ensures
            match native_with_log(self.kind, arguments@, r.1@) {
                Some((Ok(b), rest)) => r.0 is Ok && r.0->Ok_0@ == b && rest.len() == 0,
                Some((Err(e), rest)) => r.0 is Err && r.0->Err_0@ == e && rest.len() == 0,
                None => false,
            },
            kind_is_safe(self.kind) ==> r.1@.len() == 0,
    {
        run_native(self.kind, arguments, host)
    }
}

/// Runs the builtin `kind` on `arguments`; the unsafe ones ask `host`, and
/// the exchange is logged.
pub fn run_native<H: NativeHost>(kind: NativeKind, arguments: &NativeFunctionArguments, host: &H) -> (r: (
    Result<ByteBuffer, NativeFnError>,
    Ghost<Seq<Exchange>>,
))
    ensures
        match native_with_log(kind, arguments@, r.1@) {
            Some((Ok(b), rest)) => r.0 is Ok && r.0->Ok_0@ == b && rest.len() == 0,
            Some((Err(e), rest)) => r.0 is Err && r.0->Err_0@ == e && rest.len() == 0,
            None => false,
        },
        kind_is_safe(kind) ==> r.1@.len() == 0,
{
    match kind {
        NativeKind::Len => (len_native(arguments), Ghost(Seq::empty())),
        NativeKind::PadLeft => (pad_left_native(arguments), Ghost(Seq::empty())),
        NativeKind::PadRight => (pad_right_native(arguments), Ghost(Seq::empty())),
        NativeKind::Pad => (pad_native(arguments), Ghost(Seq::empty())),
        NativeKind::Cmd => cmd_native(arguments, host),
        NativeKind::ReadFile => read_file_native(arguments, host),
        NativeKind::Eval => eval_native(arguments, host),
    }
}

/// The catalog of builtins.
#[derive(Debug)]
pub struct NativeFunctionIndex {
    functions: Vec<NativeFunction>,
}

pub open spec fn catalog() -> Seq<NativeKind> {
    seq![
        NativeKind::Len,
        NativeKind::PadLeft,
        NativeKind::PadRight,
        NativeKind::Cmd,
        NativeKind::ReadFile,
        NativeKind::Pad,
        NativeKind::Eval,
    ]
}

fn native(name: &str, kind: NativeKind) -> (r: NativeFunction)
    requires
        name@ == kind_name(kind),
    ensures
        r.kind == kind,
        r.signature.name@ == kind_name(kind),
        r.signature.is_safe == kind_is_safe(kind),
{
    let signature = if kind == NativeKind::Cmd || kind == NativeKind::ReadFile || kind == NativeKind::Eval {
        NativeFunctionSignature::new_unsafe(name)
    } else {
        NativeFunctionSignature::new(name)
    };
    NativeFunction::new(signature, kind)
}

impl Default for NativeFunctionIndex {
    fn default() -> (r: NativeFunctionIndex)
        ensures
            r.wf(),
    {
        NativeFunctionIndex::new()
    }
}

impl NativeFunctionIndex {
    pub closed spec fn wf(&self) -> bool {
        &&& self.functions@.len() == catalog().len()
        &&& forall|i: int|
            0 <= i < catalog().len() ==> {
                &&& (#[trigger] self.functions@[i]).kind == catalog()[i]
                &&& self.functions@[i].signature.name@ == kind_name(catalog()[i])
                &&& self.functions@[i].signature.is_safe == kind_is_safe(catalog()[i])
            }
    }

    pub fn new() -> (r: NativeFunctionIndex)
        ensures
            r.wf(),
    {
        let functions = vec![
            native("len", NativeKind::Len),
            native("pad_left", NativeKind::PadLeft),
            native("pad_right", NativeKind::PadRight),
            native("cmd", NativeKind::Cmd),
            native("read_file", NativeKind::ReadFile),
            native("pad", NativeKind::Pad),
            native("eval", NativeKind::Eval),
        ];
        NativeFunctionIndex { functions }
    }

    /// The builtin called `name`, if any.
    pub fn find(&self, name: &String) -> (r: Option<&NativeFunction>)
        requires
            self.wf(),
        ensures
            match native_kind(name@) {
                Some(k) => r is Some && r->0.kind == k && r->0.signature.name@ == name@
                    && r->0.signature.is_safe == kind_is_safe(k),
                None => r is None,
            },
    {
        let mut i: usize = 0;
        while i < self.functions.len()
            invariant
                self.wf(),
                i <= catalog().len(),
                forall|j: int| 0 <= j < i ==> kind_name(catalog()[j]) != name@,
            decreases catalog().len() - i,
        {
            if self.functions[i].signature.name == *name {
                return Some(&self.functions[i]);
            }
            i = i + 1;
        }
        None
    }
}

/// An exchange log that a builtin call uses up, followed by more exchanges,
/// leaves exactly those.
pub proof fn lemma_native_with_log_extend(
    k: NativeKind,
    args: Seq<(Seq<char>, Seq<u8>)>,
    log: Seq<Exchange>,
    rest: Seq<Exchange>,
)
    requires
        native_with_log(k, args, log) matches Some((_, left)) && left.len() == 0,
    ensures
        ({
            let (res, _) = native_with_log(k, args, log)->0;
            native_with_log(k, args, log + rest) == Some((res, rest))
        }),
{
    match native_outcome(k, args) {
        NativeOutcome::Host(q) => {
            assert((log + rest)[0] == log[0]);
            assert((log + rest).subrange(1, (log + rest).len() as int) =~= log.subrange(1, log.len() as int) + rest);
            assert(log.subrange(1, log.len() as int) =~= Seq::<Exchange>::empty());
            assert(Seq::<Exchange>::empty() + rest =~= rest);
        },
        _ => {
            assert(log =~= Seq::<Exchange>::empty());
            assert(log + rest =~= rest);
        },
    }
}

} // verus!
