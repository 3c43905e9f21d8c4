use vstd::prelude::*;

verus! {

/// One unit of emittable content.
#[derive(Debug)]
pub enum CstAtom {
    Hex(u8),
    String(String),
    Number(u32),
    Constant { name: String },
    Function { name: String, params: Vec<CstActualParameter> },
}

/// An actual parameter of a call: its name (an identifier, or the position
/// written in decimal) and the atoms of its value.
#[derive(Debug)]
pub struct CstActualParameter {
    pub name: String,
    pub value: Vec<CstAtom>,
}

/// `emit` followed by atoms.
#[derive(Debug)]
pub struct CstEmitStatement {
    pub atoms: Vec<CstAtom>,
}

/// `const` with its name and the atoms of its value.
#[derive(Debug)]
pub struct CstConstantStatement {
    pub name: String,
    pub atoms: Vec<CstAtom>,
}

/// A function definition with its body: emits, nested functions, constants.
#[derive(Debug)]
pub struct CstFunctionStatement {
    pub name: String,
    pub emits: Vec<CstEmitStatement>,
    pub functions: Vec<CstFunctionStatement>,
    pub constants: Vec<CstConstantStatement>,
}

/// One compiled source unit: its path and its implicit `main` function.
#[derive(Debug)]
pub struct CstFile {
    pub path: String,
    pub main: CstFunctionStatement,
}

/// What an atom means, over plain values.
pub enum AtomModel {
    Hex(u8),
    Text(Seq<char>),
    Number(u32),
    Constant(Seq<char>),
    Function(Seq<char>, Seq<ParamModel>),
}

pub struct ParamModel {
    pub name: Seq<char>,
    pub value: Seq<AtomModel>,
}

pub struct ConstantModel {
    pub name: Seq<char>,
    pub atoms: Seq<AtomModel>,
}

/// A function: its name, the atom list of each emit statement, its nested
/// functions and its constants, all in source order.
pub struct FunctionModel {
    pub name: Seq<char>,
    pub emits: Seq<Seq<AtomModel>>,
    pub functions: Seq<FunctionModel>,
    pub constants: Seq<ConstantModel>,
}

pub open spec fn atom_model(a: CstAtom) -> AtomModel
    decreases a,
{
    match a {
        CstAtom::Hex(b) => AtomModel::Hex(b),
        CstAtom::String(s) => AtomModel::Text(s@),
        CstAtom::Number(n) => AtomModel::Number(n),
        CstAtom::Constant { name } => AtomModel::Constant(name@),
        CstAtom::Function { name, params } => AtomModel::Function(name@, params_model(params@)),
    }
}

pub open spec fn atoms_model(s: Seq<CstAtom>) -> Seq<AtomModel>
    decreases s,
{
    if s.len() == 0 {
        Seq::empty()
    } else {
        atoms_model(s.subrange(0, s.len() - 1)).push(atom_model(s[s.len() - 1]))
    }
}

pub open spec fn params_model(s: Seq<CstActualParameter>) -> Seq<ParamModel>
    decreases s,
{
    if s.len() == 0 {
        Seq::empty()
    } else {
        params_model(s.subrange(0, s.len() - 1)).push(
            ParamModel { name: s[s.len() - 1].name@, value: atoms_model(s[s.len() - 1].value@) },
        )
    }
}

pub open spec fn emits_model(s: Seq<CstEmitStatement>) -> Seq<Seq<AtomModel>>
    decreases s.len(),
{
    if s.len() == 0 {
        Seq::empty()
    } else {
        emits_model(s.subrange(0, s.len() - 1)).push(atoms_model(s[s.len() - 1].atoms@))
    }
}

pub open spec fn constants_model(s: Seq<CstConstantStatement>) -> Seq<ConstantModel>
    decreases s.len(),
{
    if s.len() == 0 {
        Seq::empty()
    } else {
        constants_model(s.subrange(0, s.len() - 1)).push(
            ConstantModel { name: s[s.len() - 1].name@, atoms: atoms_model(s[s.len() - 1].atoms@) },
        )
    }
}

pub open spec fn function_model(f: CstFunctionStatement) -> FunctionModel
    decreases f,
{
    FunctionModel {
        name: f.name@,
        emits: emits_model(f.emits@),
        functions: functions_model(f.functions@),
        constants: constants_model(f.constants@),
    }
}

pub open spec fn functions_model(s: Seq<CstFunctionStatement>) -> Seq<FunctionModel>
    decreases s,
{
    if s.len() == 0 {
        Seq::empty()
    } else {
        functions_model(s.subrange(0, s.len() - 1)).push(function_model(s[s.len() - 1]))
    }
}

pub broadcast proof fn lemma_atoms_model_push(s: Seq<CstAtom>, a: CstAtom)
    ensures
        #[trigger] atoms_model(s.push(a)) == atoms_model(s).push(atom_model(a)),
{
    assert(s.push(a).subrange(0, s.len() as int) =~= s);
}

pub broadcast proof fn lemma_atoms_model_len(s: Seq<CstAtom>)
    ensures
        #[trigger] atoms_model(s).len() == s.len(),
    decreases s.len(),
{
    if s.len() > 0 {
        lemma_atoms_model_len(s.subrange(0, s.len() - 1));
    }
}

pub broadcast proof fn lemma_atoms_model_index(s: Seq<CstAtom>, i: int)
    requires
        0 <= i < s.len(),
    ensures
        #[trigger] atoms_model(s)[i] == atom_model(s[i]),
    decreases s.len(),
{
    let p = s.subrange(0, s.len() - 1);
    lemma_atoms_model_len(p);
    if i < s.len() - 1 {
        lemma_atoms_model_index(p, i);
        assert(p[i] == s[i]);
    }
}

pub broadcast proof fn lemma_params_model_push(s: Seq<CstActualParameter>, p: CstActualParameter)
    ensures
        #[trigger] params_model(s.push(p)) == params_model(s).push(
            ParamModel { name: p.name@, value: atoms_model(p.value@) },
        ),
{
    assert(s.push(p).subrange(0, s.len() as int) =~= s);
}

pub broadcast proof fn lemma_params_model_len(s: Seq<CstActualParameter>)
    ensures
        #[trigger] params_model(s).len() == s.len(),
    decreases s.len(),
{
    if s.len() > 0 {
        lemma_params_model_len(s.subrange(0, s.len() - 1));
    }
}

pub broadcast proof fn lemma_params_model_index(s: Seq<CstActualParameter>, i: int)
    requires
        0 <= i < s.len(),
    ensures
        #[trigger] params_model(s)[i] == (ParamModel {
            name: s[i].name@,
            value: atoms_model(s[i].value@),
        }),
    decreases s.len(),
{
    let p = s.subrange(0, s.len() - 1);
    lemma_params_model_len(p);
    if i < s.len() - 1 {
        lemma_params_model_index(p, i);
        assert(p[i] == s[i]);
    }
}

pub broadcast proof fn lemma_emits_model_push(s: Seq<CstEmitStatement>, e: CstEmitStatement)
    ensures
        #[trigger] emits_model(s.push(e)) == emits_model(s).push(atoms_model(e.atoms@)),
{
    assert(s.push(e).subrange(0, s.len() as int) =~= s);
}

pub broadcast proof fn lemma_emits_model_len(s: Seq<CstEmitStatement>)
    ensures
        #[trigger] emits_model(s).len() == s.len(),
    decreases s.len(),
{
    if s.len() > 0 {
        lemma_emits_model_len(s.subrange(0, s.len() - 1));
    }
}

pub broadcast proof fn lemma_emits_model_index(s: Seq<CstEmitStatement>, i: int)
    requires
        0 <= i < s.len(),
    ensures
        #[trigger] emits_model(s)[i] == atoms_model(s[i].atoms@),
    decreases s.len(),
{
    let p = s.subrange(0, s.len() - 1);
    lemma_emits_model_len(p);
    if i < s.len() - 1 {
        lemma_emits_model_index(p, i);
        assert(p[i] == s[i]);
    }
}

pub broadcast proof fn lemma_constants_model_push(
    s: Seq<CstConstantStatement>,
    c: CstConstantStatement,
)
    ensures
        #[trigger] constants_model(s.push(c)) == constants_model(s).push(
            ConstantModel { name: c.name@, atoms: atoms_model(c.atoms@) },
        ),
{
    assert(s.push(c).subrange(0, s.len() as int) =~= s);
}

pub broadcast proof fn lemma_constants_model_len(s: Seq<CstConstantStatement>)
    ensures
        #[trigger] constants_model(s).len() == s.len(),
    decreases s.len(),
{
    if s.len() > 0 {
        lemma_constants_model_len(s.subrange(0, s.len() - 1));
    }
}

pub broadcast proof fn lemma_constants_model_index(s: Seq<CstConstantStatement>, i: int)
    requires
        0 <= i < s.len(),
    ensures
        #[trigger] constants_model(s)[i] == (ConstantModel {
            name: s[i].name@,
            atoms: atoms_model(s[i].atoms@),
        }),
    decreases s.len(),
{
    let p = s.subrange(0, s.len() - 1);
    lemma_constants_model_len(p);
    if i < s.len() - 1 {
        lemma_constants_model_index(p, i);
        assert(p[i] == s[i]);
    }
}

pub broadcast proof fn lemma_functions_model_push(
    s: Seq<CstFunctionStatement>,
    f: CstFunctionStatement,
)
    ensures
        #[trigger] functions_model(s.push(f)) == functions_model(s).push(function_model(f)),
{
    assert(s.push(f).subrange(0, s.len() as int) =~= s);
}

pub broadcast proof fn lemma_functions_model_len(s: Seq<CstFunctionStatement>)
    ensures
        #[trigger] functions_model(s).len() == s.len(),
    decreases s.len(),
{
    if s.len() > 0 {
        lemma_functions_model_len(s.subrange(0, s.len() - 1));
    }
}

pub broadcast proof fn lemma_functions_model_index(s: Seq<CstFunctionStatement>, i: int)
    requires
        0 <= i < s.len(),
    ensures
        #[trigger] functions_model(s)[i] == function_model(s[i]),
    decreases s.len(),
{
    let p = s.subrange(0, s.len() - 1);
    lemma_functions_model_len(p);
    if i < s.len() - 1 {
        lemma_functions_model_index(p, i);
        assert(p[i] == s[i]);
    }
}

pub broadcast group group_cst_model {
    lemma_atoms_model_push,
    lemma_atoms_model_len,
    lemma_atoms_model_index,
    lemma_params_model_push,
    lemma_params_model_len,
    lemma_params_model_index,
    lemma_emits_model_push,
    lemma_emits_model_len,
    lemma_emits_model_index,
    lemma_constants_model_push,
    lemma_constants_model_len,
    lemma_constants_model_index,
    lemma_functions_model_push,
    lemma_functions_model_len,
    lemma_functions_model_index,
}

impl CstFile {
    pub fn new(path: String, main: CstFunctionStatement) -> (r: CstFile)
        ensures
            r.path@ == path@,
            r.main == main,
    {
        CstFile { path, main }
    }

    pub fn path(&self) -> (r: &str)
        ensures
            r@ == self.path@,
    {
        self.path.as_str()
    }

    pub fn main(&self) -> (r: &CstFunctionStatement)
        ensures
            *r == self.main,
    {
        &self.main
    }
}

impl CstActualParameter {
    pub fn new(name: String, value: Vec<CstAtom>) -> (r: CstActualParameter)
        ensures
            r.name@ == name@,
            r.value == value,
    {
        CstActualParameter { name, value }
    }

    pub fn name(&self) -> (r: &str)
        ensures
            r@ == self.name@,
    {
        self.name.as_str()
    }

    pub fn value(&self) -> (r: &Vec<CstAtom>)
        ensures
            *r == self.value,
    {
        &self.value
    }
}

impl CstEmitStatement {
    pub fn new(atoms: Vec<CstAtom>) -> (r: CstEmitStatement)
        ensures
            r.atoms == atoms,
    {
        CstEmitStatement { atoms }
    }

    pub fn atoms(&self) -> (r: &Vec<CstAtom>)
        ensures
            *r == self.atoms,
    {
        &self.atoms
    }
}

impl CstConstantStatement {
    pub fn new(name: String, atoms: Vec<CstAtom>) -> (r: CstConstantStatement)
        ensures
            r.name@ == name@,
            r.atoms == atoms,
    {
        CstConstantStatement { name, atoms }
    }

    pub fn name(&self) -> (r: &str)
        ensures
            r@ == self.name@,
    {
        self.name.as_str()
    }

    pub fn atoms(&self) -> (r: &Vec<CstAtom>)
        ensures
            *r == self.atoms,
    {
        &self.atoms
    }
}

impl CstFunctionStatement {
    pub fn new(
        name: String,
        emits: Vec<CstEmitStatement>,
        functions: Vec<CstFunctionStatement>,
        constants: Vec<CstConstantStatement>,
    ) -> (r: CstFunctionStatement)
        ensures
            r.name@ == name@,
            r.emits == emits,
            r.functions == functions,
            r.constants == constants,
    {
        CstFunctionStatement { name, emits, functions, constants }
    }

    pub fn name(&self) -> (r: &str)
        ensures
            r@ == self.name@,
    {
        self.name.as_str()
    }

    pub fn emits(&self) -> (r: &Vec<CstEmitStatement>)
        ensures
            *r == self.emits,
    {
        &self.emits
    }

    pub fn constants(&self) -> (r: &Vec<CstConstantStatement>)
        ensures
            *r == self.constants,
    {
        &self.constants
    }

    pub fn functions(&self) -> (r: &Vec<CstFunctionStatement>)
        ensures
            *r == self.functions,
    {
        &self.functions
    }
}

} // verus!
