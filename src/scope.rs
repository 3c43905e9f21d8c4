use vstd::prelude::*;

use crate::byte_buffer::ByteBuffer;
use crate::cst::{emits_model, AtomModel, CstEmitStatement};
use crate::id::HexoId;
use crate::native::NativeFunctionIndex;

verus! {

/// Position of the last entry named `name` in an association list, or -1.
pub open spec fn find_index<V>(t: Seq<(Seq<char>, V)>, name: Seq<char>) -> int
    decreases t.len(),
{
    if t.len() == 0 {
        -1
    } else if t[t.len() - 1].0 == name {
        t.len() - 1
    } else {
        find_index(t.subrange(0, t.len() - 1), name)
    }
}

/// The value bound to `name`, if any.
pub open spec fn table_get<V>(t: Seq<(Seq<char>, V)>, name: Seq<char>) -> Option<V> {
    let i = find_index(t, name);
    if i >= 0 {
        Some(t[i].1)
    } else {
        None
    }
}

/// Binds `name` to `v`: an existing entry is overwritten in place, otherwise
/// the entry is appended.
pub open spec fn table_set<V>(t: Seq<(Seq<char>, V)>, name: Seq<char>, v: V) -> Seq<(Seq<char>, V)> {
    let i = find_index(t, name);
    if i >= 0 {
        t.update(i, (name, v))
    } else {
        t.push((name, v))
    }
}

pub proof fn lemma_find_index<V>(t: Seq<(Seq<char>, V)>, name: Seq<char>)
    ensures
        -1 <= find_index(t, name) < t.len(),
        find_index(t, name) >= 0 ==> t[find_index(t, name)].0 == name,
        forall|j: int| find_index(t, name) < j < t.len() ==> t[j].0 != name,
    decreases t.len(),
{
    if t.len() > 0 {
        let p = t.subrange(0, t.len() - 1);
        lemma_find_index(p, name);
        assert forall|j: int| find_index(t, name) < j < t.len() implies t[j].0 != name by {
            if j < t.len() - 1 {
                assert(p[j] == t[j]);
            }
        }
        if find_index(t, name) >= 0 && find_index(t, name) < t.len() - 1 {
            assert(p[find_index(t, name)] == t[find_index(t, name)]);
        }
    }
}

pub proof fn lemma_find_index_unique<V>(t: Seq<(Seq<char>, V)>, name: Seq<char>, i: int)
    requires
        -1 <= i < t.len(),
        i >= 0 ==> t[i].0 == name,
        forall|j: int| i < j < t.len() ==> t[j].0 != name,
    ensures
        find_index(t, name) == i,
    decreases t.len(),
{
    if t.len() > 0 && i < t.len() - 1 {
        let p = t.subrange(0, t.len() - 1);
        assert forall|j: int| i < j < p.len() implies p[j].0 != name by {
            assert(p[j] == t[j]);
        }
        if i >= 0 {
            assert(p[i] == t[i]);
        }
        lemma_find_index_unique(p, name, i);
    }
}

/// A constant binding of a scope: a name and its bytes.
#[derive(Debug)]
pub struct ConstantBinding {
    pub name: String,
    pub byte_buffer: ByteBuffer,
}

/// A function binding of a scope: the function's own scope id, its name and
/// the emit statements of its body.
#[derive(Debug)]
pub struct FunctionBinding<'a> {
    pub identifier: HexoId,
    pub name: String,
    pub emits: &'a Vec<CstEmitStatement>,
}

pub struct FunctionBindingModel {
    pub identifier: HexoId,
    pub emits: Seq<Seq<AtomModel>>,
}

/// One scope over plain values: constants and functions by name, and the ids
/// of the scopes a lookup falls back to, in order.
pub struct LocalScopeModel {
    pub constants: Seq<(Seq<char>, Seq<u8>)>,
    pub functions: Seq<(Seq<char>, FunctionBindingModel)>,
    pub parents: Seq<HexoId>,
}

pub open spec fn empty_scope() -> LocalScopeModel {
    LocalScopeModel { constants: Seq::empty(), functions: Seq::empty(), parents: Seq::empty() }
}

pub open spec fn constants_view(t: Seq<ConstantBinding>) -> Seq<(Seq<char>, Seq<u8>)> {
    Seq::new(t.len(), |i: int| (t[i].name@, t[i].byte_buffer@))
}

pub open spec fn functions_view(t: Seq<FunctionBinding>) -> Seq<(Seq<char>, FunctionBindingModel)> {
    Seq::new(
        t.len(),
        |i: int|
            (t[i].name@, FunctionBindingModel {
                identifier: t[i].identifier,
                emits: emits_model(t[i].emits@),
            }),
    )
}

/// The scope forest over plain values: each scope id with its table.
pub type ForestModel = Seq<(HexoId, LocalScopeModel)>;

/// Position of the last entry of `forest` for scope `id`, or -1.
pub open spec fn find_scope(forest: ForestModel, id: HexoId) -> int
    decreases forest.len(),
{
    if forest.len() == 0 {
        -1
    } else if forest[forest.len() - 1].0 == id {
        forest.len() - 1
    } else {
        find_scope(forest.subrange(0, forest.len() - 1), id)
    }
}

pub open spec fn has_scope(forest: ForestModel, id: HexoId) -> bool {
    find_scope(forest, id) >= 0
}

/// The table of scope `id`; a scope never bound is empty.
pub open spec fn local(forest: ForestModel, id: HexoId) -> LocalScopeModel {
    let i = find_scope(forest, id);
    if i >= 0 {
        forest[i].1
    } else {
        empty_scope()
    }
}

/// `forest` with the table of scope `id` replaced by `l`; a scope never
/// bound before is created.
pub open spec fn with_local(forest: ForestModel, id: HexoId, l: LocalScopeModel) -> ForestModel {
    let i = find_scope(forest, id);
    if i >= 0 {
        forest.update(i, (id, l))
    } else {
        forest.push((id, l))
    }
}

/// The bytes `name` is bound to as a constant seen from scope `id`: its own
/// table first, then each parent in turn, depth first. The search follows
/// at most as many scopes as the forest holds, which an acyclic parent
/// graph never exceeds.
pub open spec fn lookup_constant(forest: ForestModel, id: HexoId, name: Seq<char>) -> Option<Seq<u8>> {
    lookup_constant_within(forest, id, name, forest.len())
}

pub open spec fn lookup_constant_within(
    forest: ForestModel,
    id: HexoId,
    name: Seq<char>,
    fuel: nat,
) -> Option<Seq<u8>>
    decreases fuel, 1nat, 0nat,
{
    if fuel == 0 || !has_scope(forest, id) {
        None
    } else {
        match table_get(local(forest, id).constants, name) {
            Some(v) => Some(v),
            None => lookup_constant_parents(forest, id, name, fuel, 0),
        }
    }
}

pub open spec fn lookup_constant_parents(
    forest: ForestModel,
    id: HexoId,
    name: Seq<char>,
    fuel: nat,
    k: nat,
) -> Option<Seq<u8>>
    decreases fuel, 0nat, local(forest, id).parents.len() - k,
{
    if fuel == 0 || k >= local(forest, id).parents.len() {
        None
    } else {
        match lookup_constant_within(
            forest,
            local(forest, id).parents[k as int],
            name,
            (fuel - 1) as nat,
        ) {
            Some(v) => Some(v),
            None => lookup_constant_parents(forest, id, name, fuel, k + 1),
        }
    }
}

/// The function `name` is bound to as seen from scope `id`, found as
/// constants are.
pub open spec fn lookup_function(forest: ForestModel, id: HexoId, name: Seq<char>) -> Option<
    FunctionBindingModel,
> {
    lookup_function_within(forest, id, name, forest.len())
}

pub open spec fn lookup_function_within(
    forest: ForestModel,
    id: HexoId,
    name: Seq<char>,
    fuel: nat,
) -> Option<FunctionBindingModel>
    decreases fuel, 1nat, 0nat,
{
    if fuel == 0 || !has_scope(forest, id) {
        None
    } else {
        match table_get(local(forest, id).functions, name) {
            Some(v) => Some(v),
            None => lookup_function_parents(forest, id, name, fuel, 0),
        }
    }
}

pub open spec fn lookup_function_parents(
    forest: ForestModel,
    id: HexoId,
    name: Seq<char>,
    fuel: nat,
    k: nat,
) -> Option<FunctionBindingModel>
    decreases fuel, 0nat, local(forest, id).parents.len() - k,
{
    if fuel == 0 || k >= local(forest, id).parents.len() {
        None
    } else {
        match lookup_function_within(
            forest,
            local(forest, id).parents[k as int],
            name,
            (fuel - 1) as nat,
        ) {
            Some(v) => Some(v),
            None => lookup_function_parents(forest, id, name, fuel, k + 1),
        }
    }
}

/// `forest` with `name` bound to `bytes` in scope `id`.
pub open spec fn bind_constant(forest: ForestModel, id: HexoId, name: Seq<char>, bytes: Seq<u8>) -> ForestModel {
    let l = local(forest, id);
    with_local(forest, id, LocalScopeModel { constants: table_set(l.constants, name, bytes), ..l })
}

/// `forest` with `name` bound to the function `f` in scope `id`.
pub open spec fn bind_function(
    forest: ForestModel,
    id: HexoId,
    name: Seq<char>,
    f: FunctionBindingModel,
) -> ForestModel {
    let l = local(forest, id);
    with_local(forest, id, LocalScopeModel { functions: table_set(l.functions, name, f), ..l })
}

/// `forest` with `parent` appended to the parents of scope `id`.
pub open spec fn attach_parent(forest: ForestModel, id: HexoId, parent: HexoId) -> ForestModel {
    let l = local(forest, id);
    with_local(forest, id, LocalScopeModel { parents: l.parents.push(parent), ..l })
}

/// `forest` with each of `parents`, in order, appended to the parents of
/// scope `id`.
pub open spec fn attach_parents(forest: ForestModel, id: HexoId, parents: Seq<HexoId>) -> ForestModel
    decreases parents.len(),
{
    if parents.len() == 0 {
        forest
    } else {
        attach_parent(
            attach_parents(forest, id, parents.subrange(0, parents.len() - 1)),
            id,
            parents[parents.len() - 1],
        )
    }
}

/// The first sequence number from `k` on whose id `0:k` the forest does not
/// hold yet (one of the first `forest.len() + 1` is always free).
pub open spec fn free_sequence(forest: ForestModel, k: nat) -> nat
    decreases forest.len() + 1 - k,
{
    if k >= forest.len() {
        k
    } else if has_scope(forest, HexoId { batch_id: 0, sequence_id: k as u64 }) {
        free_sequence(forest, k + 1)
    } else {
        k
    }
}

/// The id the forest gives the next scope it allocates.
pub open spec fn next_scope_id(forest: ForestModel) -> HexoId {
    HexoId { batch_id: 0, sequence_id: free_sequence(forest, 0) as u64 }
}

/// The scope table of one function.
#[derive(Debug)]
pub struct LocalCompilationScope<'a> {
    constant_table: Vec<ConstantBinding>,
    function_table: Vec<FunctionBinding<'a>>,
    parents: Vec<HexoId>,
}

impl<'a> View for LocalCompilationScope<'a> {
    type V = LocalScopeModel;

    closed spec fn view(&self) -> LocalScopeModel {
        LocalScopeModel {
            constants: constants_view(self.constant_table@),
            functions: functions_view(self.function_table@),
            parents: self.parents@,
        }
    }
}

/// Index of the last constant binding named `name`, searching from the end.
pub(crate) fn find_constant(t: &Vec<ConstantBinding>, name: &String) -> (r: Option<usize>)
    ensures
        match r {
            Some(i) => find_index(constants_view(t@), name@) == i as int,
            None => find_index(constants_view(t@), name@) == -1,
        },
{
    let ghost v = constants_view(t@);
    let mut i: usize = t.len();
    while i > 0
        invariant
            i <= t@.len(),
            v == constants_view(t@),
            forall|j: int| i <= j < v.len() ==> v[j].0 != name@,
        decreases i,
    {
        if t[i - 1].name == *name {
            proof {
                lemma_find_index_unique(v, name@, i - 1);
            }
            return Some(i - 1);
        }
        i = i - 1;
    }
    proof {
        lemma_find_index_unique(v, name@, -1);
    }
    None
}

fn find_function(t: &Vec<FunctionBinding>, name: &String) -> (r: Option<usize>)
    ensures
        match r {
            Some(i) => find_index(functions_view(t@), name@) == i as int,
            None => find_index(functions_view(t@), name@) == -1,
        },
{
    let ghost v = functions_view(t@);
    let mut i: usize = t.len();
    while i > 0
        invariant
            i <= t@.len(),
            v == functions_view(t@),
            forall|j: int| i <= j < v.len() ==> v[j].0 != name@,
        decreases i,
    {
        if t[i - 1].name == *name {
            proof {
                lemma_find_index_unique(v, name@, i - 1);
            }
            return Some(i - 1);
        }
        i = i - 1;
    }
    proof {
        lemma_find_index_unique(v, name@, -1);
    }
    None
}

/// Binds a constant in a table, overwriting an entry of the same name.
pub(crate) fn set_constant(t: &mut Vec<ConstantBinding>, constant: ConstantBinding)
    ensures
        constants_view(final(t)@) == table_set(
            constants_view(old(t)@),
            constant.name@,
            constant.byte_buffer@,
        ),
{
    let ghost name = constant.name@;
    let ghost bytes = constant.byte_buffer@;
    proof {
        lemma_find_index(constants_view(t@), name);
    }
    match find_constant(t, &constant.name) {
        Some(i) => {
            t.set(i, constant);
            assert(constants_view(t@) =~= constants_view(old(t)@).update(i as int, (name, bytes)));
        },
        None => {
            t.push(constant);
            assert(constants_view(t@) =~= constants_view(old(t)@).push((name, bytes)));
        },
    }
}

impl<'a> LocalCompilationScope<'a> {
    fn new() -> (r: LocalCompilationScope<'a>)
        ensures
            r@ == empty_scope(),
    {
        let r = LocalCompilationScope {
            constant_table: Vec::new(),
            function_table: Vec::new(),
            parents: Vec::new(),
        };
        assert(r@.constants =~= Seq::<(Seq<char>, Seq<u8>)>::empty());
        assert(r@.functions =~= Seq::<(Seq<char>, FunctionBindingModel)>::empty());
        r
    }

    fn bind_constant(&mut self, constant: ConstantBinding)
        ensures
            final(self)@ == (LocalScopeModel {
                constants: table_set(old(self)@.constants, constant.name@, constant.byte_buffer@),
                ..old(self)@
            }),
    {
        set_constant(&mut self.constant_table, constant);
    }

    fn get_constant(&self, name: &String) -> (r: Option<&ConstantBinding>)
        ensures
            match table_get(self@.constants, name@) {
                Some(v) => r is Some && r->0.byte_buffer@ == v,
                None => r is None,
            },
    {
        proof {
            lemma_find_index(self@.constants, name@);
        }
        match find_constant(&self.constant_table, name) {
            Some(i) => Some(&self.constant_table[i]),
            None => None,
        }
    }

    fn bind_function(&mut self, function: FunctionBinding<'a>)
        ensures
            final(self)@ == (LocalScopeModel {
                functions: table_set(
                    old(self)@.functions,
                    function.name@,
                    FunctionBindingModel {
                        identifier: function.identifier,
                        emits: emits_model(function.emits@),
                    },
                ),
                ..old(self)@
            }),
    {
        let ghost name = function.name@;
        let ghost fm = FunctionBindingModel {
            identifier: function.identifier,
            emits: emits_model(function.emits@),
        };
        let ghost before = functions_view(self.function_table@);
        proof {
            lemma_find_index(before, name);
        }
        match find_function(&self.function_table, &function.name) {
            Some(i) => {
                self.function_table.set(i, function);
                assert(functions_view(self.function_table@) =~= before.update(i as int, (name, fm)));
            },
            None => {
                self.function_table.push(function);
                assert(functions_view(self.function_table@) =~= before.push((name, fm)));
            },
        }
    }

    fn get_function(&self, name: &String) -> (r: Option<&FunctionBinding<'a>>)
        ensures
            match table_get(self@.functions, name@) {
                Some(v) => r is Some && r->0.identifier == v.identifier && emits_model(
                    r->0.emits@,
                ) == v.emits,
                None => r is None,
            },
    {
        proof {
            lemma_find_index(self@.functions, name@);
        }
        match find_function(&self.function_table, name) {
            Some(i) => Some(&self.function_table[i]),
            None => None,
        }
    }

    fn attach_parent(&mut self, parent_id: HexoId)
        ensures
            final(self)@ == (LocalScopeModel { parents: old(self)@.parents.push(parent_id), ..old(self)@ }),
    {
        self.parents.push(parent_id);
    }
}

/// The forest of scopes of one compilation: a table per scope id, each
/// with the ids of the scopes its lookups fall back to.
#[derive(Debug)]
pub struct CompilationScope<'a> {
    self_path: String,
    scope_ids: Vec<HexoId>,
    local_scopes: Vec<LocalCompilationScope<'a>>,
    native_function_index: NativeFunctionIndex,
}

impl<'a> View for CompilationScope<'a> {
    type V = ForestModel;

    closed spec fn view(&self) -> ForestModel {
        Seq::new(self.local_scopes@.len(), |i: int| (self.scope_ids@[i], self.local_scopes@[i]@))
    }
}

impl<'a> CompilationScope<'a> {
    /// Ids and tables go together, and the builtins are the catalog.
    pub closed spec fn wf(&self) -> bool {
        &&& self.scope_ids@.len() == self.local_scopes@.len()
        &&& self.native_function_index.wf()
    }

    pub closed spec fn path(&self) -> Seq<char> {
        self.self_path@
    }

    pub fn new(path: &str) -> (r: CompilationScope<'a>)
        ensures
            r.wf(),
            r@ == Seq::<(HexoId, LocalScopeModel)>::empty(),
            r.path() == path@,
    {
        let r = CompilationScope {
            self_path: path.to_owned(),
            scope_ids: Vec::new(),
            local_scopes: Vec::new(),
            native_function_index: NativeFunctionIndex::new(),
        };
        assert(r@ =~= Seq::<(HexoId, LocalScopeModel)>::empty());
        r
    }

    /// Where the table of `scope_id` sits, if the forest holds it.
    fn find(&self, scope_id: HexoId) -> (r: Option<usize>)
        requires
            self.wf(),
        ensures
            match r {
                Some(i) => find_scope(self@, scope_id) == i as int && i < self.local_scopes@.len()
                    && local(self@, scope_id) == self.local_scopes@[i as int]@,
                None => find_scope(self@, scope_id) == -1,
            },
    {
        let ghost v = self@;
        let mut i: usize = self.scope_ids.len();
        while i > 0
            invariant
                self.wf(),
                v == self@,
                i <= v.len(),
                forall|j: int| i <= j < v.len() ==> v[j].0 != scope_id,
            decreases i,
        {
            if self.scope_ids[i - 1] == scope_id {
                proof {
                    lemma_find_scope_unique(v, scope_id, i - 1);
                }
                return Some(i - 1);
            }
            i = i - 1;
        }
        proof {
            lemma_find_scope_unique(v, scope_id, -1);
        }
        None
    }

    /// Where the table of `scope_id` sits, creating an empty one first if the
    /// forest does not hold it.
    fn find_or_create(&mut self, scope_id: HexoId) -> (r: usize)
        requires
            old(self).wf(),
        ensures
            final(self).wf(),
            final(self).path() == old(self).path(),
            final(self)@ == (if has_scope(old(self)@, scope_id) {
                old(self)@
            } else {
                old(self)@.push((scope_id, empty_scope()))
            }),
            find_scope(final(self)@, scope_id) == r as int,
            r < final(self).local_scopes@.len(),
            local(final(self)@, scope_id) == local(old(self)@, scope_id),
            local(final(self)@, scope_id) == final(self).local_scopes@[r as int]@,
            has_scope(old(self)@, scope_id) ==> find_scope(old(self)@, scope_id) == r as int,
            !has_scope(old(self)@, scope_id) ==> r as int == old(self)@.len(),
    {
        proof {
            lemma_find_scope(self@, scope_id);
        }
        match self.find(scope_id) {
            Some(i) => i,
            None => {
                self.scope_ids.push(scope_id);
                self.local_scopes.push(LocalCompilationScope::new());
                let n: usize = self.local_scopes.len();
                assert(self@ =~= old(self)@.push((scope_id, empty_scope())));
                proof {
                    lemma_find_scope_unique(self@, scope_id, n - 1);
                }
                n - 1
            },
        }
    }

    /// Allocates a new, empty scope and returns its id, one the forest did
    /// not hold.
    pub fn new_scope(&mut self) -> (id: HexoId)
        requires
            old(self).wf(),
        ensures
            final(self).wf(),
            id == next_scope_id(old(self)@),
            final(self)@ == old(self)@.push((id, empty_scope())),
            final(self).path() == old(self).path(),
    {
        let n: usize = self.local_scopes.len();
        let mut k: usize = 0;
        let mut free = false;
        proof {
            vstd::layout::unsigned_int_max_values();
            vstd::layout::usize_size_pow2();
        }
        assert(usize::MAX as nat <= u64::MAX as nat) by {
            vstd::layout::usize_size_pow2();
            vstd::layout::unsigned_int_max_values();
        }
        while !free && k < n
            invariant
                self.wf(),
                self@ == old(self)@,
                n == self@.len(),
                k <= n,
                usize::MAX as nat <= u64::MAX as nat,
                free_sequence(self@, 0) == free_sequence(self@, k as nat),
                free ==> free_sequence(self@, k as nat) == k as nat,
            decreases n - k, if free { 0nat } else { 1nat },
        {
            let candidate = HexoId { batch_id: 0, sequence_id: k as u64 };
            if self.find(candidate).is_none() {
                free = true;
            } else {
                k = k + 1;
            }
        }
        let id = HexoId { batch_id: 0, sequence_id: k as u64 };
        self.scope_ids.push(id);
        self.local_scopes.push(LocalCompilationScope::new());
        assert(self@ =~= old(self)@.push((id, empty_scope())));
        id
    }

    /// Binds (or rebinds) a constant in the scope `scope_id`, creating the
    /// scope if the forest does not hold it.
    pub fn bind_local_constant(&mut self, scope_id: HexoId, constant: ConstantBinding)
        requires
            old(self).wf(),
        ensures
            final(self).wf(),
            final(self).path() == old(self).path(),
            final(self)@ == bind_constant(
                old(self)@,
                scope_id,
                constant.name@,
                constant.byte_buffer@,
            ),
    {
        let ghost name = constant.name@;
        let ghost bytes = constant.byte_buffer@;
        let ghost l = local(old(self)@, scope_id);
        let ghost l2 = LocalScopeModel { constants: table_set(l.constants, name, bytes), ..l };
        let i = self.find_or_create(scope_id);
        let ghost mid = self@;
        self.local_scopes[i].bind_constant(constant);
        proof {
            lemma_find_scope(old(self)@, scope_id);
            assert(self@ =~= mid.update(i as int, (scope_id, l2)));
            if has_scope(old(self)@, scope_id) {
                assert(self@ =~= old(self)@.update(i as int, (scope_id, l2)));
            } else {
                assert(self@ =~= old(self)@.push((scope_id, l2)));
            }
        }
    }

    fn lookup_constant_in(&self, scope_id: HexoId, name: &String, fuel: usize) -> (r: Option<&ConstantBinding>)
        requires
            self.wf(),
        ensures
            match lookup_constant_within(self@, scope_id, name@, fuel as nat) {
                Some(v) => r is Some && r->0.byte_buffer@ == v,
                None => r is None,
            },
        decreases fuel,
    {
        if fuel == 0 {
            return None;
        }
        let i = match self.find(scope_id) {
            Some(i) => i,
            None => return None,
        };
        let local_scope = &self.local_scopes[i];
        assert(local(self@, scope_id) == local_scope@);
        let found = local_scope.get_constant(name);
        if found.is_some() {
            return found;
        }
        let mut k: usize = 0;
        while k < local_scope.parents.len()
            invariant
                self.wf(),
                fuel > 0,
                local(self@, scope_id) == local_scope@,
                k <= local_scope@.parents.len(),
                lookup_constant_within(self@, scope_id, name@, fuel as nat)
                    == lookup_constant_parents(self@, scope_id, name@, fuel as nat, k as nat),
            decreases local_scope@.parents.len() - k,
        {
            let parent = local_scope.parents[k];
            assert(parent == local_scope@.parents[k as int]);
            let r = self.lookup_constant_in(parent, name, fuel - 1);
            if r.is_some() {
                return r;
            }
            k = k + 1;
        }
        None
    }

    /// The constant `name` as seen from `scope_id`, falling back to parents
    /// depth first.
    pub fn get_local_constant(&self, scope_id: HexoId, name: &String) -> (r: Option<&ConstantBinding>)
        requires
            self.wf(),
        ensures
            match lookup_constant(self@, scope_id, name@) {
                Some(v) => r is Some && r->0.byte_buffer@ == v,
                None => r is None,
            },
    {
        self.lookup_constant_in(scope_id, name, self.local_scopes.len())
    }

    /// Binds (or rebinds) a function in the scope `scope_id`, creating the
    /// scope if the forest does not hold it.
    pub fn bind_local_function(&mut self, scope_id: HexoId, function: FunctionBinding<'a>)
        requires
            old(self).wf(),
        ensures
            final(self).wf(),
            final(self).path() == old(self).path(),
            final(self)@ == bind_function(
                old(self)@,
                scope_id,
                function.name@,
                FunctionBindingModel {
                    identifier: function.identifier,
                    emits: emits_model(function.emits@),
                },
            ),
    {
        let ghost name = function.name@;
        let ghost fm = FunctionBindingModel {
            identifier: function.identifier,
            emits: emits_model(function.emits@),
        };
        let ghost l = local(old(self)@, scope_id);
        let ghost l2 = LocalScopeModel { functions: table_set(l.functions, name, fm), ..l };
        let i = self.find_or_create(scope_id);
        let ghost mid = self@;
        self.local_scopes[i].bind_function(function);
        proof {
            lemma_find_scope(old(self)@, scope_id);
            assert(self@ =~= mid.update(i as int, (scope_id, l2)));
            if has_scope(old(self)@, scope_id) {
                assert(self@ =~= old(self)@.update(i as int, (scope_id, l2)));
            } else {
                assert(self@ =~= old(self)@.push((scope_id, l2)));
            }
        }
    }

    fn lookup_function_in(&self, scope_id: HexoId, name: &String, fuel: usize) -> (r: Option<&FunctionBinding<'a>>)
        requires
            self.wf(),
        ensures
            match lookup_function_within(self@, scope_id, name@, fuel as nat) {
                Some(v) => r is Some && r->0.identifier == v.identifier && emits_model(r->0.emits@)
                    == v.emits,
                None => r is None,
            },
        decreases fuel,
    {
        if fuel == 0 {
            return None;
        }
        let i = match self.find(scope_id) {
            Some(i) => i,
            None => return None,
        };
        let local_scope = &self.local_scopes[i];
        assert(local(self@, scope_id) == local_scope@);
        let found = local_scope.get_function(name);
        if found.is_some() {
            return found;
        }
        let mut k: usize = 0;
        while k < local_scope.parents.len()
            invariant
                self.wf(),
                fuel > 0,
                local(self@, scope_id) == local_scope@,
                k <= local_scope@.parents.len(),
                lookup_function_within(self@, scope_id, name@, fuel as nat)
                    == lookup_function_parents(self@, scope_id, name@, fuel as nat, k as nat),
            decreases local_scope@.parents.len() - k,
        {
            let parent = local_scope.parents[k];
            assert(parent == local_scope@.parents[k as int]);
            let r = self.lookup_function_in(parent, name, fuel - 1);
            if r.is_some() {
                return r;
            }
            k = k + 1;
        }
        None
    }

    /// The function `name` as seen from `scope_id`, falling back to parents
    /// depth first.
    pub fn get_local_function(&self, scope_id: HexoId, name: &String) -> (r: Option<&FunctionBinding<'a>>)
        requires
            self.wf(),
        ensures
            match lookup_function(self@, scope_id, name@) {
                Some(v) => r is Some && r->0.identifier == v.identifier && emits_model(r->0.emits@)
                    == v.emits,
                None => r is None,
            },
    {
        self.lookup_function_in(scope_id, name, self.local_scopes.len())
    }

    /// Appends `parents`, in order, to the fallback scopes of `scope_id`,
    /// creating the scope if the forest does not hold it.
    pub fn bind_parents(&mut self, scope_id: HexoId, parents: Vec<HexoId>)
        requires
            old(self).wf(),
        ensures
            final(self).wf(),
            final(self).path() == old(self).path(),
            final(self)@ == attach_parents(old(self)@, scope_id, parents@),
    {
        let mut k: usize = 0;
        while k < parents.len()
            invariant
                self.wf(),
                self.path() == old(self).path(),
                k <= parents@.len(),
                self@ == attach_parents(old(self)@, scope_id, parents@.subrange(0, k as int)),
            decreases parents@.len() - k,
        {
            let ghost before = self@;
            let ghost l = local(before, scope_id);
            let ghost l2 = LocalScopeModel { parents: l.parents.push(parents@[k as int]), ..l };
            let i = self.find_or_create(scope_id);
            let ghost mid = self@;
            self.local_scopes[i].attach_parent(parents[k]);
            proof {
                lemma_find_scope(before, scope_id);
                assert(self@ =~= mid.update(i as int, (scope_id, l2)));
                if has_scope(before, scope_id) {
                    assert(self@ =~= before.update(i as int, (scope_id, l2)));
                } else {
                    assert(self@ =~= before.push((scope_id, l2)));
                }
            }
            assert(parents@.subrange(0, k + 1).subrange(0, k as int) =~= parents@.subrange(0, k as int));
            k = k + 1;
        }
        assert(parents@.subrange(0, k as int) =~= parents@);
    }

    /// The builtin function called `name`, if there is one.
    pub fn get_native_function(&self, name: &String) -> (r: Option<&crate::native::NativeFunction>)
        requires
            self.wf(),
        ensures
            match crate::native::native_kind(name@) {
                Some(k) => r is Some && r->0.kind == k && r->0.signature.name@ == name@
                    && r->0.signature.is_safe == crate::native::kind_is_safe(k),
                None => r is None,
            },
    {
        self.native_function_index.find(name)
    }
}

pub proof fn lemma_find_scope(forest: ForestModel, id: HexoId)
    ensures
        -1 <= find_scope(forest, id) < forest.len(),
        find_scope(forest, id) >= 0 ==> forest[find_scope(forest, id)].0 == id,
        forall|j: int| find_scope(forest, id) < j < forest.len() ==> forest[j].0 != id,
    decreases forest.len(),
{
    if forest.len() > 0 {
        let p = forest.subrange(0, forest.len() - 1);
        lemma_find_scope(p, id);
        assert forall|j: int| find_scope(forest, id) < j < forest.len() implies forest[j].0 != id by {
            if j < forest.len() - 1 {
                assert(p[j] == forest[j]);
            }
        }
        if find_scope(forest, id) >= 0 && find_scope(forest, id) < forest.len() - 1 {
            assert(p[find_scope(forest, id)] == forest[find_scope(forest, id)]);
        }
    }
}

pub proof fn lemma_find_scope_unique(forest: ForestModel, id: HexoId, i: int)
    requires
        -1 <= i < forest.len(),
        i >= 0 ==> forest[i].0 == id,
        forall|j: int| i < j < forest.len() ==> forest[j].0 != id,
    ensures
        find_scope(forest, id) == i,
    decreases forest.len(),
{
    if forest.len() > 0 && i < forest.len() - 1 {
        let p = forest.subrange(0, forest.len() - 1);
        assert forall|j: int| i < j < p.len() implies p[j].0 != id by {
            assert(p[j] == forest[j]);
        }
        if i >= 0 {
            assert(p[i] == forest[i]);
        }
        lemma_find_scope_unique(p, id, i);
    }
}

} // verus!
