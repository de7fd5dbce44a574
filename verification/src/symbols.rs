//! Symbol tables: the scope-keyed variable table and the function
//! signature table.
//!
//! A scope is the ordered path of enclosing node ids (outermost first).
//! Variable lookup walks from the current scope outward, popping path
//! segments, until a binding is found or the root is exhausted. Scopes
//! are created lazily on first declaration and never merged or deleted.

use vstd::prelude::*;

use crate::error::ResolutionError;
use crate::token::Type;

verus! {

/// One variable binding: a name bound to a stable id and a type.
#[derive(Debug, Clone, PartialEq)]
pub struct Binding {
    pub name: String,
    pub id: u64,
    pub ty: Type,
}

/// The bindings of one scope, keyed by the scope's path.
#[derive(Debug, Clone, PartialEq)]
pub struct ScopeEntry {
    pub path: Vec<u64>,
    pub binds: Vec<Binding>,
}

/// The variable table of one compilation target.
#[derive(Debug, Clone, PartialEq)]
pub struct VarTable {
    pub scopes: Vec<ScopeEntry>,
}

/// One declared parameter of a function: its stable argument id, its
/// display name, and its type.
#[derive(Debug, Clone, PartialEq)]
pub struct Param {
    pub id: u64,
    pub name: String,
    pub ty: Type,
}

/// One declared function: its name and its ordered parameters.
#[derive(Debug, Clone, PartialEq)]
pub struct FuncSig {
    pub name: String,
    pub params: Vec<Param>,
}

/// The function signature table of one compilation target. Populated
/// entirely while a function's declaration is lowered; read-only
/// afterwards.
#[derive(Debug, Clone, PartialEq)]
pub struct FuncTable {
    pub funcs: Vec<FuncSig>,
}

// ---------------------------------------------------------------------
// Models.
// ---------------------------------------------------------------------

#[verifier::ext_equal]
pub ghost struct BindModel {
    pub name: Seq<char>,
    pub id: u64,
    pub ty: Type,
}

#[verifier::ext_equal]
pub ghost struct ScopeModel {
    pub path: Seq<u64>,
    pub binds: Seq<BindModel>,
}

#[verifier::ext_equal]
pub ghost struct ParamModel {
    pub id: u64,
    pub name: Seq<char>,
    pub ty: Type,
}

#[verifier::ext_equal]
pub ghost struct FuncModel {
    pub name: Seq<char>,
    pub params: Seq<ParamModel>,
}

impl View for Binding {
    type V = BindModel;

    open spec fn view(&self) -> BindModel {
        BindModel { name: self.name@, id: self.id, ty: self.ty }
    }
}

impl View for ScopeEntry {
    type V = ScopeModel;

    open spec fn view(&self) -> ScopeModel {
        ScopeModel { path: self.path@, binds: self.binds@.map_values(|b: Binding| b@) }
    }
}

impl View for VarTable {
    type V = Seq<ScopeModel>;

    open spec fn view(&self) -> Seq<ScopeModel> {
        self.scopes@.map_values(|e: ScopeEntry| e@)
    }
}

impl View for Param {
    type V = ParamModel;

    open spec fn view(&self) -> ParamModel {
        ParamModel { id: self.id, name: self.name@, ty: self.ty }
    }
}

impl View for FuncSig {
    type V = FuncModel;

    open spec fn view(&self) -> FuncModel {
        FuncModel { name: self.name@, params: self.params@.map_values(|p: Param| p@) }
    }
}

impl View for FuncTable {
    type V = Seq<FuncModel>;

    open spec fn view(&self) -> Seq<FuncModel> {
        self.funcs@.map_values(|f: FuncSig| f@)
    }
}

// ---------------------------------------------------------------------
// Specification of the table operations.
// ---------------------------------------------------------------------

/// The index of the entry for `path`, if the table holds one.
pub open spec fn find_scope(t: Seq<ScopeModel>, path: Seq<u64>) -> Option<int>
    decreases t.len(),
{
    if t.len() == 0 {
        Option::None
    } else if t[0].path == path {
        Option::Some(0int)
    } else {
        match find_scope(t.drop_first(), path) {
            Option::Some(i) => Option::Some(i + 1),
            Option::None => Option::None,
        }
    }
}

/// The first binding of `name` in a scope's binding list.
pub open spec fn find_bind(bs: Seq<BindModel>, name: Seq<char>) -> Option<BindModel>
    decreases bs.len(),
{
    if bs.len() == 0 {
        Option::None
    } else if bs[0].name == name {
        Option::Some(bs[0])
    } else {
        find_bind(bs.drop_first(), name)
    }
}

/// The binding of `name` exactly in the scope `path`, without walking.
pub open spec fn scope_lookup(t: Seq<ScopeModel>, path: Seq<u64>, name: Seq<char>) -> Option<
    BindModel,
> {
    match find_scope(t, path) {
        Option::Some(i) => find_bind(t[i].binds, name),
        Option::None => Option::None,
    }
}

/// The outward walk: the binding of `name` in `path` or the nearest
/// enclosing scope that binds it.
pub open spec fn resolve_model(t: Seq<ScopeModel>, path: Seq<u64>, name: Seq<char>) -> Option<
    BindModel,
>
    decreases path.len(),
{
    match scope_lookup(t, path, name) {
        Option::Some(b) => Option::Some(b),
        Option::None => {
            if path.len() == 0 {
                Option::None
            } else {
                resolve_model(t, path.drop_last(), name)
            }
        },
    }
}

/// The table after binding `name` in `path`, or `None` if the same
/// (scope, name) pair is already bound.
pub open spec fn declare_model(
    t: Seq<ScopeModel>,
    path: Seq<u64>,
    name: Seq<char>,
    id: u64,
    ty: Type,
) -> Option<Seq<ScopeModel>> {
    if scope_lookup(t, path, name) is Some {
        Option::None
    } else {
        let b = BindModel { name, id, ty };
        match find_scope(t, path) {
            Option::Some(i) => Option::Some(
                t.update(i, ScopeModel { path: t[i].path, binds: t[i].binds.push(b) }),
            ),
            Option::None => Option::Some(t.push(ScopeModel { path, binds: seq![b] })),
        }
    }
}

/// The first declared function of that name.
pub open spec fn find_func(fs: Seq<FuncModel>, name: Seq<char>) -> Option<FuncModel>
    decreases fs.len(),
{
    if fs.len() == 0 {
        Option::None
    } else if fs[0].name == name {
        Option::Some(fs[0])
    } else {
        find_func(fs.drop_first(), name)
    }
}

// ---------------------------------------------------------------------
// First-match lemmas connecting the recursive specifications to the
// index-based loops below.
// ---------------------------------------------------------------------

proof fn lemma_find_scope_at(t: Seq<ScopeModel>, path: Seq<u64>, i: int)
    requires
        0 <= i < t.len(),
        t[i].path == path,
        forall|j: int| 0 <= j < i ==> t[j].path != path,
    ensures
        find_scope(t, path) == Option::Some(i),
    decreases i,
{
    if i > 0 {
        lemma_find_scope_at(t.drop_first(), path, i - 1);
    }
}

proof fn lemma_find_scope_none(t: Seq<ScopeModel>, path: Seq<u64>)
    requires
        forall|j: int| 0 <= j < t.len() ==> t[j].path != path,
    ensures
        find_scope(t, path) is None,
    decreases t.len(),
{
    if t.len() > 0 {
        lemma_find_scope_none(t.drop_first(), path);
    }
}

proof fn lemma_find_bind_at(bs: Seq<BindModel>, name: Seq<char>, i: int)
    requires
        0 <= i < bs.len(),
        bs[i].name == name,
        forall|j: int| 0 <= j < i ==> bs[j].name != name,
    ensures
        find_bind(bs, name) == Option::Some(bs[i]),
    decreases i,
{
    if i > 0 {
        lemma_find_bind_at(bs.drop_first(), name, i - 1);
    }
}

proof fn lemma_find_bind_none(bs: Seq<BindModel>, name: Seq<char>)
    requires
        forall|j: int| 0 <= j < bs.len() ==> bs[j].name != name,
    ensures
        find_bind(bs, name) is None,
    decreases bs.len(),
{
    if bs.len() > 0 {
        lemma_find_bind_none(bs.drop_first(), name);
    }
}

proof fn lemma_find_func_at(fs: Seq<FuncModel>, name: Seq<char>, i: int)
    requires
        0 <= i < fs.len(),
        fs[i].name == name,
        forall|j: int| 0 <= j < i ==> fs[j].name != name,
    ensures
        find_func(fs, name) == Option::Some(fs[i]),
    decreases i,
{
    if i > 0 {
        lemma_find_func_at(fs.drop_first(), name, i - 1);
    }
}

proof fn lemma_find_func_none(fs: Seq<FuncModel>, name: Seq<char>)
    requires
        forall|j: int| 0 <= j < fs.len() ==> fs[j].name != name,
    ensures
        find_func(fs, name) is None,
    decreases fs.len(),
{
    if fs.len() > 0 {
        lemma_find_func_none(fs.drop_first(), name);
    }
}

// ---------------------------------------------------------------------
// Laws of declaration and resolution.
// ---------------------------------------------------------------------

/// Whether `p` is `q` or an enclosing prefix of `q`.
pub open spec fn is_path_prefix(p: Seq<u64>, q: Seq<u64>) -> bool {
    p.len() <= q.len() && q.subrange(0, p.len() as int) == p
}

proof fn lemma_find_scope_inv(t: Seq<ScopeModel>, path: Seq<u64>)
    requires
        find_scope(t, path) is Some,
    ensures
        ({
            let i = find_scope(t, path)->Some_0;
            0 <= i < t.len() && t[i].path == path
        }),
    decreases t.len(),
{
    if t.len() > 0 && t[0].path != path {
        lemma_find_scope_inv(t.drop_first(), path);
    }
}

proof fn lemma_find_scope_none_inv(t: Seq<ScopeModel>, path: Seq<u64>)
    requires
        find_scope(t, path) is None,
    ensures
        forall|j: int| 0 <= j < t.len() ==> t[j].path != path,
    decreases t.len(),
{
    if t.len() > 0 {
        lemma_find_scope_none_inv(t.drop_first(), path);
        assert forall|j: int| 0 <= j < t.len() implies t[j].path != path by {
            if j > 0 {
                assert(t[j] == t.drop_first()[j - 1]);
            }
        }
    }
}

proof fn lemma_find_scope_same_paths(t: Seq<ScopeModel>, t2: Seq<ScopeModel>, path: Seq<u64>)
    requires
        t.len() == t2.len(),
        forall|j: int| 0 <= j < t.len() ==> t2[j].path == t[j].path,
    ensures
        find_scope(t2, path) == find_scope(t, path),
    decreases t.len(),
{
    if t.len() > 0 {
        assert forall|j: int| 0 <= j < t.drop_first().len() implies t2.drop_first()[j].path == t
            .drop_first()[j].path by {
            assert(t.drop_first()[j] == t[j + 1]);
            assert(t2.drop_first()[j] == t2[j + 1]);
        }
        lemma_find_scope_same_paths(t.drop_first(), t2.drop_first(), path);
    }
}

proof fn lemma_find_bind_push(bs: Seq<BindModel>, name: Seq<char>, b: BindModel)
    requires
        find_bind(bs, name) is None,
        b.name == name,
    ensures
        find_bind(bs.push(b), name) == Option::Some(b),
    decreases bs.len(),
{
    if bs.len() == 0 {
        assert(bs.push(b)[0] == b);
    } else {
        assert(bs.push(b)[0] == bs[0]);
        assert(bs.push(b).drop_first() =~= bs.drop_first().push(b));
        lemma_find_bind_push(bs.drop_first(), name, b);
    }
}

/// Declaring a name and then reading it in the same scope resolves to
/// exactly the binding the declaration produced.
pub proof fn lemma_declare_then_resolve(
    t: Seq<ScopeModel>,
    path: Seq<u64>,
    name: Seq<char>,
    id: u64,
    ty: Type,
)
    requires
        declare_model(t, path, name, id, ty) is Some,
    ensures
        resolve_model(declare_model(t, path, name, id, ty)->Some_0, path, name)
            == Option::Some(BindModel { name, id, ty }),
{
    let b = BindModel { name, id, ty };
    let t2 = declare_model(t, path, name, id, ty)->Some_0;
    match find_scope(t, path) {
        Option::Some(i) => {
            lemma_find_scope_inv(t, path);
            lemma_find_scope_same_paths(t, t2, path);
            lemma_find_bind_push(t[i].binds, name, b);
            assert(scope_lookup(t2, path, name) == Option::Some(b));
        },
        Option::None => {
            lemma_find_scope_none_inv(t, path);
            lemma_find_scope_at(t2, path, t.len() as int);
            assert(t2[t.len() as int].binds == seq![b]);
            assert(find_bind(seq![b], name) == Option::Some(b));
            assert(scope_lookup(t2, path, name) == Option::Some(b));
        },
    }
}

/// Reading a name from a scope nested inside the scope that resolves it
/// yields the same binding, provided no scope strictly between them
/// binds the name itself.
pub proof fn lemma_resolve_nested(
    t: Seq<ScopeModel>,
    path: Seq<u64>,
    ext: Seq<u64>,
    name: Seq<char>,
)
    requires
        resolve_model(t, path, name) is Some,
        forall|k: int|
            1 <= k <= ext.len() ==> scope_lookup(t, path + #[trigger] ext.subrange(0, k), name)
                is None,
    ensures
        resolve_model(t, path + ext, name) == resolve_model(t, path, name),
    decreases ext.len(),
{
    if ext.len() == 0 {
        assert(path + ext =~= path);
    } else {
        assert(path + ext.subrange(0, ext.len() as int) =~= path + ext);
        assert(scope_lookup(t, path + ext, name) is None);
        assert((path + ext).drop_last() =~= path + ext.drop_last());
        assert forall|k: int| 1 <= k <= ext.drop_last().len() implies scope_lookup(
            t,
            path + #[trigger] ext.drop_last().subrange(0, k),
            name,
        ) is None by {
            assert(ext.drop_last().subrange(0, k) =~= ext.subrange(0, k));
        }
        lemma_resolve_nested(t, path, ext.drop_last(), name);
    }
}

proof fn lemma_resolve_no_bind(t2: Seq<ScopeModel>, q: Seq<u64>, name: Seq<char>)
    requires
        forall|k: int| 0 <= k <= q.len() ==> scope_lookup(t2, #[trigger] q.subrange(0, k), name)
            is None,
    ensures
        resolve_model(t2, q, name) is None,
    decreases q.len(),
{
    assert(q.subrange(0, q.len() as int) =~= q);
    if q.len() > 0 {
        assert(q.drop_last() =~= q.subrange(0, q.len() - 1));
        assert forall|k: int| 0 <= k <= q.drop_last().len() implies scope_lookup(
            t2,
            #[trigger] q.drop_last().subrange(0, k),
            name,
        ) is None by {
            assert(q.drop_last().subrange(0, k) =~= q.subrange(0, k));
        }
        lemma_resolve_no_bind(t2, q.drop_last(), name);
    }
}

/// If a table binds a name nowhere, then after declaring that name in
/// one scope, reading it from any scope that the declaring scope does
/// not enclose still fails.
pub proof fn lemma_resolve_sibling(
    t: Seq<ScopeModel>,
    path: Seq<u64>,
    name: Seq<char>,
    id: u64,
    ty: Type,
    q: Seq<u64>,
)
    requires
        forall|i: int| 0 <= i < t.len() ==> find_bind(#[trigger] t[i].binds, name) is None,
        declare_model(t, path, name, id, ty) is Some,
        !is_path_prefix(path, q),
    ensures
        resolve_model(declare_model(t, path, name, id, ty)->Some_0, q, name) is None,
{
    let t2 = declare_model(t, path, name, id, ty)->Some_0;
    assert forall|k: int| 0 <= k <= q.len() implies scope_lookup(
        t2,
        #[trigger] q.subrange(0, k),
        name,
    ) is None by {
        let p = q.subrange(0, k);
        assert(p != path) by {
            if p == path {
                assert(is_path_prefix(path, q));
            }
        }
        if find_scope(t2, p) is Some {
            let j = find_scope(t2, p)->Some_0;
            lemma_find_scope_inv(t2, p);
            match find_scope(t, path) {
                Option::Some(i) => {
                    assert(t2 == t.update(
                        i,
                        ScopeModel {
                            path: t[i].path,
                            binds: t[i].binds.push(BindModel { name, id, ty }),
                        },
                    ));
                    lemma_find_scope_inv(t, path);
                    if j == i {
                        assert(t2[j].path == t[i].path);
                    } else {
                        assert(t2[j] == t[j]);
                    }
                },
                Option::None => {
                    assert(t2 == t.push(
                        ScopeModel { path, binds: seq![BindModel { name, id, ty }] },
                    ));
                    if j == t.len() {
                        assert(t2[j].path == path);
                    } else {
                        assert(t2[j] == t[j]);
                    }
                },
            }
        }
    }
    lemma_resolve_no_bind(t2, q, name);
}

// ---------------------------------------------------------------------
// Executable operations.
// ---------------------------------------------------------------------

/// Whether `a` equals the first `k` elements of `b`.
fn eq_prefix(a: &Vec<u64>, b: &Vec<u64>, k: usize) -> (r: bool)
    requires
        k <= b@.len(),
    ensures
        r == (a@ == b@.subrange(0, k as int)),
{
    if a.len() != k {
        proof {
            assert(a@ != b@.subrange(0, k as int));
        }
        return false;
    }
    let mut i: usize = 0;
    while i < k
        invariant
            i <= k,
            k <= b@.len(),
            a@.len() == k,
            forall|j: int| 0 <= j < i ==> a@[j] == b@[j],
        decreases k - i,
    {
        if a[i] != b[i] {
            proof {
                assert(a@[i as int] != b@.subrange(0, k as int)[i as int]);
            }
            return false;
        }
        i = i + 1;
    }
    proof {
        assert(a@ =~= b@.subrange(0, k as int));
    }
    true
}

impl VarTable {
    /// An empty variable table.
    pub fn new() -> (t: VarTable)
        ensures
            t@ == Seq::<ScopeModel>::empty(),
    {
        let t = VarTable { scopes: Vec::new() };
        proof {
            assert(t@ =~= Seq::<ScopeModel>::empty());
        }
        t
    }

    /// The index of the entry whose path equals the first `k` segments
    /// of `path`, if any.
    fn find_scope_idx(&self, path: &Vec<u64>, k: usize) -> (r: Option<usize>)
        requires
            k <= path@.len(),
        ensures
            match r {
                Option::Some(i) => find_scope(self@, path@.subrange(0, k as int))
                    == Option::Some(i as int) && i < self.scopes@.len(),
                Option::None => find_scope(self@, path@.subrange(0, k as int)) is None,
            },
    {
        let mut i: usize = 0;
        while i < self.scopes.len()
            invariant
                i <= self.scopes@.len(),
                k <= path@.len(),
                forall|j: int| 0 <= j < i ==> self@[j].path != path@.subrange(0, k as int),
            decreases self.scopes@.len() - i,
        {
            if eq_prefix(&self.scopes[i].path, path, k) {
                proof {
                    lemma_find_scope_at(self@, path@.subrange(0, k as int), i as int);
                }
                return Option::Some(i);
            }
            i = i + 1;
        }
        proof {
            lemma_find_scope_none(self@, path@.subrange(0, k as int));
        }
        Option::None
    }

    /// The binding of `name` exactly in the scope given by the first
    /// `k` segments of `path`.
    fn lookup_prefix(&self, path: &Vec<u64>, k: usize, name: &String) -> (r: Option<(u64, Type)>)
        requires
            k <= path@.len(),
        ensures
            match scope_lookup(self@, path@.subrange(0, k as int), name@) {
                Option::Some(b) => r == Option::Some((b.id, b.ty)),
                Option::None => r is None,
            },
    {
        match self.find_scope_idx(path, k) {
            Option::Some(i) => {
                let binds = &self.scopes[i].binds;
                let mut j: usize = 0;
                while j < binds.len()
                    invariant
                        j <= binds@.len(),
                        binds == &self.scopes@[i as int].binds,
                        i < self.scopes@.len(),
                        k <= path@.len(),
                        find_scope(self@, path@.subrange(0, k as int)) == Option::Some(i as int),
                        forall|m: int| 0 <= m < j ==> self@[i as int].binds[m].name != name@,
                    decreases binds@.len() - j,
                {
                    if binds[j].name == *name {
                        proof {
                            assert(self@[i as int].binds[j as int] == binds@[j as int]@);
                            lemma_find_bind_at(self@[i as int].binds, name@, j as int);
                        }
                        return Option::Some((binds[j].id, binds[j].ty));
                    }
                    j = j + 1;
                }
                proof {
                    lemma_find_bind_none(self@[i as int].binds, name@);
                }
                Option::None
            },
            Option::None => Option::None,
        }
    }

    /// Walk outward from `path`, popping segments, and return the
    /// nearest binding of `name`; `None` if no enclosing scope binds it.
    pub fn resolve(&self, path: &Vec<u64>, name: &String) -> (r: Option<(u64, Type)>)
        ensures
            match resolve_model(self@, path@, name@) {
                Option::Some(b) => r == Option::Some((b.id, b.ty)),
                Option::None => r is None,
            },
    {
        let mut k: usize = path.len();
        proof {
            assert(path@.subrange(0, k as int) =~= path@);
        }
        loop
            invariant
                k <= path@.len(),
                resolve_model(self@, path@, name@) == resolve_model(
                    self@,
                    path@.subrange(0, k as int),
                    name@,
                ),
            decreases k,
        {
            let r = self.lookup_prefix(path, k, name);
            if r.is_some() {
                return r;
            }
            if k == 0 {
                return Option::None;
            }
            proof {
                assert(path@.subrange(0, k as int).drop_last() =~= path@.subrange(
                    0,
                    k as int - 1,
                ));
            }
            k = k - 1;
        }
    }

    /// Whether some enclosing scope binds `name`: the same walk as
    /// `resolve`, as a non-failing probe.
    pub fn var_exists(&self, path: &Vec<u64>, name: &String) -> (r: bool)
        ensures
            r == (resolve_model(self@, path@, name@) is Some),
    {
        self.resolve(path, name).is_some()
    }

    /// Bind `name` to `id` in the scope `path`; an error if the same
    /// (scope, name) pair is already bound.
    pub fn declare(&mut self, path: &Vec<u64>, name: &String, id: u64, ty: Type) -> (r: Result<
        (),
        ResolutionError,
    >)
        ensures
            match declare_model(old(self)@, path@, name@, id, ty) {
                Option::Some(t2) => r is Ok && final(self)@ == t2,
                Option::None => (match r {
                    Result::Err(ResolutionError::Redeclaration(n)) => n@ == name@,
                    _ => false,
                }) && final(self)@ == old(self)@,
            },
    {
        proof {
            assert(path@.subrange(0, path@.len() as int) =~= path@);
        }
        match self.find_scope_idx(path, path.len()) {
            Option::Some(i) => {
                if self.lookup_prefix(path, path.len(), name).is_some() {
                    return Result::Err(ResolutionError::Redeclaration(name.clone()));
                }
                let b = Binding { name: name.clone(), id, ty };
                self.scopes[i].binds.push(b);
                proof {
                    let t2 = declare_model(old(self)@, path@, name@, id, ty)->Some_0;
                    assert(self@[i as int].binds =~= old(self)@[i as int].binds.push(
                        BindModel { name: name@, id, ty },
                    ));
                    assert(self@ =~= t2);
                }
                Result::Ok(())
            },
            Option::None => {
                let b = Binding { name: name.clone(), id, ty };
                let mut binds: Vec<Binding> = Vec::new();
                binds.push(b);
                self.scopes.push(ScopeEntry { path: path.clone(), binds });
                proof {
                    let t2 = declare_model(old(self)@, path@, name@, id, ty)->Some_0;
                    assert(self@[old(self)@.len() as int].binds =~= seq![
                        BindModel { name: name@, id, ty },
                    ]);
                    assert(self@ =~= t2);
                }
                Result::Ok(())
            },
        }
    }
}

impl FuncTable {
    /// An empty function table.
    pub fn new() -> (t: FuncTable)
        ensures
            t@ == Seq::<FuncModel>::empty(),
    {
        let t = FuncTable { funcs: Vec::new() };
        proof {
            assert(t@ =~= Seq::<FuncModel>::empty());
        }
        t
    }

    /// The declared parameters of `name`, as (argument id, type) pairs
    /// in declaration order; `None` if no such function was declared.
    pub fn lookup_params(&self, name: &String) -> (r: Option<Vec<(u64, Type)>>)
        ensures
            match find_func(self@, name@) {
                Option::Some(f) => match r {
                    Option::Some(v) => v@ == f.params.map_values(|p: ParamModel| (p.id, p.ty)),
                    Option::None => false,
                },
                Option::None => r is None,
            },
    {
        let mut i: usize = 0;
        while i < self.funcs.len()
            invariant
                i <= self.funcs@.len(),
                forall|j: int| 0 <= j < i ==> self@[j].name != name@,
            decreases self.funcs@.len() - i,
        {
            if self.funcs[i].name == *name {
                proof {
                    lemma_find_func_at(self@, name@, i as int);
                }
                let params = &self.funcs[i].params;
                let mut v: Vec<(u64, Type)> = Vec::new();
                let mut j: usize = 0;
                while j < params.len()
                    invariant
                        j <= params@.len(),
                        params == &self.funcs@[i as int].params,
                        i < self.funcs@.len(),
                        v@ == self@[i as int].params.map_values(|p: ParamModel| (p.id, p.ty))
                            .subrange(0, j as int),
                    decreases params@.len() - j,
                {
                    v.push((params[j].id, params[j].ty));
                    proof {
                        let full = self@[i as int].params.map_values(
                            |p: ParamModel| (p.id, p.ty),
                        );
                        assert(v@ =~= full.subrange(0, j as int + 1));
                    }
                    j = j + 1;
                }
                proof {
                    let full = self@[i as int].params.map_values(|p: ParamModel| (p.id, p.ty));
                    assert(v@ =~= full);
                }
                return Option::Some(v);
            }
            i = i + 1;
        }
        proof {
            lemma_find_func_none(self@, name@);
        }
        Option::None
    }

    /// Record a declared function; an error if the name was already
    /// declared.
    pub fn insert(&mut self, sig: FuncSig) -> (r: Result<(), ResolutionError>)
        ensures
            match find_func(old(self)@, sig.name@) {
                Option::Some(_) => (match r {
                    Result::Err(ResolutionError::Redeclaration(n)) => n@ == sig.name@,
                    _ => false,
                }) && final(self)@ == old(self)@,
                Option::None => r is Ok && final(self)@ == old(self)@.push(sig@),
            },
    {
        let mut i: usize = 0;
        while i < self.funcs.len()
            invariant
                i <= self.funcs@.len(),
                forall|j: int| 0 <= j < i ==> self@[j].name != sig.name@,
            decreases self.funcs@.len() - i,
        {
            if self.funcs[i].name == sig.name {
                proof {
                    lemma_find_func_at(self@, sig.name@, i as int);
                }
                return Result::Err(ResolutionError::Redeclaration(sig.name));
            }
            i = i + 1;
        }
        proof {
            lemma_find_func_none(self@, sig.name@);
        }
        let ghost old_view = self@;
        let ghost sig_view = sig@;
        self.funcs.push(sig);
        proof {
            assert(self@ =~= old_view.push(sig_view));
        }
        Result::Ok(())
    }
}

} // verus!
