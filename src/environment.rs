//! The chain of lexical scopes used by the analyzer.
//!
//! Scopes nest strictly, so the chain from the current scope to the root is kept as
//! a stack of scope records: record `k` is the handle of a scope, record `k - 1` its
//! parent, and each record holds where its bindings start in the binding stacks.
//! Looking a name up walks the bindings from the innermost outward, so the first
//! match is the binding of the nearest enclosing scope. Leaving a scope drops its
//! record and every binding made in it.
use vstd::prelude::*;
use crate::ast::Type;

verus! {

#[derive(Debug, Clone, Copy, PartialEq, Eq, Structural)]
pub struct VariableInfo {
    pub type_: Type,
    pub moved: bool,
    pub mutable: bool,
}

/// Why an operation on a named binding was refused.
#[derive(Debug, Clone, Copy, PartialEq, Eq, Structural)]
pub enum BindingError {
    NotFound,
    AlreadyMoved,
    Immutable,
}

#[derive(Debug, Clone, Copy, PartialEq, Eq, Structural)]
pub struct ScopeRecord {
    pub first_variable: usize,
    pub first_procedure: usize,
}

#[derive(Debug)]
pub struct VariableBinding {
    pub name: String,
    pub info: VariableInfo,
}

#[derive(Debug)]
pub struct ProcedureSignature {
    pub name: String,
    pub parameters: Vec<Type>,
    pub return_type: Option<Type>,
}

/// A procedure as the analyzer knows it: name, parameter types and result type.
pub struct ProcModel {
    pub name: Seq<char>,
    pub params: Seq<Type>,
    pub ret: Option<Type>,
}

/// The mathematical form of an environment.
pub struct EnvModel {
    pub vars: Seq<(Seq<char>, VariableInfo)>,
    pub procs: Seq<ProcModel>,
    pub scopes: Seq<ScopeRecord>,
}

/// The index of the last binding named `n` among the first `k`.
pub open spec fn last_var(vars: Seq<(Seq<char>, VariableInfo)>, n: Seq<char>, k: int) -> Option<int>
    decreases k,
{
    if k <= 0 {
        None
    } else if vars[k - 1].0 == n {
        Some(k - 1)
    } else {
        last_var(vars, n, k - 1)
    }
}

pub open spec fn last_proc(procs: Seq<ProcModel>, n: Seq<char>, k: int) -> Option<int>
    decreases k,
{
    if k <= 0 {
        None
    } else if procs[k - 1].name == n {
        Some(k - 1)
    } else {
        last_proc(procs, n, k - 1)
    }
}

impl EnvModel {
    pub open spec fn wf(self) -> bool {
        &&& self.scopes.len() >= 1
        &&& self.scopes[0] == ScopeRecord { first_variable: 0, first_procedure: 0 }
        &&& forall|k: int|
            0 <= k < self.scopes.len() - 1 ==> {
                &&& #[trigger] self.scopes[k].first_variable <= self.scopes[k + 1].first_variable
                &&& self.scopes[k].first_procedure <= self.scopes[k + 1].first_procedure
            }
        &&& self.top().first_variable <= self.vars.len()
        &&& self.top().first_procedure <= self.procs.len()
    }

    pub open spec fn top(self) -> ScopeRecord {
        self.scopes.last()
    }

    /// The innermost binding of a variable name, by outward walk.
    pub open spec fn lookup_var(self, n: Seq<char>) -> Option<int> {
        last_var(self.vars, n, self.vars.len() as int)
    }

    pub open spec fn lookup_proc(self, n: Seq<char>) -> Option<int> {
        last_proc(self.procs, n, self.procs.len() as int)
    }

    /// The name is bound as a variable in the current scope itself.
    pub open spec fn var_declared_here(self, n: Seq<char>) -> bool {
        match self.lookup_var(n) {
            Some(i) => i >= self.top().first_variable,
            None => false,
        }
    }

    pub open spec fn proc_declared_here(self, n: Seq<char>) -> bool {
        match self.lookup_proc(n) {
            Some(i) => i >= self.top().first_procedure,
            None => false,
        }
    }

    pub open spec fn declare_var(self, n: Seq<char>, info: VariableInfo) -> EnvModel {
        EnvModel { vars: self.vars.push((n, info)), ..self }
    }

    pub open spec fn declare_proc(self, p: ProcModel) -> EnvModel {
        EnvModel { procs: self.procs.push(p), ..self }
    }

    pub open spec fn set_info(self, i: int, info: VariableInfo) -> EnvModel {
        EnvModel { vars: self.vars.update(i, (self.vars[i].0, info)), ..self }
    }

    pub open spec fn set_moved(self, i: int, moved: bool) -> EnvModel {
        self.set_info(i, VariableInfo { moved: moved, ..self.vars[i].1 })
    }

    pub open spec fn nest(self) -> EnvModel {
        EnvModel {
            scopes: self.scopes.push(
                ScopeRecord {
                    first_variable: self.vars.len() as usize,
                    first_procedure: self.procs.len() as usize,
                },
            ),
            ..self
        }
    }

    /// Discards the current scope and every binding made in it.
    pub open spec fn leave(self) -> EnvModel {
        EnvModel {
            vars: self.vars.take(self.top().first_variable as int),
            procs: self.procs.take(self.top().first_procedure as int),
            scopes: self.scopes.drop_last(),
        }
    }

    pub open spec fn root() -> EnvModel {
        EnvModel {
            vars: Seq::empty(),
            procs: Seq::empty(),
            scopes: seq![ScopeRecord { first_variable: 0, first_procedure: 0 }],
        }
    }
}

pub proof fn lemma_last_var_bounds(vars: Seq<(Seq<char>, VariableInfo)>, n: Seq<char>, k: int)
    requires
        0 <= k <= vars.len(),
    ensures
        match last_var(vars, n, k) {
            Some(i) => 0 <= i < k && vars[i].0 == n && forall|j: int| i < j < k ==> vars[j].0 != n,
            None => forall|j: int| 0 <= j < k ==> vars[j].0 != n,
        },
    decreases k,
{
    if k > 0 {
        lemma_last_var_bounds(vars, n, k - 1);
    }
}

pub proof fn lemma_last_proc_bounds(procs: Seq<ProcModel>, n: Seq<char>, k: int)
    requires
        0 <= k <= procs.len(),
    ensures
        match last_proc(procs, n, k) {
            Some(i) => 0 <= i < k && procs[i].name == n,
            None => true,
        },
    decreases k,
{
    if k > 0 {
        lemma_last_proc_bounds(procs, n, k - 1);
    }
}
/// The analyzer's chain of scopes.
pub struct Environment {
    variables: Vec<VariableBinding>,
    procedures: Vec<ProcedureSignature>,
    scopes: Vec<ScopeRecord>,
}

pub open spec fn binding_view(b: VariableBinding) -> (Seq<char>, VariableInfo) {
    (b.name@, b.info)
}

pub open spec fn signature_view(p: ProcedureSignature) -> ProcModel {
    ProcModel { name: p.name@, params: p.parameters@, ret: p.return_type }
}

impl View for Environment {
    type V = EnvModel;

    closed spec fn view(&self) -> EnvModel {
        EnvModel {
            vars: self.variables@.map_values(|b: VariableBinding| binding_view(b)),
            procs: self.procedures@.map_values(|p: ProcedureSignature| signature_view(p)),
            scopes: self.scopes@,
        }
    }
}

impl Environment {
    /// A new root scope with no bindings.
    pub fn new() -> (r: Environment)
        ensures
            r@ == EnvModel::root(),
            r@.wf(),
    {
        let mut scopes = Vec::new();
        scopes.push(ScopeRecord { first_variable: 0, first_procedure: 0 });
        let r = Environment { variables: Vec::new(), procedures: Vec::new(), scopes };
        assert(r@.vars =~= Seq::<(Seq<char>, VariableInfo)>::empty());
        assert(r@.procs =~= Seq::<ProcModel>::empty());
        assert(r@.scopes =~= EnvModel::root().scopes);
        r
    }

    /// Opens a child scope of the current one.
    pub fn nest(&mut self)
        requires
            old(self)@.wf(),
        ensures
            final(self)@ == old(self)@.nest(),
            final(self)@.wf(),
    {
        let ghost before = self@;
        let r = ScopeRecord { first_variable: self.variables.len(), first_procedure: self.procedures.len() };
        self.scopes.push(r);
        assert(self@.scopes =~= before.nest().scopes);
        assert(self@.vars =~= before.vars);
        assert(self@.procs =~= before.procs);
    }

    /// Closes the current scope, discarding its bindings.
    pub fn leave(&mut self)
        requires
            old(self)@.wf(),
            old(self)@.scopes.len() >= 2,
        ensures
            final(self)@ == old(self)@.leave(),
            final(self)@.wf(),
    {
        let ghost before = self@;
        let r = self.scopes.pop().unwrap();
        self.variables.truncate(r.first_variable);
        self.procedures.truncate(r.first_procedure);
        assert(self@.vars =~= before.leave().vars);
        assert(self@.procs =~= before.leave().procs);
        assert(self@.scopes =~= before.leave().scopes);
        assert(self@.scopes.len() >= 1);
        assert(self@.top().first_variable <= before.top().first_variable);
    }

    /// Position of the innermost binding of `name`.
    pub fn find_variable(&self, name: &String) -> (r: Option<usize>)
        ensures
            match self@.lookup_var(name@) {
                Some(i) => 0 <= i < self@.vars.len() && i < usize::MAX && r == Some(i as usize),
                None => r is None,
            },
    {
        let mut k = self.variables.len();
        proof {
            lemma_last_var_bounds(self@.vars, name@, self@.vars.len() as int);
        }
        assert(self@.vars.len() == self.variables@.len());
        while k > 0
            invariant
                k <= self.variables@.len(),
                self@.vars.len() == self.variables@.len(),
                self@.lookup_var(name@) == last_var(self@.vars, name@, k as int),
            decreases k,
        {
            if self.variables[k - 1].name == *name {
                return Some(k - 1);
            }
            k -= 1;
        }
        None
    }

    pub fn find_procedure(&self, name: &String) -> (r: Option<usize>)
        ensures
            match self@.lookup_proc(name@) {
                Some(i) => 0 <= i < self@.procs.len() && i < usize::MAX && r == Some(i as usize),
                None => r is None,
            },
    {
        let mut k = self.procedures.len();
        proof {
            lemma_last_proc_bounds(self@.procs, name@, self@.procs.len() as int);
        }
        while k > 0
            invariant
                k <= self.procedures@.len(),
                self@.procs.len() == self.procedures@.len(),
                self@.lookup_proc(name@) == last_proc(self@.procs, name@, k as int),
            decreases k,
        {
            if self.procedures[k - 1].name == *name {
                return Some(k - 1);
            }
            k -= 1;
        }
        None
    }

    pub fn variable_info(&self, i: usize) -> (r: VariableInfo)
        requires
            i < self@.vars.len(),
        ensures
            r == self@.vars[i as int].1,
    {
        self.variables[i].info
    }

    pub fn set_info(&mut self, i: usize, info: VariableInfo)
        requires
            i < old(self)@.vars.len(),
            old(self)@.wf(),
        ensures
            final(self)@ == old(self)@.set_info(i as int, info),
            final(self)@.wf(),
    {
        let ghost before = self@;
        self.variables[i].info = info;
        assert(self@.vars =~= before.set_info(i as int, info).vars);
        assert(self@.procs =~= before.procs);
    }

    /// The binding of the nearest scope that binds `name`.
    pub fn lookup_variable(&self, name: &String) -> (r: Option<VariableInfo>)
        ensures
            match self@.lookup_var(name@) {
                Some(i) => r == Some(self@.vars[i].1),
                None => r is None,
            },
    {
        match self.find_variable(name) {
            Some(i) => Some(self.variable_info(i)),
            None => None,
        }
    }

    /// The parameter types and result type of the nearest procedure named `name`.
    pub fn lookup_procedure(&self, name: &String) -> (r: Option<(Vec<Type>, Option<Type>)>)
        ensures
            match self@.lookup_proc(name@) {
                Some(i) => match r {
                    Some((ps, rt)) => ps@ == self@.procs[i].params && rt == self@.procs[i].ret,
                    None => false,
                },
                None => r is None,
            },
    {
        match self.find_procedure(name) {
            Some(i) => {
                let ps = self.parameter_types(i);
                Some((ps, self.return_type(i)))
            },
            None => None,
        }
    }

    pub fn parameter_types(&self, p: usize) -> (r: Vec<Type>)
        requires
            p < self@.procs.len(),
        ensures
            r@ == self@.procs[p as int].params,
    {
        let src = &self.procedures[p].parameters;
        let mut out: Vec<Type> = Vec::new();
        let mut k: usize = 0;
        while k < src.len()
            invariant
                k <= src@.len(),
                out@ == src@.take(k as int),
            decreases src@.len() - k,
        {
            out.push(src[k]);
            k += 1;
            assert(out@ =~= src@.take(k as int));
        }
        assert(out@ =~= src@);
        out
    }

    pub fn return_type(&self, p: usize) -> (r: Option<Type>)
        requires
            p < self@.procs.len(),
        ensures
            r == self@.procs[p as int].ret,
    {
        self.procedures[p].return_type
    }

    /// Binds a variable in the current scope; refused when the current scope already
    /// binds that name.
    pub fn declare_variable(&mut self, name: String, info: VariableInfo) -> (r: bool)
        requires
            old(self)@.wf(),
        ensures
            r == !old(self)@.var_declared_here(name@),
            final(self)@ == if r { old(self)@.declare_var(name@, info) } else { old(self)@ },
            final(self)@.wf(),
    {
        let ghost before = self@;
        match self.find_variable(&name) {
            Some(i) => {
                let top = self.scopes[self.scopes.len() - 1];
                if i >= top.first_variable {
                    return false;
                }
            },
            None => {},
        }
        let ghost b = VariableBinding { name: name, info: info };
        self.variables.push(VariableBinding { name, info });
        assert(self@.vars =~= before.declare_var(b.name@, info).vars);
        assert(self@.procs =~= before.procs);
        true
    }

    /// Registers a procedure in the current scope; refused when the current scope
    /// already has a procedure of that name.
    pub fn declare_procedure(&mut self, sig: ProcedureSignature) -> (r: bool)
        requires
            old(self)@.wf(),
        ensures
            r == !old(self)@.proc_declared_here(sig.name@),
            final(self)@ == if r { old(self)@.declare_proc(signature_view(sig)) } else { old(self)@ },
            final(self)@.wf(),
    {
        let ghost before = self@;
        match self.find_procedure(&sig.name) {
            Some(i) => {
                let top = self.scopes[self.scopes.len() - 1];
                if i >= top.first_procedure {
                    return false;
                }
            },
            None => {},
        }
        let ghost sv = signature_view(sig);
        self.procedures.push(sig);
        assert(self@.procs =~= before.declare_proc(sv).procs);
        assert(self@.vars =~= before.vars);
        true
    }

    /// The nearest binding of `name`, refused when it is moved.
    pub fn get_variable(&self, name: &String) -> (r: Result<VariableInfo, BindingError>)
        ensures
            match self@.lookup_var(name@) {
                Some(i) => if self@.vars[i].1.moved {
                    r == Err::<VariableInfo, BindingError>(BindingError::AlreadyMoved)
                } else {
                    r == Ok::<VariableInfo, BindingError>(self@.vars[i].1)
                },
                None => r == Err::<VariableInfo, BindingError>(BindingError::NotFound),
            },
    {
        match self.find_variable(name) {
            Some(i) => {
                let info = self.variable_info(i);
                if info.moved {
                    Err(BindingError::AlreadyMoved)
                } else {
                    Ok(info)
                }
            },
            None => Err(BindingError::NotFound),
        }
    }

    /// Marks the nearest binding of `name` as moved and gives what it held; refused,
    /// with nothing changed, when there is none or it is moved already.
    pub fn move_variable(&mut self, name: &String) -> (r: Result<VariableInfo, BindingError>)
        requires
            old(self)@.wf(),
        ensures
            match old(self)@.lookup_var(name@) {
                Some(i) => if old(self)@.vars[i].1.moved {
                    r == Err::<VariableInfo, BindingError>(BindingError::AlreadyMoved) && final(self)@ == old(self)@
                } else {
                    r == Ok::<VariableInfo, BindingError>(old(self)@.vars[i].1) && final(self)@
                        == old(self)@.set_moved(i, true)
                },
                None => r == Err::<VariableInfo, BindingError>(BindingError::NotFound) && final(self)@ == old(self)@,
            },
            final(self)@.wf(),
    {
        match self.find_variable(name) {
            Some(i) => {
                let info = self.variable_info(i);
                if info.moved {
                    return Err(BindingError::AlreadyMoved);
                }
                self.set_info(i, VariableInfo { moved: true, ..info });
                Ok(info)
            },
            None => Err(BindingError::NotFound),
        }
    }

    /// Records an assignment to the nearest binding of `name`, which clears its moved
    /// flag, and gives what it held; refused, with nothing changed, when there is no
    /// such binding or it is not mutable.
    pub fn set_variable(&mut self, name: &String) -> (r: Result<VariableInfo, BindingError>)
        requires
            old(self)@.wf(),
        ensures
            match old(self)@.lookup_var(name@) {
                Some(i) => if !old(self)@.vars[i].1.mutable {
                    r == Err::<VariableInfo, BindingError>(BindingError::Immutable) && final(self)@ == old(self)@
                } else {
                    r == Ok::<VariableInfo, BindingError>(old(self)@.vars[i].1) && final(self)@
                        == old(self)@.set_moved(i, false)
                },
                None => r == Err::<VariableInfo, BindingError>(BindingError::NotFound) && final(self)@ == old(self)@,
            },
            final(self)@.wf(),
    {
        match self.find_variable(name) {
            Some(i) => {
                let info = self.variable_info(i);
                if !info.mutable {
                    return Err(BindingError::Immutable);
                }
                self.set_info(i, VariableInfo { moved: false, ..info });
                Ok(info)
            },
            None => Err(BindingError::NotFound),
        }
    }

    /// Whether the current scope itself binds `name` as a variable.
    pub fn variable_declared_here(&self, name: &String) -> (r: bool)
        requires
            self@.wf(),
        ensures
            r == self@.var_declared_here(name@),
    {
        match self.find_variable(name) {
            Some(i) => i >= self.scopes[self.scopes.len() - 1].first_variable,
            None => false,
        }
    }
}

} // verus!
