//! The executor's chain of scopes: the same stack of scope records as the analyzer's,
//! with values in place of types, and procedures held by reference into the program.
use vstd::prelude::*;
use crate::ast::{params_view, CmdV, Command, ParamV, ProcedureParameter, Value, ValueV};
use crate::environment::ScopeRecord;

verus! {

#[derive(Debug)]
pub struct RuntimeVariable {
    pub name: String,
    pub value: Value,
    pub moved: bool,
}

pub struct RuntimeProcedure<'a> {
    pub name: String,
    pub parameters: &'a Vec<ProcedureParameter>,
    pub body: &'a Command,
}

/// A variable binding at run time: name, value, and whether it was moved.
pub struct VarModel {
    pub name: Seq<char>,
    pub value: ValueV,
    pub moved: bool,
}

pub struct ProcBody {
    pub name: Seq<char>,
    pub params: Seq<ParamV>,
    pub body: CmdV,
}

pub struct RtModel {
    pub vars: Seq<VarModel>,
    pub procs: Seq<ProcBody>,
    pub scopes: Seq<ScopeRecord>,
}

pub open spec fn last_rt_var(vars: Seq<VarModel>, n: Seq<char>, k: int) -> Option<int>
    decreases k,
{
    if k <= 0 {
        None
    } else if vars[k - 1].name == n {
        Some(k - 1)
    } else {
        last_rt_var(vars, n, k - 1)
    }
}

pub open spec fn last_rt_proc(procs: Seq<ProcBody>, n: Seq<char>, k: int) -> Option<int>
    decreases k,
{
    if k <= 0 {
        None
    } else if procs[k - 1].name == n {
        Some(k - 1)
    } else {
        last_rt_proc(procs, n, k - 1)
    }
}

pub proof fn lemma_last_rt_var_bounds(vars: Seq<VarModel>, n: Seq<char>, k: int)
    requires
        0 <= k <= vars.len(),
    ensures
        match last_rt_var(vars, n, k) {
            Some(i) => 0 <= i < k && vars[i].name == n,
            None => true,
        },
    decreases k,
{
    if k > 0 {
        lemma_last_rt_var_bounds(vars, n, k - 1);
    }
}

pub proof fn lemma_last_rt_proc_bounds(procs: Seq<ProcBody>, n: Seq<char>, k: int)
    requires
        0 <= k <= procs.len(),
    ensures
        match last_rt_proc(procs, n, k) {
            Some(i) => 0 <= i < k && procs[i].name == n,
            None => true,
        },
    decreases k,
{
    if k > 0 {
        lemma_last_rt_proc_bounds(procs, n, k - 1);
    }
}

impl RtModel {
    pub open spec fn wf(self) -> bool {
        &&& self.scopes.len() >= 1
        &&& self.top().first_variable <= self.vars.len()
        &&& self.top().first_procedure <= self.procs.len()
        &&& forall|k: int|
            0 <= k < self.scopes.len() - 1 ==> {
                &&& #[trigger] self.scopes[k].first_variable <= self.scopes[k + 1].first_variable
                &&& self.scopes[k].first_procedure <= self.scopes[k + 1].first_procedure
            }
    }

    pub open spec fn top(self) -> ScopeRecord {
        self.scopes.last()
    }

    pub open spec fn lookup_var(self, n: Seq<char>) -> Option<int> {
        last_rt_var(self.vars, n, self.vars.len() as int)
    }

    pub open spec fn lookup_proc(self, n: Seq<char>) -> Option<int> {
        last_rt_proc(self.procs, n, self.procs.len() as int)
    }

    pub open spec fn declare_var(self, n: Seq<char>, v: ValueV) -> RtModel {
        RtModel { vars: self.vars.push(VarModel { name: n, value: v, moved: false }), ..self }
    }

    pub open spec fn declare_proc(self, p: ProcBody) -> RtModel {
        RtModel { procs: self.procs.push(p), ..self }
    }

    pub open spec fn assign(self, i: int, v: ValueV) -> RtModel {
        RtModel { vars: self.vars.update(i, VarModel { name: self.vars[i].name, value: v, moved: false }), ..self }
    }

    pub open spec fn set_moved(self, i: int) -> RtModel {
        RtModel { vars: self.vars.update(i, VarModel { moved: true, ..self.vars[i] }), ..self }
    }

    pub open spec fn nest(self) -> RtModel {
        RtModel {
            scopes: self.scopes.push(
                ScopeRecord {
                    first_variable: self.vars.len() as usize,
                    first_procedure: self.procs.len() as usize,
                },
            ),
            ..self
        }
    }

    pub open spec fn leave(self) -> RtModel {
        RtModel {
            vars: self.vars.take(self.top().first_variable as int),
            procs: self.procs.take(self.top().first_procedure as int),
            scopes: self.scopes.drop_last(),
        }
    }

    pub open spec fn root() -> RtModel {
        RtModel {
            vars: Seq::empty(),
            procs: Seq::empty(),
            scopes: seq![ScopeRecord { first_variable: 0, first_procedure: 0 }],
        }
    }
}

pub struct RuntimeEnvironment<'a> {
    variables: Vec<RuntimeVariable>,
    procedures: Vec<RuntimeProcedure<'a>>,
    scopes: Vec<ScopeRecord>,
}

pub open spec fn rt_var_view(v: RuntimeVariable) -> VarModel {
    VarModel { name: v.name@, value: v.value@, moved: v.moved }
}

pub open spec fn rt_proc_view(p: RuntimeProcedure) -> ProcBody {
    ProcBody { name: p.name@, params: params_view(p.parameters@), body: p.body@ }
}

impl<'a> View for RuntimeEnvironment<'a> {
    type V = RtModel;

    closed spec fn view(&self) -> RtModel {
        RtModel {
            vars: self.variables@.map_values(|v: RuntimeVariable| rt_var_view(v)),
            procs: self.procedures@.map_values(|p: RuntimeProcedure<'a>| rt_proc_view(p)),
            scopes: self.scopes@,
        }
    }
}

impl<'a> RuntimeEnvironment<'a> {
    pub fn new() -> (r: RuntimeEnvironment<'a>)
        ensures
            r@ == RtModel::root(),
            r@.wf(),
    {
        let mut scopes = Vec::new();
        scopes.push(ScopeRecord { first_variable: 0, first_procedure: 0 });
        let r = RuntimeEnvironment { variables: Vec::new(), procedures: Vec::new(), scopes };
        assert(r@.vars =~= Seq::<VarModel>::empty());
        assert(r@.procs =~= Seq::<ProcBody>::empty());
        assert(r@.scopes =~= RtModel::root().scopes);
        r
    }

    /// Opens a child scope of the current one.
    pub fn nest(&mut self)
        requires
            old(self)@.wf(),
        ensures
            final(self)@ == old(self)@.nest(),
            final(self)@.wf(),
    {
        let ghost before = self@;
        let r = ScopeRecord { first_variable: self.variables.len(), first_procedure: self.procedures.len() };
        self.scopes.push(r);
        assert(self@.scopes =~= before.nest().scopes);
        assert(self@.vars =~= before.vars);
        assert(self@.procs =~= before.procs);
    }

    /// Closes the current scope, discarding its bindings.
    pub fn leave(&mut self)
        requires
            old(self)@.wf(),
            old(self)@.scopes.len() >= 2,
        ensures
            final(self)@ == old(self)@.leave(),
            final(self)@.wf(),
    {
        let ghost before = self@;
        let r = self.scopes.pop().unwrap();
        self.variables.truncate(r.first_variable);
        self.procedures.truncate(r.first_procedure);
        assert(self@.vars =~= before.leave().vars);
        assert(self@.procs =~= before.leave().procs);
        assert(self@.scopes =~= before.leave().scopes);
        assert(self@.top().first_variable <= before.top().first_variable);
    }

    pub fn find_variable(&self, name: &String) -> (r: Option<usize>)
        ensures
            match self@.lookup_var(name@) {
                Some(i) => 0 <= i < self@.vars.len() && i < usize::MAX && r == Some(i as usize),
                None => r is None,
            },
    {
        let mut k = self.variables.len();
        proof {
            lemma_last_rt_var_bounds(self@.vars, name@, self@.vars.len() as int);
        }
        while k > 0
            invariant
                k <= self.variables@.len(),
                self@.vars.len() == self.variables@.len(),
                self@.lookup_var(name@) == last_rt_var(self@.vars, name@, k as int),
            decreases k,
        {
            if self.variables[k - 1].name == *name {
                return Some(k - 1);
            }
            k -= 1;
        }
        None
    }

    /// The nearest variable named `name`, copied.
    pub fn lookup_variable(&self, name: &String) -> (r: Option<(Value, bool)>)
        ensures
            match self@.lookup_var(name@) {
                Some(i) => match r {
                    Some((v, m)) => v@ == self@.vars[i].value && m == self@.vars[i].moved,
                    None => false,
                },
                None => r is None,
            },
    {
        match self.find_variable(name) {
            Some(i) => Some((self.variables[i].value.duplicate(), self.variables[i].moved)),
            None => None,
        }
    }

    /// The parameters and body of the nearest procedure named `name`.
    pub fn lookup_procedure(&self, name: &String) -> (r: Option<(&'a Vec<ProcedureParameter>, &'a Command)>)
        ensures
            match self@.lookup_proc(name@) {
                Some(i) => match r {
                    Some((ps, b)) => params_view(ps@) == self@.procs[i].params && b@ == self@.procs[i].body,
                    None => false,
                },
                None => r is None,
            },
    {
        let mut k = self.procedures.len();
        proof {
            lemma_last_rt_proc_bounds(self@.procs, name@, self@.procs.len() as int);
        }
        while k > 0
            invariant
                k <= self.procedures@.len(),
                self@.procs.len() == self.procedures@.len(),
                self@.lookup_proc(name@) == last_rt_proc(self@.procs, name@, k as int),
            decreases k,
        {
            if self.procedures[k - 1].name == *name {
                return Some((self.procedures[k - 1].parameters, self.procedures[k - 1].body));
            }
            k -= 1;
        }
        None
    }

    /// Binds a new variable in the current scope; a later binding of a name hides an
    /// earlier one.
    pub fn declare_variable(&mut self, name: String, value: Value)
        requires
            old(self)@.wf(),
        ensures
            final(self)@ == old(self)@.declare_var(name@, value@),
            final(self)@.wf(),
    {
        let ghost before = self@;
        let ghost v = RuntimeVariable { name: name, value: value, moved: false };
        self.variables.push(RuntimeVariable { name, value, moved: false });
        assert(self@.vars =~= before.declare_var(v.name@, v.value@).vars);
        assert(self@.procs =~= before.procs);
    }

    pub fn declare_procedure(&mut self, name: String, parameters: &'a Vec<ProcedureParameter>, body: &'a Command)
        requires
            old(self)@.wf(),
        ensures
            final(self)@ == old(self)@.declare_proc(ProcBody { name: name@, params: params_view(parameters@), body: body@ }),
            final(self)@.wf(),
    {
        let ghost before = self@;
        let ghost p = RuntimeProcedure { name: name, parameters, body };
        self.procedures.push(RuntimeProcedure { name, parameters, body });
        assert(self@.procs =~= before.declare_proc(rt_proc_view(p)).procs);
        assert(self@.vars =~= before.vars);
    }

    /// Gives variable `i` a new value, which clears its moved flag.
    pub fn assign(&mut self, i: usize, value: Value)
        requires
            old(self)@.wf(),
            i < old(self)@.vars.len(),
        ensures
            final(self)@ == old(self)@.assign(i as int, value@),
            final(self)@.wf(),
    {
        let ghost before = self@;
        let ghost vv = value@;
        self.variables[i].value = value;
        self.variables[i].moved = false;
        assert(self@.vars =~= before.assign(i as int, vv).vars);
        assert(self@.procs =~= before.procs);
    }

    pub fn mark_moved(&mut self, i: usize)
        requires
            old(self)@.wf(),
            i < old(self)@.vars.len(),
        ensures
            final(self)@ == old(self)@.set_moved(i as int),
            final(self)@.wf(),
    {
        let ghost before = self@;
        self.variables[i].moved = true;
        assert(self@.vars =~= before.set_moved(i as int).vars);
        assert(self@.procs =~= before.procs);
    }
}

} // verus!
