//! Flat name resolution for variables and functions.
//!
//! Two independent mappings, both keyed by exact, case-sensitive name,
//! with a global namespace for the whole compilation unit: last write
//! wins, there is no shadowing or scoping. Each table is a growable list
//! of (name, type) entries read back-to-front, so its abstract value is
//! the map that inserting every entry in order produces.

use vstd::prelude::*;

verus! {

/// The type of a variable binding. The single case is the 32-bit integer
/// kind; it carries the verbatim text the code generator prints for the
/// binding's value — a decimal literal or the name of another variable.
#[allow(non_camel_case_types)]
#[derive(Debug)]
pub enum VariableType {
    INT32(String),
}

/// The spec-level value of a variable type.
#[allow(non_camel_case_types)]
pub enum VariableTypeV {
    INT32(Seq<char>),
}

impl View for VariableType {
    type V = VariableTypeV;

    open spec fn view(&self) -> VariableTypeV {
        match self {
            VariableType::INT32(s) => VariableTypeV::INT32(s@),
        }
    }
}

/// The value text a variable type carries.
pub open spec fn var_value(v: VariableTypeV) -> Seq<char> {
    match v {
        VariableTypeV::INT32(s) => s,
    }
}

/// A function's declared return kind: decides the C return-type keyword
/// emitted, and whether `return` must carry a value.
#[allow(non_camel_case_types)]
#[derive(Clone, Copy, PartialEq, Eq, Structural, Debug)]
pub enum FunctionType {
    VOID,
    INT,
}

/// The map that inserting every entry of `entries`, in order, produces.
pub open spec fn vars_map_of(entries: Seq<(String, VariableType)>) -> Map<Seq<char>, VariableTypeV>
    decreases entries.len(),
{
    if entries.len() == 0 {
        Map::empty()
    } else {
        vars_map_of(entries.drop_last()).insert(entries.last().0@, entries.last().1@)
    }
}

/// The map that inserting every entry of `entries`, in order, produces.
pub open spec fn funcs_map_of(entries: Seq<(String, FunctionType)>) -> Map<Seq<char>, FunctionType>
    decreases entries.len(),
{
    if entries.len() == 0 {
        Map::empty()
    } else {
        funcs_map_of(entries.drop_last()).insert(entries.last().0@, entries.last().1)
    }
}

/// The symbol table: `variables` and `functions` name spaces.
pub struct SymbolTable {
    vars: Vec<(String, VariableType)>,
    functions: Vec<(String, FunctionType)>,
}

proof fn lemma_vars_map_found(entries: Seq<(String, VariableType)>, j: int)
    requires
        0 <= j < entries.len(),
        forall|k: int| j < k < entries.len() ==> #[trigger] entries[k].0@ != entries[j].0@,
    ensures
        vars_map_of(entries).contains_key(entries[j].0@),
        vars_map_of(entries)[entries[j].0@] == entries[j].1@,
    decreases entries.len(),
{
    if j == entries.len() - 1 {
    } else {
        assert(entries.drop_last()[j] == entries[j]);
        lemma_vars_map_found(entries.drop_last(), j);
    }
}

proof fn lemma_vars_map_absent(entries: Seq<(String, VariableType)>, name: Seq<char>)
    requires
        forall|k: int| 0 <= k < entries.len() ==> #[trigger] entries[k].0@ != name,
    ensures
        !vars_map_of(entries).contains_key(name),
    decreases entries.len(),
{
    if entries.len() > 0 {
        lemma_vars_map_absent(entries.drop_last(), name);
    }
}

proof fn lemma_funcs_map_found(entries: Seq<(String, FunctionType)>, j: int)
    requires
        0 <= j < entries.len(),
        forall|k: int| j < k < entries.len() ==> #[trigger] entries[k].0@ != entries[j].0@,
    ensures
        funcs_map_of(entries).contains_key(entries[j].0@),
        funcs_map_of(entries)[entries[j].0@] == entries[j].1,
    decreases entries.len(),
{
    if j == entries.len() - 1 {
    } else {
        assert(entries.drop_last()[j] == entries[j]);
        lemma_funcs_map_found(entries.drop_last(), j);
    }
}

proof fn lemma_funcs_map_absent(entries: Seq<(String, FunctionType)>, name: Seq<char>)
    requires
        forall|k: int| 0 <= k < entries.len() ==> #[trigger] entries[k].0@ != name,
    ensures
        !funcs_map_of(entries).contains_key(name),
    decreases entries.len(),
{
    if entries.len() > 0 {
        lemma_funcs_map_absent(entries.drop_last(), name);
    }
}

impl SymbolTable {
    /// The variable namespace, as a map from name to type.
    pub closed spec fn vars_map(&self) -> Map<Seq<char>, VariableTypeV> {
        vars_map_of(self.vars@)
    }

    /// The function namespace, as a map from name to return kind.
    pub closed spec fn funcs_map(&self) -> Map<Seq<char>, FunctionType> {
        funcs_map_of(self.functions@)
    }

    /// An empty table: no variable and no function resolves.
    pub fn new() -> (r: SymbolTable)
        ensures
            r.vars_map() == Map::<Seq<char>, VariableTypeV>::empty(),
            r.funcs_map() == Map::<Seq<char>, FunctionType>::empty(),
    {
        SymbolTable { vars: Vec::new(), functions: Vec::new() }
    }

    /// Resolves a variable name: its recorded type when declared, and the
    /// "not in scope" diagnostic text when not.
    pub fn get_var(&self, name: &str) -> (r: Result<VariableType, String>)
        ensures
            match r {
                Ok(v) => self.vars_map().contains_key(name@) && v@ == self.vars_map()[name@],
                Err(e) => !self.vars_map().contains_key(name@) && e@ == "Variable '"@ + name@
                    + "' not in scope"@,
            },
    {
        let n = self.vars.len();
        let mut i: usize = n;
        while i > 0
            invariant
                n == self.vars@.len(),
                i <= n,
                forall|k: int| i <= k < n ==> #[trigger] self.vars@[k].0@ != name@,
            decreases i,
        {
            i = i - 1;
            if crate::tokens::str_eq(self.vars[i].0.as_str(), name) {
                let v = match &self.vars[i].1 {
                    VariableType::INT32(s) => VariableType::INT32(s.clone()),
                };
                proof {
                    lemma_vars_map_found(self.vars@, i as int);
                }
                return Ok(v);
            }
        }
        proof {
            lemma_vars_map_absent(self.vars@, name@);
        }
        let mut e = String::from_str("Variable '");
        e.append(name);
        e.append("' not in scope");
        Err(e)
    }

    /// Inserts or overwrites a variable binding, unconditionally.
    pub fn set_var(&mut self, name: String, value: VariableType)
        ensures
            final(self).vars_map() == old(self).vars_map().insert(name@, value@),
            final(self).funcs_map() == old(self).funcs_map(),
    {
        let ghost old_entries = self.vars@;
        let ghost v = value@;
        let ghost key = name@;
        self.vars.push((name, value));
        proof {
            assert(self.vars@.drop_last() =~= old_entries);
            assert(self.vars@.last().0@ == key);
            assert(self.vars@.last().1@ == v);
        }
    }

    /// Resolves a function name: its recorded return kind when declared,
    /// and the "not defined" diagnostic text when not.
    pub fn get_func(&self, name: &str) -> (r: Result<FunctionType, String>)
        ensures
            match r {
                Ok(v) => self.funcs_map().contains_key(name@) && v == self.funcs_map()[name@],
                Err(e) => !self.funcs_map().contains_key(name@) && e@ == "Function '"@ + name@
                    + "' is not defined"@,
            },
    {
        let n = self.functions.len();
        let mut i: usize = n;
        while i > 0
            invariant
                n == self.functions@.len(),
                i <= n,
                forall|k: int| i <= k < n ==> #[trigger] self.functions@[k].0@ != name@,
            decreases i,
        {
            i = i - 1;
            if crate::tokens::str_eq(self.functions[i].0.as_str(), name) {
                let v = self.functions[i].1;
                proof {
                    lemma_funcs_map_found(self.functions@, i as int);
                }
                return Ok(v);
            }
        }
        proof {
            lemma_funcs_map_absent(self.functions@, name@);
        }
        let mut e = String::from_str("Function '");
        e.append(name);
        e.append("' is not defined");
        Err(e)
    }

    /// Inserts or overwrites a function entry, unconditionally.
    pub fn set_func(&mut self, name: String, value: FunctionType)
        ensures
            final(self).funcs_map() == old(self).funcs_map().insert(name@, value),
            final(self).vars_map() == old(self).vars_map(),
    {
        let ghost old_entries = self.functions@;
        let ghost key = name@;
        self.functions.push((name, value));
        proof {
            assert(self.functions@.drop_last() =~= old_entries);
            assert(self.functions@.last().0@ == key);
        }
    }
}

} // verus!
