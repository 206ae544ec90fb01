//! The code generator: an append-only text builder plus a small set of
//! emission operations.
//!
//! Each operation appends one deterministic text fragment to the internal
//! buffer; none can fail. The buffer is flushed to the output artifact
//! once, by the driver around the library, after a successful parse. The
//! generator's abstract value is the ordered sequence of emissions made so
//! far; the buffer always holds exactly their rendered text, in call
//! order, with no reordering.

use vstd::prelude::*;
use crate::symbol_table::{FunctionType, VariableType, var_value};

verus! {

/// One emission: a recognised construct rendered to C text.
pub enum GenItem {
    /// An indented `int <name> = <value>;` line.
    Declare { name: Seq<char>, value: Seq<char> },
    /// An indented `<name> = <value>;` line.
    Reassign { name: Seq<char>, value: Seq<char> },
    /// A `<ret> <name>() {` line opening a function body.
    BeginFn { name: Seq<char>, ret: FunctionType },
    /// The `}` line closing a function body.
    EndFn,
    /// An indented `<name>(<arg>);` call line.
    Call { name: Seq<char>, arg: Seq<char> },
    /// An indented `return <value>;` line.
    ReturnStmt { value: Seq<char> },
    /// Verbatim text plus a line break.
    Raw { text: Seq<char> },
}

/// The exact text an emission appends to the buffer.
pub open spec fn gen_text(g: GenItem) -> Seq<char> {
    match g {
        GenItem::Declare { name, value } => "\tint "@ + name + " = "@ + value + ";\n"@,
        GenItem::Reassign { name, value } => "\t"@ + name + " = "@ + value + ";\n"@,
        GenItem::BeginFn { name, ret } => (match ret {
            FunctionType::VOID => "void "@,
            FunctionType::INT => "int "@,
        }) + name + "() {\n"@,
        GenItem::EndFn => "}\n"@,
        GenItem::Call { name, arg } => "\t"@ + name + "("@ + arg + ");\n"@,
        GenItem::ReturnStmt { value } => "\treturn "@ + value + ";\n"@,
        GenItem::Raw { text } => text + "\n"@,
    }
}

/// The text of a whole emission sequence, in order.
pub open spec fn gen_text_all(items: Seq<GenItem>) -> Seq<char>
    decreases items.len(),
{
    if items.len() == 0 {
        Seq::empty()
    } else {
        gen_text_all(items.drop_last()) + gen_text(items.last())
    }
}

/// Appending one emission appends exactly its text.
pub broadcast proof fn lemma_gen_text_all_push(items: Seq<GenItem>, g: GenItem)
    ensures
        #[trigger] gen_text_all(items.push(g)) == gen_text_all(items) + gen_text(g),
{
    assert(items.push(g).drop_last() =~= items);
}

/// The append-only code generator.
pub struct Codegen {
    builder: String,
    trace: Ghost<Seq<GenItem>>,
}

impl View for Codegen {
    type V = Seq<GenItem>;

    /// The emissions made so far, in call order.
    closed spec fn view(&self) -> Seq<GenItem> {
        self.trace@
    }
}

impl Codegen {
    /// The accumulated output text.
    pub closed spec fn text(&self) -> Seq<char> {
        self.builder@
    }

    /// The buffer holds exactly the emitted text.
    pub closed spec fn wf(&self) -> bool {
        self.builder@ == gen_text_all(self.trace@)
    }

    /// A generator with an empty buffer and no emissions.
    pub fn new() -> (r: Codegen)
        ensures
            r.wf(),
            r@ == Seq::<GenItem>::empty(),
            r.text() == Seq::<char>::empty(),
    {
        Codegen { builder: String::new(), trace: Ghost(Seq::empty()) }
    }

    /// Borrows the accumulated output text.
    pub fn output(&self) -> (r: &String)
        ensures
            r@ == self.text(),
    {
        &self.builder
    }

    /// Emits an indented `int <name> = <value>;` declaration line.
    pub fn let_stmt(&mut self, var_name: &str, var_type: &VariableType)
        requires
            old(self).wf(),
        ensures
            final(self).wf(),
            final(self)@ == old(self)@.push(
                GenItem::Declare { name: var_name@, value: var_value(var_type@) },
            ),
            final(self).text() == old(self).text() + gen_text(
                GenItem::Declare { name: var_name@, value: var_value(var_type@) },
            ),
    {
        let value: &String = match var_type {
            VariableType::INT32(s) => s,
        };
        self.builder.append("\tint ");
        self.builder.append(var_name);
        self.builder.append(" = ");
        self.builder.append(value.as_str());
        self.builder.append(";\n");
        let ghost item = GenItem::Declare { name: var_name@, value: var_value(var_type@) };
        proof {
            self.trace@ = self.trace@.push(item);
            lemma_gen_text_all_push(old(self)@, item);
            assert(self.builder@ =~= gen_text_all(self.trace@));
        }
    }

    /// Emits an indented `<name> = <value>;` reassignment line.
    pub fn var_reassign(&mut self, var_name: &str, var_type: &VariableType)
        requires
            old(self).wf(),
        ensures
            final(self).wf(),
            final(self)@ == old(self)@.push(
                GenItem::Reassign { name: var_name@, value: var_value(var_type@) },
            ),
            final(self).text() == old(self).text() + gen_text(
                GenItem::Reassign { name: var_name@, value: var_value(var_type@) },
            ),
    {
        let value: &String = match var_type {
            VariableType::INT32(s) => s,
        };
        self.builder.append("\t");
        self.builder.append(var_name);
        self.builder.append(" = ");
        self.builder.append(value.as_str());
        self.builder.append(";\n");
        let ghost item = GenItem::Reassign { name: var_name@, value: var_value(var_type@) };
        proof {
            self.trace@ = self.trace@.push(item);
            lemma_gen_text_all_push(old(self)@, item);
            assert(self.builder@ =~= gen_text_all(self.trace@));
        }
    }

    /// Emits the `<ret> <name>() {` line that opens a function body.
    pub fn start_function(&mut self, func_name: &str, func_type: &FunctionType)
        requires
            old(self).wf(),
        ensures
            final(self).wf(),
            final(self)@ == old(self)@.push(GenItem::BeginFn { name: func_name@, ret: *func_type }),
            final(self).text() == old(self).text() + gen_text(
                GenItem::BeginFn { name: func_name@, ret: *func_type },
            ),
    {
        match func_type {
            FunctionType::VOID => self.builder.append("void "),
            FunctionType::INT => self.builder.append("int "),
        }
        self.builder.append(func_name);
        self.builder.append("() {\n");
        let ghost item = GenItem::BeginFn { name: func_name@, ret: *func_type };
        proof {
            self.trace@ = self.trace@.push(item);
            lemma_gen_text_all_push(old(self)@, item);
            assert(self.builder@ =~= gen_text_all(self.trace@));
        }
    }

    /// Emits the `}` line that closes a function body.
    pub fn end_function(&mut self)
        requires
            old(self).wf(),
        ensures
            final(self).wf(),
            final(self)@ == old(self)@.push(GenItem::EndFn),
            final(self).text() == old(self).text() + gen_text(GenItem::EndFn),
    {
        self.builder.append("}\n");
        proof {
            self.trace@ = self.trace@.push(GenItem::EndFn);
            lemma_gen_text_all_push(old(self)@, GenItem::EndFn);
            assert(self.builder@ =~= gen_text_all(self.trace@));
        }
    }

    /// Emits an indented `<name>(<arg>);` call line.
    pub fn function_call(&mut self, func_name: String, func_val: String)
        requires
            old(self).wf(),
        ensures
            final(self).wf(),
            final(self)@ == old(self)@.push(GenItem::Call { name: func_name@, arg: func_val@ }),
            final(self).text() == old(self).text() + gen_text(
                GenItem::Call { name: func_name@, arg: func_val@ },
            ),
    {
        self.builder.append("\t");
        self.builder.append(func_name.as_str());
        self.builder.append("(");
        self.builder.append(func_val.as_str());
        self.builder.append(");\n");
        let ghost item = GenItem::Call { name: func_name@, arg: func_val@ };
        proof {
            self.trace@ = self.trace@.push(item);
            lemma_gen_text_all_push(old(self)@, item);
            assert(self.builder@ =~= gen_text_all(self.trace@));
        }
    }

    /// Emits an indented `return <value>;` line (`value` is empty for a
    /// bare `return;` in a void function).
    pub fn return_stmt(&mut self, value: String)
        requires
            old(self).wf(),
        ensures
            final(self).wf(),
            final(self)@ == old(self)@.push(GenItem::ReturnStmt { value: value@ }),
            final(self).text() == old(self).text() + gen_text(
                GenItem::ReturnStmt { value: value@ },
            ),
    {
        self.builder.append("\treturn ");
        self.builder.append(value.as_str());
        self.builder.append(";\n");
        let ghost item = GenItem::ReturnStmt { value: value@ };
        proof {
            self.trace@ = self.trace@.push(item);
            lemma_gen_text_all_push(old(self)@, item);
            assert(self.builder@ =~= gen_text_all(self.trace@));
        }
    }

    /// Appends the given text verbatim, followed by a line break.
    pub fn c_comp_append(&mut self, value: String)
        requires
            old(self).wf(),
        ensures
            final(self).wf(),
            final(self)@ == old(self)@.push(GenItem::Raw { text: value@ }),
            final(self).text() == old(self).text() + gen_text(GenItem::Raw { text: value@ }),
    {
        self.builder.append(value.as_str());
        self.builder.append("\n");
        let ghost item = GenItem::Raw { text: value@ };
        proof {
            self.trace@ = self.trace@.push(item);
            lemma_gen_text_all_push(old(self)@, item);
            assert(self.builder@ =~= gen_text_all(self.trace@));
        }
    }
}

} // verus!
