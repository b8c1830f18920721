//! The two name tables: variables and functions. Both are flat: a name is bound
//! or it is not.

use crate::common::ast::{FunctionStatement, FunctionView};
use crate::common::error::{Error, ErrorType, ErrorView};
use crate::common::object::{Object, ObjectView};
use crate::common::text::plain;
use crate::common::token::{Token, TokenView};
use vstd::prelude::*;

verus! {

/// The table that `entries` spell: each name with the value of its entry, seen
/// through `f`. Where a name stands more than once, its last entry counts.
pub open spec fn table<V, W>(entries: Seq<(String, V)>, f: spec_fn(V) -> W) -> Map<Seq<char>, W>
    decreases entries.len(),
{
    if entries.len() == 0 {
        Map::empty()
    } else {
        table(entries.drop_last(), f).insert(entries.last().0@, f(entries.last().1))
    }
}

/// The entry at `i` is the last one under its name.
pub open spec fn is_last_of_name<V>(entries: Seq<(String, V)>, i: int) -> bool {
    &&& 0 <= i < entries.len()
    &&& forall|j: int| i < j < entries.len() ==> entries[j].0@ != entries[i].0@
}

/// A name that no entry has is not in the table.
proof fn lemma_table_absent<V, W>(entries: Seq<(String, V)>, f: spec_fn(V) -> W, name: Seq<char>)
    requires
        forall|i: int| 0 <= i < entries.len() ==> entries[i].0@ != name,
    ensures
        !table(entries, f).contains_key(name),
    decreases entries.len(),
{
    if entries.len() > 0 {
        lemma_table_absent(entries.drop_last(), f, name);
    }
}

/// The name of an entry is in the table, with the value of its last entry.
proof fn lemma_table_present<V, W>(entries: Seq<(String, V)>, f: spec_fn(V) -> W, i: int)
    requires
        is_last_of_name(entries, i),
    ensures
        table(entries, f).contains_key(entries[i].0@),
        table(entries, f)[entries[i].0@] == f(entries[i].1),
    decreases entries.len(),
{
    if i < entries.len() - 1 {
        lemma_table_present(entries.drop_last(), f, i);
    }
}

/// Giving the last entry of a name a new value gives the name that value.
proof fn lemma_table_update<V, W>(
    entries: Seq<(String, V)>,
    f: spec_fn(V) -> W,
    i: int,
    entry: (String, V),
)
    requires
        is_last_of_name(entries, i),
        entry.0@ == entries[i].0@,
    ensures
        table(entries.update(i, entry), f) == table(entries, f).insert(entry.0@, f(entry.1)),
    decreases entries.len(),
{
    let updated = entries.update(i, entry);
    if i < entries.len() - 1 {
        lemma_table_update(entries.drop_last(), f, i, entry);
        assert(updated.drop_last() =~= entries.drop_last().update(i, entry));
        assert(updated.last() == entries.last());
        assert(table(updated, f) =~= table(entries, f).insert(entry.0@, f(entry.1)));
    } else {
        assert(updated.drop_last() =~= entries.drop_last());
        assert(table(updated, f) =~= table(entries, f).insert(entry.0@, f(entry.1)));
    }
}

/// A new entry at the end gives its name its value.
proof fn lemma_table_push<V, W>(entries: Seq<(String, V)>, f: spec_fn(V) -> W, entry: (String, V))
    ensures
        table(entries.push(entry), f) == table(entries, f).insert(entry.0@, f(entry.1)),
{
    assert(entries.push(entry).drop_last() =~= entries);
}

/// The value of an object, as a function.
pub open spec fn object_value() -> spec_fn(Object) -> ObjectView {
    |object: Object| object@
}

/// The value of a function definition, as a function.
pub open spec fn function_value() -> spec_fn(FunctionStatement) -> FunctionView {
    |function: FunctionStatement| function@
}

/// The error of a variable that was never declared.
pub open spec fn no_such_variable(identifier: TokenView) -> ErrorView {
    ErrorView {
        e_type: ErrorType::RuntimeError,
        message: plain("Variable `"@ + identifier.lexeme + "` doesn't exist."@),
        position: identifier.position,
    }
}

/// The error of a function that was never defined.
pub open spec fn no_such_function(identifier: TokenView) -> ErrorView {
    ErrorView {
        e_type: ErrorType::RuntimeError,
        message: plain("Function `"@ + identifier.lexeme + "` doesn't exist."@),
        position: identifier.position,
    }
}

/// The index of the last entry named `name`, if there is one.
fn find<V>(entries: &Vec<(String, V)>, name: &String) -> (found: Option<usize>)
    ensures
        match found {
            Some(i) => is_last_of_name(entries@, i as int) && entries[i as int].0@ == name@,
            None => forall|i: int| 0 <= i < entries.len() ==> entries[i].0@ != name@,
        },
{
    let mut i: usize = entries.len();
    while i > 0
        invariant
            i <= entries.len(),
            forall|j: int| i <= j < entries.len() ==> entries[j].0@ != name@,
        decreases i,
    {
        i -= 1;
        if entries[i].0 == *name {
            return Some(i);
        }
    }
    None
}

/// The variables: each declared name with its value.
#[derive(Debug)]
pub struct VariableBindings {
    bindings: Vec<(String, Object)>,
}

impl VariableBindings {
    /// The table as a map from names to values.
    pub closed spec fn view(&self) -> Map<Seq<char>, ObjectView> {
        table(self.bindings@, object_value())
    }

    /// No variable at all.
    pub fn new() -> (variables: Self)
        ensures
            variables@ == Map::<Seq<char>, ObjectView>::empty(),
    {
        Self { bindings: Vec::new() }
    }

    /// Binds the name to the value, whether or not it was bound before.
    pub fn declare(&mut self, identifier: Token, value: Object)
        ensures
            final(self)@ == old(self)@.insert(identifier@.lexeme, value@),
    {
        let entry = (identifier.lexeme, value);
        match find(&self.bindings, &entry.0) {
            Some(i) => {
                proof {
                    lemma_table_update(self.bindings@, object_value(), i as int, entry);
                }
                self.bindings.set(i, entry);
            },
            None => {
                proof {
                    lemma_table_push(self.bindings@, object_value(), entry);
                }
                self.bindings.push(entry);
            },
        }
    }

    /// The value of a variable; an error if the name was never declared.
    pub fn get(&self, identifier: Token) -> (result: Result<Object, Error>)
        ensures
            match result {
                Ok(value) => self@.contains_key(identifier@.lexeme) && value@
                    == self@[identifier@.lexeme],
                Err(error) => !self@.contains_key(identifier@.lexeme) && error@
                    == no_such_variable(identifier@),
            },
    {
        match find(&self.bindings, &identifier.lexeme) {
            Some(i) => {
                proof {
                    lemma_table_present(self.bindings@, object_value(), i as int);
                }
                Ok(self.bindings[i].1.clone())
            },
            None => {
                proof {
                    lemma_table_absent(self.bindings@, object_value(), identifier.lexeme@);
                }
                Err(Self::missing(identifier))
            },
        }
    }

    /// Whether the name is declared.
    pub fn contains(&self, identifier: &Token) -> (declared: bool)
        ensures
            declared == self@.contains_key(identifier@.lexeme),
    {
        match find(&self.bindings, &identifier.lexeme) {
            Some(i) => {
                proof {
                    lemma_table_present(self.bindings@, object_value(), i as int);
                }
                true
            },
            None => {
                proof {
                    lemma_table_absent(self.bindings@, object_value(), identifier.lexeme@);
                }
                false
            },
        }
    }

    /// Gives a declared variable a new value; an error, and no change, if the
    /// name was never declared.
    pub fn assign(&mut self, identifier: Token, value: Object) -> (result: Result<(), Error>)
        ensures
            old(self)@.contains_key(identifier@.lexeme) ==> result is Ok && final(self)@ == old(
                self,
            )@.insert(identifier@.lexeme, value@),
            !old(self)@.contains_key(identifier@.lexeme) ==> result is Err && result->Err_0@
                == no_such_variable(identifier@) && final(self)@ == old(self)@,
    {
        if self.contains(&identifier) {
            self.declare(identifier, value);
            Ok(())
        } else {
            Err(Self::missing(identifier))
        }
    }

    /// The error of a variable that was never declared.
    fn missing(identifier: Token) -> (error: Error)
        ensures
            error@ == no_such_variable(identifier@),
    {
        let mut message = "Variable `".to_owned();
        message.append(identifier.lexeme.as_str());
        message.append("` doesn't exist.");
        Error::new(ErrorType::RuntimeError, message, identifier.position)
    }
}

impl Default for VariableBindings {
    fn default() -> (variables: Self)
        ensures
            variables@ == Map::<Seq<char>, ObjectView>::empty(),
    {
        Self::new()
    }
}

impl Clone for VariableBindings {
    fn clone(&self) -> (copy: Self)
        ensures
            copy@ == self@,
    {
        let mut bindings: Vec<(String, Object)> = Vec::new();
        let mut i: usize = 0;
        while i < self.bindings.len()
            invariant
                i <= self.bindings.len(),
                bindings.len() == i,
                table(bindings@, object_value()) == table(
                    self.bindings@.take(i as int),
                    object_value(),
                ),
            decreases self.bindings.len() - i,
        {
            let entry = (self.bindings[i].0.clone(), self.bindings[i].1.clone());
            proof {
                let taken = self.bindings@.take(i as int);
                let next = self.bindings@[i as int];
                assert(self.bindings@.take(i + 1) =~= taken.push(next));
                assert(taken.push(next).drop_last() =~= taken);
                lemma_table_push(bindings@, object_value(), entry);
            }
            bindings.push(entry);
            i += 1;
        }
        assert(self.bindings@.take(i as int) =~= self.bindings@);
        Self { bindings }
    }
}

/// The functions: each defined name with its definition.
#[derive(Debug)]
pub struct FunctionBindings {
    bindings: Vec<(String, FunctionStatement)>,
}

impl FunctionBindings {
    /// The table as a map from names to definitions.
    pub closed spec fn view(&self) -> Map<Seq<char>, FunctionView> {
        table(self.bindings@, function_value())
    }

    /// No function at all.
    pub fn new() -> (functions: Self)
        ensures
            functions@ == Map::<Seq<char>, FunctionView>::empty(),
    {
        Self { bindings: Vec::new() }
    }

    /// Binds the name to the definition, whether or not it was bound before.
    pub fn put(&mut self, identifier: Token, value: FunctionStatement)
        ensures
            final(self)@ == old(self)@.insert(identifier@.lexeme, value@),
    {
        let entry = (identifier.lexeme, value);
        match find(&self.bindings, &entry.0) {
            Some(i) => {
                proof {
                    lemma_table_update(self.bindings@, function_value(), i as int, entry);
                }
                self.bindings.set(i, entry);
            },
            None => {
                proof {
                    lemma_table_push(self.bindings@, function_value(), entry);
                }
                self.bindings.push(entry);
            },
        }
    }

    /// The definition of a function; an error if the name was never defined.
    pub fn get(&self, identifier: Token) -> (result: Result<FunctionStatement, Error>)
        ensures
            match result {
                Ok(value) => self@.contains_key(identifier@.lexeme) && value@
                    == self@[identifier@.lexeme],
                Err(error) => !self@.contains_key(identifier@.lexeme) && error@
                    == no_such_function(identifier@),
            },
    {
        match find(&self.bindings, &identifier.lexeme) {
            Some(i) => {
                proof {
                    lemma_table_present(self.bindings@, function_value(), i as int);
                }
                Ok(self.bindings[i].1.clone())
            },
            None => {
                proof {
                    lemma_table_absent(self.bindings@, function_value(), identifier.lexeme@);
                }
                let mut message = "Function `".to_owned();
                message.append(identifier.lexeme.as_str());
                message.append("` doesn't exist.");
                Err(Error::new(ErrorType::RuntimeError, message, identifier.position))
            },
        }
    }
}

impl Default for FunctionBindings {
    fn default() -> (functions: Self)
        ensures
            functions@ == Map::<Seq<char>, FunctionView>::empty(),
    {
        Self::new()
    }
}

impl Clone for FunctionBindings {
    fn clone(&self) -> (copy: Self)
        ensures
            copy@ == self@,
    {
        let mut bindings: Vec<(String, FunctionStatement)> = Vec::new();
        let mut i: usize = 0;
        while i < self.bindings.len()
            invariant
                i <= self.bindings.len(),
                bindings.len() == i,
                table(bindings@, function_value()) == table(
                    self.bindings@.take(i as int),
                    function_value(),
                ),
            decreases self.bindings.len() - i,
        {
            let entry = (self.bindings[i].0.clone(), self.bindings[i].1.clone());
            proof {
                let taken = self.bindings@.take(i as int);
                let next = self.bindings@[i as int];
                assert(self.bindings@.take(i + 1) =~= taken.push(next));
                assert(taken.push(next).drop_last() =~= taken);
                lemma_table_push(bindings@, function_value(), entry);
            }
            bindings.push(entry);
            i += 1;
        }
        assert(self.bindings@.take(i as int) =~= self.bindings@);
        Self { bindings }
    }
}

} // verus!
