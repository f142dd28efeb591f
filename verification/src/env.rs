//! The variables of the shell.

use vstd::prelude::*;
use vstd::string::*;

use crate::error::ShellError;
use crate::names::NameTable;

verus! {

/// A scalar variable.
pub struct Variable {
    pub value: String,
    pub readonly: bool,
}

/// A variable as a value.
#[verifier::ext_equal]
pub struct VariableView {
    pub value: Seq<char>,
    pub readonly: bool,
}

/// The variables of the shell, by their names.
pub struct Environment {
    pub variables: NameTable<Variable>,
}

impl Environment {
    /// The variable of that name, if there is one.
    pub open spec fn variable(self, name: Seq<char>) -> Option<VariableView> {
        match self.variables.lookup(name) {
            Some(v) => Some(VariableView { value: v.value@, readonly: v.readonly }),
            None => None,
        }
    }

    /// Whether the variable of that name must not be changed.
    pub open spec fn is_readonly(self, name: Seq<char>) -> bool {
        self.variable(name) matches Some(v) && v.readonly
    }

    /// The value of the variable of that name, if there is one.
    pub open spec fn value(self, name: Seq<char>) -> Option<Seq<char>> {
        match self.variable(name) {
            Some(v) => Some(v.value),
            None => None,
        }
    }

    /// An environment without variables.
    pub fn new() -> (env: Environment)
        ensures
            forall|name: Seq<char>| #[trigger] env.variable(name) is None,
    {
        Environment { variables: NameTable::new() }
    }

    /// The value of a variable.
    pub fn get_str(&self, name: &str) -> (r: Option<String>)
        ensures
            match r {
                Some(v) => self.value(name@) == Some(v@),
                None => self.value(name@) is None,
            },
    {
        match self.variables.get(name) {
            Some(v) => Some(v.value.clone()),
            None => None,
        }
    }

    /// Gives a variable a value; it need not have existed. One that is
    /// read-only stays as it is, and that is an error.
    pub fn update_or_add(&mut self, name: &str, value: &str) -> (r: Result<(), ShellError>)
        ensures
            r is Ok <==> !old(self).is_readonly(name@),
            match r {
                Ok(()) => final(self).variable(name@) == Some(
                    VariableView { value: value@, readonly: false },
                ),
                Err(e) => {
                    &&& e matches ShellError::ReadonlyVariable(n) && n@ == name@
                    &&& *final(self) == *old(self)
                },
            },
            forall|other: Seq<char>|
                other != name@ ==> #[trigger] final(self).variable(other) == old(self).variable(other),
    {
        let readonly = match self.variables.get(name) {
            Some(v) => v.readonly,
            None => false,
        };
        if readonly {
            return Err(ShellError::ReadonlyVariable(name.to_owned()));
        }
        self.variables.set(name, Variable { value: value.to_owned(), readonly: false });
        Ok(())
    }

    /// Gives a variable its last value: from now on it is read-only.
    pub fn set_readonly(&mut self, name: &str, value: &str)
        ensures
            final(self).variable(name@) == Some(VariableView { value: value@, readonly: true }),
            forall|other: Seq<char>|
                other != name@ ==> #[trigger] final(self).variable(other) == old(self).variable(other),
    {
        self.variables.set(name, Variable { value: value.to_owned(), readonly: true });
    }
}

} // verus!
