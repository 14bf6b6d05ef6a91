//! Environments: named sets of variables, some of them secret.

use vstd::prelude::*;

use crate::ids::new_id;

verus! {

/// Whether a variable's value is plain text or a secret to be masked.
#[derive(Debug, Clone, PartialEq, Eq, Structural)]
pub enum VarType {
    Text,
    Secret,
}

impl Default for VarType {
    fn default() -> (r: VarType)
        ensures
            r == VarType::Text,
    {
        VarType::Text
    }
}

/// One variable of an environment.
#[derive(Debug, Clone)]
pub struct EnvVariable {
    pub key: String,
    pub value: String,
    pub var_type: VarType,
    pub enabled: bool,
    pub description: String,
}

impl Default for EnvVariable {
    fn default() -> (r: EnvVariable)
        ensures
            r.key@ == Seq::<char>::empty(),
            r.value@ == Seq::<char>::empty(),
            r.var_type == VarType::Text,
            r.enabled,
            r.description@ == Seq::<char>::empty(),
    {
        EnvVariable {
            key: String::new(),
            value: String::new(),
            var_type: VarType::Text,
            enabled: true,
            description: String::new(),
        }
    }
}

/// A named environment with its variables.
#[derive(Debug, Clone)]
pub struct Environment {
    pub id: String,
    pub name: String,
    pub color: String,
    pub variables: Vec<EnvVariable>,
}

impl Default for Environment {
    /// A fresh environment. The id is freshly drawn, so nothing is
    /// promised of it.
    fn default() -> (r: Environment)
        ensures
            r.name@ == "New Environment"@,
            r.color@ == "#7aa2f7"@,
            r.variables@ == Seq::<EnvVariable>::empty(),
    {
        Environment {
            id: new_id(),
            name: "New Environment".to_owned(),
            color: "#7aa2f7".to_owned(),
            variables: Vec::new(),
        }
    }
}

} // verus!
