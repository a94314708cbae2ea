//! The two card environments.
use vstd::prelude::*;

verus! {

/// A card environment: the OCG/TCG pool or the Rush Duel pool.
#[derive(Debug, Clone, Copy, PartialEq, Eq, Structural)]
pub enum Environment {
    Ot,
    Rd,
}

/// The label of an environment.
pub open spec fn environment_label(environment: Environment) -> Seq<char> {
    match environment {
        Environment::Ot => "OT"@,
        Environment::Rd => "RD"@,
    }
}

impl Environment {
    /// The label of the environment, as reports show it.
    pub fn label(self) -> (res: &'static str)
        ensures
            res@ == environment_label(self),
    {
        match self {
            Environment::Ot => "OT",
            Environment::Rd => "RD",
        }
    }
}

} // verus!
