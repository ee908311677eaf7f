//! Function permissions: the capabilities a function declares that it uses.
use vstd::prelude::*;

use crate::text::str_eq;

verus! {

/// A capability that a function may declare in its `#Permissions` list.
#[derive(Debug, Clone, Copy, PartialEq, Eq, Structural)]
pub enum Permissions {
    ReadFile,
    WriteFile,
    ReadNetwork,
    WriteNetwork,
    Custom,
}

/// The permission that a name stands for, `Custom` for any other name.
pub open spec fn permission_of(name: Seq<char>) -> Permissions {
    if name == "ReadFile"@ {
        Permissions::ReadFile
    } else if name == "WriteFile"@ {
        Permissions::WriteFile
    } else if name == "ReadNetwork"@ {
        Permissions::ReadNetwork
    } else if name == "WriteNetwork"@ {
        Permissions::WriteNetwork
    } else {
        Permissions::Custom
    }
}

impl Permissions {
    /// The permission that a name in a `#Permissions` list stands for.
    pub fn from_str(input: &str) -> (r: Self)
        ensures
            r == permission_of(input@),
    {
        if str_eq(input, "ReadFile") {
            Permissions::ReadFile
        } else if str_eq(input, "WriteFile") {
            Permissions::WriteFile
        } else if str_eq(input, "ReadNetwork") {
            Permissions::ReadNetwork
        } else if str_eq(input, "WriteNetwork") {
            Permissions::WriteNetwork
        } else {
            Permissions::Custom
        }
    }
}

} // verus!
