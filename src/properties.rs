//! Function properties: syntactic metadata and hints to the compiler.
use vstd::prelude::*;

use crate::text::str_eq;

verus! {

/// A property that a function may declare in its `#Properties` list.
///
/// `Pure`: no side effects. `Public`: visible within this module. `Export`: visible within this
/// module and to other modules.
#[derive(Debug, Clone, Copy, PartialEq, Eq, Structural)]
pub enum Properties {
    Pure,
    Public,
    Export,
}

/// The property that a name stands for, if it is one of the recognized names.
pub open spec fn property_of(name: Seq<char>) -> Option<Properties> {
    if name == "Pure"@ {
        Some(Properties::Pure)
    } else if name == "Public"@ {
        Some(Properties::Public)
    } else if name == "Export"@ {
        Some(Properties::Export)
    } else {
        None
    }
}

impl Properties {
    /// The property that a name stands for, if it is one of the recognized names.
    pub fn from_name(name: &str) -> (r: Option<Properties>)
        ensures
            r == property_of(name@),
    {
        if str_eq(name, "Pure") {
            Some(Properties::Pure)
        } else if str_eq(name, "Public") {
            Some(Properties::Public)
        } else if str_eq(name, "Export") {
            Some(Properties::Export)
        } else {
            None
        }
    }
}

} // verus!
