// Names of types, for the trace lines that instrumented methods print.

use crate::app::App;
use crate::visibility_info::{VisibilityEntry, VisibilityInfo};
use vstd::prelude::*;
use vstd::string::*;

verus! {

/// A type that can name itself from one of its values.
pub trait TypeName {
    /// The name of the type of `self`.
    fn type_name_of(&self) -> &str;
}

/// A type that can name itself without a value.
pub trait TypeNameStatic {
    /// The name of the type.
    fn type_name_static() -> &'static str;
}

impl TypeName for VisibilityEntry {
    fn type_name_of(&self) -> (name: &str)
        ensures
            name@ == "VisibilityEntry"@,
    {
        "VisibilityEntry"
    }
}

impl TypeNameStatic for VisibilityEntry {
    fn type_name_static() -> (name: &'static str)
        ensures
            name@ == "VisibilityEntry"@,
    {
        "VisibilityEntry"
    }
}

impl TypeName for VisibilityInfo {
    fn type_name_of(&self) -> (name: &str)
        ensures
            name@ == "VisibilityInfo"@,
    {
        "VisibilityInfo"
    }
}

impl TypeNameStatic for VisibilityInfo {
    fn type_name_static() -> (name: &'static str)
        ensures
            name@ == "VisibilityInfo"@,
    {
        "VisibilityInfo"
    }
}

impl TypeName for App {
    fn type_name_of(&self) -> (name: &str)
        ensures
            name@ == "App"@,
    {
        "App"
    }
}

impl TypeNameStatic for App {
    fn type_name_static() -> (name: &'static str)
        ensures
            name@ == "App"@,
    {
        "App"
    }
}

} // verus!
