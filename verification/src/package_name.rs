//! The name of an npm package.

use vstd::prelude::*;
use vstd::std_specs::convert::FromSpecImpl;
use vstd::string::StringExecFns;

verus! {

/// A fully-scoped npm package name, such as `@scope/name`.
#[derive(Clone, Debug, PartialEq, Eq, PartialOrd, Ord, Hash)]
pub struct PackageName(String);

impl View for PackageName {
    type V = Seq<char>;

    /// The characters of the name.
    closed spec fn view(&self) -> Seq<char> {
        self.0@
    }
}

impl PackageName {
    /// The name as a string slice.
    pub fn as_str(&self) -> (s: &str)
        ensures
            s@ == self@,
    {
        self.0.as_str()
    }
}

impl From<&str> for PackageName {
    fn from(value: &str) -> (name: Self)
        ensures
            name@ == value@,
    {
        PackageName(String::from_str(value))
    }
}

impl FromSpecImpl<&str> for PackageName {
    /// A string slice names no owned string, so the conversion is stated by
    /// the view of its result alone.
    open spec fn obeys_from_spec() -> bool {
        false
    }

    open spec fn from_spec(value: &str) -> Self {
        arbitrary()
    }
}

impl From<&String> for PackageName {
    fn from(value: &String) -> (name: Self)
        ensures
            name@ == value@,
    {
        PackageName(value.clone())
    }
}

impl FromSpecImpl<&String> for PackageName {
    open spec fn obeys_from_spec() -> bool {
        true
    }

    closed spec fn from_spec(value: &String) -> Self {
        PackageName(*value)
    }
}

impl From<String> for PackageName {
    fn from(value: String) -> (name: Self)
        ensures
            name@ == value@,
    {
        PackageName(value)
    }
}

impl FromSpecImpl<String> for PackageName {
    open spec fn obeys_from_spec() -> bool {
        true
    }

    closed spec fn from_spec(value: String) -> Self {
        PackageName(value)
    }
}

} // verus!
