use vstd::prelude::*;

verus! {

/// Marks the two kinds of include lists: no other type can be one.
pub trait Sealed {

}

/// The includes of a configuration in which all includes are resolved:
/// none.
#[derive(Debug, Clone, Default, PartialEq, Eq)]
pub struct NoIncludes;

/// The paths of the files that a configuration includes.
#[derive(Debug, Clone, Default, PartialEq, Eq)]
pub struct FilePathIncludes(pub Vec<String>);

pub trait ConfigIncludes: Sealed {
    /// Whether nothing is included.
    spec fn empty(&self) -> bool;

    fn is_empty(&self) -> (b: bool)
        ensures
            b == self.empty(),
    ;
}

impl Sealed for NoIncludes {

}

impl Sealed for FilePathIncludes {

}

impl ConfigIncludes for NoIncludes {
    open spec fn empty(&self) -> bool {
        true
    }

    fn is_empty(&self) -> (b: bool) {
        true
    }
}

impl ConfigIncludes for FilePathIncludes {
    open spec fn empty(&self) -> bool {
        self.0@.len() == 0
    }

    fn is_empty(&self) -> (b: bool) {
        self.0.len() == 0
    }
}

/// A configuration still names files to include.
#[derive(Debug, Clone, Copy, PartialEq, Eq)]
pub struct UnresolvedIncludes;

impl UnresolvedIncludes {
    /// The error as a message.
    pub fn message(&self) -> (message: String)
        ensures
            message@ == "unresolved includes"@,
    {
        "unresolved includes".to_owned()
    }
}

} // verus!
