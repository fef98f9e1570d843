//! Where the kernels come from: a file that the environment names, the library built
//! into the program, or its source.
use vstd::prelude::*;

verus! {

/// A kernel library.
#[derive(Debug, Clone, Copy, PartialEq, Eq, Structural)]
pub enum Library {
    /// The file that the environment names.
    Override,
    /// The library that was compiled with the program.
    Embedded,
    /// The source, compiled when the program starts.
    Source,
}

/// What there is to load kernels from, and what loads.
#[derive(Debug, Clone, Copy, PartialEq, Eq, Structural)]
pub struct LibraryTrials {
    /// The environment names a file.
    pub override_named: bool,
    /// That file can be read, and the device takes it.
    pub override_loads: bool,
    /// The program has a compiled library in it.
    pub embedded_there: bool,
    /// The device takes that library.
    pub embedded_loads: bool,
    /// The source compiles.
    pub source_compiles: bool,
}

/// The library that is used: the named file, else the embedded library, else the source,
/// of these the first that is there and loads.
pub open spec fn library_spec(t: LibraryTrials) -> Option<Library> {
    if t.override_named && t.override_loads {
        Some(Library::Override)
    } else if t.embedded_there && t.embedded_loads {
        Some(Library::Embedded)
    } else if t.source_compiles {
        Some(Library::Source)
    } else {
        None
    }
}

/// Whether the environment names a library file: an empty name is none.
pub fn override_named(setting: Option<&str>) -> (r: bool)
    ensures
        r == (setting matches Some(s) && s@.len() > 0),
{
    match setting {
        Some(s) => {
            proof {
                reveal_strlit("");
            }
            let empty: bool = crate::text::same(s, "");
            assert(empty <==> s@ =~= ""@);
            !empty
        },
        None => false,
    }
}

/// The library that is used.
pub fn choose_library(t: LibraryTrials) -> (r: Option<Library>)
    ensures
        r == library_spec(t),
{
    if t.override_named && t.override_loads {
        return Some(Library::Override);
    }
    if t.embedded_there && t.embedded_loads {
        return Some(Library::Embedded);
    }
    if t.source_compiles {
        Some(Library::Source)
    } else {
        None
    }
}

/// The library to try after one that did not load, or first of all.
pub open spec fn next_spec(failed: Option<Library>, named: bool, embedded: bool) -> Option<Library> {
    match failed {
        None if named => Some(Library::Override),
        None | Some(Library::Override) => if embedded {
            Some(Library::Embedded)
        } else {
            Some(Library::Source)
        },
        Some(Library::Embedded) => Some(Library::Source),
        Some(Library::Source) => None,
    }
}

/// The library to try after one that did not load, or first of all: nothing is loaded or
/// compiled before everything in front of it has failed.
pub fn next_library(failed: Option<Library>, named: bool, embedded: bool) -> (r: Option<Library>)
    ensures
        r == next_spec(failed, named, embedded),
{
    match failed {
        None => if named {
            Some(Library::Override)
        } else if embedded {
            Some(Library::Embedded)
        } else {
            Some(Library::Source)
        },
        Some(Library::Override) => if embedded {
            Some(Library::Embedded)
        } else {
            Some(Library::Source)
        },
        Some(Library::Embedded) => Some(Library::Source),
        Some(Library::Source) => None,
    }
}

/// Whether a library loads when it is tried.
pub open spec fn loads(t: LibraryTrials, l: Library) -> bool {
    match l {
        Library::Override => t.override_loads,
        Library::Embedded => t.embedded_loads,
        Library::Source => t.source_compiles,
    }
}

/// How many libraries can be tried behind one.
pub open spec fn behind(failed: Option<Library>) -> nat {
    match failed {
        None => 3,
        Some(Library::Override) => 2,
        Some(Library::Embedded) => 1,
        Some(Library::Source) => 0,
    }
}

/// The first library that loads when one is tried after the other.
pub open spec fn found(t: LibraryTrials, failed: Option<Library>) -> Option<Library>
    decreases behind(failed),
{
    match next_spec(failed, t.override_named, t.embedded_there) {
        None => None,
        Some(l) => if loads(t, l) {
            Some(l)
        } else {
            found(t, Some(l))
        },
    }
}

/// Trying one library after the other ends with the one that is used.
pub proof fn law_tries_end_at_the_choice(t: LibraryTrials)
    ensures
        found(t, None) == library_spec(t),
{
    reveal_with_fuel(found, 5);
}

/// A named file that does not load counts as if none were named.
pub proof fn law_failing_override_falls_back(t: LibraryTrials)
    requires
        !t.override_loads,
    ensures
        library_spec(t) == library_spec(LibraryTrials { override_named: false, ..t }),
{
}

/// The library that the environment names comes first, then the one in the program, then
/// the source; each only if it is there and loads.
pub proof fn law_libraries_in_order(t: LibraryTrials)
    ensures
        ({
            let named = t.override_named && t.override_loads;
            let embedded = t.embedded_there && t.embedded_loads;
            let r = library_spec(t);
            &&& named ==> r == Some(Library::Override)
            &&& !named && embedded ==> r == Some(Library::Embedded)
            &&& !named && !embedded && t.source_compiles ==> r == Some(Library::Source)
            &&& !named && !embedded && !t.source_compiles ==> r is None
        }),
{
}

} // verus!
