//! The decisions of the compiler driver that are plain data: how far a run
//! goes, what the linker produces, and how a plugin library file is named on
//! each platform.  The driver's process handling and file probing live
//! outside the library and consume these.

use vstd::prelude::*;

verus! {

/// How far a driver run goes before stopping.
#[derive(Clone, Copy, Debug, Hash, PartialEq, Eq, PartialOrd, Ord)]
pub enum Mode {
    Preprocess,
    TypeCheck,
    Xir,
    Asm,
    CompileOnly,
    Link,
}

/// What a linking run produces.
#[derive(Clone, Copy, Debug, Hash, PartialEq, Eq)]
pub enum LinkOutput {
    Shared,
    Static,
    Executable,
    Pie,
    Manifest,
}

/// The platform convention for naming a loadable plugin library.
#[derive(Clone, Copy, Debug, Hash, PartialEq, Eq, Structural)]
pub enum LibraryNaming {
    Windows,
    Linux,
    MacOs,
}

/// The file name a plugin library carries on the given platform.
pub open spec fn spec_library_file_name(
    prefix: Seq<char>,
    library: Seq<char>,
    naming: LibraryNaming,
) -> Seq<char> {
    match naming {
        LibraryNaming::Windows => prefix + "_"@ + library + ".dll"@,
        LibraryNaming::Linux => "lib"@ + prefix + "_"@ + library + ".so"@,
        LibraryNaming::MacOs => "lib"@ + prefix + "_"@ + library + ".dylib"@,
    }
}

/// Builds the platform file name of a plugin library, such as the name a
/// frontend or code generator is loaded under.
pub fn library_file_name(prefix: &str, library: &str, naming: LibraryNaming) -> (r: String)
    ensures
        r@ == spec_library_file_name(prefix@, library@, naming),
{
    match naming {
        LibraryNaming::Windows => {
            let s = String::from_str(prefix);
            let s = s.concat("_");
            let s = s.concat(library);
            s.concat(".dll")
        }
        LibraryNaming::Linux => {
            let s = String::from_str("lib");
            let s = s.concat(prefix);
            let s = s.concat("_");
            let s = s.concat(library);
            s.concat(".so")
        }
        LibraryNaming::MacOs => {
            let s = String::from_str("lib");
            let s = s.concat(prefix);
            let s = s.concat("_");
            let s = s.concat(library);
            s.concat(".dylib")
        }
    }
}

} // verus!
