//! Link-library name entries and platform file-naming conventions. A stored
//! library name never carries a platform prefix or suffix; those are applied
//! only where a file name is actually formed.

use vstd::prelude::*;
use vstd::string::StringExecFns;

use crate::strutil::{ends_with, str_ends_with};

verus! {

/// How a library is linked into the consuming build.
#[derive(Clone, Copy, Debug, PartialEq, Eq, Structural)]
pub enum LinkKind {
    Static,
    Dynamic,
}

/// Which file-naming convention the target platform uses for a static
/// library archive.
#[derive(Clone, Copy, Debug, PartialEq, Eq, Structural)]
pub enum OsFamily {
    Unix,
    Windows,
}

/// The operating systems the pipeline treats specially when it picks
/// runtime libraries to link.
#[derive(Clone, Copy, Debug, PartialEq, Eq, Structural)]
pub enum OsKind {
    Linux,
    MacOs,
    Windows,
    Other,
}

/// A library base name paired with its linkage kind.
#[derive(Clone, Debug, PartialEq, Eq)]
pub struct Library {
    pub name: String,
    pub kind: LinkKind,
}

/// The mathematical form of a library entry.
#[verifier::ext_equal]
pub struct LibraryView {
    pub name: Seq<char>,
    pub kind: LinkKind,
}

impl View for Library {
    type V = LibraryView;

    open spec fn view(&self) -> LibraryView {
        LibraryView { name: self.name@, kind: self.kind }
    }
}

impl DeepView for Library {
    type V = LibraryView;

    open spec fn deep_view(&self) -> LibraryView {
        self.view()
    }
}

/// The operating system a target triple names. The system name sits in
/// the operating-system component of four-part triples and in the ABI
/// slot of three-part Apple triples, so both are consulted.
pub open spec fn os_kind_of(os: Seq<char>, abi: Option<Seq<char>>) -> OsKind {
    if ends_with(os, "windows"@) {
        OsKind::Windows
    } else if ends_with(os, "linux"@) {
        OsKind::Linux
    } else if ends_with(os, "darwin"@) || abi == Some("darwin"@) {
        OsKind::MacOs
    } else {
        OsKind::Other
    }
}

/// The file-naming convention that goes with an operating system.
pub open spec fn os_family_of(k: OsKind) -> OsFamily {
    match k {
        OsKind::Windows => OsFamily::Windows,
        _ => OsFamily::Unix,
    }
}

/// Classifies the operating system a target triple names.
pub fn os_kind(os: &str, abi: &Option<String>) -> (r: OsKind)
    ensures
        r == os_kind_of(os@, match abi {
            Some(a) => Some(a@),
            None => None,
        }),
{
    if str_ends_with(os, "windows") {
        OsKind::Windows
    } else if str_ends_with(os, "linux") {
        OsKind::Linux
    } else if str_ends_with(os, "darwin") {
        OsKind::MacOs
    } else {
        match abi {
            Some(a) => {
                if crate::strutil::str_eq(a.as_str(), "darwin") {
                    OsKind::MacOs
                } else {
                    OsKind::Other
                }
            },
            None => OsKind::Other,
        }
    }
}

/// The conventional file name of a static library archive.
pub open spec fn static_lib_filename_spec(name: Seq<char>, os: OsFamily) -> Seq<char> {
    match os {
        OsFamily::Unix => "lib"@ + name + ".a"@,
        OsFamily::Windows => name + ".lib"@,
    }
}

/// Forms the platform-conventional file name of a static library archive
/// from its stored base name.
pub fn static_lib_filename(lib_name: &str, os: OsFamily) -> (r: String)
    ensures
        r@ == static_lib_filename_spec(lib_name@, os),
{
    match os {
        OsFamily::Unix => {
            let mut r = String::from_str("lib");
            r.append(lib_name);
            r.append(".a");
            proof {
                assert(r@ =~= static_lib_filename_spec(lib_name@, os));
            }
            r
        },
        OsFamily::Windows => {
            let mut r = lib_name.to_owned();
            r.append(".lib");
            proof {
                assert(r@ =~= static_lib_filename_spec(lib_name@, os));
            }
            r
        },
    }
}

} // verus!
