//! The target descriptor: the parsed form of a compilation target triple
//! (architecture, operating system, optional ABI variant). Its canonical
//! string form drives cache-key formation and conditional build behaviour.

use vstd::prelude::*;
use vstd::string::StrSliceExecFns;
use vstd::string::StringExecFns;

use crate::error::BuildError;
use crate::strutil::{
    contains_char, contains_char_from, find_char, first_char_at, last_char_at,
    lemma_first_char_props, lemma_last_char_props, rfind_char, substring,
};

verus! {

/// The mathematical form of a target descriptor.
pub struct TargetTripleView {
    pub arch: Seq<char>,
    pub os: Seq<char>,
    pub abi: Option<Seq<char>>,
}

/// A parsed compilation target triple. Immutable once constructed.
#[derive(Clone, Debug, PartialEq, Eq)]
pub struct TargetTriple {
    pub arch: String,
    pub os: String,
    pub abi: Option<String>,
}

impl View for TargetTriple {
    type V = TargetTripleView;

    open spec fn view(&self) -> TargetTripleView {
        TargetTripleView {
            arch: self.arch@,
            os: self.os@,
            abi: match self.abi {
                Some(a) => Some(a@),
                None => None,
            },
        }
    }
}

/// What parsing a triple string yields: the part before the first dash is
/// the architecture; of the remainder, the part after its last dash is the
/// ABI variant where one exists; what lies between is the operating-system
/// component. A string without any dash does not split into at least an
/// architecture and a system component, and is malformed.
pub open spec fn parse_triple(t: Seq<char>) -> Option<TargetTripleView> {
    if !contains_char(t, '-') {
        None
    } else {
        let i = first_char_at(t, '-', 0);
        let arch = t.subrange(0, i);
        let rest = t.subrange(i + 1, t.len() as int);
        if !contains_char(rest, '-') {
            Some(TargetTripleView { arch, os: rest, abi: None })
        } else {
            let j = last_char_at(rest, '-');
            Some(
                TargetTripleView {
                    arch,
                    os: rest.subrange(0, j),
                    abi: Some(rest.subrange(j + 1, rest.len() as int)),
                },
            )
        }
    }
}

/// The canonical string form of a descriptor: the components joined by
/// dashes, the ABI variant last where present.
pub open spec fn triple_str(d: TargetTripleView) -> Seq<char> {
    d.arch + seq!['-'] + d.os + (match d.abi {
        Some(a) => seq!['-'] + a,
        None => Seq::<char>::empty(),
    })
}

/// Normalizing reconstructs the very string that was parsed: the canonical
/// form of a successfully parsed triple is the input itself.
pub proof fn lemma_parse_reconstructs(t: Seq<char>)
    requires
        parse_triple(t) is Some,
    ensures
        triple_str(parse_triple(t)->0) == t,
{
    lemma_first_char_props(t, '-', 0);
    let i = first_char_at(t, '-', 0);
    let arch = t.subrange(0, i);
    let rest = t.subrange(i + 1, t.len() as int);
    if !contains_char(rest, '-') {
        assert(triple_str(parse_triple(t)->0) =~= arch + seq!['-'] + rest);
        assert(arch + seq!['-'] + rest =~= t);
    } else {
        lemma_last_char_props(rest, '-');
        let j = last_char_at(rest, '-');
        let os = rest.subrange(0, j);
        let abi = rest.subrange(j + 1, rest.len() as int);
        assert(os + seq!['-'] + abi =~= rest);
        assert(triple_str(parse_triple(t)->0) =~= arch + seq!['-'] + (os + seq!['-'] + abi));
        assert(arch + seq!['-'] + (os + seq!['-'] + abi) =~= t);
    }
}

/// Law: for every triple string that parses, parsing the canonical string
/// form of the parsed descriptor gives that same descriptor back.
pub proof fn lemma_triple_round_trip(t: Seq<char>)
    requires
        parse_triple(t) is Some,
    ensures
        parse_triple(triple_str(parse_triple(t)->0)) == parse_triple(t),
{
    lemma_parse_reconstructs(t);
}

impl TargetTriple {
    /// Splits a target triple string into a descriptor, rejecting strings
    /// that lack even an architecture and a system component.
    pub fn parse(t: &str) -> (r: Result<TargetTriple, BuildError>)
        ensures
            match r {
                Ok(d) => parse_triple(t@) == Some(d@),
                Err(e) => parse_triple(t@) is None && e == BuildError::MalformedTarget,
            },
    {
        let len = t.unicode_len();
        let i = match find_char(t, '-', 0) {
            Some(i) => i,
            None => {
                return Err(BuildError::MalformedTarget);
            },
        };
        let arch = substring(t, 0, i);
        let ghost rest = t@.subrange(i + 1, t@.len() as int);
        match find_char(t, '-', i + 1) {
            None => {
                let os = substring(t, i + 1, len);
                proof {
                    assert(!contains_char(rest, '-')) by {
                        if contains_char(rest, '-') {
                            let e = choose|e: int| 0 <= e < rest.len() && rest[e] == '-';
                            assert(t@[i + 1 + e] == '-');
                        }
                    }
                }
                Ok(TargetTriple { arch, os, abi: None })
            },
            Some(w) => {
                proof {
                    assert(contains_char(t@, '-'));
                }
                let j = match rfind_char(t, '-') {
                    Some(j) => j,
                    None => {
                        proof {
                            assert(false);
                        }
                        return Err(BuildError::MalformedTarget);
                    },
                };
                proof {
                    // the last dash of the whole string lies past the first,
                    // so it is the last dash of the remainder as well
                    assert(t@[w as int] == '-');
                    assert(j >= w > i);
                    assert(contains_char(rest, '-')) by {
                        assert(rest[j - i - 1] == '-');
                    }
                    lemma_last_char_props(rest, '-');
                    let lj = last_char_at(rest, '-');
                    assert(t@[i + 1 + lj] == '-');
                    assert(rest[j - i - 1] == '-');
                    assert(lj == j - i - 1);
                }
                let os = substring(t, i + 1, j);
                let abi = substring(t, j + 1, len);
                proof {
                    let lj = last_char_at(rest, '-');
                    assert(os@ =~= rest.subrange(0, lj));
                    assert(abi@ =~= rest.subrange(lj + 1, rest.len() as int));
                }
                Ok(TargetTriple { arch, os, abi: Some(abi) })
            },
        }
    }

    /// Renders the descriptor in its canonical triple form.
    pub fn to_string(&self) -> (r: String)
        ensures
            r@ == triple_str(self@),
    {
        proof {
            reveal_strlit("-");
        }
        let mut r = self.arch.clone();
        r.append("-");
        r.append(self.os.as_str());
        match &self.abi {
            Some(a) => {
                r.append("-");
                r.append(a.as_str());
                proof {
                    assert(r@ =~= triple_str(self@));
                }
            },
            None => {
                proof {
                    assert(r@ =~= triple_str(self@));
                }
            },
        }
        r
    }
}

/// The file-naming convention of the platform a triple names: Windows
/// conventions where its system component says so, Unix conventions
/// otherwise (and for strings that do not parse at all).
pub open spec fn target_os_family(t: Seq<char>) -> crate::libname::OsFamily {
    match parse_triple(t) {
        Some(d) => crate::libname::os_family_of(crate::libname::os_kind_of(d.os, d.abi)),
        None => crate::libname::OsFamily::Unix,
    }
}

/// Classifies the platform a triple string names.
pub fn target_os_family_exec(t: &str) -> (r: crate::libname::OsFamily)
    ensures
        r == target_os_family(t@),
{
    match TargetTriple::parse(t) {
        Ok(d) => match crate::libname::os_kind(d.os.as_str(), &d.abi) {
            crate::libname::OsKind::Windows => crate::libname::OsFamily::Windows,
            _ => crate::libname::OsFamily::Unix,
        },
        Err(_) => crate::libname::OsFamily::Unix,
    }
}

} // verus!
