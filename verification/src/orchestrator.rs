//! The build orchestrator: the one-shot strategy decision, the library
//! list for the link line, the planned build-tool invocations of a source
//! build, the classification of a finished external command, and the
//! linker directives handed to the consuming build. Everything here is a
//! function from configuration and reported facts to plans and decisions;
//! running processes, touching the network and reading the environment
//! happen outside the library against these contracts.

use vstd::prelude::*;
use vstd::string::StrSliceExecFns;
use vstd::string::StringExecFns;

use crate::error::BuildError;
use crate::libname::{os_kind, os_kind_of, Library, LibraryView, LinkKind, OsKind};
use crate::strutil::{dec_str_of, str_eq, u64_to_dec};
use crate::target::{TargetTriple, TargetTripleView};

verus! {

/// The mathematical form of a build configuration.
pub struct BuildConfigView {
    pub build_from_source: bool,
    pub prebuilt: bool,
    pub static_link: bool,
    pub build_zlib: bool,
    pub target: TargetTripleView,
    pub version: Seq<char>,
    pub jobs: u64,
    pub ninja_present: bool,
}

/// The immutable configuration of one build invocation, read once from
/// the ambient build environment and passed to every component.
#[derive(Clone, Debug, PartialEq, Eq)]
pub struct BuildConfig {
    /// A source build was explicitly requested.
    pub build_from_source: bool,
    /// The prebuilt-cache capability is enabled.
    pub prebuilt: bool,
    /// Link the produced library statically rather than dynamically.
    pub static_link: bool,
    /// Build the bundled compression library from source too.
    pub build_zlib: bool,
    /// The compilation target.
    pub target: TargetTriple,
    /// The version that keys cache file names and release URLs.
    pub version: String,
    /// The parallelism hint handed to the external build tool.
    pub jobs: u64,
    /// Whether the Ninja build tool was found on this machine.
    pub ninja_present: bool,
}

impl View for BuildConfig {
    type V = BuildConfigView;

    open spec fn view(&self) -> BuildConfigView {
        BuildConfigView {
            build_from_source: self.build_from_source,
            prebuilt: self.prebuilt,
            static_link: self.static_link,
            build_zlib: self.build_zlib,
            target: self.target@,
            version: self.version@,
            jobs: self.jobs,
            ninja_present: self.ninja_present,
        }
    }
}

/// The three acquisition strategies. Exactly one is selected per build,
/// once, before any work starts; a failing strategy fails the build with
/// no fallback to another.
#[derive(Clone, Copy, Debug, PartialEq, Eq, Structural)]
pub enum Strategy {
    /// Configure, compile and install the wrapped library from source.
    SourceBuild,
    /// Reuse a packaged archive, from the local cache or a release URL.
    PrebuiltCache,
    /// Link dynamically against a system-installed copy.
    SystemDynamicLink,
}

/// The one-shot selection: source build where explicitly requested, else
/// the prebuilt cache where enabled, else the system-installed copy.
pub open spec fn select_strategy_spec(c: BuildConfigView) -> Strategy {
    if c.build_from_source {
        Strategy::SourceBuild
    } else if c.prebuilt {
        Strategy::PrebuiltCache
    } else {
        Strategy::SystemDynamicLink
    }
}

/// Selects the acquisition strategy from the configuration flags.
pub fn select_strategy(c: &BuildConfig) -> (s: Strategy)
    ensures
        s == select_strategy_spec(c@),
{
    if c.build_from_source {
        Strategy::SourceBuild
    } else if c.prebuilt {
        Strategy::PrebuiltCache
    } else {
        Strategy::SystemDynamicLink
    }
}

/// Law (strategy exclusivity): for a fixed configuration exactly one
/// strategy is selected, and which one is determined by the flags alone.
pub proof fn lemma_strategy_exclusive(c: BuildConfigView)
    ensures
        select_strategy_spec(c) is SourceBuild <==> c.build_from_source,
        select_strategy_spec(c) is PrebuiltCache <==> (!c.build_from_source && c.prebuilt),
        select_strategy_spec(c) is SystemDynamicLink <==> (!c.build_from_source && !c.prebuilt),
{
}

/// The linkage the configuration asks for.
pub open spec fn linkage_of(c: BuildConfigView) -> LinkKind {
    if c.static_link {
        LinkKind::Static
    } else {
        LinkKind::Dynamic
    }
}

/// The linkage label that keys cache file names: `static` or `dylib`.
pub open spec fn linkage_label(c: BuildConfigView) -> Seq<char> {
    if c.static_link {
        "static"@
    } else {
        "dylib"@
    }
}

/// Renders the linkage label of the configuration.
pub fn linkage_label_exec(c: &BuildConfig) -> (r: String)
    ensures
        r@ == linkage_label(c@),
{
    if c.static_link {
        String::from_str("static")
    } else {
        String::from_str("dylib")
    }
}

/// The linkage label under which a finished build's artifacts are
/// packaged: `static` where static linkage was chosen, `dylib` where the
/// library was built from source for dynamic linkage. A configuration
/// with neither capability has nothing to package, and is rejected.
pub fn package_linkage(c: &BuildConfig) -> (r: Result<String, BuildError>)
    ensures
        match r {
            Ok(s) => (c@.static_link && s@ == "static"@) || (!c@.static_link
                && c@.build_from_source && s@ == "dylib"@),
            Err(e) => !c@.static_link && !c@.build_from_source && e
                == BuildError::UnsupportedConfiguration,
        },
{
    if c.build_from_source && !c.static_link {
        Ok(String::from_str("dylib"))
    } else if c.static_link {
        Ok(String::from_str("static"))
    } else {
        Err(BuildError::UnsupportedConfiguration)
    }
}

/// The rejected platform/toolchain combination: the wrapped library does
/// not build for Windows with the GNU ABI.
pub open spec fn windows_gnu(c: BuildConfigView) -> bool {
    os_kind_of(c.target.os, c.target.abi) is Windows && c.target.abi == Some("gnu"@)
}

/// Whether the configuration names the rejected Windows+GNU combination.
pub fn is_windows_gnu(c: &BuildConfig) -> (r: bool)
    ensures
        r == windows_gnu(c@),
{
    if !matches!(os_kind(c.target.os.as_str(), &c.target.abi), OsKind::Windows) {
        return false;
    }
    match &c.target.abi {
        Some(a) => str_eq(a.as_str(), "gnu"),
        None => false,
    }
}

/// The libraries the consuming build must link, in link-line order: the
/// wrapped library itself, a compression library, and the platform's C++
/// runtime where one is needed.
pub open spec fn lib_names_spec(c: BuildConfigView) -> Seq<LibraryView> {
    let k = os_kind_of(c.target.os, c.target.abi);
    let zlib = if c.build_from_source && c.build_zlib {
        LibraryView { name: "zlibstatic"@, kind: LinkKind::Static }
    } else if k is Windows {
        LibraryView { name: "zlibstatic"@, kind: LinkKind::Dynamic }
    } else {
        LibraryView { name: "z"@, kind: LinkKind::Dynamic }
    };
    let runtime = if k is Linux {
        seq![LibraryView { name: "stdc++"@, kind: LinkKind::Dynamic }]
    } else if k is MacOs {
        seq![LibraryView { name: "c++"@, kind: LinkKind::Dynamic }]
    } else {
        Seq::<LibraryView>::empty()
    };
    seq![LibraryView { name: "assimp"@, kind: linkage_of(c) }, zlib] + runtime
}

/// Lists the libraries to link, rejecting the Windows+GNU combination
/// before anything else happens.
pub fn lib_names(c: &BuildConfig) -> (r: Result<Vec<Library>, BuildError>)
    ensures
        match r {
            Ok(v) => !windows_gnu(c@) && v.deep_view() == lib_names_spec(c@),
            Err(e) => windows_gnu(c@) && e == BuildError::UnsupportedConfiguration,
        },
{
    if is_windows_gnu(c) {
        return Err(BuildError::UnsupportedConfiguration);
    }
    let k = os_kind(c.target.os.as_str(), &c.target.abi);
    let mut v: Vec<Library> = Vec::new();
    let assimp_kind = if c.static_link {
        LinkKind::Static
    } else {
        LinkKind::Dynamic
    };
    v.push(Library { name: String::from_str("assimp"), kind: assimp_kind });
    if c.build_from_source && c.build_zlib {
        v.push(Library { name: String::from_str("zlibstatic"), kind: LinkKind::Static });
    } else if matches!(k, OsKind::Windows) {
        v.push(Library { name: String::from_str("zlibstatic"), kind: LinkKind::Dynamic });
    } else {
        v.push(Library { name: String::from_str("z"), kind: LinkKind::Dynamic });
    }
    match k {
        OsKind::Linux => {
            v.push(Library { name: String::from_str("stdc++"), kind: LinkKind::Dynamic });
        },
        OsKind::MacOs => {
            v.push(Library { name: String::from_str("c++"), kind: LinkKind::Dynamic });
        },
        _ => {},
    }
    proof {
        assert(v.deep_view() =~~= lib_names_spec(c@));
    }
    Ok(v)
}

/// The mathematical form of one external command invocation.
#[verifier::ext_equal]
pub struct CommandSpecView {
    pub program: Seq<char>,
    pub args: Seq<Seq<char>>,
    pub current_dir: Option<Seq<char>>,
    pub env: Seq<(Seq<char>, Seq<char>)>,
}

/// One external command the plan asks the runner to execute: a program,
/// its arguments in order, an optional working directory, and the
/// environment overrides to apply for just this invocation.
#[derive(Clone, Debug, PartialEq, Eq)]
pub struct CommandSpec {
    pub program: String,
    pub args: Vec<String>,
    pub current_dir: Option<String>,
    pub env: Vec<(String, String)>,
}

impl View for CommandSpec {
    type V = CommandSpecView;

    open spec fn view(&self) -> CommandSpecView {
        CommandSpecView {
            program: self.program@,
            args: self.args.deep_view(),
            current_dir: match self.current_dir {
                Some(d) => Some(d@),
                None => None,
            },
            env: self.env.deep_view(),
        }
    }
}

impl DeepView for CommandSpec {
    type V = CommandSpecView;

    open spec fn deep_view(&self) -> CommandSpecView {
        self.view()
    }
}

/// The value of a build-system toggle.
pub open spec fn on_off(b: bool) -> Seq<char> {
    if b {
        "ON"@
    } else {
        "OFF"@
    }
}

/// The arguments of the configure step: source and build directory, a
/// release profile, shared-vs-static linkage, the tooling and tests off,
/// the zlib toggle, an empty library suffix, the private install prefix,
/// and the MSVC exception flags where that toolchain is selected.
pub open spec fn configure_args_spec(
    c: BuildConfigView,
    src_dir: Seq<char>,
    build_dir: Seq<char>,
    install_dir: Seq<char>,
) -> Seq<Seq<char>> {
    seq![
        "-S"@,
        src_dir,
        "-B"@,
        build_dir,
        "-DCMAKE_BUILD_TYPE=Release"@,
        "-DBUILD_SHARED_LIBS="@ + on_off(!c.static_link),
        "-DASSIMP_BUILD_ASSIMP_TOOLS=OFF"@,
        "-DASSIMP_BUILD_TESTS=OFF"@,
        "-DASSIMP_BUILD_ZLIB="@ + on_off(c.build_zlib),
        "-DLIBRARY_SUFFIX="@,
        "-DCMAKE_INSTALL_PREFIX="@ + install_dir,
    ] + (if is_msvc(c) {
        seq!["-DCMAKE_C_FLAGS=/EHsc"@, "-DCMAKE_CXX_FLAGS=/EHsc"@]
    } else {
        Seq::<Seq<char>>::empty()
    })
}

/// The arguments of the build-and-install step, with the parallelism hint.
pub open spec fn build_args_spec(c: BuildConfigView, build_dir: Seq<char>) -> Seq<Seq<char>> {
    seq![
        "--build"@,
        build_dir,
        "--config"@,
        "Release"@,
        "--target"@,
        "install"@,
        "--parallel"@,
        dec_str_of(c.jobs as nat),
    ]
}

/// Whether the configuration selects the MSVC toolchain.
pub open spec fn is_msvc(c: BuildConfigView) -> bool {
    c.target.abi == Some("msvc"@)
}

/// Whether the configuration's target names the MSVC toolchain.
pub fn is_msvc_exec(c: &BuildConfig) -> (r: bool)
    ensures
        r == is_msvc(c@),
{
    match &c.target.abi {
        Some(a) => str_eq(a.as_str(), "msvc"),
        None => false,
    }
}

/// The two commands of a source build: configure, then build and install.
pub open spec fn source_build_plan_spec(
    c: BuildConfigView,
    src_dir: Seq<char>,
    build_dir: Seq<char>,
    install_dir: Seq<char>,
) -> Seq<CommandSpecView> {
    seq![
        CommandSpecView {
            program: "cmake"@,
            args: configure_args_spec(c, src_dir, build_dir, install_dir),
            current_dir: None,
            env: generator_env_spec(c),
        },
        CommandSpecView {
            program: "cmake"@,
            args: build_args_spec(c, build_dir),
            current_dir: None,
            env: Seq::empty(),
        },
    ]
}

/// The environment overrides of the configure step: the Ninja generator
/// where the MSVC toolchain is selected and the tool was found on the
/// machine; nothing otherwise. Whether it was found is reported by the
/// caller, since probing the machine is outside the library.
pub open spec fn generator_env_spec(c: BuildConfigView) -> Seq<(Seq<char>, Seq<char>)> {
    if is_msvc(c) && c.ninja_present {
        seq![("CMAKE_GENERATOR"@, "Ninja"@)]
    } else {
        Seq::<(Seq<char>, Seq<char>)>::empty()
    }
}

/// Appends one argument to a command under construction.
fn push_arg(args: &mut Vec<String>, a: String)
    ensures
        final(args).deep_view() == old(args).deep_view().push(a@),
{
    let ghost before = args.deep_view();
    args.push(a);
    proof {
        assert(args.deep_view() =~= before.push(a@));
    }
}

/// Plans a source build: the external build-system invocations that
/// configure, compile and install the wrapped library. The rejected
/// Windows+GNU combination fails here, before any subprocess is spawned.
pub fn source_build_plan(c: &BuildConfig, src_dir: &str, build_dir: &str, install_dir: &str) -> (r:
    Result<Vec<CommandSpec>, BuildError>)
    ensures
        match r {
            Ok(v) => !windows_gnu(c@) && v.deep_view() == source_build_plan_spec(
                c@,
                src_dir@,
                build_dir@,
                install_dir@,
            ),
            Err(e) => windows_gnu(c@) && e == BuildError::UnsupportedConfiguration,
        },
{
    if is_windows_gnu(c) {
        return Err(BuildError::UnsupportedConfiguration);
    }
    let mut args: Vec<String> = Vec::new();
    push_arg(&mut args, String::from_str("-S"));
    push_arg(&mut args, src_dir.to_owned());
    push_arg(&mut args, String::from_str("-B"));
    push_arg(&mut args, build_dir.to_owned());
    push_arg(&mut args, String::from_str("-DCMAKE_BUILD_TYPE=Release"));
    let mut shared = String::from_str("-DBUILD_SHARED_LIBS=");
    if c.static_link {
        shared.append("OFF");
    } else {
        shared.append("ON");
    }
    push_arg(&mut args, shared);
    push_arg(&mut args, String::from_str("-DASSIMP_BUILD_ASSIMP_TOOLS=OFF"));
    push_arg(&mut args, String::from_str("-DASSIMP_BUILD_TESTS=OFF"));
    let mut zlib = String::from_str("-DASSIMP_BUILD_ZLIB=");
    if c.build_zlib {
        zlib.append("ON");
    } else {
        zlib.append("OFF");
    }
    push_arg(&mut args, zlib);
    push_arg(&mut args, String::from_str("-DLIBRARY_SUFFIX="));
    let mut prefix = String::from_str("-DCMAKE_INSTALL_PREFIX=");
    prefix.append(install_dir);
    push_arg(&mut args, prefix);
    if is_msvc_exec(c) {
        push_arg(&mut args, String::from_str("-DCMAKE_C_FLAGS=/EHsc"));
        push_arg(&mut args, String::from_str("-DCMAKE_CXX_FLAGS=/EHsc"));
    }
    proof {
        assert(args.deep_view() =~~= configure_args_spec(c@, src_dir@, build_dir@, install_dir@));
    }
    let mut env: Vec<(String, String)> = Vec::new();
    if is_msvc_exec(c) && c.ninja_present {
        env.push((String::from_str("CMAKE_GENERATOR"), String::from_str("Ninja")));
    }
    proof {
        assert(env.deep_view() =~~= generator_env_spec(c@));
    }
    let configure = CommandSpec {
        program: String::from_str("cmake"),
        args,
        current_dir: None,
        env,
    };
    let mut bargs: Vec<String> = Vec::new();
    push_arg(&mut bargs, String::from_str("--build"));
    push_arg(&mut bargs, build_dir.to_owned());
    push_arg(&mut bargs, String::from_str("--config"));
    push_arg(&mut bargs, String::from_str("Release"));
    push_arg(&mut bargs, String::from_str("--target"));
    push_arg(&mut bargs, String::from_str("install"));
    push_arg(&mut bargs, String::from_str("--parallel"));
    push_arg(&mut bargs, u64_to_dec(c.jobs));
    proof {
        assert(bargs.deep_view() =~~= build_args_spec(c@, build_dir@));
    }
    let benv: Vec<(String, String)> = Vec::new();
    proof {
        assert(benv.deep_view() =~~= Seq::<(Seq<char>, Seq<char>)>::empty());
    }
    let build = CommandSpec {
        program: String::from_str("cmake"),
        args: bargs,
        current_dir: None,
        env: benv,
    };
    let mut v: Vec<CommandSpec> = Vec::new();
    v.push(configure);
    v.push(build);
    proof {
        assert(v.deep_view() =~~= source_build_plan_spec(c@, src_dir@, build_dir@, install_dir@));
    }
    Ok(v)
}

/// How an attempt to run an external command ended, as the runner saw it.
#[derive(Clone, Debug, PartialEq, Eq)]
pub enum RunOutcome {
    /// The operating system could not locate the executable.
    NotFound,
    /// The process could not be started for another reason.
    SpawnFailed,
    /// The process ran to an exit status.
    Exited { success: bool, code: Option<i32> },
}

/// Classifies a finished external command: success passes, a missing
/// executable names the tool so the message can suggest installing it,
/// any other failure is fatal with the exit code where one exists.
pub fn command_outcome(outcome: &RunOutcome, program: &str) -> (r: Result<(), BuildError>)
    ensures
        match r {
            Ok(()) => outcome matches RunOutcome::Exited { success: true, .. },
            Err(e) => match outcome {
                RunOutcome::NotFound => e matches BuildError::ToolNotFound(p) && p@ == program@,
                RunOutcome::SpawnFailed => e == BuildError::ToolExecution(None::<i32>),
                RunOutcome::Exited { success, code } => *success == false && e
                    == BuildError::ToolExecution(*code),
            },
        },
{
    match outcome {
        RunOutcome::NotFound => Err(BuildError::ToolNotFound(program.to_owned())),
        RunOutcome::SpawnFailed => Err(BuildError::ToolExecution(None)),
        RunOutcome::Exited { success, code } => {
            if *success {
                Ok(())
            } else {
                Err(BuildError::ToolExecution(*code))
            }
        },
    }
}

/// Whether a file name is the produced library, under the platform's
/// convention: the fixed name `libassimp.a` on Unix-like systems, any
/// versioned `assimp*.lib` on Windows (the suffix varies, so the install
/// directory is scanned for the prefix).
pub open spec fn built_lib_matches(f: Seq<char>, c: BuildConfigView) -> bool {
    if os_kind_of(c.target.os, c.target.abi) is Windows {
        crate::strutil::matches_at(f, 0, "assimp"@) && crate::strutil::ends_with(f, ".lib"@)
    } else {
        f == crate::libname::static_lib_filename_spec("assimp"@, crate::libname::OsFamily::Unix)
    }
}

/// The first produced-library file among the install directory's files.
pub open spec fn first_built_lib(files: Seq<Seq<char>>, c: BuildConfigView) -> Option<Seq<char>>
    decreases files.len(),
{
    if files.len() == 0 {
        None
    } else if built_lib_matches(files[0], c) {
        Some(files[0])
    } else {
        first_built_lib(files.drop_first(), c)
    }
}

/// Checks one file name against the platform's library-name convention.
pub fn built_lib_check(f: &str, c: &BuildConfig) -> (r: bool)
    ensures
        r == built_lib_matches(f@, c@),
{
    if matches!(os_kind(c.target.os.as_str(), &c.target.abi), OsKind::Windows) {
        crate::strutil::match_lit(f, 0, "assimp") && crate::strutil::str_ends_with(f, ".lib")
    } else {
        let expected = crate::libname::static_lib_filename("assimp", crate::libname::OsFamily::Unix);
        str_eq(f, expected.as_str())
    }
}

/// Locates the produced library among the files of the install library
/// directory, as reported after the build commands succeeded. An absent
/// file after a reportedly successful build is fatal.
pub fn locate_built_library(files: &Vec<String>, c: &BuildConfig) -> (r: Result<String, BuildError>)
    ensures
        match r {
            Ok(f) => first_built_lib(files.deep_view(), c@) == Some(f@),
            Err(e) => first_built_lib(files.deep_view(), c@) is None && e matches
                BuildError::UnexpectedBuildLayout(_),
        },
{
    let n = files.len();
    let mut i: usize = 0;
    proof {
        assert(files.deep_view().skip(0) =~= files.deep_view());
    }
    while i < n
        invariant
            i <= n,
            n == files.len(),
            first_built_lib(files.deep_view(), c@) == first_built_lib(
                files.deep_view().skip(i as int),
                c@,
            ),
        decreases n - i,
    {
        proof {
            assert(files.deep_view().skip(i as int)[0] == files.deep_view()[i as int]);
        }
        if built_lib_check(files[i].as_str(), c) {
            return Ok(files[i].clone());
        }
        proof {
            assert(files.deep_view().skip(i as int).drop_first() =~= files.deep_view().skip(
                i + 1,
            ));
        }
        i = i + 1;
    }
    proof {
        assert(files.deep_view().skip(n as int) =~= Seq::<Seq<char>>::empty());
    }
    Err(BuildError::UnexpectedBuildLayout(String::from_str("assimp library file")))
}

/// The mathematical form of one directive to the consuming build.
pub enum DirectiveView {
    Search(Seq<char>),
    Lib(LinkKind, Seq<char>),
}

/// One directive to the consuming build: a native linker search path, or
/// a library to link with its kind.
#[derive(Clone, Debug, PartialEq, Eq)]
pub enum Directive {
    Search(String),
    Lib(LinkKind, String),
}

impl View for Directive {
    type V = DirectiveView;

    open spec fn view(&self) -> DirectiveView {
        match self {
            Directive::Search(p) => DirectiveView::Search(p@),
            Directive::Lib(k, n) => DirectiveView::Lib(*k, n@),
        }
    }
}

impl DeepView for Directive {
    type V = DirectiveView;

    open spec fn deep_view(&self) -> DirectiveView {
        self.view()
    }
}

/// The directives of a finished acquisition: one search path for the
/// resolved library directory, then one link directive per library, in
/// the libraries' order.
pub open spec fn directives_spec(search_dir: Seq<char>, libs: Seq<LibraryView>) -> Seq<
    DirectiveView,
> {
    seq![DirectiveView::Search(search_dir)] + Seq::new(
        libs.len(),
        |i: int| DirectiveView::Lib(libs[i].kind, libs[i].name),
    )
}

/// Emits the directives of a finished acquisition.
#[verifier::loop_isolation(false)]
pub fn link_directives(search_dir: &String, libs: &Vec<Library>) -> (r: Vec<Directive>)
    ensures
        r.deep_view() == directives_spec(search_dir@, libs.deep_view()),
{
    let mut r: Vec<Directive> = Vec::new();
    r.push(Directive::Search(search_dir.clone()));
    let n = libs.len();
    let mut i: usize = 0;
    while i < n
        invariant
            i <= n,
            n == libs.len(),
            r.deep_view() == directives_spec(search_dir@, libs.deep_view()).take(1 + i as int),
        decreases n - i,
    {
        r.push(Directive::Lib(libs[i].kind, libs[i].name.clone()));
        proof {
            let ds = directives_spec(search_dir@, libs.deep_view());
            assert(ds.len() == 1 + libs.deep_view().len());
            assert(ds[1 + i as int] == DirectiveView::Lib(
                libs.deep_view()[i as int].kind,
                libs.deep_view()[i as int].name,
            ));
            assert(r.deep_view()[1 + i as int] == ds[1 + i as int]);
            assert(r.deep_view() =~~= ds.take(1 + (i + 1)));
        }
        i = i + 1;
    }
    proof {
        assert(directives_spec(search_dir@, libs.deep_view()).take(1 + n as int)
            =~= directives_spec(search_dir@, libs.deep_view()));
    }
    r
}

/// How many of the directives are linker search paths.
pub open spec fn search_count(ds: Seq<DirectiveView>) -> int
    decreases ds.len(),
{
    if ds.len() == 0 {
        0
    } else {
        (if ds[0] is Search {
            1int
        } else {
            0int
        }) + search_count(ds.drop_first())
    }
}

/// Law (single search path): the directives of one acquisition carry
/// exactly one linker search path — no second strategy's install
/// directory ever appears — and one link directive per library.
pub proof fn lemma_directives_shape(search_dir: Seq<char>, libs: Seq<LibraryView>)
    ensures
        search_count(directives_spec(search_dir, libs)) == 1,
        directives_spec(search_dir, libs).len() == 1 + libs.len(),
        forall|i: int|
            0 <= i < libs.len() ==> directives_spec(search_dir, libs)[1 + i]
                == DirectiveView::Lib(libs[i].kind, libs[i].name),
{
    let ds = directives_spec(search_dir, libs);
    let tail = Seq::new(libs.len(), |i: int| DirectiveView::Lib(libs[i].kind, libs[i].name));
    assert(ds.drop_first() =~= tail);
    lemma_search_count_all_libs(tail);
}

/// A run of link directives alone holds no search path.
proof fn lemma_search_count_all_libs(ds: Seq<DirectiveView>)
    requires
        forall|i: int| 0 <= i < ds.len() ==> (#[trigger] ds[i]) is Lib,
    ensures
        search_count(ds) == 0,
    decreases ds.len(),
{
    if ds.len() > 0 {
        assert(forall|i: int|
            0 <= i < ds.drop_first().len() ==> (#[trigger] ds.drop_first()[i]) == ds[i + 1]);
        lemma_search_count_all_libs(ds.drop_first());
    }
}

/// The text of one directive, as the consuming build reads it.
pub open spec fn directive_line_spec(d: DirectiveView) -> Seq<char> {
    match d {
        DirectiveView::Search(p) => "cargo:rustc-link-search=native="@ + p,
        DirectiveView::Lib(LinkKind::Static, n) => "cargo:rustc-link-lib=static="@ + n,
        DirectiveView::Lib(LinkKind::Dynamic, n) => "cargo:rustc-link-lib=dylib="@ + n,
    }
}

/// Renders one directive as its build-script line.
pub fn directive_line(d: &Directive) -> (r: String)
    ensures
        r@ == directive_line_spec(d@),
{
    match d {
        Directive::Search(p) => {
            let mut r = String::from_str("cargo:rustc-link-search=native=");
            r.append(p.as_str());
            proof {
                assert(r@ =~= directive_line_spec(d@));
            }
            r
        },
        Directive::Lib(LinkKind::Static, n) => {
            let mut r = String::from_str("cargo:rustc-link-lib=static=");
            r.append(n.as_str());
            proof {
                assert(r@ =~= directive_line_spec(d@));
            }
            r
        },
        Directive::Lib(LinkKind::Dynamic, n) => {
            let mut r = String::from_str("cargo:rustc-link-lib=dylib=");
            r.append(n.as_str());
            proof {
                assert(r@ =~= directive_line_spec(d@));
            }
            r
        },
    }
}

/// Where the wrapped library's source tree comes from.
#[derive(Clone, Debug, PartialEq, Eq)]
pub enum SourceAcquisition {
    /// Use this directory as the checked-out tree.
    UseDirectory(String),
    /// Clone this repository into this directory first.
    CloneInto { url: String, dir: String },
}

/// Decides where the source tree comes from: an override directory when
/// the environment names one, the checked-out tree when it is present,
/// else a fresh clone of the upstream repository.
pub fn plan_source_checkout(
    override_dir: &Option<String>,
    default_dir: &str,
    default_present: bool,
    repo_url: &str,
) -> (r: SourceAcquisition)
    ensures
        match r {
            SourceAcquisition::UseDirectory(d) => (override_dir matches Some(o) && d@ == o@) || (
                override_dir is None && default_present && d@ == default_dir@),
            SourceAcquisition::CloneInto { url, dir } => override_dir is None && !default_present
                && url@ == repo_url@ && dir@ == default_dir@,
        },
        override_dir is Some ==> (r matches SourceAcquisition::UseDirectory(d) && d@
            == override_dir->0@),
        (override_dir is None && !default_present) ==> r is CloneInto,
{
    match override_dir {
        Some(o) => SourceAcquisition::UseDirectory(o.clone()),
        None => {
            if default_present {
                SourceAcquisition::UseDirectory(default_dir.to_owned())
            } else {
                SourceAcquisition::CloneInto {
                    url: repo_url.to_owned(),
                    dir: default_dir.to_owned(),
                }
            }
        },
    }
}

/// The allow-list handed to the header-to-binding generator: the
/// prefix-style patterns of the types, functions and constants whose
/// bindings are wanted, and nothing else.
pub open spec fn binding_allowlist_spec() -> Seq<Seq<char>> {
    seq!["ai.*"@, "AI_.*"@]
}

/// Lists the symbol-name patterns the binding generator is restricted to.
pub fn binding_allowlist() -> (r: Vec<String>)
    ensures
        r.deep_view() == binding_allowlist_spec(),
{
    let mut r: Vec<String> = Vec::new();
    r.push(String::from_str("ai.*"));
    r.push(String::from_str("AI_.*"));
    proof {
        assert(r.deep_view() =~~= binding_allowlist_spec());
    }
    r
}

/// The hand-authored conventional install locations per platform, used
/// when no package search answers: the Homebrew library paths on macOS,
/// by architecture; nothing elsewhere.
pub open spec fn conventional_search_dirs_spec(c: BuildConfigView) -> Seq<Seq<char>> {
    if os_kind_of(c.target.os, c.target.abi) is MacOs {
        if c.target.arch == "aarch64"@ {
            seq!["/opt/homebrew/lib/"@]
        } else if c.target.arch == "x86_64"@ {
            seq!["/opt/brew/lib/"@]
        } else {
            Seq::<Seq<char>>::empty()
        }
    } else {
        Seq::<Seq<char>>::empty()
    }
}

/// Lists the conventional install locations for the configured target.
pub fn conventional_search_dirs(c: &BuildConfig) -> (r: Vec<String>)
    ensures
        r.deep_view() == conventional_search_dirs_spec(c@),
{
    let mut r: Vec<String> = Vec::new();
    if matches!(os_kind(c.target.os.as_str(), &c.target.abi), OsKind::MacOs) {
        if str_eq(c.target.arch.as_str(), "aarch64") {
            r.push(String::from_str("/opt/homebrew/lib/"));
        } else if str_eq(c.target.arch.as_str(), "x86_64") {
            r.push(String::from_str("/opt/brew/lib/"));
        }
    }
    proof {
        assert(r.deep_view() =~~= conventional_search_dirs_spec(c@));
    }
    r
}

/// A freshly packaged archive goes to the local cache only when a cache
/// directory is configured and the artifacts were just built from source.
pub open spec fn should_package_spec(c: BuildConfigView, cache_dir_configured: bool) -> bool {
    cache_dir_configured && select_strategy_spec(c) is SourceBuild
}

/// Decides whether to write the packaged archive into the local cache.
pub fn should_package(c: &BuildConfig, cache_dir_configured: bool) -> (r: bool)
    ensures
        r == should_package_spec(c@, cache_dir_configured),
{
    cache_dir_configured && c.build_from_source
}

/// The work of the one selected strategy, fixed before anything runs.
pub enum StrategyPlan {
    /// Run these external commands, then collect the install directory.
    SourceBuild { commands: Vec<CommandSpec> },
    /// Use this cache file, fetching it from this URL where it is absent.
    Prebuilt { file_name: String, url: String },
    /// Link against a system-installed copy, searching these fallback
    /// directories where no package search answers.
    System { search_dirs: Vec<String> },
}

/// The family name that keys cache files and release assets.
pub open spec fn artifact_name() -> Seq<char> {
    "russimp"@
}

/// The cache file name the configuration asks for.
pub open spec fn config_archive_name(c: BuildConfigView) -> Seq<char> {
    crate::fetch::archive_file_name_spec(
        artifact_name(),
        c.version,
        crate::target::triple_str(c.target),
        linkage_label(c),
    )
}

/// Plans the whole acquisition: selects the strategy once and fixes its
/// work. The rejected Windows+GNU combination fails here, before any
/// subprocess or network access, whatever the strategy. There is no
/// fallback between strategies: the returned plan is all that will run.
pub fn plan_build(
    c: &BuildConfig,
    src_dir: &str,
    build_dir: &str,
    install_dir: &str,
    base_url: &str,
) -> (r: Result<StrategyPlan, BuildError>)
    ensures
        match r {
            Ok(p) => !windows_gnu(c@) && match p {
                StrategyPlan::SourceBuild { commands } => select_strategy_spec(c@)
                    is SourceBuild && commands.deep_view() == source_build_plan_spec(
                    c@,
                    src_dir@,
                    build_dir@,
                    install_dir@,
                ),
                StrategyPlan::Prebuilt { file_name, url } => select_strategy_spec(c@)
                    is PrebuiltCache && file_name@ == config_archive_name(c@) && url@
                    == crate::fetch::download_url_spec(base_url@, c@.version, file_name@),
                StrategyPlan::System { search_dirs } => select_strategy_spec(c@)
                    is SystemDynamicLink && search_dirs.deep_view()
                    == conventional_search_dirs_spec(c@),
            },
            Err(e) => windows_gnu(c@) && e == BuildError::UnsupportedConfiguration,
        },
{
    if is_windows_gnu(c) {
        return Err(BuildError::UnsupportedConfiguration);
    }
    match select_strategy(c) {
        Strategy::SourceBuild => {
            let commands = match source_build_plan(c, src_dir, build_dir, install_dir) {
                Ok(v) => v,
                Err(e) => {
                    proof {
                        assert(false);
                    }
                    return Err(e);
                },
            };
            Ok(StrategyPlan::SourceBuild { commands })
        },
        Strategy::PrebuiltCache => {
            let triple = c.target.to_string();
            let label = linkage_label_exec(c);
            let file_name = crate::fetch::archive_file_name(
                "russimp",
                c.version.as_str(),
                triple.as_str(),
                label.as_str(),
            );
            let url = crate::fetch::download_url(base_url, c.version.as_str(), file_name.as_str());
            proof {
                reveal_strlit("russimp");
            }
            Ok(StrategyPlan::Prebuilt { file_name, url })
        },
        Strategy::SystemDynamicLink => {
            Ok(StrategyPlan::System { search_dirs: conventional_search_dirs(c) })
        },
    }
}

} // verus!
