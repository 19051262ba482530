use russimp_build::archive::{pack_archive, unpack_archive};
use russimp_build::error::BuildError;
use russimp_build::fetch::{plan_fetch, FetchAction};
use russimp_build::libname::{static_lib_filename, Library, LinkKind, OsFamily};
use russimp_build::manifest::Manifest;
use russimp_build::orchestrator::{
    binding_allowlist, command_outcome, conventional_search_dirs, directive_line, lib_names,
    link_directives, locate_built_library, package_linkage, plan_build, plan_source_checkout,
    select_strategy, should_package, source_build_plan, BuildConfig, Directive, RunOutcome,
    SourceAcquisition, Strategy, StrategyPlan,
};
use russimp_build::target::TargetTriple;

fn config(triple: &str) -> BuildConfig {
    BuildConfig {
        build_from_source: false,
        prebuilt: false,
        static_link: true,
        build_zlib: true,
        target: TargetTriple::parse(triple).unwrap(),
        version: String::from("1.2.3"),
        jobs: 8,
        ninja_present: false,
    }
}

#[test]
fn strategy_selection_is_exclusive() {
    let mut c = config("x86_64-unknown-linux-gnu");
    c.build_from_source = true;
    c.prebuilt = true;
    assert_eq!(select_strategy(&c), Strategy::SourceBuild);
    c.build_from_source = false;
    assert_eq!(select_strategy(&c), Strategy::PrebuiltCache);
    c.prebuilt = false;
    assert_eq!(select_strategy(&c), Strategy::SystemDynamicLink);
}

#[test]
fn windows_gnu_is_rejected_before_any_subprocess() {
    let mut c = config("x86_64-pc-windows-gnu");
    c.build_from_source = true;
    assert_eq!(lib_names(&c), Err(BuildError::UnsupportedConfiguration));
    assert_eq!(
        source_build_plan(&c, "assimp", "build", "out/static"),
        Err(BuildError::UnsupportedConfiguration)
    );
    assert!(matches!(
        plan_build(&c, "assimp", "build", "out/static", "https://example.com/dl"),
        Err(BuildError::UnsupportedConfiguration)
    ));
}

#[test]
fn windows_msvc_is_accepted() {
    let mut c = config("x86_64-pc-windows-msvc");
    c.build_from_source = true;
    assert!(lib_names(&c).is_ok());
}

#[test]
fn lib_names_linux_static_with_bundled_zlib() {
    let mut c = config("x86_64-unknown-linux-gnu");
    c.build_from_source = true;
    let v = lib_names(&c).unwrap();
    assert_eq!(
        v,
        vec![
            Library { name: "assimp".to_string(), kind: LinkKind::Static },
            Library { name: "zlibstatic".to_string(), kind: LinkKind::Static },
            Library { name: "stdc++".to_string(), kind: LinkKind::Dynamic },
        ]
    );
}

#[test]
fn lib_names_macos_dynamic_system_zlib() {
    let mut c = config("aarch64-apple-darwin");
    c.static_link = false;
    let v = lib_names(&c).unwrap();
    assert_eq!(
        v,
        vec![
            Library { name: "assimp".to_string(), kind: LinkKind::Dynamic },
            Library { name: "z".to_string(), kind: LinkKind::Dynamic },
            Library { name: "c++".to_string(), kind: LinkKind::Dynamic },
        ]
    );
}

#[test]
fn source_build_plan_exact_commands() {
    let mut c = config("x86_64-unknown-linux-gnu");
    c.build_from_source = true;
    let v = source_build_plan(&c, "assimp", "build", "out/static").unwrap();
    assert_eq!(v.len(), 2);
    assert_eq!(v[0].program, "cmake");
    assert_eq!(
        v[0].args,
        vec![
            "-S",
            "assimp",
            "-B",
            "build",
            "-DCMAKE_BUILD_TYPE=Release",
            "-DBUILD_SHARED_LIBS=OFF",
            "-DASSIMP_BUILD_ASSIMP_TOOLS=OFF",
            "-DASSIMP_BUILD_TESTS=OFF",
            "-DASSIMP_BUILD_ZLIB=ON",
            "-DLIBRARY_SUFFIX=",
            "-DCMAKE_INSTALL_PREFIX=out/static",
        ]
    );
    assert_eq!(v[1].program, "cmake");
    assert_eq!(
        v[1].args,
        vec!["--build", "build", "--config", "Release", "--target", "install", "--parallel", "8"]
    );
}

#[test]
fn msvc_adds_exception_flags() {
    let mut c = config("x86_64-pc-windows-msvc");
    c.build_from_source = true;
    c.static_link = false;
    let v = source_build_plan(&c, "assimp", "build", "out/dylib").unwrap();
    let args = &v[0].args;
    assert!(args.contains(&"-DCMAKE_C_FLAGS=/EHsc".to_string()));
    assert!(args.contains(&"-DCMAKE_CXX_FLAGS=/EHsc".to_string()));
    assert!(args.contains(&"-DBUILD_SHARED_LIBS=ON".to_string()));
    assert!(v[0].env.is_empty());
}

#[test]
fn msvc_with_ninja_selects_the_generator() {
    let mut c = config("x86_64-pc-windows-msvc");
    c.build_from_source = true;
    c.ninja_present = true;
    let v = source_build_plan(&c, "assimp", "build", "out/static").unwrap();
    assert_eq!(
        v[0].env,
        vec![("CMAKE_GENERATOR".to_string(), "Ninja".to_string())]
    );
    assert!(v[1].env.is_empty());
    // a non-MSVC target never selects it, found or not
    let mut lin = config("x86_64-unknown-linux-gnu");
    lin.build_from_source = true;
    lin.ninja_present = true;
    let lv = source_build_plan(&lin, "assimp", "build", "out/static").unwrap();
    assert!(lv[0].env.is_empty());
}

#[test]
fn source_checkout_decision() {
    let over = Some("/custom/assimp".to_string());
    assert_eq!(
        plan_source_checkout(&over, "assimp", false, "https://example.com/assimp.git"),
        SourceAcquisition::UseDirectory("/custom/assimp".to_string())
    );
    assert_eq!(
        plan_source_checkout(&None, "assimp", true, "https://example.com/assimp.git"),
        SourceAcquisition::UseDirectory("assimp".to_string())
    );
    assert_eq!(
        plan_source_checkout(&None, "assimp", false, "https://example.com/assimp.git"),
        SourceAcquisition::CloneInto {
            url: "https://example.com/assimp.git".to_string(),
            dir: "assimp".to_string()
        }
    );
}

#[test]
fn command_outcome_classifies() {
    assert_eq!(
        command_outcome(&RunOutcome::Exited { success: true, code: Some(0) }, "cmake"),
        Ok(())
    );
    assert_eq!(
        command_outcome(&RunOutcome::Exited { success: false, code: Some(2) }, "cmake"),
        Err(BuildError::ToolExecution(Some(2)))
    );
    assert_eq!(
        command_outcome(&RunOutcome::NotFound, "cmake"),
        Err(BuildError::ToolNotFound("cmake".to_string()))
    );
    assert_eq!(
        command_outcome(&RunOutcome::SpawnFailed, "cmake"),
        Err(BuildError::ToolExecution(None))
    );
}

#[test]
fn locate_built_library_unix_fixed_name() {
    let c = config("x86_64-unknown-linux-gnu");
    let files = vec!["libz.a".to_string(), "libassimp.a".to_string()];
    assert_eq!(locate_built_library(&files, &c), Ok("libassimp.a".to_string()));
    let missing = vec!["libz.a".to_string()];
    assert!(matches!(
        locate_built_library(&missing, &c),
        Err(BuildError::UnexpectedBuildLayout(_))
    ));
}

#[test]
fn locate_built_library_windows_versioned_prefix() {
    let c = config("x86_64-pc-windows-msvc");
    let files = vec!["zlibstatic.lib".to_string(), "assimp-vc143-mt.lib".to_string()];
    assert_eq!(locate_built_library(&files, &c), Ok("assimp-vc143-mt.lib".to_string()));
}

#[test]
fn static_lib_filename_conventions() {
    assert_eq!(static_lib_filename("assimp", OsFamily::Unix), "libassimp.a");
    assert_eq!(static_lib_filename("assimp", OsFamily::Windows), "assimp.lib");
}

#[test]
fn directive_lines_exact() {
    assert_eq!(
        directive_line(&Directive::Search("/d/lib".to_string())),
        "cargo:rustc-link-search=native=/d/lib"
    );
    assert_eq!(
        directive_line(&Directive::Lib(LinkKind::Static, "assimp".to_string())),
        "cargo:rustc-link-lib=static=assimp"
    );
    assert_eq!(
        directive_line(&Directive::Lib(LinkKind::Dynamic, "stdc++".to_string())),
        "cargo:rustc-link-lib=dylib=stdc++"
    );
}

#[test]
fn should_package_only_after_source_build() {
    let mut c = config("x86_64-unknown-linux-gnu");
    c.build_from_source = true;
    assert!(should_package(&c, true));
    assert!(!should_package(&c, false));
    c.build_from_source = false;
    c.prebuilt = true;
    assert!(!should_package(&c, true));
}

#[test]
fn package_linkage_requires_a_capability() {
    let mut c = config("x86_64-unknown-linux-gnu");
    c.static_link = true;
    assert_eq!(package_linkage(&c), Ok("static".to_string()));
    c.static_link = false;
    c.build_from_source = true;
    assert_eq!(package_linkage(&c), Ok("dylib".to_string()));
    c.build_from_source = false;
    assert_eq!(package_linkage(&c), Err(BuildError::UnsupportedConfiguration));
}

#[test]
fn binding_allowlist_patterns() {
    assert_eq!(binding_allowlist(), vec!["ai.*".to_string(), "AI_.*".to_string()]);
}

#[test]
fn conventional_dirs_macos_by_arch() {
    let c = config("aarch64-apple-darwin");
    assert_eq!(conventional_search_dirs(&c), vec!["/opt/homebrew/lib/".to_string()]);
    let c2 = config("x86_64-apple-darwin");
    assert_eq!(conventional_search_dirs(&c2), vec!["/opt/brew/lib/".to_string()]);
    let c3 = config("x86_64-unknown-linux-gnu");
    assert_eq!(conventional_search_dirs(&c3), Vec::<String>::new());
}

#[test]
fn prebuilt_end_to_end() {
    // a configuration selecting the prebuilt cache, an empty local cache
    // and a mock endpoint serving a valid archive: the pipeline plans the
    // download, unpacks to a resolved manifest whose search directory is
    // the unpacked lib/, and emits one search directive plus one link
    // directive per manifest library
    let mut c = config("x86_64-unknown-linux-gnu");
    c.prebuilt = true;
    let plan = plan_build(&c, "assimp", "build", "out/static", "https://example.com/dl").unwrap();
    let (file_name, url) = match plan {
        StrategyPlan::Prebuilt { file_name, url } => (file_name, url),
        _ => panic!("expected the prebuilt strategy"),
    };
    assert_eq!(file_name, "russimp-1.2.3-x86_64-unknown-linux-gnu-static.tar.gz");
    assert_eq!(
        url,
        "https://example.com/dl/v1.2.3/russimp-1.2.3-x86_64-unknown-linux-gnu-static.tar.gz"
    );
    // the cache lacks the file, so the fetch decides to download
    assert_eq!(plan_fetch(false), FetchAction::Download);
    // the mock endpoint's archive
    let served = pack_archive(
        &Manifest {
            link_search_dir: "/ci/out/static/lib".to_string(),
            license_path: "/ci/LICENSE".to_string(),
            link_libs: vec!["assimp".to_string(), "zlibstatic".to_string()],
            bindings_path: "/ci/bindings.rs".to_string(),
            target: "x86_64-unknown-linux-gnu".to_string(),
        },
        &vec![b"assimp bytes".to_vec(), b"zlib bytes".to_vec()],
        &b"license".to_vec(),
        &b"bindings".to_vec(),
        7,
    );
    let u = unpack_archive(&served, "/out/static").unwrap();
    assert_eq!(u.manifest.link_search_dir, "/out/static/lib");
    assert_eq!(u.lib_data[0], b"assimp bytes".to_vec());
    let libs: Vec<Library> = u
        .manifest
        .link_libs
        .iter()
        .map(|n| Library { name: n.clone(), kind: LinkKind::Static })
        .collect();
    let ds = link_directives(&u.manifest.link_search_dir, &libs);
    assert_eq!(ds.len(), 1 + u.manifest.link_libs.len());
    assert_eq!(ds[0], Directive::Search("/out/static/lib".to_string()));
    let searches = ds
        .iter()
        .filter(|d| matches!(d, Directive::Search(_)))
        .count();
    assert_eq!(searches, 1);
    assert_eq!(ds[1], Directive::Lib(LinkKind::Static, "assimp".to_string()));
    assert_eq!(ds[2], Directive::Lib(LinkKind::Static, "zlibstatic".to_string()));
}
