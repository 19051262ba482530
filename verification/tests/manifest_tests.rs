use russimp_build::manifest::Manifest;

fn sample() -> Manifest {
    Manifest {
        link_search_dir: String::from("lib"),
        license_path: String::from("LICENSE"),
        link_libs: vec![String::from("assimp"), String::from("zlibstatic")],
        bindings_path: String::from("bindings.rs"),
        target: String::from("x86_64-unknown-linux-gnu"),
    }
}

#[test]
fn encode_exact_json() {
    let m = sample();
    assert_eq!(
        m.encode(),
        "{\"link_search_dir\":\"lib\",\"assimp_license\":\"LICENSE\",\
         \"link_libs\":[\"assimp\",\"zlibstatic\"],\"bindings_rs\":\"bindings.rs\",\
         \"target\":\"x86_64-unknown-linux-gnu\"}"
    );
}

#[test]
fn encode_empty_libs() {
    let mut m = sample();
    m.link_libs = Vec::new();
    assert_eq!(
        m.encode(),
        "{\"link_search_dir\":\"lib\",\"assimp_license\":\"LICENSE\",\
         \"link_libs\":[],\"bindings_rs\":\"bindings.rs\",\
         \"target\":\"x86_64-unknown-linux-gnu\"}"
    );
}

#[test]
fn decode_round_trip() {
    let m = sample();
    let decoded = Manifest::decode(m.encode().as_str()).unwrap();
    assert_eq!(decoded, m);
}

#[test]
fn decode_round_trip_single_lib() {
    let mut m = sample();
    m.link_libs = vec![String::from("assimp")];
    let decoded = Manifest::decode(m.encode().as_str()).unwrap();
    assert_eq!(decoded, m);
}

#[test]
fn decode_rejects_garbage() {
    assert!(Manifest::decode("").is_none());
    assert!(Manifest::decode("{}").is_none());
    assert!(Manifest::decode("{\"link_search_dir\":\"lib\"}").is_none());
    // trailing text after the object is refused
    let mut s = sample().encode();
    s.push_str(" ");
    assert!(Manifest::decode(s.as_str()).is_none());
}

#[test]
fn is_wf_accepts_clean_and_rejects_quotes() {
    assert!(sample().is_wf());
    let mut m = sample();
    m.target = String::from("x86\"64");
    assert!(!m.is_wf());
    let mut m2 = sample();
    m2.link_libs.push(String::from("back\\slash"));
    assert!(!m2.is_wf());
}

#[test]
fn resolve_under_makes_paths_absolute() {
    let m = sample();
    let r = m.resolve_under("/tmp/unpacked");
    assert_eq!(r.link_search_dir, "/tmp/unpacked/lib");
    assert_eq!(r.license_path, "/tmp/unpacked/LICENSE");
    assert_eq!(r.bindings_path, "/tmp/unpacked/bindings.rs");
    assert_eq!(r.link_libs, m.link_libs);
    assert_eq!(r.target, m.target);
}
