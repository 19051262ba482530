use russimp_build::error::BuildError;
use russimp_build::target::TargetTriple;

#[test]
fn parse_full_triple() {
    let t = TargetTriple::parse("x86_64-unknown-linux-gnu").unwrap();
    assert_eq!(t.arch, "x86_64");
    assert_eq!(t.os, "unknown-linux");
    assert_eq!(t.abi.as_deref(), Some("gnu"));
}

#[test]
fn parse_triple_without_abi() {
    let t = TargetTriple::parse("aarch64-apple-darwin").unwrap();
    assert_eq!(t.arch, "aarch64");
    assert_eq!(t.os, "apple");
    assert_eq!(t.abi.as_deref(), Some("darwin"));
}

#[test]
fn parse_two_component_triple() {
    let t = TargetTriple::parse("arm-linux").unwrap();
    assert_eq!(t.arch, "arm");
    assert_eq!(t.os, "linux");
    assert_eq!(t.abi, None);
}

#[test]
fn parse_rejects_single_component() {
    assert_eq!(TargetTriple::parse("x86_64"), Err(BuildError::MalformedTarget));
    assert_eq!(TargetTriple::parse(""), Err(BuildError::MalformedTarget));
}

#[test]
fn to_string_reconstructs_input() {
    for s in [
        "x86_64-unknown-linux-gnu",
        "aarch64-apple-darwin",
        "x86_64-pc-windows-msvc",
        "arm-linux",
    ] {
        let t = TargetTriple::parse(s).unwrap();
        assert_eq!(t.to_string(), s);
    }
}

#[test]
fn triple_round_trip() {
    // reparsing the canonical form gives the same descriptor
    for s in ["x86_64-unknown-linux-gnu", "i686-pc-windows-gnu", "a-b"] {
        let t = TargetTriple::parse(s).unwrap();
        let again = TargetTriple::parse(&t.to_string()).unwrap();
        assert_eq!(t, again);
    }
}
