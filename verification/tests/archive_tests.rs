use russimp_build::archive::{pack_archive, unpack_archive};
use russimp_build::error::BuildError;
use russimp_build::manifest::Manifest;
use std::io::Write;

fn resolved_manifest(libs: &[&str]) -> Manifest {
    Manifest {
        link_search_dir: String::from("/build/out/static/lib"),
        license_path: String::from("/src/LICENSE"),
        link_libs: libs.iter().map(|s| String::from(*s)).collect(),
        bindings_path: String::from("/build/out/bindings.rs"),
        target: String::from("x86_64-unknown-linux-gnu"),
    }
}

#[test]
fn pack_unpack_preserves_libs_and_order() {
    // packaging and unpacking keeps every library's bytes and the
    // link_libs ordering; only path absoluteness differs
    let m = resolved_manifest(&["foo", "bar"]);
    let libs_data = vec![vec![1u8, 2, 3, 255], vec![9u8, 8]];
    let license = b"MIT-ish text".to_vec();
    let bindings = b"pub struct AiScene;".to_vec();
    let bytes = pack_archive(&m, &libs_data, &license, &bindings, 1_700_000_000);
    let u = unpack_archive(&bytes, "/dest").unwrap();
    assert_eq!(u.lib_data, libs_data);
    assert_eq!(u.license_data, license);
    assert_eq!(u.bindings_data, bindings);
    assert_eq!(u.manifest.link_libs, vec!["foo".to_string(), "bar".to_string()]);
    assert_eq!(u.manifest.link_search_dir, "/dest/lib");
    assert_eq!(u.manifest.license_path, "/dest/LICENSE");
    assert_eq!(u.manifest.bindings_path, "/dest/bindings.rs");
    assert_eq!(u.manifest.target, "x86_64-unknown-linux-gnu");
}

#[test]
fn packed_entries_use_platform_file_names() {
    // lib/libfoo.a and lib/libbar.a exist for a Unix target, LICENSE and
    // the manifest beside them; looking them up is what unpack does, so a
    // successful unpack of each piece is the witness
    let m = resolved_manifest(&["foo", "bar"]);
    let libs_data = vec![b"foo!".to_vec(), b"bar!".to_vec()];
    let bytes = pack_archive(&m, &libs_data, &b"L".to_vec(), &b"B".to_vec(), 0);
    let u = unpack_archive(&bytes, "/x").unwrap();
    assert_eq!(u.lib_data[0], b"foo!".to_vec());
    assert_eq!(u.lib_data[1], b"bar!".to_vec());
}

#[test]
fn pack_unpack_windows_target() {
    let mut m = resolved_manifest(&["assimp"]);
    m.target = String::from("x86_64-pc-windows-msvc");
    let libs_data = vec![vec![7u8; 600]];
    let bytes = pack_archive(&m, &libs_data, &b"lic".to_vec(), &b"bnd".to_vec(), 42);
    let u = unpack_archive(&bytes, "/w").unwrap();
    assert_eq!(u.lib_data, libs_data);
    assert_eq!(u.manifest.target, "x86_64-pc-windows-msvc");
}

#[test]
fn mtime_does_not_change_contents() {
    let m = resolved_manifest(&["foo"]);
    let libs_data = vec![vec![4u8, 5]];
    let a = pack_archive(&m, &libs_data, &b"L".to_vec(), &b"B".to_vec(), 1);
    let b = pack_archive(&m, &libs_data, &b"L".to_vec(), &b"B".to_vec(), 2_000_000);
    let ua = unpack_archive(&a, "/d").unwrap();
    let ub = unpack_archive(&b, "/d").unwrap();
    assert_eq!(ua.manifest, ub.manifest);
    assert_eq!(ua.lib_data, ub.lib_data);
}

#[test]
fn unpack_rejects_not_gzip() {
    let r = unpack_archive(&b"this is not a gzip stream".to_vec(), "/d");
    assert!(matches!(r, Err(BuildError::UnexpectedBuildLayout(_))));
}

#[test]
fn unpack_rejects_gzip_of_garbage() {
    // a valid gzip stream whose contents are not a tar archive with a
    // manifest entry
    let mut enc =
        flate2::write::GzEncoder::new(Vec::new(), flate2::Compression::default());
    enc.write_all(b"plain text, no tar here").unwrap();
    let bytes = enc.finish().unwrap();
    let r = unpack_archive(&bytes, "/d");
    assert!(matches!(r, Err(BuildError::UnexpectedBuildLayout(_))));
}

#[test]
fn archive_is_real_gzip_tar() {
    // read the packed archive back with the outside crates directly: the
    // entry names are the archive format's, in packing order
    let m = resolved_manifest(&["foo"]);
    let bytes = pack_archive(
        &m,
        &vec![b"data".to_vec()],
        &b"lic".to_vec(),
        &b"bnd".to_vec(),
        123,
    );
    let dec = flate2::read::GzDecoder::new(&bytes[..]);
    let mut ar = tar::Archive::new(dec);
    let names: Vec<String> = ar
        .entries()
        .unwrap()
        .map(|e| e.unwrap().path().unwrap().to_str().unwrap().to_string())
        .collect();
    assert_eq!(
        names,
        vec![
            "bindings.rs".to_string(),
            "LICENSE".to_string(),
            "lib/libfoo.a".to_string(),
            "metadata.json".to_string(),
        ]
    );
}
