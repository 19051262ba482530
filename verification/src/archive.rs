//! The archive packager and unpacker. An archive is a gzip-compressed tar
//! stream holding the generated-bindings file, the license, each static
//! library under `lib/`, and the packaged manifest as `metadata.json`. The
//! tar and gzip work is done by outside crates behind trusted wrappers;
//! everything around them — the entry list, its names, the embedded
//! manifest and the way it is read back — is verified.

use vstd::prelude::*;
use vstd::string::StrSliceExecFns;
use vstd::string::StringExecFns;

use crate::error::BuildError;
use crate::libname::{static_lib_filename, static_lib_filename_spec, OsFamily};
use crate::manifest::{
    clean_text, join_path, join_path_exec, manifest_json, parse_manifest_json, resolve_manifest,
    wf_manifest, Manifest, ManifestView,
};
use crate::strutil::{ascii_bytes_of, contains_char, lemma_ascii_concat, lemma_contains_concat,
    string_to_bytes};
use crate::target::target_os_family;
use vstd::utf8::is_ascii_chars;

verus! {

/// One entry of an archive: a root-relative name and the file's bytes.
pub struct ArchiveEntry {
    pub name: String,
    pub data: Vec<u8>,
}

impl View for ArchiveEntry {
    type V = (Seq<char>, Seq<u8>);

    open spec fn view(&self) -> (Seq<char>, Seq<u8>) {
        (self.name@, self.data@)
    }
}

impl DeepView for ArchiveEntry {
    type V = (Seq<char>, Seq<u8>);

    open spec fn deep_view(&self) -> (Seq<char>, Seq<u8>) {
        self.view()
    }
}

/// The in-progress tar stream. Verus refuses to declare the outside
/// builder type itself (its writer-trait bound), so it sits in a hidden
/// field; everything known about it is said over `tar_builder_entries`.
#[verifier::external_body]
pub struct TarWriter {
    inner: tar::Builder<Vec<u8>>,
}

/// What gzip decoding yields on the given bytes: the decompressed stream,
/// or nothing where the stream is not a well-formed gzip member.
pub uninterp spec fn gunzip_bytes_of(b: Seq<u8>) -> Option<Seq<u8>>;

/// What reading the given bytes as a tar stream yields: each entry's name
/// and contents in order, or nothing where the stream is not a well-formed
/// tar archive of named entries.
pub uninterp spec fn tar_entries_of(b: Seq<u8>) -> Option<Seq<(Seq<char>, Seq<u8>)>>;

/// What a tar archive builder holds: the entries appended so far, in order.
pub uninterp spec fn tar_builder_entries(b: TarWriter) -> Seq<(Seq<char>, Seq<u8>)>;

/// An entry name the tar format carries verbatim: short enough for the
/// classic header, ASCII, free of NUL and backslash, relative, and made of
/// plain path components (none empty, none `.` or `..`).
pub open spec fn tar_safe_name(s: Seq<char>) -> bool {
    &&& 0 < s.len() <= 100
    &&& is_ascii_chars(s)
    &&& !contains_char(s, '\\')
    &&& !contains_char(s, '\0')
    &&& s[0] != '/'
    &&& s[s.len() - 1] != '/'
    &&& tar_components_plain(s)
}

/// The piece of `s` between `i` and `j` is delimited by slashes (or the
/// string's ends) and holds none itself.
pub open spec fn slash_bounded(s: Seq<char>, i: int, j: int) -> bool {
    &&& (i == 0 || s[i - 1] == '/')
    &&& (j == s.len() || s[j] == '/')
    &&& forall|k: int| i <= k < j ==> s[k] != '/'
}

/// Every slash-delimited component is non-empty and neither `.` nor `..`.
pub open spec fn tar_components_plain(s: Seq<char>) -> bool {
    forall|i: int, j: int|
        0 <= i <= j <= s.len() && #[trigger] slash_bounded(s, i, j) ==> j - i >= 1 && s.subrange(
            i,
            j,
        ) != "."@ && s.subrange(i, j) != ".."@
}

/// Relies on `tar::Builder::new`: a fresh builder has written no entries.
#[verifier::external_body]
fn tar_builder_new() -> (b: TarWriter)
    ensures
        tar_builder_entries(b) == Seq::<(Seq<char>, Seq<u8>)>::empty(),
{
    TarWriter { inner: tar::Builder::new(Vec::new()) }
}

/// Relies on `tar::Builder::append_data`, which writes one entry with the
/// given path and contents, and on the `tar::Header` setters for the
/// synthetic metadata (a fixed mode and the caller's time stamp). A safe
/// name fits the classic header as given, and writing into a `Vec` cannot
/// fail.
#[verifier::external_body]
fn tar_builder_append(b: &mut TarWriter, name: &str, data: &Vec<u8>, mtime: u64)
    requires
        tar_safe_name(name@),
    ensures
        tar_builder_entries(*final(b)) == tar_builder_entries(*old(b)).push((name@, data@)),
{
    let mut header = tar::Header::new_gnu();
    header.set_size(data.len() as u64);
    header.set_mode(0o644);
    header.set_mtime(mtime);
    b.inner.append_data(&mut header, name, data.as_slice()).unwrap();
}

/// Relies on `tar::Builder::into_inner`, which finishes the stream; what
/// was appended is exactly what reading the stream yields.
#[verifier::external_body]
fn tar_builder_finish(b: TarWriter) -> (r: Vec<u8>)
    ensures
        tar_entries_of(r@) == Some(tar_builder_entries(b)),
{
    b.inner.into_inner().unwrap()
}

/// Relies on `tar::Archive::entries` and `tar::Entry::path_bytes`: reading
/// lists the stream's entries in order with their raw names and contents,
/// and depends on the input bytes alone.
#[verifier::external_body]
fn tar_read_entries(b: &Vec<u8>) -> (r: Option<Vec<ArchiveEntry>>)
    ensures
        match r {
            Some(v) => tar_entries_of(b@) == Some(v.deep_view()),
            None => tar_entries_of(b@) is None,
        },
{
    let mut ar = tar::Archive::new(b.as_slice());
    let entries = ar.entries().ok()?;
    let mut out: Vec<ArchiveEntry> = Vec::new();
    for ent in entries {
        let mut ent = ent.ok()?;
        let name = String::from_utf8(ent.path_bytes().into_owned()).ok()?;
        let mut data = Vec::new();
        std::io::Read::read_to_end(&mut ent, &mut data).ok()?;
        out.push(ArchiveEntry { name, data });
    }
    Some(out)
}

/// Relies on `flate2::write::GzEncoder` with a fixed compression level:
/// gzip decoding restores the compressed input exactly.
#[verifier::external_body]
fn gzip_compress(b: &Vec<u8>) -> (r: Vec<u8>)
    ensures
        gunzip_bytes_of(r@) == Some(b@),
{
    let mut enc = flate2::write::GzEncoder::new(Vec::new(), flate2::Compression::best());
    std::io::Write::write_all(&mut enc, b.as_slice()).unwrap();
    enc.finish().unwrap()
}

/// Relies on `flate2::read::GzDecoder`: decoding depends on the input
/// bytes alone, and a malformed stream is reported as an error.
#[verifier::external_body]
fn gzip_decompress(b: &Vec<u8>) -> (r: Option<Vec<u8>>)
    ensures
        match gunzip_bytes_of(b@) {
            Some(d) => r matches Some(v) && v@ == d,
            None => r is None,
        },
{
    let mut dec = flate2::read::GzDecoder::new(b.as_slice());
    let mut out = Vec::new();
    match std::io::Read::read_to_end(&mut dec, &mut out) {
        Ok(_) => Some(out),
        Err(_) => None,
    }
}

/// What unpacking yields on the given bytes: the tar entries of the
/// decompressed stream, where both decoding steps succeed.
pub open spec fn unpack_entries_spec(b: Seq<u8>) -> Option<Seq<(Seq<char>, Seq<u8>)>> {
    match gunzip_bytes_of(b) {
        None => None,
        Some(t) => tar_entries_of(t),
    }
}

/// The packaged form of a resolved manifest: the fixed archive-root-relative
/// paths of the archive format; library names and target kept.
pub open spec fn packaged_manifest(m: ManifestView) -> ManifestView {
    ManifestView {
        link_search_dir: "lib"@,
        license_path: "LICENSE"@,
        link_libs: m.link_libs,
        bindings_path: "bindings.rs"@,
        target: m.target,
    }
}

/// The archive-internal name of one library's file.
pub open spec fn lib_entry_name(name: Seq<char>, os: OsFamily) -> Seq<char> {
    join_path("lib"@, static_lib_filename_spec(name, os))
}

/// The library entries of an archive, in the manifest's order.
pub open spec fn lib_entries(names: Seq<Seq<char>>, data: Seq<Seq<u8>>, os: OsFamily) -> Seq<
    (Seq<char>, Seq<u8>),
> {
    Seq::new(names.len(), |i: int| (lib_entry_name(names[i], os), data[i]))
}

/// The full entry list of a packaged archive: bindings file, license, one
/// file per library under `lib/`, and the serialized packaged manifest.
pub open spec fn archive_entries(
    m: ManifestView,
    libs_data: Seq<Seq<u8>>,
    license: Seq<u8>,
    bindings: Seq<u8>,
) -> Seq<(Seq<char>, Seq<u8>)> {
    seq![("bindings.rs"@, bindings), ("LICENSE"@, license)] + lib_entries(
        m.link_libs,
        libs_data,
        target_os_family(m.target),
    ) + seq![
        ("metadata.json"@, ascii_bytes_of(manifest_json(packaged_manifest(m)))),
    ]
}

/// A library name the archive format can carry: clean text without a path
/// separator, short enough that its platform file name fits a tar header.
pub open spec fn packable_lib_name(s: Seq<char>) -> bool {
    clean_text(s) && !contains_char(s, '/') && 0 < s.len() <= 90
}

/// Checks that a library name can go into an archive.
pub fn packable_lib_name_check(s: &str) -> (r: bool)
    ensures
        r == packable_lib_name(s@),
{
    let len = s.unicode_len();
    crate::manifest::clean_check(s) && crate::strutil::find_char(s, '/', 0).is_none() && 0 < len
        && len <= 90
}

/// A name without any slash forms a single plain component.
proof fn lemma_components_plain_flat(s: Seq<char>)
    requires
        !contains_char(s, '/'),
        s.len() >= 1,
        s != "."@,
        s != ".."@,
    ensures
        tar_components_plain(s),
{
    assert forall|i: int, j: int|
        0 <= i <= j <= s.len() && #[trigger] slash_bounded(s, i, j) implies j - i >= 1
        && s.subrange(i, j) != "."@ && s.subrange(i, j) != ".."@ by {
        if i != 0 {
            assert(contains_char(s, '/')) by {
                assert(s[i - 1] == '/');
            }
        }
        if j != s.len() {
            assert(contains_char(s, '/')) by {
                assert(s[j] == '/');
            }
        }
        assert(i == 0 && j == s.len());
        assert(s.subrange(0, s.len() as int) =~= s);
    }
}

/// A two-component name `lib/<file>` is plain when the file part holds no
/// slash and more than two characters.
proof fn lemma_components_plain_libfile(s: Seq<char>, f: Seq<char>)
    requires
        s == "lib"@ + seq!['/'] + f,
        !contains_char(f, '/'),
        f.len() >= 3,
    ensures
        tar_components_plain(s),
{
    reveal_strlit("lib");
    reveal_strlit(".");
    reveal_strlit("..");
    assert("."@.len() == 1);
    assert(".."@.len() == 2);
    assert("lib"@.len() == 3);
    assert(s.len() == 4 + f.len());
    assert(s[3] == '/');
    assert forall|k: int| 0 <= k < s.len() && k != 3 implies s[k] != '/' by {
        if k < 3 {
            assert(s[k] == "lib"@[k]);
        } else {
            assert(s[k] == f[k - 4]);
            if s[k] == '/' {
                assert(contains_char(f, '/'));
            }
        }
    }
    assert forall|i: int, j: int|
        0 <= i <= j <= s.len() && #[trigger] slash_bounded(s, i, j) implies j - i >= 1
        && s.subrange(i, j) != "."@ && s.subrange(i, j) != ".."@ by {
        if i != 0 {
            assert(s[i - 1] == '/');
            assert(i == 4);
        }
        if j != s.len() {
            assert(s[j] == '/');
            assert(j == 3);
        }
        if i == 0 && j == 3 {
            assert(s.subrange(0, 3) =~= "lib"@);
        } else if i == 0 && j == s.len() {
            assert(s[3] != '/');
            assert(false);
        } else if i == 4 && j == s.len() {
            assert(s.subrange(4, s.len() as int) =~= f);
        } else {
            assert(false);
        }
    }
}

/// The fixed entry names of the archive format are tar-safe.
proof fn lemma_fixed_names_tar_safe()
    ensures
        tar_safe_name("bindings.rs"@),
        tar_safe_name("LICENSE"@),
        tar_safe_name("metadata.json"@),
{
    reveal_strlit("bindings.rs");
    reveal_strlit("LICENSE");
    reveal_strlit("metadata.json");
    reveal_strlit(".");
    reveal_strlit("..");
    assert("."@.len() == 1);
    assert(".."@.len() == 2);
    assert("bindings.rs"@.len() == 11);
    assert("LICENSE"@.len() == 7);
    assert("metadata.json"@.len() == 13);
    assert(!contains_char("bindings.rs"@, '\\')) by {
        if contains_char("bindings.rs"@, '\\') {
            let i = choose|i: int| 0 <= i < "bindings.rs"@.len() && "bindings.rs"@[i] == '\\';
        }
    }
    assert(!contains_char("bindings.rs"@, '\0')) by {
        if contains_char("bindings.rs"@, '\0') {
            let i = choose|i: int| 0 <= i < "bindings.rs"@.len() && "bindings.rs"@[i] == '\0';
        }
    }
    assert(!contains_char("bindings.rs"@, '/')) by {
        if contains_char("bindings.rs"@, '/') {
            let i = choose|i: int| 0 <= i < "bindings.rs"@.len() && "bindings.rs"@[i] == '/';
        }
    }
    lemma_components_plain_flat("bindings.rs"@);
    assert(!contains_char("LICENSE"@, '\\')) by {
        if contains_char("LICENSE"@, '\\') {
            let i = choose|i: int| 0 <= i < "LICENSE"@.len() && "LICENSE"@[i] == '\\';
        }
    }
    assert(!contains_char("LICENSE"@, '\0')) by {
        if contains_char("LICENSE"@, '\0') {
            let i = choose|i: int| 0 <= i < "LICENSE"@.len() && "LICENSE"@[i] == '\0';
        }
    }
    assert(!contains_char("LICENSE"@, '/')) by {
        if contains_char("LICENSE"@, '/') {
            let i = choose|i: int| 0 <= i < "LICENSE"@.len() && "LICENSE"@[i] == '/';
        }
    }
    lemma_components_plain_flat("LICENSE"@);
    assert(!contains_char("metadata.json"@, '\\')) by {
        if contains_char("metadata.json"@, '\\') {
            let i = choose|i: int| 0 <= i < "metadata.json"@.len() && "metadata.json"@[i] == '\\';
        }
    }
    assert(!contains_char("metadata.json"@, '\0')) by {
        if contains_char("metadata.json"@, '\0') {
            let i = choose|i: int| 0 <= i < "metadata.json"@.len() && "metadata.json"@[i] == '\0';
        }
    }
    assert(!contains_char("metadata.json"@, '/')) by {
        if contains_char("metadata.json"@, '/') {
            let i = choose|i: int| 0 <= i < "metadata.json"@.len() && "metadata.json"@[i] == '/';
        }
    }
    lemma_components_plain_flat("metadata.json"@);
}

/// The archive-internal library file names are tar-safe for every
/// packable library name.
proof fn lemma_lib_entry_name_tar_safe(name: Seq<char>, os: OsFamily)
    requires
        packable_lib_name(name),
    ensures
        tar_safe_name(lib_entry_name(name, os)),
{
    reveal_strlit("lib");
    reveal_strlit(".a");
    reveal_strlit(".lib");
    let f = static_lib_filename_spec(name, os);
    let s = lib_entry_name(name, os);
    assert(s == "lib"@ + seq!['/'] + f);
    assert(is_ascii_chars("lib"@));
    assert(is_ascii_chars(".a"@));
    assert(is_ascii_chars(".lib"@));
    assert(is_ascii_chars(seq!['/'])) by {
        assert(seq!['/'][0] == '/');
    }
    assert(!contains_char("lib"@, '\\') && !contains_char("lib"@, '\0') && !contains_char(
        "lib"@,
        '/',
    )) by {
        if contains_char("lib"@, '\\') {
            let i = choose|i: int| 0 <= i < "lib"@.len() && "lib"@[i] == '\\';
        }
        if contains_char("lib"@, '\0') {
            let i = choose|i: int| 0 <= i < "lib"@.len() && "lib"@[i] == '\0';
        }
        if contains_char("lib"@, '/') {
            let i = choose|i: int| 0 <= i < "lib"@.len() && "lib"@[i] == '/';
        }
    }
    assert(!contains_char(".a"@, '\\') && !contains_char(".a"@, '\0') && !contains_char(
        ".a"@,
        '/',
    )) by {
        if contains_char(".a"@, '\\') {
            let i = choose|i: int| 0 <= i < ".a"@.len() && ".a"@[i] == '\\';
        }
        if contains_char(".a"@, '\0') {
            let i = choose|i: int| 0 <= i < ".a"@.len() && ".a"@[i] == '\0';
        }
        if contains_char(".a"@, '/') {
            let i = choose|i: int| 0 <= i < ".a"@.len() && ".a"@[i] == '/';
        }
    }
    assert(!contains_char(".lib"@, '\\') && !contains_char(".lib"@, '\0') && !contains_char(
        ".lib"@,
        '/',
    )) by {
        if contains_char(".lib"@, '\\') {
            let i = choose|i: int| 0 <= i < ".lib"@.len() && ".lib"@[i] == '\\';
        }
        if contains_char(".lib"@, '\0') {
            let i = choose|i: int| 0 <= i < ".lib"@.len() && ".lib"@[i] == '\0';
        }
        if contains_char(".lib"@, '/') {
            let i = choose|i: int| 0 <= i < ".lib"@.len() && ".lib"@[i] == '/';
        }
    }
    match os {
        OsFamily::Unix => {
            lemma_ascii_concat("lib"@, name);
            lemma_ascii_concat("lib"@ + name, ".a"@);
            lemma_contains_concat("lib"@, name, '\\');
            lemma_contains_concat("lib"@ + name, ".a"@, '\\');
            lemma_contains_concat("lib"@, name, '\0');
            lemma_contains_concat("lib"@ + name, ".a"@, '\0');
            lemma_contains_concat("lib"@, name, '/');
            lemma_contains_concat("lib"@ + name, ".a"@, '/');
            assert(f[f.len() - 1] == ".a"@[1]);
        },
        OsFamily::Windows => {
            lemma_ascii_concat(name, ".lib"@);
            lemma_contains_concat(name, ".lib"@, '\\');
            lemma_contains_concat(name, ".lib"@, '\0');
            lemma_contains_concat(name, ".lib"@, '/');
            assert(f[f.len() - 1] == ".lib"@[3]);
        },
    }
    assert(f.len() >= 3 && f.len() <= 95);
    assert(is_ascii_chars(f));
    assert(!contains_char(f, '/'));
    lemma_components_plain_libfile(s, f);
    assert(s.len() == 4 + f.len() <= 100);
    lemma_ascii_concat("lib"@, seq!['/']);
    lemma_ascii_concat("lib"@ + seq!['/'], f);
    lemma_contains_concat("lib"@, seq!['/'], '\\');
    lemma_contains_concat("lib"@ + seq!['/'], f, '\\');
    lemma_contains_concat("lib"@, seq!['/'], '\0');
    lemma_contains_concat("lib"@ + seq!['/'], f, '\0');
    assert(!contains_char(seq!['/'], '\\')) by {
        if contains_char(seq!['/'], '\\') {
            let i = choose|i: int| 0 <= i < 1 && seq!['/'][i] == '\\';
        }
    }
    assert(!contains_char(seq!['/'], '\0')) by {
        if contains_char(seq!['/'], '\0') {
            let i = choose|i: int| 0 <= i < 1 && seq!['/'][i] == '\0';
        }
    }
    assert(s[0] == "lib"@[0]);
    assert(s[s.len() - 1] == f[f.len() - 1]);
}

/// A well-formed manifest's packaged form is itself well formed: the three
/// fixed path literals are clean text.
pub proof fn lemma_packaged_wf(m: ManifestView)
    requires
        wf_manifest(m),
    ensures
        wf_manifest(packaged_manifest(m)),
{
    assert(clean_text("lib"@)) by {
        reveal_strlit("lib");
        if contains_char("lib"@, '"') {
            let k = choose|k: int| 0 <= k < "lib"@.len() && "lib"@[k] == '"';
        }
        if contains_char("lib"@, '\\') {
            let k = choose|k: int| 0 <= k < "lib"@.len() && "lib"@[k] == '\\';
        }
        if contains_char("lib"@, '\0') {
            let k = choose|k: int| 0 <= k < "lib"@.len() && "lib"@[k] == '\0';
        }
    }
    assert(clean_text("LICENSE"@)) by {
        reveal_strlit("LICENSE");
        if contains_char("LICENSE"@, '"') {
            let k = choose|k: int| 0 <= k < "LICENSE"@.len() && "LICENSE"@[k] == '"';
        }
        if contains_char("LICENSE"@, '\\') {
            let k = choose|k: int| 0 <= k < "LICENSE"@.len() && "LICENSE"@[k] == '\\';
        }
        if contains_char("LICENSE"@, '\0') {
            let k = choose|k: int| 0 <= k < "LICENSE"@.len() && "LICENSE"@[k] == '\0';
        }
    }
    assert(clean_text("bindings.rs"@)) by {
        reveal_strlit("bindings.rs");
        if contains_char("bindings.rs"@, '"') {
            let k = choose|k: int| 0 <= k < "bindings.rs"@.len() && "bindings.rs"@[k] == '"';
        }
        if contains_char("bindings.rs"@, '\\') {
            let k = choose|k: int| 0 <= k < "bindings.rs"@.len() && "bindings.rs"@[k] == '\\';
        }
        if contains_char("bindings.rs"@, '\0') {
            let k = choose|k: int| 0 <= k < "bindings.rs"@.len() && "bindings.rs"@[k] == '\0';
        }
    }
}

/// Copies a byte vector.
pub fn copy_bytes(v: &Vec<u8>) -> (r: Vec<u8>)
    ensures
        r@ == v@,
{
    let mut r: Vec<u8> = Vec::new();
    let n = v.len();
    let mut i: usize = 0;
    while i < n
        invariant
            i <= n,
            n == v.len(),
            r@ == v@.take(i as int),
        decreases n - i,
    {
        r.push(v[i]);
        proof {
            assert(r@ =~= v@.take(i + 1));
        }
        i = i + 1;
    }
    proof {
        assert(v@.take(n as int) =~= v@);
    }
    r
}

impl Manifest {
    /// The packaged counterpart of this manifest: the fixed root-relative
    /// paths of the archive format, with the same libraries and target.
    pub fn to_packaged(&self) -> (r: Manifest)
        ensures
            r@ == packaged_manifest(self@),
    {
        let r = Manifest {
            link_search_dir: String::from_str("lib"),
            license_path: String::from_str("LICENSE"),
            link_libs: crate::manifest::clone_string_vec(&self.link_libs),
            bindings_path: String::from_str("bindings.rs"),
            target: self.target.clone(),
        };
        proof {
            assert(r@ =~= packaged_manifest(self@));
        }
        r
    }
}

/// Serializes a resolved manifest and its files into a gzip-compressed tar
/// archive: the bindings file, the license, each library under `lib/`, and
/// the packaged manifest as `metadata.json`, stamped with the caller's
/// wall-clock time. Unpacking the result yields exactly these entries.
#[verifier::loop_isolation(false)]
pub fn pack_archive(
    m: &Manifest,
    libs_data: &Vec<Vec<u8>>,
    license: &Vec<u8>,
    bindings: &Vec<u8>,
    mtime: u64,
) -> (r: Vec<u8>)
    requires
        wf_manifest(m@),
        libs_data@.len() == m@.link_libs.len(),
        forall|i: int| 0 <= i < m@.link_libs.len() ==> packable_lib_name(#[trigger] m@.link_libs[i]),
    ensures
        unpack_entries_spec(r@) == Some(
            archive_entries(m@, libs_data.deep_view(), license@, bindings@),
        ),
{
    let ghost entries_spec = archive_entries(m@, libs_data.deep_view(), license@, bindings@);
    let fam = crate::target::target_os_family_exec(m.target.as_str());
    let mut entries: Vec<ArchiveEntry> = Vec::new();
    entries.push(ArchiveEntry { name: String::from_str("bindings.rs"), data: copy_bytes(bindings) });
    entries.push(ArchiveEntry { name: String::from_str("LICENSE"), data: copy_bytes(license) });
    let ghost head2 = seq![("bindings.rs"@, bindings@), ("LICENSE"@, license@)];
    proof {
        assert(entries.deep_view() =~~= head2);
    }
    let n = m.link_libs.len();
    let mut i: usize = 0;
    while i < n
        invariant
            i <= n,
            n == m@.link_libs.len(),
            libs_data@.len() == n,
            fam == target_os_family(m@.target),
            forall|k: int| 0 <= k < n ==> packable_lib_name(#[trigger] m@.link_libs[k]),
            entries.deep_view() == head2 + lib_entries(
                m@.link_libs,
                libs_data.deep_view(),
                fam,
            ).take(i as int),
        decreases n - i,
    {
        let fname = static_lib_filename(m.link_libs[i].as_str(), fam);
        let ename = join_path_exec("lib", fname.as_str());
        let ghost ename_v = ename@;
        proof {
            reveal_strlit("lib");
            assert(ename_v == lib_entry_name(m@.link_libs[i as int], fam));
        }
        let d = copy_bytes(&libs_data[i]);
        let ghost d_v = d@;
        let ghost dv0 = entries.deep_view();
        entries.push(ArchiveEntry { name: ename, data: d });
        proof {
            assert(head2.len() == 2);
            assert(lib_entries(m@.link_libs, libs_data.deep_view(), fam).len() == n);
            assert(dv0 == head2 + lib_entries(m@.link_libs, libs_data.deep_view(), fam).take(
                i as int,
            ));
            assert(dv0.len() == 2 + i);
            assert(entries@.len() == dv0.len() + 1);
            assert(entries.deep_view().len() == dv0.len() + 1);
            assert forall|k: int| 0 <= k < dv0.len() implies entries.deep_view()[k] == dv0[k] by {}
            assert(entries@[2 + i as int].name@ == ename_v);
            assert(entries@[2 + i as int].data@ == d_v);
            assert(entries.deep_view()[2 + i as int] == (ename_v, d_v));
            assert(libs_data@[i as int].deep_view() =~= libs_data@[i as int]@);
            assert(libs_data.deep_view()[i as int] == d_v);
            assert(entries.deep_view()[2 + i as int] == (
                ename_v,
                libs_data.deep_view()[i as int],
            ));
            let tgt = head2 + lib_entries(m@.link_libs, libs_data.deep_view(), fam).take(
                i + 1,
            );
            assert(tgt.len() == 3 + i);
            let le = lib_entries(m@.link_libs, libs_data.deep_view(), fam);
            assert forall|k: int| 0 <= k < 3 + i implies entries.deep_view()[k] == tgt[k] by {
                if k < 2 {
                    assert(dv0[k] == head2[k]);
                    assert(tgt[k] == head2[k]);
                } else if k < 2 + i {
                    assert(dv0[k] == le.take(i as int)[k - 2]);
                    assert(le.take(i as int)[k - 2] == le[k - 2]);
                    assert(tgt[k] == le.take(i + 1)[k - 2]);
                    assert(le.take(i + 1)[k - 2] == le[k - 2]);
                } else {
                    assert(tgt[k] == le.take(i + 1)[i as int]);
                    assert(le.take(i + 1)[i as int] == le[i as int]);
                    assert(le[i as int] == (
                        lib_entry_name(m@.link_libs[i as int], fam),
                        libs_data.deep_view()[i as int],
                    ));
                }
            }
            assert(entries.deep_view() =~= tgt);
        }
        i = i + 1;
    }
    let pm = m.to_packaged();
    proof {
        lemma_fixed_names_tar_safe();
        lemma_packaged_wf(m@);
        crate::manifest::lemma_manifest_json_ascii(pm@);
    }
    let js = pm.encode();
    let mdata = string_to_bytes(js.as_str());
    entries.push(ArchiveEntry { name: String::from_str("metadata.json"), data: mdata });
    proof {
        assert(lib_entries(m@.link_libs, libs_data.deep_view(), fam).take(n as int)
            =~= lib_entries(m@.link_libs, libs_data.deep_view(), fam));
        assert(entries.deep_view() =~~= entries_spec);
    }
    proof {
        assert forall|k: int|
            0 <= k < entries.deep_view().len() implies tar_safe_name(
            #[trigger] entries.deep_view()[k].0,
        ) by {
            if k == 0 {
                assert(entries.deep_view()[k].0 == "bindings.rs"@);
            } else if k == 1 {
                assert(entries.deep_view()[k].0 == "LICENSE"@);
            } else if k < 2 + n {
                assert(entries.deep_view()[k].0 == lib_entry_name(m@.link_libs[k - 2], fam));
                lemma_lib_entry_name_tar_safe(m@.link_libs[k - 2], fam);
            } else {
                assert(entries.deep_view()[k].0 == "metadata.json"@);
            }
        }
    }
    let mut w = tar_builder_new();
    let en = entries.len();
    let mut j: usize = 0;
    while j < en
        invariant
            j <= en,
            en == entries.len(),
            entries.deep_view() == entries_spec,
            forall|k: int| 0 <= k < en ==> tar_safe_name(#[trigger] entries.deep_view()[k].0),
            tar_builder_entries(w) == entries.deep_view().take(j as int),
        decreases en - j,
    {
        proof {
            assert(tar_safe_name(entries.deep_view()[j as int].0));
            assert(entries.deep_view()[j as int].0 == entries@[j as int].name@);
        }
        tar_builder_append(&mut w, entries[j].name.as_str(), &entries[j].data, mtime);
        proof {
            assert(tar_builder_entries(w) =~= entries.deep_view().take(j + 1));
        }
        j = j + 1;
    }
    proof {
        assert(entries.deep_view().take(en as int) =~= entries.deep_view());
    }
    let t = tar_builder_finish(w);
    let r = gzip_compress(&t);
    proof {
        assert(unpack_entries_spec(r@) == Some(entries_spec));
    }
    r
}

/// The contents of the first entry with the given name, where one exists.
pub open spec fn find_entry(es: Seq<(Seq<char>, Seq<u8>)>, name: Seq<char>) -> Option<Seq<u8>>
    decreases es.len(),
{
    if es.len() == 0 {
        None
    } else if es[0].0 == name {
        Some(es[0].1)
    } else {
        find_entry(es.drop_first(), name)
    }
}

/// Looking a name up finds the entry at `k` when `k` holds it and no
/// earlier entry does.
pub proof fn lemma_find_entry_at(es: Seq<(Seq<char>, Seq<u8>)>, k: int, name: Seq<char>)
    requires
        0 <= k < es.len(),
        es[k].0 == name,
        forall|j: int| 0 <= j < k ==> es[j].0 != name,
    ensures
        find_entry(es, name) == Some(es[k].1),
    decreases k,
{
    if k == 0 {
    } else {
        assert(forall|j: int|
            0 <= j < k - 1 ==> es.drop_first()[j] == es[j + 1] && es[j + 1].0 != name);
        lemma_find_entry_at(es.drop_first(), k - 1, name);
    }
}

/// The mathematical form of a fully parsed archive: the packaged manifest
/// it carried and the bytes of each file it names.
#[verifier::ext_equal]
pub struct UnpackedView {
    pub manifest: ManifestView,
    pub lib_data: Seq<Seq<u8>>,
    pub license_data: Seq<u8>,
    pub bindings_data: Seq<u8>,
}

/// The archive-internal path of the library at `i` of a packaged manifest.
pub open spec fn manifest_lib_path(pm: ManifestView, i: int) -> Seq<char> {
    join_path(
        pm.link_search_dir,
        static_lib_filename_spec(pm.link_libs[i], target_os_family(pm.target)),
    )
}

/// What an archive's entries mean: the manifest read back from
/// `metadata.json`, and the license, bindings and libraries at the paths
/// that manifest itself names. Nothing where any of them is absent or the
/// manifest does not decode.
pub open spec fn parse_archive_entries(es: Seq<(Seq<char>, Seq<u8>)>) -> Option<UnpackedView> {
    match find_entry(es, "metadata.json"@) {
        None => None,
        Some(mb) => {
            if !crate::strutil::all_ascii_bytes(mb) {
                None
            } else {
                match parse_manifest_json(crate::strutil::ascii_chars_of(mb)) {
                    None => None,
                    Some(pm) => {
                        if find_entry(es, pm.license_path) is None {
                            None
                        } else if find_entry(es, pm.bindings_path) is None {
                            None
                        } else if exists|i: int|
                            0 <= i < pm.link_libs.len() && find_entry(
                                es,
                                #[trigger] manifest_lib_path(pm, i),
                            ) is None {
                            None
                        } else {
                            Some(
                                UnpackedView {
                                    manifest: pm,
                                    lib_data: Seq::new(
                                        pm.link_libs.len(),
                                        |i: int| find_entry(es, manifest_lib_path(pm, i))->0,
                                    ),
                                    license_data: find_entry(es, pm.license_path)->0,
                                    bindings_data: find_entry(es, pm.bindings_path)->0,
                                },
                            )
                        }
                    },
                }
            }
        },
    }
}

/// What unpacking an archive's bytes means, end to end.
pub open spec fn unpack_spec(b: Seq<u8>) -> Option<UnpackedView> {
    match unpack_entries_spec(b) {
        None => None,
        Some(es) => parse_archive_entries(es),
    }
}

/// The result of unpacking an archive: the manifest resolved under the
/// destination directory, and the bytes of each file the archive carried.
pub struct UnpackedArchive {
    pub manifest: Manifest,
    pub lib_data: Vec<Vec<u8>>,
    pub license_data: Vec<u8>,
    pub bindings_data: Vec<u8>,
}

/// Finds the first entry with the given name and copies its contents.
fn find_entry_exec(es: &Vec<ArchiveEntry>, name: &str) -> (r: Option<Vec<u8>>)
    ensures
        match r {
            Some(d) => find_entry(es.deep_view(), name@) == Some(d@),
            None => find_entry(es.deep_view(), name@) is None,
        },
{
    let n = es.len();
    let mut i: usize = 0;
    proof {
        assert(es.deep_view().skip(0) =~= es.deep_view());
    }
    while i < n
        invariant
            i <= n,
            n == es.len(),
            find_entry(es.deep_view(), name@) == find_entry(
                es.deep_view().skip(i as int),
                name@,
            ),
        decreases n - i,
    {
        proof {
            assert(es.deep_view().skip(i as int)[0] == es.deep_view()[i as int]);
        }
        if crate::strutil::str_eq(es[i].name.as_str(), name) {
            return Some(copy_bytes(&es[i].data));
        }
        proof {
            assert(es.deep_view().skip(i as int).drop_first() =~= es.deep_view().skip(i + 1));
        }
        i = i + 1;
    }
    proof {
        assert(es.deep_view().skip(n as int) =~= Seq::<(Seq<char>, Seq<u8>)>::empty());
    }
    None
}

/// Extracts an archive: decompresses and reads the tar stream, decodes the
/// embedded manifest, collects the license, bindings and library files it
/// names, and returns the manifest resolved under `dest`. Fails exactly
/// where any step of `unpack_spec` has nothing to yield.
#[verifier::loop_isolation(false)]
pub fn unpack_archive(bytes: &Vec<u8>, dest: &str) -> (r: Result<UnpackedArchive, BuildError>)
    ensures
        match r {
            Ok(u) => unpack_spec(bytes@) matches Some(p) && u.manifest@ == resolve_manifest(
                p.manifest,
                dest@,
            ) && u.lib_data.deep_view() == p.lib_data && u.license_data@ == p.license_data
                && u.bindings_data@ == p.bindings_data,
            Err(e) => unpack_spec(bytes@) is None && e matches BuildError::UnexpectedBuildLayout(
                _,
            ),
        },
{
    let t = match gzip_decompress(bytes) {
        Some(t) => t,
        None => {
            return Err(BuildError::UnexpectedBuildLayout(String::from_str("archive")));
        },
    };
    let es = match tar_read_entries(&t) {
        Some(es) => es,
        None => {
            return Err(BuildError::UnexpectedBuildLayout(String::from_str("archive")));
        },
    };
    let mb = match find_entry_exec(&es, "metadata.json") {
        Some(d) => d,
        None => {
            return Err(BuildError::UnexpectedBuildLayout(String::from_str("metadata.json")));
        },
    };
    if !crate::strutil::all_ascii_check(&mb) {
        return Err(BuildError::UnexpectedBuildLayout(String::from_str("metadata.json")));
    }
    let ms = crate::strutil::bytes_to_string(&mb);
    proof {
        assert(ms@ =~= crate::strutil::ascii_chars_of(mb@));
    }
    let pm = match Manifest::decode(ms.as_str()) {
        Some(m) => m,
        None => {
            return Err(BuildError::UnexpectedBuildLayout(String::from_str("metadata.json")));
        },
    };
    let lic = match find_entry_exec(&es, pm.license_path.as_str()) {
        Some(d) => d,
        None => {
            return Err(BuildError::UnexpectedBuildLayout(pm.license_path.clone()));
        },
    };
    let bnd = match find_entry_exec(&es, pm.bindings_path.as_str()) {
        Some(d) => d,
        None => {
            return Err(BuildError::UnexpectedBuildLayout(pm.bindings_path.clone()));
        },
    };
    let fam = crate::target::target_os_family_exec(pm.target.as_str());
    let n = pm.link_libs.len();
    let mut lib_data: Vec<Vec<u8>> = Vec::new();
    let mut i: usize = 0;
    while i < n
        invariant
            i <= n,
            lib_data.len() == i,
            forall|k: int|
                0 <= k < i ==> (find_entry(es.deep_view(), #[trigger] manifest_lib_path(pm@, k))
                    matches Some(d) && lib_data.deep_view()[k] == d),
        decreases n - i,
    {
        let fname = static_lib_filename(pm.link_libs[i].as_str(), fam);
        let ename = join_path_exec(pm.link_search_dir.as_str(), fname.as_str());
        proof {
            assert(ename@ == manifest_lib_path(pm@, i as int));
        }
        match find_entry_exec(&es, ename.as_str()) {
            Some(d) => {
                lib_data.push(d);
            },
            None => {
                return Err(BuildError::UnexpectedBuildLayout(ename));
            },
        }
        i = i + 1;
    }
    let resolved = pm.resolve_under(dest);
    let u = UnpackedArchive { manifest: resolved, lib_data, license_data: lic, bindings_data: bnd };
    proof {
        let p = parse_archive_entries(es.deep_view())->0;
        assert(u.lib_data.deep_view() =~= p.lib_data);
    }
    Ok(u)
}

/// ASCII characters survive the round trip through their byte form.
proof fn lemma_ascii_chars_bytes_id(s: Seq<char>)
    requires
        is_ascii_chars(s),
    ensures
        crate::strutil::all_ascii_bytes(ascii_bytes_of(s)),
        crate::strutil::ascii_chars_of(ascii_bytes_of(s)) == s,
{
    assert forall|i: int| 0 <= i < s.len() implies ascii_bytes_of(s)[i] < 128 by {
        assert('\0' <= s[i] <= '\u{7f}');
    }
    assert(crate::strutil::ascii_chars_of(ascii_bytes_of(s)) =~= s) by {
        assert forall|i: int|
            0 <= i < s.len() implies crate::strutil::ascii_chars_of(ascii_bytes_of(s))[i]
            == s[i] by {
            assert('\0' <= s[i] <= '\u{7f}');
            assert(ascii_bytes_of(s)[i] == s[i] as u8);
        }
    }
}

/// Two distinct library names get distinct platform file names.
proof fn lemma_lib_filename_injective(a: Seq<char>, b: Seq<char>, os: OsFamily)
    requires
        static_lib_filename_spec(a, os) == static_lib_filename_spec(b, os),
    ensures
        a == b,
{
    reveal_strlit("lib");
    reveal_strlit(".a");
    reveal_strlit(".lib");
    match os {
        OsFamily::Unix => {
            let fa = "lib"@ + a + ".a"@;
            let fb = "lib"@ + b + ".a"@;
            assert(fa.len() == 3 + a.len() + 2);
            assert(fb.len() == 3 + b.len() + 2);
            assert(a.len() == b.len());
            assert(a =~= b) by {
                assert forall|i: int| 0 <= i < a.len() implies a[i] == b[i] by {
                    assert(fa[3 + i] == a[i]);
                    assert(fb[3 + i] == b[i]);
                }
            }
        },
        OsFamily::Windows => {
            let fa = a + ".lib"@;
            let fb = b + ".lib"@;
            assert(fa.len() == a.len() + 4);
            assert(fb.len() == b.len() + 4);
            assert(a.len() == b.len());
            assert(a =~= b) by {
                assert forall|i: int| 0 <= i < a.len() implies a[i] == b[i] by {
                    assert(fa[i] == a[i]);
                    assert(fb[i] == b[i]);
                }
            }
        },
    }
}

/// Two distinct library names get distinct archive entry names.
proof fn lemma_lib_entry_name_injective(a: Seq<char>, b: Seq<char>, os: OsFamily)
    requires
        lib_entry_name(a, os) == lib_entry_name(b, os),
    ensures
        a == b,
{
    reveal_strlit("lib");
    let fa = static_lib_filename_spec(a, os);
    let fb = static_lib_filename_spec(b, os);
    let na = "lib"@ + seq!['/'] + fa;
    let nb = "lib"@ + seq!['/'] + fb;
    assert("lib"@.len() == 3);
    assert(lib_entry_name(a, os) == na);
    assert(lib_entry_name(b, os) == nb);
    assert(na.len() == nb.len());
    assert(na.len() == 4 + fa.len());
    assert(nb.len() == 4 + fb.len());
    assert(fa.len() == fb.len());
    assert(fa =~= fb) by {
        assert forall|i: int| 0 <= i < fa.len() implies fa[i] == fb[i] by {
            assert(na[4 + i] == fa[i]);
            assert(nb[4 + i] == fb[i]);
        }
    }
    lemma_lib_filename_injective(a, b, os);
}

/// Law: unpacking what was packed yields the packaged manifest and every
/// file byte for byte — the libraries in the manifest's order, the
/// license and the bindings unchanged. Only the path form differs between
/// the packed and the resolved manifest.
#[verifier::rlimit(100)]
pub proof fn lemma_archive_round_trip(
    m: ManifestView,
    libs_data: Seq<Seq<u8>>,
    license: Seq<u8>,
    bindings: Seq<u8>,
)
    requires
        wf_manifest(m),
        libs_data.len() == m.link_libs.len(),
        forall|i: int| 0 <= i < m.link_libs.len() ==> packable_lib_name(#[trigger] m.link_libs[i]),
        forall|i: int, j: int|
            0 <= i < j < m.link_libs.len() ==> m.link_libs[i] != m.link_libs[j],
    ensures
        parse_archive_entries(archive_entries(m, libs_data, license, bindings)) == Some(
            UnpackedView {
                manifest: packaged_manifest(m),
                lib_data: libs_data,
                license_data: license,
                bindings_data: bindings,
            },
        ),
{
    let es = archive_entries(m, libs_data, license, bindings);
    let fam = target_os_family(m.target);
    let pm = packaged_manifest(m);
    let nl = m.link_libs.len() as int;
    reveal_strlit("bindings.rs");
    reveal_strlit("LICENSE");
    reveal_strlit("metadata.json");
    reveal_strlit("lib");
    assert("bindings.rs"@.len() == 11);
    assert("LICENSE"@.len() == 7);
    assert("metadata.json"@.len() == 13);
    assert(es.len() == 3 + nl);
    assert(es[0] == ("bindings.rs"@, bindings));
    assert(es[1] == ("LICENSE"@, license));
    assert(lib_entries(m.link_libs, libs_data, fam).len() == nl);
    assert forall|k: int|
        0 <= k < nl implies es[2 + k] == (
        lib_entry_name(m.link_libs[k], fam),
        libs_data[k],
    ) by {
        assert(es[2 + k] == lib_entries(m.link_libs, libs_data, fam)[k]);
    }
    assert(es[2 + nl] == ("metadata.json"@, ascii_bytes_of(manifest_json(pm))));
    assert forall|k: int|
        0 <= k < nl implies #[trigger] lib_entry_name(m.link_libs[k], fam)[0] == 'l' by {
        let nm = lib_entry_name(m.link_libs[k], fam);
        assert(nm[0] == "lib"@[0]);
    }

    // the embedded manifest is found last and decodes to the packaged form
    assert forall|j: int| 0 <= j < 2 + nl implies es[j].0 != "metadata.json"@ by {
        if j >= 2 {
            assert(es[j].0[0] == 'l' && "metadata.json"@[0] == 'm');
        }
    }
    lemma_find_entry_at(es, 2 + nl, "metadata.json"@);
    lemma_packaged_wf(m);
    crate::manifest::lemma_manifest_json_ascii(pm);
    lemma_ascii_chars_bytes_id(manifest_json(pm));
    crate::manifest::lemma_manifest_json_round_trip(pm);

    // the license and the bindings sit at the head
    assert(es[0].0 != "LICENSE"@);
    lemma_find_entry_at(es, 1, "LICENSE"@);
    lemma_find_entry_at(es, 0, "bindings.rs"@);

    // each library file is found at its manifest position
    assert forall|i: int|
        0 <= i < nl implies find_entry(es, #[trigger] manifest_lib_path(pm, i)) == Some(
        libs_data[i],
    ) by {
        let nm = manifest_lib_path(pm, i);
        assert(nm == lib_entry_name(m.link_libs[i], fam));
        assert forall|j: int| 0 <= j < 2 + i implies es[j].0 != nm by {
            if j == 0 {
                assert(nm[0] == 'l' && "bindings.rs"@[0] == 'b');
            } else if j == 1 {
                assert(nm[0] == 'l' && "LICENSE"@[0] == 'L');
            } else {
                assert(es[j].0 == lib_entry_name(m.link_libs[j - 2], fam));
                if es[j].0 == nm {
                    lemma_lib_entry_name_injective(m.link_libs[j - 2], m.link_libs[i], fam);
                }
            }
        }
        lemma_find_entry_at(es, 2 + i, nm);
    }

    assert(Seq::new(pm.link_libs.len(), |i: int| find_entry(es, manifest_lib_path(pm, i))->0)
        =~= libs_data);
    assert(parse_archive_entries(es) matches Some(p) && p =~= UnpackedView {
        manifest: pm,
        lib_data: libs_data,
        license_data: license,
        bindings_data: bindings,
    });
}

} // verus!
