//! The build manifest: the record of where the produced libraries, license
//! and generated bindings live, together with the target triple they were
//! built for. A packaged manifest carries archive-root-relative paths; a
//! resolved manifest carries absolute paths under an unpack destination.
//! The packaged form is serialized into the archive as a small JSON object,
//! written and read by the verified codec below.

use vstd::prelude::*;
use vstd::string::StrSliceExecFns;
use vstd::string::StringExecFns;

use crate::strutil::{
    contains_char, contains_char_from, find_char, first_char_at, lemma_first_char_props,
    match_lit, matches_at, substring,
};
use vstd::utf8::is_ascii_chars;

verus! {

/// The mathematical form of a manifest.
#[verifier::ext_equal]
pub struct ManifestView {
    pub link_search_dir: Seq<char>,
    pub license_path: Seq<char>,
    pub link_libs: Seq<Seq<char>>,
    pub bindings_path: Seq<char>,
    pub target: Seq<char>,
}

/// The handoff record between the acquisition and the linking phase.
/// `license_path` is serialized under the key `assimp_license` and
/// `bindings_path` under `bindings_rs`, the keys the archive format fixes.
#[derive(Clone, Debug, PartialEq, Eq)]
pub struct Manifest {
    pub link_search_dir: String,
    pub license_path: String,
    pub link_libs: Vec<String>,
    pub bindings_path: String,
    pub target: String,
}

impl View for Manifest {
    type V = ManifestView;

    open spec fn view(&self) -> ManifestView {
        ManifestView {
            link_search_dir: self.link_search_dir@,
            license_path: self.license_path@,
            link_libs: self.link_libs.deep_view(),
            bindings_path: self.bindings_path@,
            target: self.target@,
        }
    }
}

/// Text that the JSON form can carry verbatim: ASCII without a quote or a
/// backslash, so that no escaping is ever needed.
pub open spec fn clean_text(s: Seq<char>) -> bool {
    is_ascii_chars(s) && !contains_char(s, '"') && !contains_char(s, '\\') && !contains_char(
        s,
        '\0',
    )
}

/// A manifest whose every text field the JSON form can carry verbatim.
pub open spec fn wf_manifest(m: ManifestView) -> bool {
    &&& clean_text(m.link_search_dir)
    &&& clean_text(m.license_path)
    &&& forall|i: int| 0 <= i < m.link_libs.len() ==> clean_text(#[trigger] m.link_libs[i])
    &&& clean_text(m.bindings_path)
    &&& clean_text(m.target)
}

/// A path is absolute when it starts with the path separator; a packaged
/// manifest holds only relative paths, a resolved one only absolute paths.
pub open spec fn is_abs_path(p: Seq<char>) -> bool {
    p.len() > 0 && p[0] == '/'
}

/// `rel` placed under the directory `base`.
pub open spec fn join_path(base: Seq<char>, rel: Seq<char>) -> Seq<char> {
    base + seq!['/'] + rel
}

/// Places `rel` under the directory `base`.
pub fn join_path_exec(base: &str, rel: &str) -> (r: String)
    ensures
        r@ == join_path(base@, rel@),
{
    proof {
        reveal_strlit("/");
    }
    let mut r = base.to_owned();
    r.append("/");
    r.append(rel);
    proof {
        assert(r@ =~= join_path(base@, rel@));
    }
    r
}

/// A field value in the JSON form: the text between double quotes.
pub open spec fn quoted(s: Seq<char>) -> Seq<char> {
    seq!['"'] + s + seq!['"']
}

/// The items of the link-library array, comma-separated.
pub open spec fn libs_items(libs: Seq<Seq<char>>) -> Seq<char>
    decreases libs.len(),
{
    if libs.len() == 0 {
        Seq::empty()
    } else if libs.len() == 1 {
        quoted(libs[0])
    } else {
        quoted(libs[0]) + seq![','] + libs_items(libs.drop_first())
    }
}

/// The serialized form of a manifest: one JSON object with the five fields
/// of the archive format, in fixed order and without any whitespace.
pub open spec fn manifest_json(m: ManifestView) -> Seq<char> {
    "{\"link_search_dir\":\""@ + m.link_search_dir + "\",\"assimp_license\":\""@
        + m.license_path + "\",\"link_libs\":["@ + libs_items(m.link_libs)
        + "],\"bindings_rs\":\""@ + m.bindings_path + "\",\"target\":\""@ + m.target + "\"}"@
}

/// Appending one more item extends the comma-separated run at its end.
proof fn lemma_libs_items_push(libs: Seq<Seq<char>>, x: Seq<char>)
    ensures
        libs_items(libs.push(x)) == if libs.len() == 0 {
            quoted(x)
        } else {
            libs_items(libs) + seq![','] + quoted(x)
        },
    decreases libs.len(),
{
    let p = libs.push(x);
    if libs.len() == 0 {
        assert(p.len() == 1 && p[0] == x);
    } else if libs.len() == 1 {
        assert(p.drop_first() =~= libs.drop_first().push(x));
        assert(p.drop_first() =~= seq![x]);
        assert(libs_items(p) == quoted(libs[0]) + seq![','] + libs_items(seq![x]));
        assert(libs_items(seq![x]) == quoted(x));
    } else {
        assert(p.drop_first() =~= libs.drop_first().push(x));
        lemma_libs_items_push(libs.drop_first(), x);
        assert(libs_items(p) == quoted(p[0]) + seq![','] + libs_items(libs.drop_first().push(x)));
        assert(quoted(p[0]) + seq![','] + (libs_items(libs.drop_first()) + seq![','] + quoted(x))
            =~= (quoted(libs[0]) + seq![','] + libs_items(libs.drop_first())) + seq![',']
            + quoted(x));
    }
}

impl Manifest {
    /// Whether every text field is carried verbatim by the JSON form.
    pub fn is_wf(&self) -> (r: bool)
        ensures
            r == wf_manifest(self@),
    {
        if !clean_check(self.link_search_dir.as_str()) {
            return false;
        }
        if !clean_check(self.license_path.as_str()) {
            return false;
        }
        if !clean_check(self.bindings_path.as_str()) {
            return false;
        }
        if !clean_check(self.target.as_str()) {
            return false;
        }
        let n = self.link_libs.len();
        let mut i: usize = 0;
        while i < n
            invariant
                i <= n,
                n == self.link_libs.len(),
                forall|k: int| 0 <= k < i ==> clean_text(#[trigger] self@.link_libs[k]),
            decreases n - i,
        {
            if !clean_check(self.link_libs[i].as_str()) {
                assert(!clean_text(self@.link_libs[i as int]));
                return false;
            }
            assert(clean_text(self@.link_libs[i as int]));
            i = i + 1;
        }
        true
    }

    /// Serializes the manifest into its JSON form.
    pub fn encode(&self) -> (r: String)
        ensures
            r@ == manifest_json(self@),
    {
        let mut r = String::from_str("{\"link_search_dir\":\"");
        r.append(self.link_search_dir.as_str());
        r.append("\",\"assimp_license\":\"");
        r.append(self.license_path.as_str());
        r.append("\",\"link_libs\":[");
        let ghost head = "{\"link_search_dir\":\""@ + self@.link_search_dir
            + "\",\"assimp_license\":\""@ + self@.license_path + "\",\"link_libs\":["@;
        proof {
            assert(r@ =~= head);
        }
        let n = self.link_libs.len();
        let mut i: usize = 0;
        while i < n
            invariant
                i <= n,
                n == self.link_libs.len(),
                r@ == head + libs_items(self@.link_libs.take(i as int)),
            decreases n - i,
        {
            proof {
                reveal_strlit(",");
                reveal_strlit("\"");
            }
            if i > 0 {
                r.append(",");
            }
            r.append("\"");
            r.append(self.link_libs[i].as_str());
            r.append("\"");
            proof {
                let pre = self@.link_libs.take(i as int);
                lemma_libs_items_push(pre, self@.link_libs[i as int]);
                assert(pre.push(self@.link_libs[i as int]) =~= self@.link_libs.take(i + 1));
                if i == 0 {
                    assert(r@ =~= head + libs_items(self@.link_libs.take(i + 1)));
                } else {
                    assert(r@ =~= head + libs_items(self@.link_libs.take(i + 1)));
                }
            }
            i = i + 1;
        }
        proof {
            assert(self@.link_libs.take(n as int) =~= self@.link_libs);
        }
        r.append("],\"bindings_rs\":\"");
        r.append(self.bindings_path.as_str());
        r.append("\",\"target\":\"");
        r.append(self.target.as_str());
        r.append("\"}");
        proof {
            assert(r@ =~= manifest_json(self@));
        }
        r
    }

    /// Rewrites a packaged manifest's root-relative paths to absolute paths
    /// under the unpack destination. Library names and target are kept as
    /// they are.
    pub fn resolve_under(&self, dest: &str) -> (r: Manifest)
        ensures
            r@ == resolve_manifest(self@, dest@),
    {
        let r = Manifest {
            link_search_dir: join_path_exec(dest, self.link_search_dir.as_str()),
            license_path: join_path_exec(dest, self.license_path.as_str()),
            link_libs: clone_string_vec(&self.link_libs),
            bindings_path: join_path_exec(dest, self.bindings_path.as_str()),
            target: self.target.clone(),
        };
        proof {
            assert(r@.link_libs =~= self@.link_libs);
        }
        r
    }
}

/// The resolved form of a packaged manifest: every path rebased under the
/// destination directory; library names and target unchanged.
pub open spec fn resolve_manifest(m: ManifestView, dest: Seq<char>) -> ManifestView {
    ManifestView {
        link_search_dir: join_path(dest, m.link_search_dir),
        license_path: join_path(dest, m.license_path),
        link_libs: m.link_libs,
        bindings_path: join_path(dest, m.bindings_path),
        target: m.target,
    }
}

/// Copies a vector of strings.
pub fn clone_string_vec(v: &Vec<String>) -> (r: Vec<String>)
    ensures
        r.deep_view() == v.deep_view(),
{
    let mut r: Vec<String> = Vec::new();
    let n = v.len();
    let mut i: usize = 0;
    while i < n
        invariant
            i <= n,
            n == v.len(),
            r.len() == i,
            forall|k: int| 0 <= k < i ==> r.deep_view()[k] == v.deep_view()[k],
        decreases n - i,
    {
        r.push(v[i].clone());
        i = i + 1;
    }
    proof {
        assert(r.deep_view() =~= v.deep_view());
    }
    r
}

/// What reading a quoted field's remainder yields: the characters up to
/// the next double quote, and the position just past that quote.
pub open spec fn scan_str(s: Seq<char>, at: int) -> Option<(Seq<char>, int)>
    decreases s.len() - at,
    when 0 <= at <= s.len()
{
    if at >= s.len() {
        None
    } else if s[at] == '"' {
        Some((Seq::empty(), at + 1))
    } else {
        match scan_str(s, at + 1) {
            Some(p) => Some((seq![s[at]] + p.0, p.1)),
            None => None,
        }
    }
}

/// Reading a field is exactly: fail without a closing quote, else take the
/// text up to the first one.
pub proof fn lemma_scan_str_chars(s: Seq<char>, at: int)
    requires
        0 <= at <= s.len(),
    ensures
        scan_str(s, at) == (if contains_char_from(s, '"', at) {
            Some(
                (
                    s.subrange(at, first_char_at(s, '"', at)),
                    first_char_at(s, '"', at) + 1,
                ),
            )
        } else {
            None::<(Seq<char>, int)>
        }),
    decreases s.len() - at,
{
    if at >= s.len() {
    } else if s[at] == '"' {
        assert(contains_char_from(s, '"', at));
        lemma_first_char_props(s, '"', at);
        let j = first_char_at(s, '"', at);
        assert(j == at);
        assert(s.subrange(at, at) =~= Seq::<char>::empty());
    } else {
        lemma_scan_str_chars(s, at + 1);
        if contains_char_from(s, '"', at + 1) {
            lemma_first_char_props(s, '"', at + 1);
            let j1 = first_char_at(s, '"', at + 1);
            assert(contains_char_from(s, '"', at));
            lemma_first_char_props(s, '"', at);
            let j0 = first_char_at(s, '"', at);
            assert(j0 != at);
            assert(s[j0] == '"' && j0 >= at + 1);
            assert(j0 == j1);
            assert(seq![s[at]] + s.subrange(at + 1, j1) =~= s.subrange(at, j0));
        } else {
            if contains_char_from(s, '"', at) {
                let e = choose|e: int| at <= e < s.len() && s[e] == '"';
                assert(at + 1 <= e);
            }
        }
    }
}

/// Reading a field placed at `at` as `field` followed by a closing quote
/// yields that field and stops just past the quote.
pub proof fn lemma_scan_str_exact(s: Seq<char>, at: int, field: Seq<char>)
    requires
        0 <= at,
        !contains_char(field, '"'),
        matches_at(s, at, field + seq!['"']),
    ensures
        scan_str(s, at) == Some((field, at + field.len() + 1)),
{
    let w = at + field.len();
    assert(s[w] == (field + seq!['"'])[field.len() as int]) by {
        assert(s.subrange(at, at + field.len() + 1)[field.len() as int] == s[w]);
    }
    assert(s[w] == '"');
    assert(contains_char_from(s, '"', at));
    lemma_scan_str_chars(s, at);
    lemma_first_char_props(s, '"', at);
    let j = first_char_at(s, '"', at);
    assert forall|k: int| at <= k < w implies s[k] != '"' by {
        assert(s.subrange(at, at + field.len() + 1)[k - at] == s[k]);
        assert(field[k - at] == (field + seq!['"'])[k - at]);
        if s[k] == '"' {
            assert(contains_char(field, '"')) by {
                assert(field[k - at] == '"');
            }
        }
    }
    assert(j == w);
    assert(s.subrange(at, w) =~= field);
}

/// What parsing the link-library array's items yields: field after field,
/// comma-separated, up to the closing bracket.
pub open spec fn parse_libs_items(s: Seq<char>, at: int) -> Option<(Seq<Seq<char>>, int)>
    decreases s.len() - at,
    when 0 <= at <= s.len()
    via parse_libs_items_dec
{
    if at >= s.len() {
        None
    } else if s[at] == ']' {
        Some((Seq::empty(), at + 1))
    } else if s[at] == '"' {
        match scan_str(s, at + 1) {
            None => None,
            Some(p) => {
                if p.1 < s.len() && s[p.1] == ',' {
                    match parse_libs_items(s, p.1 + 1) {
                        None => None,
                        Some(q) => Some((seq![p.0] + q.0, q.1)),
                    }
                } else if p.1 < s.len() && s[p.1] == ']' {
                    Some((seq![p.0], p.1 + 1))
                } else {
                    None
                }
            },
        }
    } else {
        None
    }
}

#[via_fn]
proof fn parse_libs_items_dec(s: Seq<char>, at: int) {
    if at < s.len() && s[at] != ']' && s[at] == '"' {
        lemma_scan_str_chars(s, at + 1);
        if contains_char_from(s, '"', at + 1) {
            lemma_first_char_props(s, '"', at + 1);
        }
    }
}

/// Parsing the serialized items of a clean library list yields that list
/// and stops just past the closing bracket.
pub proof fn lemma_parse_libs_exact(s: Seq<char>, at: int, libs: Seq<Seq<char>>)
    requires
        0 <= at,
        forall|i: int| 0 <= i < libs.len() ==> !contains_char(#[trigger] libs[i], '"'),
        matches_at(s, at, libs_items(libs) + seq![']']),
    ensures
        parse_libs_items(s, at) == Some((libs, at + libs_items(libs).len() + 1)),
    decreases libs.len(),
{
    let body = libs_items(libs) + seq![']'];
    assert forall|k: int| 0 <= k < body.len() implies s[at + k] == body[k] by {
        assert(s.subrange(at, at + body.len())[k] == s[at + k]);
    }
    if libs.len() == 0 {
        assert(body[0] == ']');
        assert(s[at + 0] == body[0]);
    } else {
        let f0 = libs[0];
        assert(s[at] == '"') by {
            assert(body[0] == quoted(f0)[0]);
            assert(s[at + 0] == body[0]);
        }
        assert(s[at] != ']') by {
            reveal_strlit("\"");
        }
        if libs.len() == 1 {
            assert(matches_at(s, at + 1, f0 + seq!['"'])) by {
                assert(s.subrange(at + 1, at + 1 + f0.len() + 1) =~= f0 + seq!['"']) by {
                    assert forall|k: int| 0 <= k < f0.len() + 1 implies s[at + 1 + k] == (f0
                        + seq!['"'])[k] by {
                        assert(s[at + 1 + k] == body[1 + k]);
                    }
                }
            }
            lemma_scan_str_exact(s, at + 1, f0);
            let e = at + 1 + f0.len() + 1;
            assert(s[e] == ']') by {
                assert(body[e - at] == ']');
            }
        } else {
            let tail = libs.drop_first();
            assert(libs_items(libs) == quoted(f0) + seq![','] + libs_items(tail));
            assert(matches_at(s, at + 1, f0 + seq!['"'])) by {
                assert(s.subrange(at + 1, at + 1 + f0.len() + 1) =~= f0 + seq!['"']) by {
                    assert forall|k: int| 0 <= k < f0.len() + 1 implies s[at + 1 + k] == (f0
                        + seq!['"'])[k] by {
                        assert(s[at + 1 + k] == body[1 + k]);
                    }
                }
            }
            lemma_scan_str_exact(s, at + 1, f0);
            let e = at + 1 + f0.len() + 1;
            assert(s[e] == ',') by {
                assert(body[e - at] == ',');
            }
            assert(matches_at(s, e + 1, libs_items(tail) + seq![']'])) by {
                assert(s.subrange(e + 1, at + body.len()) =~= libs_items(tail) + seq![']']) by {
                    assert forall|k: int| 0 <= k < libs_items(tail).len() + 1 implies s[e + 1 + k]
                        == (libs_items(tail) + seq![']'])[k] by {
                        assert(s[e + 1 + k] == body[e + 1 + k - at]);
                    }
                }
            }
            assert(forall|i: int| 0 <= i < tail.len() ==> !contains_char(
                #[trigger] tail[i],
                '"',
            )) by {
                assert(forall|i: int| 0 <= i < tail.len() ==> tail[i] == libs[i + 1]);
            }
            lemma_parse_libs_exact(s, e + 1, tail);
            assert(seq![f0] + tail =~= libs);
        }
    }
}

/// What parsing the JSON form of a manifest yields: the five fields in
/// their fixed order, with nothing before, between or after them.
pub open spec fn parse_manifest_json(s: Seq<char>) -> Option<ManifestView> {
    if !matches_at(s, 0, "{\"link_search_dir\":\""@) {
        None
    } else {
        match scan_str(s, "{\"link_search_dir\":\""@.len() as int) {
            None => None,
            Some(p1) => {
                if !matches_at(s, p1.1, ",\"assimp_license\":\""@) {
                    None
                } else {
                    match scan_str(s, p1.1 + ",\"assimp_license\":\""@.len()) {
                        None => None,
                        Some(p2) => {
                            if !matches_at(s, p2.1, ",\"link_libs\":["@) {
                                None
                            } else {
                                match parse_libs_items(s, p2.1 + ",\"link_libs\":["@.len()) {
                                    None => None,
                                    Some(p3) => parse_manifest_json_tail(s, p1.0, p2.0, p3),
                                }
                            }
                        },
                    }
                }
            },
        }
    }
}

/// The tail of `parse_manifest_json`: the bindings and target fields and
/// the closing brace.
pub open spec fn parse_manifest_json_tail(
    s: Seq<char>,
    lsd: Seq<char>,
    lic: Seq<char>,
    p3: (Seq<Seq<char>>, int),
) -> Option<ManifestView> {
    if !matches_at(s, p3.1, ",\"bindings_rs\":\""@) {
        None
    } else {
        match scan_str(s, p3.1 + ",\"bindings_rs\":\""@.len()) {
            None => None,
            Some(p4) => {
                if !matches_at(s, p4.1, ",\"target\":\""@) {
                    None
                } else {
                    match scan_str(s, p4.1 + ",\"target\":\""@.len()) {
                        None => None,
                        Some(p5) => {
                            if p5.1 + 1 == s.len() && s[p5.1] == '}' {
                                Some(
                                    ManifestView {
                                        link_search_dir: lsd,
                                        license_path: lic,
                                        link_libs: p3.0,
                                        bindings_path: p4.0,
                                        target: p5.0,
                                    },
                                )
                            } else {
                                None
                            }
                        },
                    }
                }
            },
        }
    }
}

/// A piece placed between a known prefix and a known suffix of a string
/// occurs there.
proof fn lemma_matches_mid(s: Seq<char>, pre: Seq<char>, x: Seq<char>, post: Seq<char>)
    requires
        s == pre + x + post,
    ensures
        matches_at(s, pre.len() as int, x),
{
    assert(s.subrange(pre.len() as int, (pre.len() + x.len()) as int) =~= x) by {
        assert forall|k: int|
            0 <= k < x.len() implies s.subrange(pre.len() as int, (pre.len() + x.len()) as int)[k]
            == x[k] by {
            assert(s[pre.len() + k] == (pre + x + post)[pre.len() + k]);
        }
    }
}

/// The serialized items of an all-ASCII library list are ASCII.
proof fn lemma_libs_items_ascii(libs: Seq<Seq<char>>)
    requires
        forall|i: int| 0 <= i < libs.len() ==> is_ascii_chars(#[trigger] libs[i]),
    ensures
        is_ascii_chars(libs_items(libs)),
    decreases libs.len(),
{
    let q = seq!['"'];
    assert(is_ascii_chars(q)) by {
        assert(q[0] == '"');
    }
    if libs.len() == 0 {
    } else if libs.len() == 1 {
        crate::strutil::lemma_ascii_concat(q, libs[0]);
        crate::strutil::lemma_ascii_concat(q + libs[0], q);
    } else {
        let c = seq![','];
        assert(is_ascii_chars(c)) by {
            assert(c[0] == ',');
        }
        crate::strutil::lemma_ascii_concat(q, libs[0]);
        crate::strutil::lemma_ascii_concat(q + libs[0], q);
        lemma_libs_items_ascii(libs.drop_first());
        crate::strutil::lemma_ascii_concat(quoted(libs[0]), c);
        crate::strutil::lemma_ascii_concat(quoted(libs[0]) + c, libs_items(libs.drop_first()));
    }
}

/// The serialized form of a well-formed manifest is ASCII.
pub proof fn lemma_manifest_json_ascii(m: ManifestView)
    requires
        wf_manifest(m),
    ensures
        is_ascii_chars(manifest_json(m)),
{
    let l1 = "{\"link_search_dir\":\""@;
    let l2 = "\",\"assimp_license\":\""@;
    let l3 = "\",\"link_libs\":["@;
    let l4 = "],\"bindings_rs\":\""@;
    let l5 = "\",\"target\":\""@;
    let l6 = "\"}"@;
    reveal_strlit("{\"link_search_dir\":\"");
    reveal_strlit("\",\"assimp_license\":\"");
    reveal_strlit("\",\"link_libs\":[");
    reveal_strlit("],\"bindings_rs\":\"");
    reveal_strlit("\",\"target\":\"");
    reveal_strlit("\"}");
    assert(is_ascii_chars(l1));
    assert(is_ascii_chars(l2));
    assert(is_ascii_chars(l3));
    assert(is_ascii_chars(l4));
    assert(is_ascii_chars(l5));
    assert(is_ascii_chars(l6));
    lemma_libs_items_ascii(m.link_libs);
    crate::strutil::lemma_ascii_concat(l1, m.link_search_dir);
    crate::strutil::lemma_ascii_concat(l1 + m.link_search_dir, l2);
    let p2 = l1 + m.link_search_dir + l2;
    crate::strutil::lemma_ascii_concat(p2, m.license_path);
    crate::strutil::lemma_ascii_concat(p2 + m.license_path, l3);
    let p3 = p2 + m.license_path + l3;
    crate::strutil::lemma_ascii_concat(p3, libs_items(m.link_libs));
    crate::strutil::lemma_ascii_concat(p3 + libs_items(m.link_libs), l4);
    let p4 = p3 + libs_items(m.link_libs) + l4;
    crate::strutil::lemma_ascii_concat(p4, m.bindings_path);
    crate::strutil::lemma_ascii_concat(p4 + m.bindings_path, l5);
    let p5 = p4 + m.bindings_path + l5;
    crate::strutil::lemma_ascii_concat(p5, m.target);
    crate::strutil::lemma_ascii_concat(p5 + m.target, l6);
}

/// The facts the parser needs about the head of a well-formed manifest's
/// serialized form: the opening literal, the first two fields, and the
/// library array, each at its computed position.
#[verifier::rlimit(100)]
proof fn lemma_mjrt_head(m: ManifestView)
    requires
        wf_manifest(m),
    ensures
        ({
            let s = manifest_json(m);
            let l1 = "{\"link_search_dir\":\""@;
            let s2 = ",\"assimp_license\":\""@;
            let s3 = ",\"link_libs\":["@;
            let a1 = (l1.len() + m.link_search_dir.len() + 1) as int;
            let a2 = a1 + s2.len() + m.license_path.len() + 1;
            let a3 = a2 + s3.len() + libs_items(m.link_libs).len() + 1;
            &&& matches_at(s, 0, l1)
            &&& scan_str(s, l1.len() as int) == Some((m.link_search_dir, a1))
            &&& matches_at(s, a1, s2)
            &&& scan_str(s, a1 + s2.len()) == Some((m.license_path, a2))
            &&& matches_at(s, a2, s3)
            &&& parse_libs_items(s, a2 + s3.len()) == Some((m.link_libs, a3))
        }),
{
    let s = manifest_json(m);
    let q = seq!['"'];
    let rb = seq![']'];
    let cb = seq!['}'];
    let l1 = "{\"link_search_dir\":\""@;
    let s2 = ",\"assimp_license\":\""@;
    let s3 = ",\"link_libs\":["@;
    let s4 = ",\"bindings_rs\":\""@;
    let s5 = ",\"target\":\""@;
    let lsd = m.link_search_dir;
    let lic = m.license_path;
    let items = libs_items(m.link_libs);
    let bnd = m.bindings_path;
    let tgt = m.target;
    reveal_strlit("{\"link_search_dir\":\"");
    reveal_strlit("\",\"assimp_license\":\"");
    reveal_strlit("\",\"link_libs\":[");
    reveal_strlit("],\"bindings_rs\":\"");
    reveal_strlit("\",\"target\":\"");
    reveal_strlit("\"}");
    reveal_strlit(",\"assimp_license\":\"");
    reveal_strlit(",\"link_libs\":[");
    reveal_strlit(",\"bindings_rs\":\"");
    reveal_strlit(",\"target\":\"");
    assert("\",\"assimp_license\":\""@ =~= q + s2);
    assert("\",\"link_libs\":["@ =~= q + s3);
    assert("],\"bindings_rs\":\""@ =~= rb + s4);
    assert("\",\"target\":\""@ =~= q + s5);
    assert("\"}"@ =~= q + cb);

    // the serialized string, regrouped around each field
    let post1 = s2 + lic + q + s3 + items + rb + s4 + bnd + q + s5 + tgt + q + cb;
    assert(s =~= Seq::empty() + l1 + ((lsd + q) + post1));
    lemma_matches_mid(s, Seq::empty(), l1, (lsd + q) + post1);
    assert(s =~= l1 + (lsd + q) + post1);
    lemma_matches_mid(s, l1, lsd + q, post1);
    lemma_scan_str_exact(s, l1.len() as int, lsd);
    let a1: int = (l1.len() + lsd.len() + 1) as int;

    let pre2 = l1 + lsd + q;
    assert(pre2.len() == a1);
    let post2 = lic + q + s3 + items + rb + s4 + bnd + q + s5 + tgt + q + cb;
    assert(s =~= pre2 + s2 + post2);
    lemma_matches_mid(s, pre2, s2, post2);
    assert(s =~= (pre2 + s2) + (lic + q) + (s3 + items + rb + s4 + bnd + q + s5 + tgt + q + cb));
    lemma_matches_mid(s, pre2 + s2, lic + q, s3 + items + rb + s4 + bnd + q + s5 + tgt + q + cb);
    lemma_scan_str_exact(s, a1 + s2.len(), lic);
    let a2: int = a1 + s2.len() + lic.len() + 1;

    let pre3 = pre2 + s2 + lic + q;
    assert(pre3.len() == a2);
    assert(s =~= pre3 + s3 + (items + rb + s4 + bnd + q + s5 + tgt + q + cb));
    lemma_matches_mid(s, pre3, s3, items + rb + s4 + bnd + q + s5 + tgt + q + cb);
    assert(s =~= (pre3 + s3) + (items + rb) + (s4 + bnd + q + s5 + tgt + q + cb));
    lemma_matches_mid(s, pre3 + s3, items + rb, s4 + bnd + q + s5 + tgt + q + cb);
    assert forall|i: int| 0 <= i < m.link_libs.len() implies !contains_char(
        #[trigger] m.link_libs[i],
        '"',
    ) by {}
    lemma_parse_libs_exact(s, a2 + s3.len(), m.link_libs);
}

/// The facts the parser needs about the tail of a well-formed manifest's
/// serialized form: the last two fields and the closing brace, each at its
/// computed position.
#[verifier::rlimit(100)]
proof fn lemma_mjrt_tail(m: ManifestView)
    requires
        wf_manifest(m),
    ensures
        ({
            let s = manifest_json(m);
            let l1 = "{\"link_search_dir\":\""@;
            let s2 = ",\"assimp_license\":\""@;
            let s3 = ",\"link_libs\":["@;
            let s4 = ",\"bindings_rs\":\""@;
            let s5 = ",\"target\":\""@;
            let a1 = (l1.len() + m.link_search_dir.len() + 1) as int;
            let a2 = a1 + s2.len() + m.license_path.len() + 1;
            let a3 = a2 + s3.len() + libs_items(m.link_libs).len() + 1;
            let a4 = a3 + s4.len() + m.bindings_path.len() + 1;
            let a5 = a4 + s5.len() + m.target.len() + 1;
            &&& matches_at(s, a3, s4)
            &&& scan_str(s, a3 + s4.len()) == Some((m.bindings_path, a4))
            &&& matches_at(s, a4, s5)
            &&& scan_str(s, a4 + s5.len()) == Some((m.target, a5))
            &&& a5 + 1 == s.len()
            &&& s[a5] == '}'
        }),
{
    let s = manifest_json(m);
    let q = seq!['"'];
    let rb = seq![']'];
    let cb = seq!['}'];
    let l1 = "{\"link_search_dir\":\""@;
    let s2 = ",\"assimp_license\":\""@;
    let s3 = ",\"link_libs\":["@;
    let s4 = ",\"bindings_rs\":\""@;
    let s5 = ",\"target\":\""@;
    let lsd = m.link_search_dir;
    let lic = m.license_path;
    let items = libs_items(m.link_libs);
    let bnd = m.bindings_path;
    let tgt = m.target;
    reveal_strlit("{\"link_search_dir\":\"");
    reveal_strlit("\",\"assimp_license\":\"");
    reveal_strlit("\",\"link_libs\":[");
    reveal_strlit("],\"bindings_rs\":\"");
    reveal_strlit("\",\"target\":\"");
    reveal_strlit("\"}");
    reveal_strlit(",\"assimp_license\":\"");
    reveal_strlit(",\"link_libs\":[");
    reveal_strlit(",\"bindings_rs\":\"");
    reveal_strlit(",\"target\":\"");
    assert("\",\"assimp_license\":\""@ =~= q + s2);
    assert("\",\"link_libs\":["@ =~= q + s3);
    assert("],\"bindings_rs\":\""@ =~= rb + s4);
    assert("\",\"target\":\""@ =~= q + s5);
    assert("\"}"@ =~= q + cb);

    let a1: int = (l1.len() + lsd.len() + 1) as int;
    let a2: int = a1 + s2.len() + lic.len() + 1;
    let a3: int = a2 + s3.len() + items.len() + 1;
    let pre4 = l1 + lsd + q + s2 + lic + q + s3 + items + rb;
    assert(pre4.len() == a3);
    assert(s =~= pre4 + s4 + (bnd + q + s5 + tgt + q + cb));
    lemma_matches_mid(s, pre4, s4, bnd + q + s5 + tgt + q + cb);
    assert(s =~= (pre4 + s4) + (bnd + q) + (s5 + tgt + q + cb));
    lemma_matches_mid(s, pre4 + s4, bnd + q, s5 + tgt + q + cb);
    lemma_scan_str_exact(s, a3 + s4.len(), bnd);
    let a4: int = a3 + s4.len() + bnd.len() + 1;

    let pre5 = pre4 + s4 + bnd + q;
    assert(pre5.len() == a4);
    assert(s =~= pre5 + s5 + (tgt + q + cb));
    lemma_matches_mid(s, pre5, s5, tgt + q + cb);
    assert(s =~= (pre5 + s5) + (tgt + q) + cb);
    lemma_matches_mid(s, pre5 + s5, tgt + q, cb);
    lemma_scan_str_exact(s, a4 + s5.len(), tgt);
    let a5: int = a4 + s5.len() + tgt.len() + 1;

    let pre6 = pre5 + s5 + tgt + q;
    assert(pre6.len() == a5);
    assert(s =~= pre6 + cb);
    assert(s[a5] == '}') by {
        assert((pre6 + cb)[a5] == '}');
    }
    assert(a5 + 1 == s.len());
}

/// Law: decoding the serialized form of a well-formed manifest gives that
/// manifest back. Together with `lemma_parse_reconstructs` for the target
/// triple, this is the manifest half of the archive round trip.
#[verifier::rlimit(50)]
pub proof fn lemma_manifest_json_round_trip(m: ManifestView)
    requires
        wf_manifest(m),
    ensures
        parse_manifest_json(manifest_json(m)) == Some(m),
{
    let s = manifest_json(m);
    lemma_mjrt_head(m);
    lemma_mjrt_tail(m);
    assert(parse_manifest_json(s) == Some(
        ManifestView {
            link_search_dir: m.link_search_dir,
            license_path: m.license_path,
            link_libs: m.link_libs,
            bindings_path: m.bindings_path,
            target: m.target,
        },
    ));
    assert(ManifestView {
        link_search_dir: m.link_search_dir,
        license_path: m.license_path,
        link_libs: m.link_libs,
        bindings_path: m.bindings_path,
        target: m.target,
    } =~= m);
}

/// Reads a quoted field's remainder: the characters up to the next double
/// quote, and the position just past it.
fn scan_field(s: &str, at: usize) -> (r: Option<(String, usize)>)
    requires
        at <= s@.len(),
    ensures
        match r {
            Some(p) => scan_str(s@, at as int) == Some((p.0@, p.1 as int)) && at < p.1
                <= s@.len(),
            None => scan_str(s@, at as int) is None,
        },
{
    proof {
        lemma_scan_str_chars(s@, at as int);
    }
    let len = s.unicode_len();
    match find_char(s, '"', at) {
        Some(j) => {
            let f = substring(s, at, j);
            assert(j < len);
            Some((f, j + 1))
        },
        None => None,
    }
}

/// Reads the items of the link-library array up to the closing bracket.
fn parse_libs_exec(s: &str, at: usize) -> (r: Option<(Vec<String>, usize)>)
    requires
        at <= s@.len(),
    ensures
        match r {
            Some(p) => parse_libs_items(s@, at as int) == Some((p.0.deep_view(), p.1 as int))
                && p.1 <= s@.len(),
            None => parse_libs_items(s@, at as int) is None,
        },
{
    let len = s.unicode_len();
    let mut acc: Vec<String> = Vec::new();
    let mut pos = at;
    loop
        invariant
            at <= pos <= len,
            len == s@.len(),
            parse_libs_items(s@, at as int) == (match parse_libs_items(s@, pos as int) {
                Some(q) => Some((acc.deep_view() + q.0, q.1)),
                None => None::<(Seq<Seq<char>>, int)>,
            }),
        decreases len - pos,
    {
        if pos >= len {
            return None;
        }
        let c = s.get_char(pos);
        if c == ']' {
            proof {
                assert(acc.deep_view() + Seq::<Seq<char>>::empty() =~= acc.deep_view());
            }
            return Some((acc, pos + 1));
        } else if c == '"' {
            match scan_field(s, pos + 1) {
                None => {
                    return None;
                },
                Some((item, e)) => {
                    if e < len && s.get_char(e) == ',' {
                        let ghost old_dv = acc.deep_view();
                        acc.push(item);
                        proof {
                            assert(acc.deep_view() =~= old_dv.push(item@));
                            if parse_libs_items(s@, e + 1 as int) is Some {
                                let q = parse_libs_items(s@, e + 1 as int)->0;
                                assert(old_dv + (seq![item@] + q.0) =~= old_dv.push(item@) + q.0);
                            }
                        }
                        pos = e + 1;
                    } else if e < len && s.get_char(e) == ']' {
                        let ghost old_dv = acc.deep_view();
                        acc.push(item);
                        proof {
                            assert(acc.deep_view() =~= old_dv.push(item@));
                            assert(old_dv + seq![item@] =~= old_dv.push(item@));
                        }
                        return Some((acc, e + 1));
                    } else {
                        return None;
                    }
                },
            }
        } else {
            return None;
        }
    }
}

impl Manifest {
    /// Reads a manifest back from its JSON form. Only the exact output of
    /// `encode` — the five fields in their fixed order — is accepted.
    pub fn decode(s: &str) -> (r: Option<Manifest>)
        ensures
            match r {
                Some(m) => parse_manifest_json(s@) == Some(m@),
                None => parse_manifest_json(s@) is None,
            },
    {
        let len = s.unicode_len();
        if !match_lit(s, 0, "{\"link_search_dir\":\"") {
            return None;
        }
        let l1 = "{\"link_search_dir\":\"".unicode_len();
        let (lsd, a1) = match scan_field(s, l1) {
            Some(p) => p,
            None => {
                return None;
            },
        };
        if !match_lit(s, a1, ",\"assimp_license\":\"") {
            return None;
        }
        let (lic, a2) = match scan_field(s, a1 + ",\"assimp_license\":\"".unicode_len()) {
            Some(p) => p,
            None => {
                return None;
            },
        };
        if !match_lit(s, a2, ",\"link_libs\":[") {
            return None;
        }
        let (libs, a3) = match parse_libs_exec(s, a2 + ",\"link_libs\":[".unicode_len()) {
            Some(p) => p,
            None => {
                return None;
            },
        };
        if !match_lit(s, a3, ",\"bindings_rs\":\"") {
            return None;
        }
        let (bnd, a4) = match scan_field(s, a3 + ",\"bindings_rs\":\"".unicode_len()) {
            Some(p) => p,
            None => {
                return None;
            },
        };
        if !match_lit(s, a4, ",\"target\":\"") {
            return None;
        }
        let (tgt, a5) = match scan_field(s, a4 + ",\"target\":\"".unicode_len()) {
            Some(p) => p,
            None => {
                return None;
            },
        };
        if !(a5 < len && a5 + 1 == len) {
            return None;
        }
        proof {
            reveal_strlit("}");
        }
        if s.get_char(a5) != '}' {
            return None;
        }
        let m = Manifest {
            link_search_dir: lsd,
            license_path: lic,
            link_libs: libs,
            bindings_path: bnd,
            target: tgt,
        };
        proof {
            assert(m@ =~= parse_manifest_json(s@)->0);
        }
        Some(m)
    }
}

/// Checks that a string is ASCII and holds neither a quote nor a backslash.
pub fn clean_check(s: &str) -> (r: bool)
    ensures
        r == clean_text(s@),
{
    if !s.is_ascii() {
        return false;
    }
    if find_char(s, '"', 0).is_some() {
        return false;
    }
    if find_char(s, '\\', 0).is_some() {
        return false;
    }
    if find_char(s, '\0', 0).is_some() {
        return false;
    }
    true
}

} // verus!
