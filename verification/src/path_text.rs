//! Character-level reading of repository paths: ASCII lowercasing, the part
//! after a separator, prefixes, the publishable-length limit, file
//! languages and the name-based repository features.
use vstd::prelude::*;

use crate::evidence::PortablePathEncoding;
use crate::text::chars_of;

verus! {

/// An ASCII capital letter lowered; every other character kept.
pub open spec fn ascii_lower_char(c: char) -> char {
    if 'A' <= c <= 'Z' {
        ((c as u32) + 32) as char
    } else {
        c
    }
}

/// A text with its ASCII capitals lowered.
pub open spec fn ascii_lower(s: Seq<char>) -> Seq<char> {
    s.map_values(|c: char| ascii_lower_char(c))
}

/// Lowers the ASCII capitals of a character list.
pub fn lower_ascii(cs: &Vec<char>) -> (r: Vec<char>)
    ensures
        r@ == ascii_lower(cs@),
{
    let mut r: Vec<char> = Vec::new();
    let mut i: usize = 0;
    while i < cs.len()
        invariant
            i <= cs@.len(),
            r@ == ascii_lower(cs@.subrange(0, i as int)),
        decreases cs.len() - i,
    {
        let c = cs[i];
        let l = if 'A' <= c && c <= 'Z' {
            ((c as u8) + 32) as char
        } else {
            c
        };
        r.push(l);
        assert(ascii_lower(cs@.subrange(0, i + 1)) =~= ascii_lower(cs@.subrange(0, i as int)).push(
            ascii_lower_char(c),
        ));
        i = i + 1;
    }
    assert(cs@.subrange(0, cs@.len() as int) =~= cs@);
    r
}

/// `p` is the last position of `sep` in `s`, or -1 when `s` has none.
pub open spec fn last_sep(s: Seq<char>, sep: char, p: int) -> bool {
    &&& -1 <= p < s.len()
    &&& (p >= 0 ==> s[p] == sep)
    &&& forall|q: int| p < q < s.len() ==> s[q] != sep
}

/// The part of `s` after its last `sep`; all of `s` when it has none.
pub open spec fn after_last(s: Seq<char>, sep: char) -> Seq<char> {
    let p = choose|p: int| last_sep(s, sep, p);
    s.subrange(p + 1, s.len() as int)
}

proof fn lemma_last_sep_unique(s: Seq<char>, sep: char, p: int, q: int)
    requires
        last_sep(s, sep, p),
        last_sep(s, sep, q),
    ensures
        p == q,
{
    if p < q {
        assert(s[q] == sep);
    } else if q < p {
        assert(s[p] == sep);
    }
}

/// The characters after the last `sep`.
pub fn after_last_chars(cs: &Vec<char>, sep: char) -> (r: Vec<char>)
    ensures
        r@ == after_last(cs@, sep),
{
    let n = cs.len();
    let mut k: usize = n;
    while k > 0 && cs[k - 1] != sep
        invariant
            k <= n,
            n == cs@.len(),
            forall|q: int| k <= q < n ==> cs@[q] != sep,
        decreases k,
    {
        k = k - 1;
    }
    let ghost p = k - 1;
    assert(last_sep(cs@, sep, p));
    proof {
        let c = choose|p: int| last_sep(cs@, sep, p);
        lemma_last_sep_unique(cs@, sep, p, c);
    }
    let mut r: Vec<char> = Vec::new();
    let mut i: usize = k;
    while i < n
        invariant
            k <= i <= n,
            n == cs@.len(),
            r@ == cs@.subrange(k as int, i as int),
        decreases n - i,
    {
        r.push(cs[i]);
        assert(r@ =~= cs@.subrange(k as int, i + 1));
        i = i + 1;
    }
    r
}

/// Whether `prefix` starts `s`.
pub open spec fn starts_with(s: Seq<char>, prefix: Seq<char>) -> bool {
    prefix.len() <= s.len() && s.subrange(0, prefix.len() as int) == prefix
}

/// Whether a character list starts with a text.
pub fn chars_start_with(cs: &Vec<char>, prefix: &str) -> (r: bool)
    ensures
        r == starts_with(cs@, prefix@),
{
    let p = chars_of(prefix);
    if p.len() > cs.len() {
        return false;
    }
    let mut i: usize = 0;
    while i < p.len()
        invariant
            p@ == prefix@,
            p@.len() <= cs@.len(),
            i <= p@.len(),
            forall|q: int| 0 <= q < i ==> cs@[q] == p@[q],
        decreases p.len() - i,
    {
        if cs[i] != p[i] {
            assert(cs@.subrange(0, p@.len() as int)[i as int] != p@[i as int]);
            return false;
        }
        i = i + 1;
    }
    assert(cs@.subrange(0, p@.len() as int) =~= p@);
    true
}

/// Whether a character list equals a text.
pub fn chars_equal(cs: &Vec<char>, t: &str) -> (r: bool)
    ensures
        r == (cs@ == t@),
{
    let p = chars_of(t);
    if p.len() != cs.len() {
        return false;
    }
    let mut i: usize = 0;
    while i < p.len()
        invariant
            p@ == t@,
            p@.len() == cs@.len(),
            i <= p@.len(),
            forall|q: int| 0 <= q < i ==> cs@[q] == p@[q],
        decreases p.len() - i,
    {
        if cs[i] != p[i] {
            return false;
        }
        i = i + 1;
    }
    assert(cs@ =~= p@);
    true
}

/// The longest path value, in characters, that public records carry.
pub open spec fn public_path_limit() -> int {
    8192
}

/// Whether a path value is short enough to publish.
pub fn path_value_publishable(value: &str) -> (r: bool)
    ensures
        r == (value@.len() <= public_path_limit()),
{
    let cs = chars_of(value);
    cs.len() <= 8192
}

/// The lowercased file name of a path: the part after its last `/`.
pub open spec fn file_name(path: Seq<char>) -> Seq<char> {
    after_last(ascii_lower(path), '/')
}

/// The lowercased extension of a path: the part after its last `.`.
pub open spec fn file_extension(path: Seq<char>) -> Seq<char> {
    ascii_lower(after_last(path, '.'))
}

/// The language a UTF-8 path's extension names, with its availability.
pub open spec fn language_of(encoding: PortablePathEncoding, path: Seq<char>) -> (Option<Seq<char>>, Seq<char>) {
    let ext = file_extension(path);
    if encoding != PortablePathEncoding::Utf8 {
        (None, "unsupported"@)
    } else if ext == "js"@ || ext == "mjs"@ || ext == "cjs"@ {
        (Some("JavaScript"@), "complete"@)
    } else if ext == "ts"@ {
        (Some("TypeScript"@), "complete"@)
    } else if ext == "tsx"@ {
        (Some("TSX"@), "complete"@)
    } else if ext == "py"@ {
        (Some("Python"@), "complete"@)
    } else {
        (None, "unsupported"@)
    }
}

/// Detects the language of a path from its extension.
pub fn language(encoding: PortablePathEncoding, path: &str) -> (r: (Option<&'static str>, &'static str))
    ensures
        (match r.0 {
            Some(t) => Some(t@),
            None => None,
        }, r.1@) == language_of(encoding, path@),
{
    if encoding != PortablePathEncoding::Utf8 {
        return (None, "unsupported");
    }
    let cs = chars_of(path);
    let ext_raw = after_last_chars(&cs, '.');
    let ext = lower_ascii(&ext_raw);
    if chars_equal(&ext, "js") || chars_equal(&ext, "mjs") || chars_equal(&ext, "cjs") {
        (Some("JavaScript"), "complete")
    } else if chars_equal(&ext, "ts") {
        (Some("TypeScript"), "complete")
    } else if chars_equal(&ext, "tsx") {
        (Some("TSX"), "complete")
    } else if chars_equal(&ext, "py") {
        (Some("Python"), "complete")
    } else {
        (None, "unsupported")
    }
}

/// The repository features read from file names.
#[derive(Clone, Copy, Debug, PartialEq, Eq, Structural)]
pub enum PathFeature {
    Readme,
    License,
    PackageManifest,
}

/// Whether a path names a file of a name-based feature.
pub open spec fn path_matches(feature: PathFeature, path: Seq<char>) -> bool {
    let name = file_name(path);
    match feature {
        PathFeature::Readme => starts_with(name, "readme"@),
        PathFeature::License => starts_with(name, "license"@) || name == "copying"@,
        PathFeature::PackageManifest => name == "package.json"@ || name == "pyproject.toml"@ || name
            == "setup.py"@ || name == "setup.cfg"@,
    }
}

impl PathFeature {
    /// Whether a path names a file of this feature.
    pub fn matches(self, path: &str) -> (r: bool)
        ensures
            r == path_matches(self, path@),
    {
        let cs = chars_of(path);
        let lower = lower_ascii(&cs);
        let name = after_last_chars(&lower, '/');
        match self {
            PathFeature::Readme => chars_start_with(&name, "readme"),
            PathFeature::License => chars_start_with(&name, "license") || chars_equal(&name, "copying"),
            PathFeature::PackageManifest => chars_equal(&name, "package.json") || chars_equal(
                &name,
                "pyproject.toml",
            ) || chars_equal(&name, "setup.py") || chars_equal(&name, "setup.cfg"),
        }
    }
}

/// The part after the last separator of `a`, the separator and a
/// separator-free `b` is `b`.
proof fn lemma_after_last_join(a: Seq<char>, sep: char, b: Seq<char>)
    requires
        !b.contains(sep),
    ensures
        after_last(a + seq![sep] + b, sep) == b,
{
    let s = a + seq![sep] + b;
    assert forall|q: int| a.len() < q < s.len() implies s[q] != sep by {
        assert(s[q] == b[q - a.len() - 1]);
    }
    assert(last_sep(s, sep, a.len() as int));
    let p = choose|p: int| last_sep(s, sep, p);
    lemma_last_sep_unique(s, sep, p, a.len() as int);
    assert(s.subrange(a.len() as int + 1, s.len() as int) =~= b);
}

/// A separator-free text is its own part after the last separator.
proof fn lemma_after_last_none(b: Seq<char>, sep: char)
    requires
        !b.contains(sep),
    ensures
        after_last(b, sep) == b,
{
    assert forall|q: int| -1 < q < b.len() implies b[q] != sep by {
        if b[q] == sep {
            assert(b.contains(sep));
        }
    }
    assert(last_sep(b, sep, -1));
    let p = choose|p: int| last_sep(b, sep, p);
    lemma_last_sep_unique(b, sep, p, -1);
    assert(b.subrange(0, b.len() as int) =~= b);
}

/// Lowering keeps a text free of a separator that is not a capital letter.
proof fn lemma_lower_keeps_separator_free(b: Seq<char>, sep: char)
    requires
        !b.contains(sep),
        !('A' <= sep <= 'Z'),
        !('a' <= sep <= 'z'),
    ensures
        !ascii_lower(b).contains(sep),
{
    if ascii_lower(b).contains(sep) {
        let i = choose|i: int| 0 <= i < ascii_lower(b).len() && ascii_lower(b)[i] == sep;
        assert(ascii_lower(b)[i] == ascii_lower_char(b[i]));
        if 'A' <= b[i] <= 'Z' {
            assert(((b[i] as u32) + 32) as char == sep);
            assert('a' <= ((b[i] as u32) + 32) as char <= 'z');
        }
        assert(b.contains(b[i]));
    }
}

/// The file name of a path, with or without a directory before it, is its
/// last segment, lowered.
pub proof fn law_file_name_is_the_last_segment(dir: Seq<char>, name: Seq<char>)
    requires
        !name.contains('/'),
    ensures
        file_name(dir + seq!['/'] + name) == ascii_lower(name),
        file_name(name) == ascii_lower(name),
{
    lemma_lower_keeps_separator_free(name, '/');
    assert(ascii_lower(dir + seq!['/'] + name) =~= ascii_lower(dir) + seq!['/'] + ascii_lower(name));
    lemma_after_last_join(ascii_lower(dir), '/', ascii_lower(name));
    lemma_after_last_none(ascii_lower(name), '/');
}

/// The name-based features read only a path's last segment, case-blind: a
/// README is a file whose lowered name starts with `readme`; a license one
/// starting with `license` or named `copying`; a package manifest one named
/// `package.json`, `pyproject.toml`, `setup.py` or `setup.cfg`, wherever it
/// stands.
pub proof fn law_path_features_read_the_file_name(dir: Seq<char>, name: Seq<char>)
    requires
        !name.contains('/'),
    ensures
        path_matches(PathFeature::PackageManifest, dir + seq!['/'] + name) == path_matches(
            PathFeature::PackageManifest,
            name,
        ),
        path_matches(PathFeature::Readme, dir + seq!['/'] + name) == path_matches(PathFeature::Readme, name),
        path_matches(PathFeature::License, dir + seq!['/'] + name) == path_matches(PathFeature::License, name),
        path_matches(PathFeature::PackageManifest, name) <==> (ascii_lower(name) == "package.json"@
            || ascii_lower(name) == "pyproject.toml"@ || ascii_lower(name) == "setup.py"@ || ascii_lower(name)
            == "setup.cfg"@),
        path_matches(PathFeature::Readme, name) <==> starts_with(ascii_lower(name), "readme"@),
        path_matches(PathFeature::License, name) <==> (starts_with(ascii_lower(name), "license"@)
            || ascii_lower(name) == "copying"@),
{
    law_file_name_is_the_last_segment(dir, name);
}

/// The language of a UTF-8 path is read from its lowered extension: `js`,
/// `mjs` and `cjs` are JavaScript, `ts` TypeScript, `tsx` TSX and `py`
/// Python, each complete; any other extension, and any path that is not
/// UTF-8, is unsupported.
pub proof fn law_languages_follow_the_extension(stem: Seq<char>, ext: Seq<char>, encoding: PortablePathEncoding)
    requires
        !ext.contains('.'),
    ensures
        ({
            let e = ascii_lower(ext);
            let l = language_of(PortablePathEncoding::Utf8, stem + seq!['.'] + ext);
            &&& e == "js"@ || e == "mjs"@ || e == "cjs"@ ==> l == (Some("JavaScript"@), "complete"@)
            &&& e == "ts"@ ==> l == (Some("TypeScript"@), "complete"@)
            &&& e == "tsx"@ ==> l == (Some("TSX"@), "complete"@)
            &&& e == "py"@ ==> l == (Some("Python"@), "complete"@)
            &&& !(e == "js"@ || e == "mjs"@ || e == "cjs"@ || e == "ts"@ || e == "tsx"@ || e == "py"@) ==> l
                == (None::<Seq<char>>, "unsupported"@)
        }),
        encoding != PortablePathEncoding::Utf8 ==> language_of(encoding, stem + seq!['.'] + ext) == (
            None::<Seq<char>>,
            "unsupported"@,
        ),
{
    lemma_after_last_join(stem, '.', ext);
    reveal_strlit("js");
    reveal_strlit("mjs");
    reveal_strlit("cjs");
    reveal_strlit("ts");
    reveal_strlit("tsx");
    reveal_strlit("py");
    assert("ts"@.len() == 2 && "js"@.len() == 2 && "py"@.len() == 2);
    assert("mjs"@.len() == 3 && "cjs"@.len() == 3 && "tsx"@.len() == 3);
    assert("ts"@[0] != "js"@[0]);
    assert("py"@[0] != "js"@[0] && "py"@[0] != "ts"@[0]);
    assert("tsx"@[0] != "mjs"@[0] && "tsx"@[0] != "cjs"@[0]);
}

/// A path value is published only when it holds at most 8192 characters.
pub proof fn law_public_paths_hold_at_most_8192_characters()
    ensures
        public_path_limit() == 8192,
{
}

} // verus!
