use vstd::prelude::*;

verus! {

/// A source language known to the engine.
#[derive(Debug, Clone, Copy, PartialEq, Eq, Structural)]
pub enum Langauge {
    /// ISO C
    C,
    /// ISO C++
    CPP,
    /// C#
    CSharp,
    /// Rust
    Rust,
}

/// The kind of a source file, decided by its extension alone.
#[derive(Debug, Clone, Copy, PartialEq, Eq, Structural)]
pub enum FileType {
    /// `.c`
    CSource,
    /// `.h`
    CHeader,
    /// `.cpp`, `.c++`, `.cxx`, `.cc`
    CPPSource,
    /// `.hpp`, `.h++`, `.hxx`, `.hh`
    CPPHeader,
    /// `.cppm`, `.c++m`, `.cxxm`, `.ccm`, `.ixx`, `.ii`
    CPPModule,
    /// `.cs`
    CSharp,
    /// `.rs`
    Rust,
}

/// The classification table: the file type of an extension, matched case-sensitively.
pub open spec fn file_type_of_extension(ext: Seq<char>) -> Option<FileType> {
    if ext == "rs"@ {
        Some(FileType::Rust)
    } else if ext == "hpp"@ || ext == "h++"@ || ext == "hxx"@ || ext == "hh"@ {
        Some(FileType::CPPHeader)
    } else if ext == "cpp"@ || ext == "c++"@ || ext == "cxx"@ || ext == "cc"@ {
        Some(FileType::CPPSource)
    } else if ext == "h"@ {
        Some(FileType::CHeader)
    } else if ext == "c"@ {
        Some(FileType::CSource)
    } else if ext == "cppm"@ || ext == "c++m"@ || ext == "cxxm"@ || ext == "ccm"@ || ext
        == "ixx"@ || ext == "ii"@ {
        Some(FileType::CPPModule)
    } else if ext == "cs"@ {
        Some(FileType::CSharp)
    } else {
        None
    }
}

/// Classification is total: each extension of the table has its documented
/// file type, and every other extension has none.
pub proof fn lemma_classification_table(ext: Seq<char>)
    ensures
        file_type_of_extension("c"@) == Some(FileType::CSource),
        file_type_of_extension("h"@) == Some(FileType::CHeader),
        file_type_of_extension("cpp"@) == Some(FileType::CPPSource),
        file_type_of_extension("c++"@) == Some(FileType::CPPSource),
        file_type_of_extension("cxx"@) == Some(FileType::CPPSource),
        file_type_of_extension("cc"@) == Some(FileType::CPPSource),
        file_type_of_extension("hpp"@) == Some(FileType::CPPHeader),
        file_type_of_extension("h++"@) == Some(FileType::CPPHeader),
        file_type_of_extension("hxx"@) == Some(FileType::CPPHeader),
        file_type_of_extension("hh"@) == Some(FileType::CPPHeader),
        file_type_of_extension("cppm"@) == Some(FileType::CPPModule),
        file_type_of_extension("c++m"@) == Some(FileType::CPPModule),
        file_type_of_extension("cxxm"@) == Some(FileType::CPPModule),
        file_type_of_extension("ccm"@) == Some(FileType::CPPModule),
        file_type_of_extension("ixx"@) == Some(FileType::CPPModule),
        file_type_of_extension("ii"@) == Some(FileType::CPPModule),
        file_type_of_extension("cs"@) == Some(FileType::CSharp),
        file_type_of_extension("rs"@) == Some(FileType::Rust),
        !(ext == "c"@ || ext == "h"@ || ext == "cpp"@ || ext == "c++"@ || ext == "cxx"@ || ext == "cc"@ || ext == "hpp"@ || ext == "h++"@ || ext == "hxx"@ || ext == "hh"@ || ext == "cppm"@ || ext == "c++m"@ || ext == "cxxm"@ || ext == "ccm"@ || ext == "ixx"@ || ext == "ii"@ || ext == "cs"@ || ext == "rs"@) ==> file_type_of_extension(ext) is None,
{
    reveal_strlit("c");
    assert("c"@ =~= seq!['c']);
    reveal_strlit("h");
    assert("h"@ =~= seq!['h']);
    reveal_strlit("cpp");
    assert("cpp"@ =~= seq!['c', 'p', 'p']);
    reveal_strlit("c++");
    assert("c++"@ =~= seq!['c', '+', '+']);
    reveal_strlit("cxx");
    assert("cxx"@ =~= seq!['c', 'x', 'x']);
    reveal_strlit("cc");
    assert("cc"@ =~= seq!['c', 'c']);
    reveal_strlit("hpp");
    assert("hpp"@ =~= seq!['h', 'p', 'p']);
    reveal_strlit("h++");
    assert("h++"@ =~= seq!['h', '+', '+']);
    reveal_strlit("hxx");
    assert("hxx"@ =~= seq!['h', 'x', 'x']);
    reveal_strlit("hh");
    assert("hh"@ =~= seq!['h', 'h']);
    reveal_strlit("cppm");
    assert("cppm"@ =~= seq!['c', 'p', 'p', 'm']);
    reveal_strlit("c++m");
    assert("c++m"@ =~= seq!['c', '+', '+', 'm']);
    reveal_strlit("cxxm");
    assert("cxxm"@ =~= seq!['c', 'x', 'x', 'm']);
    reveal_strlit("ccm");
    assert("ccm"@ =~= seq!['c', 'c', 'm']);
    reveal_strlit("ixx");
    assert("ixx"@ =~= seq!['i', 'x', 'x']);
    reveal_strlit("ii");
    assert("ii"@ =~= seq!['i', 'i']);
    reveal_strlit("cs");
    assert("cs"@ =~= seq!['c', 's']);
    reveal_strlit("rs");
    assert("rs"@ =~= seq!['r', 's']);
    assert("c"@[0] != "h"@[0]);
}

/// The index of the last occurrence of `c` in `s`, or -1 when there is none.
pub open spec fn last_index_of(s: Seq<char>, c: char) -> int
    decreases s.len(),
{
    if s.len() == 0 {
        -1
    } else if s.last() == c {
        s.len() - 1
    } else {
        last_index_of(s.drop_last(), c)
    }
}

/// The file name of a `/`-separated path: its last component that is
/// neither empty nor `.`, so trailing separators and `.` components are
/// passed over. A path whose last such component is `..`, or that has none,
/// has no file name.
pub open spec fn file_name_of(path: Seq<char>) -> Option<Seq<char>>
    decreases path.len(),
{
    if path.len() == 0 {
        None
    } else {
        let slash = last_index_of(path, '/');
        let seg = path.subrange(slash + 1, path.len() as int);
        if seg.len() == 0 || seg == seq!['.'] {
            if 0 <= slash < path.len() {
                file_name_of(path.subrange(0, slash))
            } else {
                None
            }
        } else if seg == seq!['.', '.'] {
            None
        } else {
            Some(seg)
        }
    }
}

/// The extension of a path: what follows the last dot of its file name.
/// A name without a dot and a name whose only dot leads it (`.profile`)
/// have none.
pub open spec fn extension_of(path: Seq<char>) -> Option<Seq<char>> {
    match file_name_of(path) {
        None => None,
        Some(name) => {
            let dot = last_index_of(name, '.');
            if dot <= 0 {
                None
            } else {
                Some(name.subrange(dot + 1, name.len() as int))
            }
        },
    }
}

/// The file type of a path: its extension looked up in the table.
pub open spec fn file_type_of_path(path: Seq<char>) -> Option<FileType> {
    match extension_of(path) {
        Some(ext) => file_type_of_extension(ext),
        None => None,
    }
}

proof fn lemma_last_index_of(s: Seq<char>, c: char, j: int)
    requires
        -1 <= j < s.len(),
        j >= 0 ==> s[j] == c,
        forall|k: int| j < k < s.len() ==> s[k] != c,
    ensures
        last_index_of(s, c) == j,
    decreases s.len(),
{
    if s.len() > 0 && j != s.len() - 1 {
        assert(s.last() != c);
        lemma_last_index_of(s.drop_last(), c, j);
    }
}

/// Character-wise equality of two strings.
pub fn str_eq(a: &str, b: &str) -> (r: bool)
    ensures
        r == (a@ == b@),
{
    let n = a.unicode_len();
    let m = b.unicode_len();
    if n != m {
        return false;
    }
    let mut i: usize = 0;
    while i < n
        invariant
            n == a@.len(),
            m == b@.len(),
            n == m,
            i <= n,
            a@.subrange(0, i as int) == b@.subrange(0, i as int),
        decreases n - i,
    {
        if a.get_char(i) != b.get_char(i) {
            assert(a@[i as int] != b@[i as int]);
            return false;
        }
        assert(a@.subrange(0, i + 1) == a@.subrange(0, i as int).push(a@[i as int]));
        assert(b@.subrange(0, i + 1) == b@.subrange(0, i as int).push(b@[i as int]));
        i = i + 1;
    }
    assert(a@ == a@.subrange(0, n as int));
    assert(b@ == b@.subrange(0, n as int));
    true
}

/// Searches `s[from..to]` backwards for `c`; returns the index, or `from` when
/// `c` does not occur there (the caller tells the two apart by `found`).
fn find_last(s: &str, c: char, from: usize, to: usize) -> (r: (bool, usize))
    requires
        from <= to <= s@.len(),
    ensures
        r.0 ==> from <= r.1 < to && s@[r.1 as int] == c,
        !r.0 ==> r.1 == from,
        forall|k: int| (if r.0 { r.1 + 1 } else { from as int }) <= k < to ==> s@[k] != c,
{
    let mut i: usize = to;
    while i > from
        invariant
            from <= i <= to <= s@.len(),
            forall|k: int| i <= k < to ==> s@[k] != c,
        decreases i,
    {
        if s.get_char(i - 1) == c {
            return (true, i - 1);
        }
        i = i - 1;
    }
    (false, from)
}

impl FileType {
    /// Looks an extension (without its dot) up in the classification table.
    pub fn from_file_extension(ext: &str) -> (r: Option<FileType>)
        ensures
            r == file_type_of_extension(ext@),
    {
        if str_eq(ext, "rs") {
            Some(FileType::Rust)
        } else if str_eq(ext, "hpp") || str_eq(ext, "h++") || str_eq(ext, "hxx") || str_eq(
            ext,
            "hh",
        ) {
            Some(FileType::CPPHeader)
        } else if str_eq(ext, "cpp") || str_eq(ext, "c++") || str_eq(ext, "cxx") || str_eq(
            ext,
            "cc",
        ) {
            Some(FileType::CPPSource)
        } else if str_eq(ext, "h") {
            Some(FileType::CHeader)
        } else if str_eq(ext, "c") {
            Some(FileType::CSource)
        } else if str_eq(ext, "cppm") || str_eq(ext, "c++m") || str_eq(ext, "cxxm") || str_eq(
            ext,
            "ccm",
        ) || str_eq(ext, "ixx") || str_eq(ext, "ii") {
            Some(FileType::CPPModule)
        } else if str_eq(ext, "cs") {
            Some(FileType::CSharp)
        } else {
            None
        }
    }

    /// Classifies a path by the extension of its file name.
    pub fn from_file(path: &str) -> (r: Option<FileType>)
        ensures
            r == file_type_of_path(path@),
    {
        let ghost p = path@;
        let n = path.unicode_len();
        let mut end: usize = n;
        // Pass over trailing separators and `.` components.
        let mut start: usize = 0;
        assert(p.subrange(0, n as int) =~= p);
        loop
            invariant_except_break
                p == path@,
                end <= n == p.len(),
                file_name_of(p) == file_name_of(p.subrange(0, end as int)),
            ensures
                p == path@,
                start < end <= n == p.len(),
                file_name_of(p) == Some(p.subrange(start as int, end as int)),
            decreases end,
        {
            let ghost q = p.subrange(0, end as int);
            let (has_slash, slash) = find_last(path, '/', 0, end);
            proof {
                let j = if has_slash { slash as int } else { -1 };
                assert forall|k: int| j < k < q.len() implies q[k] != '/' by {
                    assert(q[k] == p[k]);
                }
                if has_slash {
                    assert(q[slash as int] == p[slash as int]);
                }
                lemma_last_index_of(q, '/', j);
            }
            let s0: usize = if has_slash { slash + 1 } else { 0 };
            let ghost seg = q.subrange(s0 as int, end as int);
            assert(seg == q.subrange(last_index_of(q, '/') + 1, q.len() as int));
            if end == 0 {
                return None;
            }
            if s0 == end || (end - s0 == 1 && path.get_char(s0) == '.') {
                assert(seg.len() == 0 || seg =~= seq!['.']) by {
                    if s0 < end {
                        assert(seg[0] == p[s0 as int]);
                    }
                }
                if !has_slash {
                    return None;
                }
                assert(q.subrange(0, slash as int) =~= p.subrange(0, slash as int));
                end = slash;
            } else {
                assert(seg.len() != 0 && seg != seq!['.']) by {
                    if seg == seq!['.'] {
                        assert(seg[0] == p[s0 as int]);
                    }
                }
                if end - s0 == 2 && path.get_char(s0) == '.' && path.get_char(s0 + 1) == '.' {
                    assert(seg =~= seq!['.', '.']) by {
                        assert(seg[0] == p[s0 as int]);
                        assert(seg[1] == p[s0 + 1]);
                    }
                    return None;
                }
                assert(seg != seq!['.', '.']) by {
                    if seg == seq!['.', '.'] {
                        assert(seg[0] == p[s0 as int]);
                        assert(seg[1] == p[s0 + 1]);
                    }
                }
                assert(file_name_of(q) == Some(seg));
                start = s0;
                break;
            }
        }
        let ghost name = p.subrange(start as int, end as int);
        assert(file_name_of(p) == Some(name));
        let (has_dot, dot) = find_last(path, '.', start, end);
        proof {
            let j = if has_dot { dot - start } else { -1 };
            assert forall|k: int| j < k < name.len() implies name[k] != '.' by {
                assert(name[k] == p[start + k]);
            }
            lemma_last_index_of(name, '.', j);
        }
        if !has_dot || dot == start {
            return None;
        }
        let ext = path.substring_char(dot + 1, end);
        assert(ext@ =~= name.subrange(dot - start + 1, name.len() as int));
        FileType::from_file_extension(ext)
    }
}

/// Identity of a toolchain: its name, its version and the language it compiles.
#[derive(Debug, Clone)]
pub struct ComplierInfo {
    /// e.g. rustc/MSVC/MinGW
    name: String,
    version: String,
    langauge: Langauge,
}

/// The mathematical value of a [`ComplierInfo`].
pub struct ComplierInfoView {
    pub name: Seq<char>,
    pub version: Seq<char>,
    pub langauge: Langauge,
}

impl View for ComplierInfo {
    type V = ComplierInfoView;

    closed spec fn view(&self) -> ComplierInfoView {
        ComplierInfoView { name: self.name@, version: self.version@, langauge: self.langauge }
    }
}

impl ComplierInfo {
    pub fn new(name: String, version: String, langauge: Langauge) -> (r: ComplierInfo)
        ensures
            r@ == (ComplierInfoView { name: name@, version: version@, langauge }),
    {
        ComplierInfo { name, version, langauge }
    }

    pub fn name(&self) -> (r: &str)
        ensures
            r@ == self@.name,
    {
        self.name.as_str()
    }

    pub fn version(&self) -> (r: &str)
        ensures
            r@ == self@.version,
    {
        self.version.as_str()
    }

    pub fn langauge(&self) -> (r: Langauge)
        ensures
            r == self@.langauge,
    {
        self.langauge
    }
}

/// A language with a display name.
pub trait LanguageInfo {
    spec fn lang_name_spec() -> Seq<char>;

    fn lang_name() -> (r: String)
        ensures
            r@ == Self::lang_name_spec(),
    ;
}

/// ISO C.
pub struct C;

/// ISO C++.
pub struct CPP;

/// C#.
pub struct CSharp;

/// Rust.
pub struct Rust;

impl LanguageInfo for C {
    open spec fn lang_name_spec() -> Seq<char> {
        "C"@
    }

    fn lang_name() -> (r: String) {
        String::from_str("C")
    }
}

impl LanguageInfo for CPP {
    open spec fn lang_name_spec() -> Seq<char> {
        "C++"@
    }

    fn lang_name() -> (r: String) {
        String::from_str("C++")
    }
}

impl LanguageInfo for CSharp {
    open spec fn lang_name_spec() -> Seq<char> {
        "C#"@
    }

    fn lang_name() -> (r: String) {
        String::from_str("C#")
    }
}

impl LanguageInfo for Rust {
    open spec fn lang_name_spec() -> Seq<char> {
        "Rust"@
    }

    fn lang_name() -> (r: String) {
        String::from_str("Rust")
    }
}

} // verus!
