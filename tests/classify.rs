use abuild::lang::{ComplierInfo, FileType, Langauge, LanguageInfo, C, CPP, CSharp, Rust};

#[test]
fn every_table_extension_classifies() {
    let table = [
        ("c", FileType::CSource),
        ("h", FileType::CHeader),
        ("cpp", FileType::CPPSource),
        ("c++", FileType::CPPSource),
        ("cxx", FileType::CPPSource),
        ("cc", FileType::CPPSource),
        ("hpp", FileType::CPPHeader),
        ("h++", FileType::CPPHeader),
        ("hxx", FileType::CPPHeader),
        ("hh", FileType::CPPHeader),
        ("cppm", FileType::CPPModule),
        ("c++m", FileType::CPPModule),
        ("cxxm", FileType::CPPModule),
        ("ccm", FileType::CPPModule),
        ("ixx", FileType::CPPModule),
        ("ii", FileType::CPPModule),
        ("cs", FileType::CSharp),
        ("rs", FileType::Rust),
    ];
    for (ext, expected) in table {
        assert_eq!(FileType::from_file_extension(ext), Some(expected), "extension {ext}");
    }
}

#[test]
fn unknown_extensions_classify_as_none() {
    for ext in ["", "RS", "C", "Cpp", "txt", "r", "rss", "hp", "cppx", "md", "toml", ".rs"] {
        assert_eq!(FileType::from_file_extension(ext), None, "extension {ext:?}");
    }
}

#[test]
fn from_file_uses_the_last_extension_of_the_file_name() {
    assert_eq!(FileType::from_file("src/main.rs"), Some(FileType::Rust));
    assert_eq!(FileType::from_file("/abs/dir/util.cpp"), Some(FileType::CPPSource));
    assert_eq!(FileType::from_file("lib.h"), Some(FileType::CHeader));
    assert_eq!(FileType::from_file("a/b.c++m"), Some(FileType::CPPModule));
    assert_eq!(FileType::from_file("archive.tar.cs"), Some(FileType::CSharp));
    assert_eq!(FileType::from_file("archive.rs.txt"), None);
}

#[test]
fn from_file_without_extension_is_none() {
    assert_eq!(FileType::from_file("Makefile"), None);
    assert_eq!(FileType::from_file("src/.rs"), None);
    assert_eq!(FileType::from_file(".."), None);
    assert_eq!(FileType::from_file("dir.rs/Makefile"), None);
    assert_eq!(FileType::from_file("trailing."), None);
    assert_eq!(FileType::from_file(""), None);
    assert_eq!(FileType::from_file("main.RS"), None);
}

#[test]
fn from_file_passes_over_trailing_separators() {
    assert_eq!(FileType::from_file("main.rs/"), Some(FileType::Rust));
    assert_eq!(FileType::from_file("src/main.rs//"), Some(FileType::Rust));
    assert_eq!(FileType::from_file("lib/b.cc/"), Some(FileType::CPPSource));
}

#[test]
fn from_file_passes_over_trailing_dot_components() {
    assert_eq!(FileType::from_file("main.rs/."), Some(FileType::Rust));
    assert_eq!(FileType::from_file("a/b.c/./"), Some(FileType::CSource));
    assert_eq!(FileType::from_file("./x.h"), Some(FileType::CHeader));
    assert_eq!(FileType::from_file("main.rs/.."), None);
    assert_eq!(FileType::from_file("/"), None);
    assert_eq!(FileType::from_file("."), None);
    assert_eq!(FileType::from_file("./."), None);
}

#[test]
fn from_file_handles_non_ascii_names() {
    assert_eq!(FileType::from_file("src/über/ファイル.rs"), Some(FileType::Rust));
    assert_eq!(FileType::from_file("src/ü.ß"), None);
}

#[test]
fn language_names() {
    assert_eq!(C::lang_name(), "C");
    assert_eq!(CPP::lang_name(), "C++");
    assert_eq!(CSharp::lang_name(), "C#");
    assert_eq!(Rust::lang_name(), "Rust");
}

#[test]
fn compiler_info_keeps_its_fields() {
    let info = ComplierInfo::new("rustc".to_string(), "1.80.0".to_string(), Langauge::Rust);
    assert_eq!(info.name(), "rustc");
    assert_eq!(info.version(), "1.80.0");
    assert_eq!(info.langauge(), Langauge::Rust);
}

#[test]
fn str_eq_compares_characters() {
    assert!(abuild::lang::str_eq("abc", "abc"));
    assert!(!abuild::lang::str_eq("abc", "abd"));
    assert!(!abuild::lang::str_eq("abc", "ab"));
    assert!(abuild::lang::str_eq("", ""));
}
