use dir2prompt::paths::{
    language_tag, normalize_root, rel_path, relative_or, root_or_current, tag_for_extension,
};

#[test]
fn path_below_the_root_is_shown_relative() {
    assert_eq!(rel_path("/repo", "/repo/src/main.rs"), "src/main.rs");
    assert_eq!(rel_path("/repo/", "/repo/src/main.rs"), "src/main.rs");
    assert_eq!(rel_path(".", "./a/b.txt"), "a/b.txt");
    assert_eq!(rel_path("/repo", "/repo"), "");
}

#[test]
fn path_outside_the_root_is_shown_whole() {
    assert_eq!(rel_path("/repo", "/other/x.txt"), "/other/x.txt");
    assert_eq!(rel_path("/repo", "/repository/x.txt"), "/repository/x.txt");
    assert_eq!(rel_path("/repo", "relative/x.txt"), "relative/x.txt");
}

#[test]
fn relative_or_prefers_the_remainder() {
    assert_eq!(relative_or(Some("a/b"), "/r/a/b"), "a/b");
    assert_eq!(relative_or(None, "/r/a/b"), "/r/a/b");
}

#[test]
fn language_tag_follows_the_extension() {
    assert_eq!(language_tag("/repo/src/main.rs"), "rust");
    assert_eq!(language_tag("Cargo.toml"), "toml");
    assert_eq!(language_tag("docs/README.md"), "markdown");
    assert_eq!(language_tag("a/b/c.d/script.PY"), "python");
    assert_eq!(language_tag("conf/app.Yml"), "yaml");
    assert_eq!(language_tag("prod.env"), "bash");
}

#[test]
fn language_tag_defaults_to_text() {
    assert_eq!(language_tag("Makefile"), "text");
    assert_eq!(language_tag(".env"), "text");
    assert_eq!(language_tag(".gitignore"), "text");
    assert_eq!(language_tag("archive.tar.gz"), "text");
    assert_eq!(language_tag("dir.rs/file"), "text");
    assert_eq!(language_tag("photo.jpeg"), "text");
    assert_eq!(language_tag("trailing."), "text");
    assert_eq!(language_tag(""), "text");
}

#[test]
fn every_table_entry_has_its_tag() {
    let table = [
        ("rs", "rust"),
        ("toml", "toml"),
        ("md", "markdown"),
        ("txt", "text"),
        ("json", "json"),
        ("yml", "yaml"),
        ("yaml", "yaml"),
        ("js", "javascript"),
        ("ts", "ts"),
        ("jsx", "jsx"),
        ("tsx", "tsx"),
        ("py", "python"),
        ("sh", "bash"),
        ("zsh", "zsh"),
        ("fish", "fish"),
        ("go", "go"),
        ("java", "java"),
        ("kt", "kotlin"),
        ("kts", "kotlin"),
        ("c", "c"),
        ("h", "c"),
        ("cpp", "cpp"),
        ("cc", "cpp"),
        ("cxx", "cpp"),
        ("hpp", "cpp"),
        ("hh", "cpp"),
        ("hxx", "cpp"),
        ("cs", "csharp"),
        ("swift", "swift"),
        ("rb", "ruby"),
        ("php", "php"),
        ("sql", "sql"),
        ("html", "html"),
        ("css", "css"),
        ("scss", "scss"),
        ("proto", "proto"),
        ("ini", "ini"),
        ("env", "bash"),
    ];
    for (ext, tag) in table {
        assert_eq!(tag_for_extension(ext), tag, "{}", ext);
        assert_eq!(tag_for_extension(&ext.to_uppercase()), tag, "{}", ext);
        assert_eq!(language_tag(&format!("/repo/dir/name.{}", ext)), tag, "{}", ext);
    }
}

#[test]
fn unknown_extensions_are_text() {
    assert_eq!(tag_for_extension(""), "text");
    assert_eq!(tag_for_extension("rss"), "text");
    assert_eq!(tag_for_extension("r"), "text");
    assert_eq!(tag_for_extension("\u{441}"), "text");
}

#[test]
fn empty_root_means_the_current_directory() {
    assert_eq!(root_or_current(""), ".");
    assert_eq!(root_or_current("proj"), "proj");
    assert_eq!(normalize_root("", None), ".");
    assert_eq!(normalize_root("proj", None), "proj");
}

#[test]
fn canonical_root_is_preferred() {
    assert_eq!(normalize_root("proj", Some(String::from("/home/me/proj"))), "/home/me/proj");
    assert_eq!(normalize_root("", Some(String::from("/home/me"))), "/home/me");
}
