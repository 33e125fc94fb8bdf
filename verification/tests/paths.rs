use blarf::path::{file_name_of, file_stem_of, join_paths};
use std::path::Path;

#[test]
fn file_name_follows_the_last_separator() {
    assert_eq!(file_name_of("styles.css"), "styles.css");
    assert_eq!(file_name_of("assets/css/my.css"), "my.css");
    assert_eq!(file_name_of("/my.css"), "my.css");
    assert_eq!(file_name_of("./a/b"), "b");
}

#[test]
fn file_name_of_a_path_that_names_no_file() {
    assert_eq!(file_name_of(""), "");
    assert_eq!(file_name_of("assets/"), "");
    assert_eq!(file_name_of("/"), "");
}

#[test]
fn file_name_keeps_characters_of_any_width() {
    assert_eq!(file_name_of("día/ñandú.css"), "ñandú.css");
}

#[test]
fn stem_drops_the_extension() {
    assert_eq!(file_stem_of("1-my-first-post.md"), "1-my-first-post");
    assert_eq!(file_stem_of("archive.tar.gz"), "archive.tar");
    assert_eq!(file_stem_of("trailing."), "trailing");
}

#[test]
fn stem_of_a_name_without_extension() {
    assert_eq!(file_stem_of("README"), "README");
    assert_eq!(file_stem_of(""), "");
    assert_eq!(file_stem_of(".hidden"), ".hidden");
}

#[test]
fn stem_of_a_hidden_file_with_extension() {
    assert_eq!(file_stem_of(".hidden.md"), ".hidden");
}

#[test]
fn stem_agrees_with_the_standard_library() {
    let names = ["1-a.md", "2-b.markdown", "no-extension", ".profile", ".profile.bak", "a.b.c", "x.", "ünï.cödé", "já.md", "a..b"];
    for name in names {
        let by_std = Path::new(name).file_stem().and_then(|s| s.to_str());
        assert_eq!(Some(file_stem_of(name)), by_std, "for {:?}", name);
    }
}

#[test]
fn file_name_agrees_with_the_standard_library() {
    let paths = ["styles.css", "a/b/c.css", "/abs/x.css", "rel/dir/file", "día/ñ.css"];
    for path in paths {
        let by_std = Path::new(path).file_name().and_then(|s| s.to_str());
        assert_eq!(Some(file_name_of(path)), by_std, "for {:?}", path);
    }
}

#[test]
fn join_puts_one_separator_between() {
    assert_eq!(join_paths("tmp", "articles"), "tmp/articles");
    assert_eq!(join_paths("a/b", "c.txt"), "a/b/c.txt");
    assert_eq!(join_paths("", "x"), "/x");
    assert_eq!(join_paths("dir", ""), "dir/");
}
