use typpkg::paths::{depth_of, join_paths, parent_of, parent_steps_of, replace_extension};
use typpkg::text::chars_of;

#[test]
fn depth_counts_directories_above_the_entry() {
    assert_eq!(depth_of(&chars_of("file.typ")), 0);
    assert_eq!(depth_of(&chars_of("sub/file.typ")), 1);
    assert_eq!(depth_of(&chars_of("sub/dir/file.typ")), 2);
    assert_eq!(depth_of(&chars_of("")), 0);
}

#[test]
fn parent_steps_repeat() {
    assert_eq!(parent_steps_of(0), Vec::<char>::new());
    assert_eq!(parent_steps_of(1), chars_of("../"));
    assert_eq!(parent_steps_of(3), chars_of("../../../"));
}

#[test]
fn join_follows_path_rules() {
    assert_eq!(join_paths("pkg", "a/b.typ"), "pkg/a/b.typ");
    assert_eq!(join_paths("pkg/", "a/b.typ"), "pkg/a/b.typ");
    assert_eq!(join_paths("", "a/b.typ"), "a/b.typ");
    assert_eq!(join_paths("pkg", "/abs/b.typ"), "/abs/b.typ");
    assert_eq!(join_paths("pkg", ""), "pkg/");
    assert_eq!(join_paths("../../", "main.typ"), "../../main.typ");
    for (base, rel) in [("pkg", "a/b.typ"), ("pkg/", "x"), ("", "x"), ("a", "/b"), ("/", "x")] {
        let expected = std::path::Path::new(base).join(rel);
        assert_eq!(join_paths(base, rel), expected.to_str().unwrap());
    }
}

#[test]
fn parent_is_what_stands_before_the_last_separator() {
    assert_eq!(parent_of("pkg/a/b.typ"), "pkg/a");
    assert_eq!(parent_of("b.typ"), "");
    assert_eq!(parent_of("/b.typ"), "/");
    assert_eq!(parent_of("/a/b.typ"), "/a");
    for path in ["pkg/a/b.typ", "b.typ", "/b.typ", "/a/b"] {
        let expected = std::path::Path::new(path).parent().unwrap();
        assert_eq!(parent_of(path), expected.to_str().unwrap());
    }
}

#[test]
fn extension_is_replaced() {
    assert_eq!(replace_extension("tests/a.typ", "png"), "tests/a.png");
    assert_eq!(replace_extension("tests/a.b.typ", "png"), "tests/a.b.png");
    assert_eq!(replace_extension("tests/a", "png"), "tests/a.png");
    assert_eq!(replace_extension("tests/.typ", "png"), "tests/.typ.png");
    assert_eq!(replace_extension("te.sts/a", "png"), "te.sts/a.png");
    for path in ["tests/a.typ", "a.b.typ", "dir.d/a", ".typ", "x/.hidden.typ", "/tmp/out/t.typ"] {
        let expected = std::path::Path::new(path).with_extension("png");
        assert_eq!(replace_extension(path, "png"), expected.to_str().unwrap(), "{}", path);
    }
}
