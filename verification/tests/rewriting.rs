use typpkg::config::{TypPkgConfig, TypstPackageConfig};
use typpkg::document::TomlValue;
use typpkg::rewrite::RewriteRule;
use typpkg::text::{chars_of, replace_text, same_text, string_of};

fn package(entrypoint: &str, replace_locals: bool) -> TypstPackageConfig {
    TypstPackageConfig {
        name: "mypkg".to_string(),
        version: "0.1.0".to_string(),
        entrypoint: entrypoint.to_string(),
        typpkg_config: TypPkgConfig::new(vec![], vec![], vec![], replace_locals, None, vec![]),
        non_typpkg: TomlValue::Table(vec![]),
    }
}

#[test]
fn relative_import_becomes_local_package_import() {
    let config = package("main.typ", false);
    let rule = RewriteRule::for_entry(&config, "sub/dir/file.typ", true);
    assert_eq!(rule.search, "import \"../../main.typ\"");
    assert_eq!(rule.replacement, "import \"@local/mypkg/0.1.0:main.typ\"");
    let content = "#import \"../../main.typ\": f\n#f()\n";
    let out = rule.apply(content);
    assert!(out.contains("import \"@local/mypkg/0.1.0:main.typ\""));
    assert!(!out.contains("import \"../../main.typ\""));
    assert_eq!(out, "#import \"@local/mypkg/0.1.0:main.typ\": f\n#f()\n");
}

#[test]
fn published_package_uses_preview_scope() {
    let config = package("lib.typ", false);
    let rule = RewriteRule::for_entry(&config, "docs/guide.typ", false);
    assert_eq!(rule.search, "import \"../lib.typ\"");
    assert_eq!(rule.replacement, "import \"@preview/mypkg/0.1.0:lib.typ\"");
}

#[test]
fn file_at_the_root_imports_the_entrypoint_directly() {
    let config = package("src/lib.typ", false);
    let rule = RewriteRule::for_entry(&config, "example.typ", true);
    assert_eq!(rule.search, "import \"src/lib.typ\"");
    let out = rule.apply("#import \"src/lib.typ\"\n#import \"src/lib.typ\": a, b");
    assert_eq!(
        out,
        "#import \"@local/mypkg/0.1.0:src/lib.typ\"\n#import \"@local/mypkg/0.1.0:src/lib.typ\": a, b"
    );
}

#[test]
fn absolute_entrypoint_is_not_prefixed() {
    let config = package("/lib.typ", false);
    let rule = RewriteRule::for_entry(&config, "a/b/c.typ", true);
    assert_eq!(rule.search, "import \"/lib.typ\"");
}

#[test]
fn other_imports_are_left_alone() {
    let config = package("main.typ", false);
    let rule = RewriteRule::for_entry(&config, "sub/file.typ", true);
    let content = "#import \"../../main.typ\"\n#import \"main.typ\"\n#import \"@local/other:1.0.0\"";
    assert_eq!(rule.apply(content), content);
}

#[test]
fn local_prefix_becomes_preview_prefix_when_enabled() {
    let config = package("main.typ", true);
    let rule = RewriteRule::for_entry(&config, "a.typ", false);
    assert!(rule.replace_locals);
    let content = "#import \"@local/other:1.0.0\": x\ntext @local/ stays\n#import \"@local/more:2.0.0\"";
    assert_eq!(
        rule.apply(content),
        "#import \"@preview/other:1.0.0\": x\ntext @local/ stays\n#import \"@preview/more:2.0.0\""
    );
}

#[test]
fn prefix_pass_runs_on_the_result_of_the_first_pass() {
    let config = package("main.typ", true);
    let rule = RewriteRule::for_entry(&config, "a.typ", true);
    assert_eq!(rule.replacement, "import \"@local/mypkg/0.1.0:main.typ\"");
    let out = rule.apply("#import \"main.typ\": f");
    assert_eq!(out, "#import \"@preview/mypkg/0.1.0:main.typ\": f");
    let off = RewriteRule::for_entry(&package("main.typ", false), "a.typ", true);
    assert_eq!(off.apply("#import \"main.typ\": f"), "#import \"@local/mypkg/0.1.0:main.typ\": f");
    assert_eq!(off.apply("#import \"@local/x:1\""), "#import \"@local/x:1\"");
}

#[test]
fn bytes_that_are_not_text_are_refused() {
    let config = package("main.typ", false);
    let rule = RewriteRule::for_entry(&config, "a.typ", true);
    let e = rule.rewrite_file("img/logo.png", &[0xff, 0xfe, 0x00]).err().unwrap();
    assert_eq!(e.path, "img/logo.png");
    assert_eq!(e.message(), "The file `img/logo.png` is not text.");
    assert!(rule.rewrite_file("a.typ", &[0xc3]).is_err());
    assert!(rule.rewrite_file("a.typ", &[0xed, 0xa0, 0x80]).is_err());
    assert_eq!(
        rule.rewrite_file("a.typ", "#import \"main.typ\" é".as_bytes()).ok(),
        Some("#import \"@local/mypkg/0.1.0:main.typ\" é".to_string())
    );
    assert_eq!(rule.rewrite_file("a.typ", b"").ok(), Some(String::new()));
}

#[test]
fn replace_text_agrees_with_std_replace() {
    let cases = [
        ("abcabc", "b", "xy"),
        ("aaaa", "aa", "b"),
        ("aaa", "aa", "b"),
        ("abc", "abcd", "x"),
        ("abc", "abc", ""),
        ("", "a", "b"),
        ("ababab", "aba", "X"),
        ("héllo wörld", "ö", "oe"),
        ("xxabxx", "ab", "ab"),
        ("aXbXc", "X", "XX"),
    ];
    for (text, from, to) in cases {
        assert_eq!(replace_text(text, from, to), text.replace(from, to), "{} {} {}", text, from, to);
    }
}

#[test]
fn empty_pattern_leaves_text_unchanged() {
    assert_eq!(replace_text("abc", "", "-"), "abc");
    assert_eq!(replace_text("", "", "-"), "");
}

#[test]
fn text_conversions_round_trip() {
    let s = "naïve ✓ text";
    assert_eq!(chars_of(s), s.chars().collect::<Vec<char>>());
    assert_eq!(string_of(&chars_of(s)), s);
    assert!(same_text("abc", "abc"));
    assert!(!same_text("abc", "abd"));
    assert!(!same_text("abc", "ab"));
    assert!(same_text("", ""));
}
