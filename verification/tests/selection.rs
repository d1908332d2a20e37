use typpkg::config::TypPkgConfig;
use typpkg::error::PatternGroup;
use typpkg::glob::{GlobGroup, PathGlob};
use typpkg::limits::check_fits;
use typpkg::select::{select, FileSelectionOutcome, SelectionRules};

fn config(exclude: &[&str], keep: &[&str], rewrite: &[&str]) -> TypPkgConfig {
    TypPkgConfig::new(
        exclude.iter().map(|s| s.to_string()).collect(),
        keep.iter().map(|s| s.to_string()).collect(),
        rewrite.iter().map(|s| s.to_string()).collect(),
        false,
        None,
        Vec::new(),
    )
}

#[test]
fn selection_rule_table() {
    assert_eq!(select(true, false, false), FileSelectionOutcome::Skip);
    assert_eq!(select(true, false, true), FileSelectionOutcome::Skip);
    assert_eq!(select(true, true, false), FileSelectionOutcome::CopyVerbatim);
    assert_eq!(select(true, true, true), FileSelectionOutcome::CopyWithRewrite);
    assert_eq!(select(false, false, false), FileSelectionOutcome::CopyVerbatim);
    assert_eq!(select(false, true, false), FileSelectionOutcome::CopyVerbatim);
    assert_eq!(select(false, false, true), FileSelectionOutcome::CopyWithRewrite);
    assert_eq!(select(false, true, true), FileSelectionOutcome::CopyWithRewrite);
}

#[test]
fn built_in_exclusions_hold_with_empty_exclude_list() {
    let c = config(&[], &[], &[]);
    let rules = SelectionRules::compile(&c).unwrap();
    for path in ["typst.toml", ".git", ".git/config", ".git/objects/ab/cd", ".gitignore", "tests", "tests/a.typ", "tests/deep/b.png"] {
        assert_eq!(rules.classify(path), FileSelectionOutcome::Skip, "{}", path);
    }
    for path in ["main.typ", "src/lib.typ", "test.typ", "testsuite/a.typ", "docs/typst.toml"] {
        assert_eq!(rules.classify(path), FileSelectionOutcome::CopyVerbatim, "{}", path);
    }
}

#[test]
fn include_wins_over_exclude() {
    let c = config(&["docs/**"], &["docs/manual.pdf"], &[]);
    let rules = SelectionRules::compile(&c).unwrap();
    assert_eq!(rules.classify("docs/draft.typ"), FileSelectionOutcome::Skip);
    assert_eq!(rules.classify("docs/manual.pdf"), FileSelectionOutcome::CopyVerbatim);
    let again = config(&[], &["typst.toml"], &[]);
    let rules = SelectionRules::compile(&again).unwrap();
    assert_eq!(rules.classify("typst.toml"), FileSelectionOutcome::CopyVerbatim);
}

#[test]
fn a_pattern_on_a_directory_covers_what_lies_beneath() {
    let c = config(&["build"], &[], &["src"]);
    let rules = SelectionRules::compile(&c).unwrap();
    assert_eq!(rules.classify("build"), FileSelectionOutcome::Skip);
    assert_eq!(rules.classify("build/out/a.pdf"), FileSelectionOutcome::Skip);
    assert_eq!(rules.classify("builder/a.pdf"), FileSelectionOutcome::CopyVerbatim);
    assert_eq!(rules.classify("src/a.typ"), FileSelectionOutcome::CopyWithRewrite);
}

#[test]
fn rewrite_never_revives_a_skipped_entry() {
    let c = config(&["*.bak"], &[], &["**/*"]);
    let rules = SelectionRules::compile(&c).unwrap();
    assert_eq!(rules.classify("old.bak"), FileSelectionOutcome::Skip);
    assert_eq!(rules.classify("main.typ"), FileSelectionOutcome::CopyWithRewrite);
}

#[test]
fn selection_is_repeatable() {
    let c = config(&["*.log", "tmp"], &["tmp/keep"], &["**/*.typ"]);
    let first = SelectionRules::compile(&c).unwrap();
    let second = SelectionRules::compile(&c).unwrap();
    for path in ["a.log", "tmp", "tmp/x", "tmp/keep", "tmp/keep/y.typ", "lib/z.typ", "README.md"] {
        assert_eq!(first.classify(path), second.classify(path));
        assert_eq!(first.classify(path), first.classify(path));
    }
}

#[test]
fn invalid_pattern_is_reported_with_its_list() {
    let c = config(&["ok/*", "bad/{a,**/b}"], &[], &[]);
    let e = SelectionRules::compile(&c).err().unwrap();
    assert_eq!(e.group, PatternGroup::Exclude);
    assert_eq!(e.pattern.as_deref(), Some("bad/{a,**/b}"));
    assert_eq!(e.message(), "Not valid (wax-)globs in exclude.");
    assert!(!e.reason.is_empty());
    let c = config(&[], &["**/{x,**/y}"], &[]);
    let e = SelectionRules::compile(&c).err().unwrap();
    assert_eq!(e.group, PatternGroup::Include);
    assert_eq!(e.message(), "Not valid (wax-)globs in include.");
    let c = config(&[], &[], &["[unclosed"]);
    let e = SelectionRules::compile(&c).err().unwrap();
    assert_eq!(e.group, PatternGroup::ReplaceImports);
    assert_eq!(e.pattern.as_deref(), Some("[unclosed"));
}

#[test]
fn groups_match_whole_paths_and_cover_what_lies_beneath() {
    let patterns = vec!["src/*.typ", "assets"];
    let group = GlobGroup::compile(PatternGroup::Exclude, &patterns).ok().unwrap();
    assert_eq!(group.len(), 2);
    assert!(group.is_match("src/a.typ"));
    assert!(group.is_match("assets"));
    assert!(!group.is_match("assets/logo.png"));
    assert!(!group.is_match("src/deep/a.typ"));
    assert!(group.covers("assets/logo.png"));
    assert!(group.covers("assets/icons/x.svg"));
    assert!(group.covers("src/a.typ"));
    assert!(!group.covers("src/deep/a.typ"));
    assert!(!group.covers("assets2/logo.png"));
    assert!(!group.covers(""));
    let none: Vec<&str> = Vec::new();
    let empty = GlobGroup::compile(PatternGroup::Include, &none).ok().unwrap();
    assert_eq!(empty.len(), 0);
    assert!(!empty.is_match("a"));
    assert!(!empty.is_match(""));
    assert!(!empty.covers("a/b"));
}

#[test]
fn getters_compile_the_lists_of_the_configuration() {
    let c = config(&["*.tmp"], &["keep.tmp"], &["lib/**/*.typ"]);
    let exclude = c.get_exclude_glob().ok().unwrap();
    assert_eq!(exclude.len(), 7);
    assert!(exclude.is_match("typst.toml"));
    assert!(exclude.is_match(".git/objects/x"));
    assert!(exclude.is_match("tests/a/b.typ"));
    assert!(exclude.is_match("x.tmp"));
    assert!(!exclude.is_match("x.typ"));
    let keep = c.get_include_glob().ok().unwrap();
    assert_eq!(keep.len(), 1);
    assert!(keep.is_match("keep.tmp"));
    let rewrite = c.get_replace_imports_glob().ok().unwrap();
    assert!(rewrite.is_match("lib/a/b.typ"));
    assert!(!rewrite.is_match("a.typ"));
}

#[test]
fn expressions_that_wax_can_be_asked_to_build_fit() {
    let row = "{a,b}".repeat(33);
    let wide = format!("<a:2>{}", "b".repeat(2000));
    let nested = format!("{}a{}", "{x,".repeat(56), "}".repeat(56));
    let classes = "[{<][}>][:1234567890123]".repeat(40);
    let escaped = "\\{\\<".repeat(100);
    for e in [
        "",
        "a",
        "**/*.typ",
        "src/{a,b}/*.typ",
        "<a*/>*",
        "<a:100>",
        "<a:1,100>",
        "docs/<[0-9]:100>.typ",
        "<a><b><c><d>",
        "<a:1,4294967295>",
        "<a:4294967295>",
        "<<a:60000>:60000>",
        "v12345678901234567890.typ",
        "{a,{b,{c,d}}}",
        row.as_str(),
        wide.as_str(),
        nested.as_str(),
        classes.as_str(),
        escaped.as_str(),
    ] {
        assert!(check_fits(e), "{}", e);
    }
}

#[test]
fn expressions_that_make_wax_give_up_do_not_fit() {
    let nested = format!("{}a{}", "{x,".repeat(57), "}".repeat(57));
    let mixed = format!("{}a{}", "<{".repeat(29), "}>".repeat(29));
    for e in [
        "<a:1,5000000000>",
        "<a:4294967296>",
        "<a:4294967296,>",
        "<a:0,99999999999999999999999999>",
        "<<<aa:4294967295>:4294967295>:4294967295>",
        nested.as_str(),
        mixed.as_str(),
    ] {
        assert!(!check_fits(e), "{}", e);
    }
}

#[test]
fn a_list_with_an_unfit_expression_is_refused_without_building_it() {
    let patterns = vec!["ok/*", "<a:1,5000000000>", "bad/{a,**/b}"];
    let e = GlobGroup::compile(PatternGroup::Exclude, &patterns).err().unwrap();
    assert_eq!(e.group, PatternGroup::Exclude);
    assert_eq!(e.pattern.as_deref(), Some("<a:1,5000000000>"));
    assert_eq!(e.reason, "The pattern is nested too deeply or repeats too much.");
    let deep = format!("{}a{}", "{x,y".repeat(57), "z}".repeat(57));
    let c = config(&[], &[deep.as_str()], &[]);
    let e = SelectionRules::compile(&c).err().unwrap();
    assert_eq!(e.group, PatternGroup::Include);
    assert_eq!(e.pattern.as_deref(), Some(deep.as_str()));
    assert_eq!(e.reason, "The pattern is nested too deeply or repeats too much.");
}

#[test]
fn what_fits_is_left_to_wax() {
    let hundred = vec!["<a:100>", "docs/<[0-9]:100>.typ"];
    let group = GlobGroup::compile(PatternGroup::Exclude, &hundred).ok().unwrap();
    assert!(group.is_match("a".repeat(100).as_str()));
    assert!(!group.is_match("a".repeat(99).as_str()));
    assert!(group.is_match(format!("docs/{}.typ", "7".repeat(100)).as_str()));

    let row = "{a,b}".repeat(33);
    let glob = PathGlob::compile(PatternGroup::TypstCompile, &row).ok().unwrap();
    assert!(glob.is_match("a".repeat(33).as_str()));
    assert!(!glob.is_match("a".repeat(32).as_str()));

    let wide = format!("<a:2>{}", "b".repeat(2000));
    let glob = PathGlob::compile(PatternGroup::TypstCompile, &wide).ok().unwrap();
    assert!(glob.is_match(format!("aa{}", "b".repeat(2000)).as_str()));

    let deep = format!("{}a/**/b{}", "{x,y".repeat(56), "z}".repeat(56));
    assert!(check_fits(&deep));
    let patterns = vec![deep.as_str()];
    let group = GlobGroup::compile(PatternGroup::Exclude, &patterns).ok().unwrap();
    assert!(group.is_match("x"));
    assert!(PathGlob::compile(PatternGroup::TypstCompile, &deep).is_ok());

    for refused_by_wax in ["<a:1,4294967295>", "<a:4294967295>", "<<a:60000>:60000>", "<<<a:99>:99>:99>"] {
        assert!(check_fits(refused_by_wax));
        let patterns = vec![refused_by_wax];
        let e = GlobGroup::compile(PatternGroup::Exclude, &patterns).err().unwrap();
        assert_eq!(e.pattern.as_deref(), Some(refused_by_wax));
        assert_ne!(e.reason, "The pattern is nested too deeply or repeats too much.");
        assert!(PathGlob::compile(PatternGroup::TypstCompile, refused_by_wax).is_err());
    }
}

#[test]
fn small_repetitions_are_built_by_wax() {
    let rules = vec!["<a:2,3>.typ", "<[0-9]:4>/<x/:1,2>y"];
    let group = GlobGroup::compile(PatternGroup::Exclude, &rules).ok().unwrap();
    assert!(group.is_match("aa.typ"));
    assert!(group.is_match("aaa.typ"));
    assert!(!group.is_match("a.typ"));
    assert!(group.is_match("2024/x/x/y"));
    assert!(!group.is_match("2024/y"));
}

#[test]
fn one_glob_matches_whole_paths() {
    let glob = PathGlob::compile(PatternGroup::TypstCompile, "docs/**/*.typ").ok().unwrap();
    assert!(glob.is_match("docs/a.typ"));
    assert!(glob.is_match("docs/x/y/a.typ"));
    assert!(!glob.is_match("docs"));
    assert!(!glob.is_match("src/a.typ"));
    let e = PathGlob::compile(PatternGroup::TestDocuments, "a/**b").err().unwrap();
    assert_eq!(e.group, PatternGroup::TestDocuments);
    assert_eq!(e.pattern.as_deref(), Some("a/**b"));
    let e = PathGlob::compile(PatternGroup::TypstCompile, "<a:1,5000000000>").err().unwrap();
    assert_eq!(e.pattern.as_deref(), Some("<a:1,5000000000>"));
    assert_eq!(e.reason, "The pattern is nested too deeply or repeats too much.");
}
