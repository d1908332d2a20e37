use typpkg::config::{TypPkgConfig, TypstPackageConfig};
use typpkg::error::PatternGroup;
use typpkg::packer::{package_into, AssemblyError, AssemblyStep, SourceEntry};
use typpkg::parser::parse_typst_toml;

fn entry(path: &str, is_file: bool) -> SourceEntry {
    SourceEntry { path: path.to_string(), is_file }
}

fn tree() -> Vec<SourceEntry> {
    vec![
        entry(".git", false),
        entry(".git/HEAD", true),
        entry(".gitignore", true),
        entry("README.md", true),
        entry("docs", false),
        entry("docs/guide.typ", true),
        entry("main.typ", true),
        entry("src", false),
        entry("src/deep", false),
        entry("src/deep/util.typ", true),
        entry("tests", false),
        entry("tests/a.typ", true),
        entry("tests/a.png", true),
        entry("typst.toml", true),
    ]
}

const MANIFEST: &str = r#"
[package]
name = "demo"
version = "1.2.3"
entrypoint = "main.typ"

[tool.typpkg]
exclude = ["docs"]
include = ["docs/guide.typ"]
replace_imports = ["**/*.typ"]
"#;

fn describe(step: &AssemblyStep) -> String {
    match step {
        AssemblyStep::WriteManifest { .. } => "manifest".to_string(),
        AssemblyStep::Skip { path } => format!("skip {}", path),
        AssemblyStep::CreateDirectory { path } => format!("mkdir {}", path),
        AssemblyStep::CopyFile { path } => format!("copy {}", path),
        AssemblyStep::RewriteFile { path, .. } => format!("rewrite {}", path),
    }
}

#[test]
fn plan_holds_one_step_per_entry_after_the_manifest() {
    let config = parse_typst_toml(MANIFEST).unwrap();
    let steps = package_into(&config, &tree(), true).ok().unwrap();
    let lines: Vec<String> = steps.iter().map(describe).collect();
    assert_eq!(
        lines,
        vec![
            "manifest",
            "skip .git",
            "skip .git/HEAD",
            "skip .gitignore",
            "copy README.md",
            "skip docs",
            "mkdir docs",
            "rewrite docs/guide.typ",
            "rewrite main.typ",
            "mkdir src",
            "mkdir src/deep",
            "rewrite src/deep/util.typ",
            "skip tests",
            "skip tests/a.typ",
            "skip tests/a.png",
            "skip typst.toml",
        ]
    );
}

#[test]
fn manifest_is_written_without_the_tool_settings() {
    let config = parse_typst_toml(MANIFEST).unwrap();
    let steps = package_into(&config, &Vec::new(), true).ok().unwrap();
    assert_eq!(steps.len(), 1);
    match &steps[0] {
        AssemblyStep::WriteManifest { content } => {
            let table: toml::Table = content.parse().unwrap();
            let mut expected: toml::Table = MANIFEST.parse().unwrap();
            expected.get_mut("tool").unwrap().as_table_mut().unwrap().remove("typpkg");
            assert_eq!(table, expected);
            assert_eq!(content, &expected.to_string());
            assert!(!content.contains("typpkg"));
            assert!(content.contains("[package]"));
        }
        _ => panic!("the manifest comes first"),
    }
}

#[test]
fn rewrite_steps_carry_the_rule_of_their_file() {
    let config = parse_typst_toml(MANIFEST).unwrap();
    let steps = package_into(&config, &tree(), false).ok().unwrap();
    let mut seen = 0;
    for step in &steps {
        if let AssemblyStep::RewriteFile { path, rule } = step {
            seen += 1;
            assert_eq!(rule.replacement, "import \"@preview/demo/1.2.3:main.typ\"");
            assert!(!rule.replace_locals);
            match path.as_str() {
                "main.typ" => assert_eq!(rule.search, "import \"main.typ\""),
                "docs/guide.typ" => assert_eq!(rule.search, "import \"../main.typ\""),
                "src/deep/util.typ" => assert_eq!(rule.search, "import \"../../main.typ\""),
                other => panic!("unexpected rewrite of {}", other),
            }
        }
    }
    assert_eq!(seen, 3);
}

#[test]
fn plain_tree_is_reproduced() {
    let config = TypstPackageConfig {
        name: "plain".to_string(),
        version: "0.0.1".to_string(),
        entrypoint: "lib.typ".to_string(),
        typpkg_config: TypPkgConfig::default(),
        non_typpkg: typpkg::document::TomlValue::Table(vec![]),
    };
    let entries = vec![
        entry("a", false),
        entry("a/b", false),
        entry("a/b/c.bin", true),
        entry("a/d.typ", true),
        entry("lib.typ", true),
    ];
    let steps = package_into(&config, &entries, true).ok().unwrap();
    assert_eq!(steps.len(), entries.len() + 1);
    assert!(matches!(steps[0], AssemblyStep::WriteManifest { .. }));
    for (step, e) in steps[1..].iter().zip(entries.iter()) {
        match step {
            AssemblyStep::CopyFile { path } => assert!(e.is_file && path == &e.path),
            AssemblyStep::CreateDirectory { path } => assert!(!e.is_file && path == &e.path),
            _ => panic!("{} must be copied as it is", e.path),
        }
    }
}

#[test]
fn a_directory_that_is_a_rewrite_target_is_created() {
    let config = parse_typst_toml(
        "[package]\nname = \"d\"\nversion = \"1.0.0\"\nentrypoint = \"m.typ\"\n[tool.typpkg]\nreplace_imports = [\"src\"]\n",
    )
    .unwrap();
    let steps = package_into(&config, &vec![entry("src", false), entry("src/x.typ", true)], true)
        .ok()
        .unwrap();
    assert_eq!(describe(&steps[1]), "mkdir src");
    assert_eq!(describe(&steps[2]), "rewrite src/x.typ");
}

#[test]
fn invalid_patterns_stop_the_plan() {
    let config = parse_typst_toml(
        "[package]\nname = \"d\"\nversion = \"1.0.0\"\nentrypoint = \"m.typ\"\n[tool.typpkg]\ninclude = [\"a/**b\"]\n",
    )
    .unwrap();
    match package_into(&config, &tree(), true) {
        Err(AssemblyError::Pattern(e)) => {
            assert_eq!(e.group, PatternGroup::Include);
            assert_eq!(e.pattern.as_deref(), Some("a/**b"));
        }
        _ => panic!("the include list does not compile"),
    }
}

#[test]
fn a_manifest_that_is_no_table_stops_the_plan() {
    let config = TypstPackageConfig {
        name: "n".to_string(),
        version: "1.0.0".to_string(),
        entrypoint: "lib.typ".to_string(),
        typpkg_config: TypPkgConfig::default(),
        non_typpkg: typpkg::document::TomlValue::Integer(1),
    };
    match package_into(&config, &tree(), true) {
        Err(AssemblyError::Manifest(reason)) => assert!(!reason.is_empty()),
        _ => panic!("a number is no manifest"),
    }
}

#[test]
fn output_directory_follows_name_and_version() {
    let config = parse_typst_toml(MANIFEST).unwrap();
    assert_eq!(typpkg::packer::output_directory(&config, "/out", false), "/out/demo/1.2.3");
    assert_eq!(
        typpkg::packer::output_directory(&config, "/home/u/.cache", true),
        "/home/u/.cache/typst/packages/local/demo/1.2.3"
    );
    assert_eq!(typpkg::packer::output_directory(&config, "rel/", false), "rel/demo/1.2.3");
}

#[test]
fn release_message_names_the_place() {
    let config = parse_typst_toml(MANIFEST).unwrap();
    assert_eq!(
        typpkg::packer::release_message(&config, "/out/demo/1.2.3", false),
        "Project released to /out/demo/1.2.3.\n- release it to 'https://github.com/typst/packages'."
    );
    assert_eq!(
        typpkg::packer::release_message(&config, "/c/demo/1.2.3", true),
        "Project released to /c/demo/1.2.3.\n- test and/or use via `#import \"@local/demo/1.2.3:main.typ\"` it, or\n- release it to 'https://github.com/typst/packages'."
    );
}

#[test]
fn skipped_directories_above_a_kept_entry_are_created() {
    let config = parse_typst_toml(
        "[package]\nname = \"d\"\nversion = \"1.0.0\"\nentrypoint = \"m.typ\"\n[tool.typpkg]\nexclude = [\"a\"]\ninclude = [\"a/b/c/keep.txt\", \"tests/data\"]\n",
    )
    .unwrap();
    let entries = vec![
        entry("a", false),
        entry("a/b", false),
        entry("a/b/c", false),
        entry("a/b/c/drop.txt", true),
        entry("a/b/c/keep.txt", true),
        entry("tests", false),
        entry("tests/data", false),
        entry("tests/data/x.bin", true),
        entry("tests/t.typ", true),
    ];
    let steps = package_into(&config, &entries, true).ok().unwrap();
    let lines: Vec<String> = steps.iter().map(describe).collect();
    assert_eq!(
        lines,
        vec![
            "manifest",
            "skip a",
            "skip a/b",
            "skip a/b/c",
            "skip a/b/c/drop.txt",
            "mkdir a",
            "mkdir a/b",
            "mkdir a/b/c",
            "copy a/b/c/keep.txt",
            "skip tests",
            "mkdir tests",
            "mkdir tests/data",
            "mkdir tests",
            "copy tests/data/x.bin",
            "skip tests/t.typ",
        ]
    );
}

#[test]
fn a_pattern_that_wax_cannot_be_asked_to_build_stops_the_plan() {
    let deep = format!("{}a{}", "{x,".repeat(57), "}".repeat(57));
    for pattern in ["<a:1,5000000000>", "x<y:4294967296>", deep.as_str()] {
        let text = format!(
            "[package]\nname = \"d\"\nversion = \"1.0.0\"\nentrypoint = \"m.typ\"\n[tool.typpkg]\nexclude = [\"ok\", \"{}\"]\n",
            pattern
        );
        let config = parse_typst_toml(&text).unwrap();
        match package_into(&config, &tree(), true) {
            Err(AssemblyError::Pattern(e)) => {
                assert_eq!(e.group, PatternGroup::Exclude);
                assert_eq!(e.pattern.as_deref(), Some(pattern));
                assert!(!e.reason.is_empty());
            }
            _ => panic!("{} cannot be built", pattern),
        }
    }
}
