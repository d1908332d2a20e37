use typpkg::compiler::{command_for, compile_files};
use typpkg::config::{CompileTarget, TypstCompileConfig};
use typpkg::error::{check_exit, PatternGroup, RunEnd};
use typpkg::parser::parse_typst_toml;

fn listing() -> Vec<String> {
    ["docs", "docs/a.typ", "docs/b.typ", "docs/deep", "docs/deep/c.typ", "main.typ", "notes.txt"]
        .iter()
        .map(|s| s.to_string())
        .collect()
}

#[test]
fn command_runs_the_compiler_beside_the_document() {
    let group = TypstCompileConfig { path: "docs/*.typ".to_string(), format: CompileTarget::Svg, root: None };
    let c = command_for("/work/pkg", &group, "docs/a.typ");
    assert_eq!(c.program, "typst");
    assert_eq!(c.arguments, vec!["c", "/work/pkg/docs/a.typ", "-f", "svg", "--root", "/work/pkg/docs"]);
    assert_eq!(c.working_directory, "/work/pkg/docs");
}

#[test]
fn root_is_resolved_against_the_package() {
    let group = TypstCompileConfig {
        path: "**/*.typ".to_string(),
        format: CompileTarget::Png,
        root: Some("shared".to_string()),
    };
    let c = command_for("/work/pkg", &group, "docs/deep/c.typ");
    assert_eq!(
        c.arguments,
        vec!["c", "/work/pkg/docs/deep/c.typ", "-f", "png", "--root", "/work/pkg/shared"]
    );
    assert_eq!(c.working_directory, "/work/pkg/docs/deep");
    let group = TypstCompileConfig { path: "x".to_string(), format: CompileTarget::Pdf, root: Some("/abs".to_string()) };
    let c = command_for("pkg", &group, "x");
    assert_eq!(c.arguments, vec!["c", "pkg/x", "-f", "pdf", "--root", "/abs"]);
    assert_eq!(c.working_directory, "pkg");
}

#[test]
fn groups_are_planned_in_order() {
    let config = parse_typst_toml(
        r#"
[package]
name = "n"
version = "1.0.0"
entrypoint = "main.typ"

[[tool.typpkg.typst_compile]]
path = "docs/*.typ"
format = "svg"

[[tool.typpkg.typst_compile]]
path = "**/*.typ"
root = "."
"#,
    )
    .unwrap();
    let plan = compile_files(&config, "pkg", &listing()).ok().unwrap();
    let documents: Vec<(&str, &str)> =
        plan.iter().map(|c| (c.arguments[1].as_str(), c.arguments[3].as_str())).collect();
    assert_eq!(
        documents,
        vec![
            ("pkg/docs/a.typ", "svg"),
            ("pkg/docs/b.typ", "svg"),
            ("pkg/docs/a.typ", "pdf"),
            ("pkg/docs/b.typ", "pdf"),
            ("pkg/docs/deep/c.typ", "pdf"),
            ("pkg/main.typ", "pdf"),
        ]
    );
    assert_eq!(plan[5].arguments[5], "pkg/.");
    assert_eq!(plan[5].working_directory, "pkg");
}

#[test]
fn no_groups_no_commands() {
    let config = parse_typst_toml("[package]\nname = \"n\"\nversion = \"1\"\nentrypoint = \"m\"\n").unwrap();
    assert!(compile_files(&config, "pkg", &listing()).ok().unwrap().is_empty());
}

#[test]
fn invalid_compile_glob_is_reported_with_the_runs_before_it() {
    let config = parse_typst_toml(
        "[package]\nname = \"n\"\nversion = \"1\"\nentrypoint = \"m\"\n[tool.typpkg]\ntypst_compile = [{ path = \"docs/*.typ\" }, { path = \"bad/{a,**/b}\" }, { path = \"main.typ\" }]\n",
    )
    .unwrap();
    let fault = compile_files(&config, "pkg", &listing()).err().unwrap();
    assert_eq!(fault.error.group, PatternGroup::TypstCompile);
    assert_eq!(fault.error.pattern.as_deref(), Some("bad/{a,**/b}"));
    assert_eq!(fault.error.message(), "Not valid (wax-)globs in typst_compile pathes.");
    let before: Vec<&str> = fault.before.iter().map(|c| c.document.as_str()).collect();
    assert_eq!(before, vec!["pkg/docs/a.typ", "pkg/docs/b.typ"]);
}

#[test]
fn a_glob_that_wax_cannot_be_asked_to_build_is_refused_before_it_is_built() {
    for pattern in ["<a:1,5000000000>", "docs/<[0-9]:99999999999>.typ"] {
        let text = format!(
            "[package]\nname = \"n\"\nversion = \"1\"\nentrypoint = \"m\"\n[tool.typpkg]\ntypst_compile = [{{ path = \"main.typ\" }}, {{ path = \"{}\" }}]\n",
            pattern
        );
        let config = parse_typst_toml(&text).unwrap();
        let fault = compile_files(&config, "pkg", &listing()).err().unwrap();
        assert_eq!(fault.error.pattern.as_deref(), Some(pattern));
        assert_eq!(fault.before.len(), 1);
    }
}

#[test]
fn globs_with_repetitions_are_planned() {
    let config = parse_typst_toml(
        "[package]\nname = \"n\"\nversion = \"1\"\nentrypoint = \"m\"\n[tool.typpkg]\ntypst_compile = [{ path = \"docs/<[a-z]:1,100>.typ\" }, { path = \"<[a-z]><.typ:1>\" }, { path = \"{main,other}{.typ,.txt}\" }]\n",
    )
    .unwrap();
    let plan = compile_files(&config, "pkg", &listing()).ok().unwrap();
    let documents: Vec<&str> = plan.iter().map(|c| c.document.as_str()).collect();
    assert_eq!(documents, vec!["pkg/docs/a.typ", "pkg/docs/b.typ", "pkg/main.typ", "pkg/main.typ"]);
}

#[test]
fn the_command_names_its_document() {
    let group = TypstCompileConfig { path: "x".to_string(), format: CompileTarget::Pdf, root: None };
    let c = command_for("/p", &group, "a/b.typ");
    assert_eq!(c.document, "/p/a/b.typ");
    assert!(c.finished(RunEnd::Exited(0)).is_ok());
    let e = c.finished(RunEnd::Exited(2)).err().unwrap();
    assert_eq!(e.program, "typst");
    assert_eq!(e.document, "/p/a/b.typ");
    assert_eq!(e.end, RunEnd::Exited(2));
    assert_eq!(e.message(), "Error on `/p/a/b.typ`: `typst` exited with a failure.");
    let e = c.finished(RunEnd::NotStarted).err().unwrap();
    assert_eq!(e.message(), "Error on `/p/a/b.typ`: `typst` could not be started.");
}

#[test]
fn only_exit_code_zero_lets_the_run_go_on() {
    assert!(check_exit("typst", "a.typ", RunEnd::Exited(0)).is_ok());
    let e = check_exit("typst", "a.typ", RunEnd::Exited(1)).err().unwrap();
    assert_eq!((e.program.as_str(), e.document.as_str(), e.end), ("typst", "a.typ", RunEnd::Exited(1)));
    let e = check_exit("sh", "/out", RunEnd::Stopped).err().unwrap();
    assert_eq!((e.program.as_str(), e.document.as_str(), e.end), ("sh", "/out", RunEnd::Stopped));
    assert_eq!(e.message(), "Error on `/out`: `sh` ended without an exit code.");
    assert!(check_exit("x", "d", RunEnd::Exited(-1)).is_err());
    assert!(check_exit("x", "d", RunEnd::NotStarted).is_err());
}
