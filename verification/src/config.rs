//! The package description: what the manifest says of the package and of
//! the way it is assembled.

use vstd::prelude::*;
use vstd::string::*;
use crate::document::{TomlModel, TomlValue};
use crate::error::{PatternError, PatternGroup};
use crate::glob::{blamed, compiles, names_pattern, texts, GlobGroup};

verus! {

/// A package as its manifest describes it.
pub struct TypstPackageConfig {
    /// `package.name`
    pub name: String,
    /// `package.version`
    pub version: String,
    /// `package.entrypoint`
    pub entrypoint: String,
    /// The `tool.typpkg` table.
    pub typpkg_config: TypPkgConfig,
    /// The manifest without its `tool.typpkg` table.
    pub non_typpkg: TomlValue,
}

/// The `tool.typpkg` table of the manifest.
pub struct TypPkgConfig {
    /// Paths left out of the package.
    pub exclude: Vec<String>,
    /// Paths kept although they are excluded.
    pub reinclude: Vec<String>,
    /// Files in which imports of the entrypoint are rewritten.
    pub replace_imports: Vec<String>,
    /// Whether `@local` imports become `@preview` imports.
    pub replace_locals: bool,
    /// The command to run once the package is assembled.
    pub postscript: Option<Script>,
    /// The documents to compile before packaging.
    pub typst_compile: Vec<TypstCompileConfig>,
    /// The tests to check.
    pub tests: Vec<()>,
}

/// A command with its arguments.
pub struct Script {
    pub command: String,
    pub arguments: Vec<String>,
}

/// One group of documents to compile.
pub struct TypstCompileConfig {
    /// The glob of the documents.
    pub path: String,
    /// The format they are compiled to.
    pub format: CompileTarget,
    /// The root for the compiler's imports, relative to the package.
    pub root: Option<String>,
}

/// The format a document is compiled to.
#[derive(Clone, Copy, Debug, PartialEq, Eq, Structural)]
pub enum CompileTarget {
    Pdf,
    Png,
    Svg,
}

/// What a `Script` stands for.
pub struct ScriptModel {
    pub command: Seq<char>,
    pub arguments: Seq<Seq<char>>,
}

/// What a `TypstCompileConfig` stands for.
pub struct CompileGroupModel {
    pub path: Seq<char>,
    pub format: CompileTarget,
    pub root: Option<Seq<char>>,
}

/// What a `TypPkgConfig` stands for.
pub struct TypPkgModel {
    pub exclude: Seq<Seq<char>>,
    pub reinclude: Seq<Seq<char>>,
    pub replace_imports: Seq<Seq<char>>,
    pub replace_locals: bool,
    pub postscript: Option<ScriptModel>,
    pub typst_compile: Seq<CompileGroupModel>,
    pub tests: nat,
}

/// What a `TypstPackageConfig` stands for.
pub struct PackageModel {
    pub name: Seq<char>,
    pub version: Seq<char>,
    pub entrypoint: Seq<char>,
    pub typpkg: TypPkgModel,
    pub rest: TomlModel,
}

/// The text of an optional string.
pub open spec fn optional_text(text: Option<String>) -> Option<Seq<char>> {
    match text {
        Some(t) => Some(t@),
        None => None,
    }
}

/// What an optional script stands for.
pub open spec fn optional_script(script: Option<Script>) -> Option<ScriptModel> {
    match script {
        Some(s) => Some(s@),
        None => None,
    }
}

/// What a sequence of compile groups stands for.
pub open spec fn compile_groups(groups: Seq<TypstCompileConfig>) -> Seq<CompileGroupModel> {
    Seq::new(groups.len(), |i: int| groups[i]@)
}

impl View for Script {
    type V = ScriptModel;

    open spec fn view(&self) -> ScriptModel {
        ScriptModel { command: self.command@, arguments: strings(self.arguments@) }
    }
}

impl View for TypstCompileConfig {
    type V = CompileGroupModel;

    open spec fn view(&self) -> CompileGroupModel {
        CompileGroupModel {
            path: self.path@,
            format: self.format,
            root: optional_text(self.root),
        }
    }
}

impl View for TypPkgConfig {
    type V = TypPkgModel;

    open spec fn view(&self) -> TypPkgModel {
        TypPkgModel {
            exclude: strings(self.exclude@),
            reinclude: strings(self.reinclude@),
            replace_imports: strings(self.replace_imports@),
            replace_locals: self.replace_locals,
            postscript: optional_script(self.postscript),
            typst_compile: compile_groups(self.typst_compile@),
            tests: self.tests@.len(),
        }
    }
}

impl View for TypstPackageConfig {
    type V = PackageModel;

    open spec fn view(&self) -> PackageModel {
        PackageModel {
            name: self.name@,
            version: self.version@,
            entrypoint: self.entrypoint@,
            typpkg: self.typpkg_config@,
            rest: self.non_typpkg@,
        }
    }
}

/// The configuration of a manifest without a `tool.typpkg` table.
pub open spec fn default_typpkg() -> TypPkgModel {
    TypPkgModel {
        exclude: Seq::empty(),
        reinclude: Seq::empty(),
        replace_imports: Seq::empty(),
        replace_locals: false,
        postscript: None,
        typst_compile: Seq::empty(),
        tests: 0,
    }
}

/// The texts of a sequence of strings.
pub open spec fn strings(items: Seq<String>) -> Seq<Seq<char>> {
    Seq::new(items.len(), |i: int| items[i]@)
}

/// The patterns that are always excluded: the manifest, the version-control
/// directory and its ignore file, the test directory, and all that lies in
/// the two directories.
pub open spec fn default_exclusions() -> Seq<Seq<char>> {
    seq![
        "typst.toml"@,
        ".git"@,
        ".git/**/*"@,
        ".gitignore"@,
        "tests"@,
        "tests/**/*"@,
    ]
}

impl CompileTarget {
    /// The name of the format, as the compiler takes it.
    pub open spec fn label(self) -> Seq<char> {
        match self {
            CompileTarget::Pdf => "pdf"@,
            CompileTarget::Png => "png"@,
            CompileTarget::Svg => "svg"@,
        }
    }

    /// The name of the format, as the compiler takes it.
    pub fn to_string(&self) -> (name: String)
        ensures
            name@ == self.label(),
    {
        match self {
            CompileTarget::Pdf => String::from_str("pdf"),
            CompileTarget::Png => String::from_str("png"),
            CompileTarget::Svg => String::from_str("svg"),
        }
    }
}

impl Default for CompileTarget {
    fn default() -> (target: CompileTarget)
        ensures
            target == CompileTarget::Pdf,
    {
        CompileTarget::Pdf
    }
}

impl Default for Script {
    fn default() -> (script: Script)
        ensures
            script@ == (ScriptModel { command: Seq::empty(), arguments: Seq::empty() }),
    {
        let script = Script { command: String::new(), arguments: Vec::new() };
        assert(strings(script.arguments@) =~= Seq::empty());
        script
    }
}

impl Default for TypstCompileConfig {
    fn default() -> (group: TypstCompileConfig)
        ensures
            group@ == (CompileGroupModel {
                path: Seq::empty(),
                format: CompileTarget::Pdf,
                root: None,
            }),
    {
        TypstCompileConfig { path: String::new(), format: CompileTarget::Pdf, root: None }
    }
}

impl Default for TypPkgConfig {
    fn default() -> (config: TypPkgConfig)
        ensures
            config@ == default_typpkg(),
    {
        let config = TypPkgConfig {
            exclude: Vec::new(),
            reinclude: Vec::new(),
            replace_imports: Vec::new(),
            replace_locals: false,
            postscript: None,
            typst_compile: Vec::new(),
            tests: Vec::new(),
        };
        assert(strings(config.exclude@) =~= Seq::empty());
        assert(compile_groups(config.typst_compile@) =~= Seq::empty());
        config
    }
}

/// The string slices of `items`, after those of `head`.
fn slices_of<'t>(head: Vec<&'t str>, items: &'t Vec<String>) -> (all: Vec<&'t str>)
    ensures
        texts(all@) == texts(head@) + strings(items@),
{
    let mut all = head;
    let mut i: usize = 0;
    while i < items.len()
        invariant
            i <= items.len(),
            texts(all@) == texts(head@) + strings(items@.take(i as int)),
        decreases items.len() - i,
    {
        let ghost before = all@;
        all.push(items[i].as_str());
        i += 1;
        assert(texts(all@) =~= texts(before).push(items@[i - 1]@));
    }
    all
}

impl TypPkgConfig {
    /// The user's `exclude` patterns.
    pub open spec fn exclude_list(self) -> Seq<Seq<char>> {
        strings(self.exclude@)
    }

    /// The user's `include` patterns.
    pub open spec fn include_list(self) -> Seq<Seq<char>> {
        strings(self.reinclude@)
    }

    /// The user's `replace_imports` patterns.
    pub open spec fn replace_imports_list(self) -> Seq<Seq<char>> {
        strings(self.replace_imports@)
    }

    /// All that is excluded: the built-in patterns, then the user's.
    pub open spec fn exclusions(self) -> Seq<Seq<char>> {
        default_exclusions() + self.exclude_list()
    }

    /// A configuration with the given lists and settings, and no tests.
    pub fn new(
        exclude: Vec<String>,
        reinclude: Vec<String>,
        replace_imports: Vec<String>,
        replace_locals: bool,
        postscript: Option<Script>,
        typst_compile: Vec<TypstCompileConfig>,
    ) -> (config: TypPkgConfig)
        ensures
            config.exclude_list() == strings(exclude@),
            config.include_list() == strings(reinclude@),
            config.replace_imports_list() == strings(replace_imports@),
            config.replace_locals == replace_locals,
            config.postscript == postscript,
            config.typst_compile == typst_compile,
            config.tests@.len() == 0,
    {
        TypPkgConfig {
            exclude,
            reinclude,
            replace_imports,
            replace_locals,
            postscript,
            typst_compile,
            tests: Vec::new(),
        }
    }

    /// The compiled exclusions: the built-in patterns followed by the
    /// user's `exclude` list.
    pub fn get_exclude_glob(&self) -> (compiled: Result<GlobGroup<'_>, PatternError>)
        ensures
            compiled is Ok <==> compiles(self.exclusions()),
            compiled matches Ok(g) ==> g.expressions() == self.exclusions(),
            compiled matches Err(e) ==> e.group == PatternGroup::Exclude && names_pattern(
                e.pattern,
                blamed(self.exclusions()),
            ),
    {
        let mut head: Vec<&str> = Vec::new();
        head.push("typst.toml");
        head.push(".git");
        head.push(".git/**/*");
        head.push(".gitignore");
        head.push("tests");
        head.push("tests/**/*");
        assert(texts(head@) == default_exclusions());
        let all = slices_of(head, &self.exclude);
        GlobGroup::compile(PatternGroup::Exclude, &all)
    }

    /// The compiled `include` list.
    pub fn get_include_glob(&self) -> (compiled: Result<GlobGroup<'_>, PatternError>)
        ensures
            compiled is Ok <==> compiles(self.include_list()),
            compiled matches Ok(g) ==> g.expressions() == self.include_list(),
            compiled matches Err(e) ==> e.group == PatternGroup::Include && names_pattern(
                e.pattern,
                blamed(self.include_list()),
            ),
    {
        let all = slices_of(Vec::new(), &self.reinclude);
        GlobGroup::compile(PatternGroup::Include, &all)
    }

    /// The compiled `replace_imports` list.
    pub fn get_replace_imports_glob(&self) -> (compiled: Result<GlobGroup<'_>, PatternError>)
        ensures
            compiled is Ok <==> compiles(self.replace_imports_list()),
            compiled matches Ok(g) ==> g.expressions() == self.replace_imports_list(),
            compiled matches Err(e) ==> e.group == PatternGroup::ReplaceImports && names_pattern(
                e.pattern,
                blamed(self.replace_imports_list()),
            ),
    {
        let all = slices_of(Vec::new(), &self.replace_imports);
        GlobGroup::compile(PatternGroup::ReplaceImports, &all)
    }
}

} // verus!
