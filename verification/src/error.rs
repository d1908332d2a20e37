//! What can go wrong while a package is read, selected and assembled.

use vstd::prelude::*;
use vstd::string::*;

verus! {

/// The configuration list that a glob pattern was taken from.
#[derive(Clone, Copy, Debug, PartialEq, Eq, Structural)]
pub enum PatternGroup {
    /// The paths left out of the package, the built-in ones included.
    Exclude,
    /// The paths kept although they are excluded.
    Include,
    /// The files whose imports are rewritten.
    ReplaceImports,
    /// The documents compiled before packaging.
    TypstCompile,
    /// The documents of the test tree.
    TestDocuments,
}

/// A list of glob patterns that could not be compiled.
#[derive(Clone, Debug)]
pub struct PatternError {
    /// The list that holds the pattern.
    pub group: PatternGroup,
    /// The first pattern of the list that does not compile on its own, if
    /// there is one.
    pub pattern: Option<String>,
    /// Why the list was refused, in the words of the glob compiler.
    pub reason: String,
}

/// A file that had to be rewritten and is not text.
#[derive(Clone, Debug)]
pub struct TextDecodeError {
    /// The path of the file, relative to the root of the source tree.
    pub path: String,
}

/// How the run of an outside program ended.
#[derive(Clone, Copy, Debug, PartialEq, Eq, Structural)]
pub enum RunEnd {
    /// The program could not be started.
    NotStarted,
    /// The program exited with this code.
    Exited(i32),
    /// The program ended without an exit code.
    Stopped,
}

/// An outside program that did not end well.
#[derive(Clone, Debug)]
pub struct CollaboratorError {
    /// The program that was run.
    pub program: String,
    /// What it was run on: the document that was compiled, or the directory
    /// in which a script ran.
    pub document: String,
    /// How the run ended.
    pub end: RunEnd,
}

/// A field of the `package` table.
#[derive(Clone, Copy, Debug, PartialEq, Eq, Structural)]
pub enum PackageField {
    Name,
    Version,
    Entrypoint,
}

/// An entry of the `tool.typpkg` table.
#[derive(Clone, Copy, Debug, PartialEq, Eq, Structural)]
pub enum TypPkgField {
    Exclude,
    Include,
    ReplaceImports,
    ReplaceLocals,
    Postscript,
    TypstCompile,
    Tests,
}

/// Why a manifest cannot be read as a package description.
#[derive(Clone, Copy, Debug, PartialEq, Eq, Structural)]
pub enum ConfigErrorKind {
    /// The text is not TOML.
    InvalidToml,
    /// There is no `package` entry at the top level.
    MissingPackage,
    /// The `package` entry is not a table.
    PackageNotTable,
    /// The `package` table lacks the field.
    MissingField(PackageField),
    /// The field of the `package` table is not a string.
    FieldNotString(PackageField),
    /// The `tool` entry is not a table.
    ToolNotTable,
    /// The `tool.typpkg` entry is not a table.
    TypPkgNotTable,
    /// The entry of `tool.typpkg` has the wrong shape.
    InvalidTypPkg(TypPkgField),
}

/// A manifest that cannot be read as a package description.
#[derive(Clone, Debug)]
pub struct ConfigError {
    /// What is wrong.
    pub kind: ConfigErrorKind,
    /// The parser's message where the text is not TOML; empty otherwise.
    pub detail: String,
}

impl PackageField {
    /// The key of the field in the `package` table.
    pub open spec fn key(self) -> Seq<char> {
        match self {
            PackageField::Name => "name"@,
            PackageField::Version => "version"@,
            PackageField::Entrypoint => "entrypoint"@,
        }
    }

    /// The key of the field in the `package` table.
    pub fn name(self) -> (s: &'static str)
        ensures
            s@ == self.key(),
    {
        match self {
            PackageField::Name => "name",
            PackageField::Version => "version",
            PackageField::Entrypoint => "entrypoint",
        }
    }
}

impl TypPkgField {
    /// The key of the entry in the `tool.typpkg` table.
    pub open spec fn key(self) -> Seq<char> {
        match self {
            TypPkgField::Exclude => "exclude"@,
            TypPkgField::Include => "include"@,
            TypPkgField::ReplaceImports => "replace_imports"@,
            TypPkgField::ReplaceLocals => "replace_locals"@,
            TypPkgField::Postscript => "postscript"@,
            TypPkgField::TypstCompile => "typst_compile"@,
            TypPkgField::Tests => "tests"@,
        }
    }

    /// The key of the entry in the `tool.typpkg` table.
    pub fn name(self) -> (s: &'static str)
        ensures
            s@ == self.key(),
    {
        match self {
            TypPkgField::Exclude => "exclude",
            TypPkgField::Include => "include",
            TypPkgField::ReplaceImports => "replace_imports",
            TypPkgField::ReplaceLocals => "replace_locals",
            TypPkgField::Postscript => "postscript",
            TypPkgField::TypstCompile => "typst_compile",
            TypPkgField::Tests => "tests",
        }
    }
}

impl ConfigErrorKind {
    /// The line shown to the user.
    pub open spec fn headline(self) -> Seq<char> {
        match self {
            ConfigErrorKind::InvalidToml => "Error parsing the toml in `typst.toml`."@,
            ConfigErrorKind::MissingPackage => "`typst.toml` does not contain the `package` table."@,
            ConfigErrorKind::PackageNotTable => "The `package` field is not a table in `typst.toml`."@,
            ConfigErrorKind::MissingField(f) => "[package] does not contain the field `"@ + f.key()
                + "` in `typst.toml`."@,
            ConfigErrorKind::FieldNotString(f) => "Field `"@ + f.key()
                + "` in `typst.toml` should be a string."@,
            ConfigErrorKind::ToolNotTable => "The `tool` field is supposed to be a table."@,
            ConfigErrorKind::TypPkgNotTable => "The `tool.typpkg` field is supposed to be a table."@,
            ConfigErrorKind::InvalidTypPkg(_) => "Error parsing `[tool.typpkg]` in `typst.toml`."@,
        }
    }
}

impl ConfigError {
    /// An error of the given kind, without detail.
    pub fn of(kind: ConfigErrorKind) -> (e: ConfigError)
        ensures
            e.kind == kind,
            e.detail@.len() == 0,
    {
        ConfigError { kind, detail: String::new() }
    }

    /// The line shown to the user.
    pub fn message(&self) -> (s: String)
        ensures
            s@ == self.kind.headline(),
    {
        match self.kind {
            ConfigErrorKind::InvalidToml => String::from_str(
                "Error parsing the toml in `typst.toml`.",
            ),
            ConfigErrorKind::MissingPackage => String::from_str(
                "`typst.toml` does not contain the `package` table.",
            ),
            ConfigErrorKind::PackageNotTable => String::from_str(
                "The `package` field is not a table in `typst.toml`.",
            ),
            ConfigErrorKind::MissingField(f) => {
                let mut s = String::from_str("[package] does not contain the field `");
                s.append(f.name());
                s.append("` in `typst.toml`.");
                s
            },
            ConfigErrorKind::FieldNotString(f) => {
                let mut s = String::from_str("Field `");
                s.append(f.name());
                s.append("` in `typst.toml` should be a string.");
                s
            },
            ConfigErrorKind::ToolNotTable => String::from_str(
                "The `tool` field is supposed to be a table.",
            ),
            ConfigErrorKind::TypPkgNotTable => String::from_str(
                "The `tool.typpkg` field is supposed to be a table.",
            ),
            ConfigErrorKind::InvalidTypPkg(_) => String::from_str(
                "Error parsing `[tool.typpkg]` in `typst.toml`.",
            ),
        }
    }
}

impl PatternGroup {
    /// The name of the list in the manifest.
    pub open spec fn label(self) -> Seq<char> {
        match self {
            PatternGroup::Exclude => "exclude"@,
            PatternGroup::Include => "include"@,
            PatternGroup::ReplaceImports => "replace_imports"@,
            PatternGroup::TypstCompile => "typst_compile pathes"@,
            PatternGroup::TestDocuments => "test documents"@,
        }
    }

    /// The name of the list in the manifest.
    pub fn name(self) -> (s: &'static str)
        ensures
            s@ == self.label(),
    {
        match self {
            PatternGroup::Exclude => "exclude",
            PatternGroup::Include => "include",
            PatternGroup::ReplaceImports => "replace_imports",
            PatternGroup::TypstCompile => "typst_compile pathes",
            PatternGroup::TestDocuments => "test documents",
        }
    }
}

impl TextDecodeError {
    /// The line shown to the user: which file is not text.
    pub open spec fn headline(self) -> Seq<char> {
        "The file `"@ + self.path@ + "` is not text."@
    }

    /// The line shown to the user: which file is not text.
    pub fn message(&self) -> (s: String)
        ensures
            s@ == self.headline(),
    {
        let mut s = String::from_str("The file `");
        s.append(self.path.as_str());
        s.append("` is not text.");
        s
    }
}

impl RunEnd {
    /// What is said of a run that ended so.
    pub open spec fn label(self) -> Seq<char> {
        match self {
            RunEnd::NotStarted => "could not be started"@,
            RunEnd::Exited(_) => "exited with a failure"@,
            RunEnd::Stopped => "ended without an exit code"@,
        }
    }

    /// What is said of a run that ended so.
    pub fn name(self) -> (s: &'static str)
        ensures
            s@ == self.label(),
    {
        match self {
            RunEnd::NotStarted => "could not be started",
            RunEnd::Exited(_) => "exited with a failure",
            RunEnd::Stopped => "ended without an exit code",
        }
    }
}

impl CollaboratorError {
    /// The line shown to the user: which program failed on which document.
    pub open spec fn headline(self) -> Seq<char> {
        "Error on `"@ + self.document@ + "`: `"@ + self.program@ + "` "@ + self.end.label() + "."@
    }

    /// The line shown to the user: which program failed on which document.
    pub fn message(&self) -> (s: String)
        ensures
            s@ == self.headline(),
    {
        let mut s = String::from_str("Error on `");
        s.append(self.document.as_str());
        s.append("`: `");
        s.append(self.program.as_str());
        s.append("` ");
        s.append(self.end.name());
        s.append(".");
        s
    }
}

/// What the end of an outside program means for the run of this tool: an
/// exit with code zero lets it go on; a program that could not be started,
/// exited with another code or ended without one ends it, with an error
/// that names the program and what it was run on.
pub fn check_exit(program: &str, document: &str, end: RunEnd) -> (checked: Result<
    (),
    CollaboratorError,
>)
    ensures
        checked is Ok <==> end == RunEnd::Exited(0i32),
        checked matches Err(e) ==> e.program@ == program@ && e.document@ == document@ && e.end
            == end,
{
    match end {
        RunEnd::Exited(0) => Ok(()),
        _ => Err(
            CollaboratorError {
                program: String::from_str(program),
                document: String::from_str(document),
                end,
            },
        ),
    }
}

impl PatternError {
    /// The line shown to the user: which list holds the invalid glob.
    pub open spec fn headline(self) -> Seq<char> {
        "Not valid (wax-)globs in "@ + self.group.label() + "."@
    }

    /// The line shown to the user: which list holds the invalid glob.
    pub fn message(&self) -> (s: String)
        ensures
            s@ == self.headline(),
    {
        let mut s = String::from_str("Not valid (wax-)globs in ");
        s.append(self.group.name());
        s.append(".");
        s
    }
}

} // verus!
