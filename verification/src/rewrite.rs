//! The import rewriting engine: imports of the package's own entrypoint by
//! relative path become imports of the package by name and version.

use vstd::prelude::*;
use vstd::string::*;
use vstd::utf8::{decode_utf8, encode_utf8_decode_utf8, valid_utf8};
use crate::config::TypstPackageConfig;
use crate::error::TextDecodeError;
use crate::paths::{depth, depth_of, join, join_chars, parent_steps, parent_steps_of};
use crate::text::{
    chars_of,
    contains,
    extend_chars,
    lemma_replace_without_occurrence,
    lemma_replaced_pattern_is_gone,
    marks_apart,
    replace_all,
    replace_chars,
    string_of,
};

verus! {

/// An import statement for `target`.
pub open spec fn quoted_import(target: Seq<char>) -> Seq<char> {
    "import \""@ + target + "\""@
}

/// The entrypoint as seen from the directory of the file at `path`: one
/// step to the parent for each directory between the file and the root of
/// the package, then the entrypoint's own path.
pub open spec fn entrypoint_from(path: Seq<char>, entrypoint: Seq<char>) -> Seq<char> {
    join(parent_steps(depth(path)), entrypoint)
}

/// The import of the entrypoint by relative path, as the file at `path`
/// writes it.
pub open spec fn relative_import(path: Seq<char>, entrypoint: Seq<char>) -> Seq<char> {
    quoted_import(entrypoint_from(path, entrypoint))
}

/// The scope of a package reference: local for a package installed on this
/// machine, preview for a published one.
pub open spec fn scope_marker(is_local: bool) -> Seq<char> {
    if is_local {
        "local"@
    } else {
        "preview"@
    }
}

/// The qualified reference to the entrypoint of a package: scope, name,
/// version and entrypoint.
pub open spec fn qualified_target(
    is_local: bool,
    name: Seq<char>,
    version: Seq<char>,
    entrypoint: Seq<char>,
) -> Seq<char> {
    "@"@ + scope_marker(is_local) + "/"@ + name + "/"@ + version + ":"@ + entrypoint
}

/// The import of the package by its qualified reference.
pub open spec fn package_import(
    is_local: bool,
    name: Seq<char>,
    version: Seq<char>,
    entrypoint: Seq<char>,
) -> Seq<char> {
    quoted_import(qualified_target(is_local, name, version, entrypoint))
}

/// How an import of a locally installed package begins.
pub open spec fn local_prefix() -> Seq<char> {
    "#import \"@local/"@
}

/// How an import of a published package begins.
pub open spec fn preview_prefix() -> Seq<char> {
    "#import \"@preview/"@
}

/// The content of a file after rewriting: first every occurrence of
/// `search` becomes `replacement`; then, where `replace_locals` is set,
/// every local import prefix in the result becomes a preview import prefix.
pub open spec fn rewritten(
    content: Seq<char>,
    search: Seq<char>,
    replacement: Seq<char>,
    replace_locals: bool,
) -> Seq<char> {
    let first = replace_all(content, search, replacement);
    if replace_locals {
        replace_all(first, local_prefix(), preview_prefix())
    } else {
        first
    }
}

/// `std::str::from_utf8`: the text of `bytes`, where they are valid UTF-8.
/// The text then has exactly these bytes.
#[verifier::external_body]
pub(crate) fn text_of_bytes(bytes: &[u8]) -> (text: Option<&str>)
    ensures
        text is Some <==> valid_utf8(bytes@),
        text matches Some(s) ==> s.spec_bytes() == bytes@,
{
    std::str::from_utf8(bytes).ok()
}

/// What is searched for and what replaces it in one file.
pub struct RewriteRule {
    /// The import of the entrypoint by relative path.
    pub search: String,
    /// The import of the package that takes its place.
    pub replacement: String,
    /// Whether local import prefixes become preview import prefixes.
    pub replace_locals: bool,
}

/// What a `RewriteRule` stands for.
pub struct RewriteModel {
    pub search: Seq<char>,
    pub replacement: Seq<char>,
    pub replace_locals: bool,
}

impl View for RewriteRule {
    type V = RewriteModel;

    open spec fn view(&self) -> RewriteModel {
        RewriteModel {
            search: self.search@,
            replacement: self.replacement@,
            replace_locals: self.replace_locals,
        }
    }
}

/// The rule for the file at `path` in a package.
pub open spec fn rule_for(config: TypstPackageConfig, path: Seq<char>, is_local: bool) -> RewriteModel {
    RewriteModel {
        search: relative_import(path, config.entrypoint@),
        replacement: package_import(is_local, config.name@, config.version@, config.entrypoint@),
        replace_locals: config.typpkg_config.replace_locals,
    }
}

impl RewriteModel {
    /// The content of a file after the rule was applied to it.
    pub open spec fn apply(self, content: Seq<char>) -> Seq<char> {
        rewritten(content, self.search, self.replacement, self.replace_locals)
    }
}

/// Puts `target` in an import statement.
fn import_statement(target: &Vec<char>) -> (out: Vec<char>)
    ensures
        out@ == quoted_import(target@),
{
    let mut out = chars_of("import \"");
    extend_chars(&mut out, target);
    let quote = chars_of("\"");
    extend_chars(&mut out, &quote);
    out
}

/// The import of the package of `config` by its qualified reference, as
/// rewritten files hold it and as the user is told to write it.
pub fn qualified_import(config: &TypstPackageConfig, is_local: bool) -> (import: String)
    ensures
        import@ == package_import(is_local, config.name@, config.version@, config.entrypoint@),
{
    let entrypoint = chars_of(config.entrypoint.as_str());
    let mut target = chars_of("@");
    let scope = if is_local {
        chars_of("local")
    } else {
        chars_of("preview")
    };
    extend_chars(&mut target, &scope);
    let slash = chars_of("/");
    extend_chars(&mut target, &slash);
    let name = chars_of(config.name.as_str());
    extend_chars(&mut target, &name);
    extend_chars(&mut target, &slash);
    let version = chars_of(config.version.as_str());
    extend_chars(&mut target, &version);
    let colon = chars_of(":");
    extend_chars(&mut target, &colon);
    extend_chars(&mut target, &entrypoint);
    let import = import_statement(&target);
    string_of(&import)
}

impl RewriteRule {
    /// The rule for the file at `path`, a path relative to the root of the
    /// package. `is_local` says whether the package is assembled for the
    /// local package directory.
    pub fn for_entry(config: &TypstPackageConfig, path: &str, is_local: bool) -> (rule: RewriteRule)
        ensures
            rule@ == rule_for(*config, path@, is_local),
    {
        let p = chars_of(path);
        let entrypoint = chars_of(config.entrypoint.as_str());
        let steps = parent_steps_of(depth_of(&p));
        let from_here = join_chars(&steps, &entrypoint);
        let search = import_statement(&from_here);
        RewriteRule {
            search: string_of(&search),
            replacement: qualified_import(config, is_local),
            replace_locals: config.typpkg_config.replace_locals,
        }
    }

    /// Rewrites the content of a file.
    pub fn apply(&self, content: &str) -> (out: String)
        ensures
            out@ == self@.apply(content@),
    {
        let text = chars_of(content);
        let search = chars_of(self.search.as_str());
        let replacement = chars_of(self.replacement.as_str());
        let first = replace_chars(&text, &search, &replacement);
        if self.replace_locals {
            let local = chars_of("#import \"@local/");
            let preview = chars_of("#import \"@preview/");
            let second = replace_chars(&first, &local, &preview);
            string_of(&second)
        } else {
            string_of(&first)
        }
    }

    /// Rewrites the file at `path`, given as bytes. A file that is not text
    /// is refused, with an error that names it: nothing is rewritten in
    /// bytes that are not valid UTF-8.
    pub fn rewrite_file(&self, path: &str, bytes: &[u8]) -> (out: Result<String, TextDecodeError>)
        ensures
            out is Ok <==> valid_utf8(bytes@),
            out matches Ok(text) ==> text@ == self@.apply(decode_utf8(bytes@)),
            out matches Err(e) ==> e.path@ == path@,
    {
        match text_of_bytes(bytes) {
            None => Err(TextDecodeError { path: String::from_str(path) }),
            Some(content) => {
                proof {
                    encode_utf8_decode_utf8(content@);
                }
                Ok(self.apply(content))
            },
        }
    }
}

/// A file that holds neither the relative import of the entrypoint nor,
/// where local imports are normalized, a local import prefix, is written
/// as it was read.
pub proof fn lemma_other_text_is_kept(
    content: Seq<char>,
    search: Seq<char>,
    replacement: Seq<char>,
    replace_locals: bool,
)
    requires
        !contains(content, search),
        replace_locals ==> !contains(content, local_prefix()),
    ensures
        rewritten(content, search, replacement, replace_locals) == content,
{
    lemma_replace_without_occurrence(content, search, replacement);
    if replace_locals {
        lemma_replace_without_occurrence(content, local_prefix(), preview_prefix());
    }
}

/// The two import prefixes begin with the same character, which stands
/// nowhere else in them, and differ where the scope begins.
pub proof fn lemma_prefixes_are_marked_apart()
    ensures
        marks_apart(local_prefix(), preview_prefix()),
{
    reveal_strlit("#import \"@local/");
    reveal_strlit("#import \"@preview/");
    let local = local_prefix();
    let preview = preview_prefix();
    assert(local[10] != preview[10]);
}

/// Where local imports are normalized, a rewritten file holds no local
/// import prefix any more: each one became a preview import prefix, and
/// what stands around them is unchanged.
pub proof fn lemma_no_local_import_remains(
    content: Seq<char>,
    search: Seq<char>,
    replacement: Seq<char>,
)
    ensures
        !contains(rewritten(content, search, replacement, true), local_prefix()),
        rewritten(content, search, replacement, true) == replace_all(
            rewritten(content, search, replacement, false),
            local_prefix(),
            preview_prefix(),
        ),
{
    lemma_prefixes_are_marked_apart();
    lemma_replaced_pattern_is_gone(
        replace_all(content, search, replacement),
        local_prefix(),
        preview_prefix(),
    );
}

} // verus!
