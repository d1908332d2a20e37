//! The file selection matrix: which entries of the source tree are skipped,
//! copied as they are, or copied with their imports rewritten.

use vstd::prelude::*;
use crate::config::{default_exclusions, TypPkgConfig};
use crate::error::{PatternError, PatternGroup};
use crate::glob::{
    blamed,
    compiles,
    glob_accepts,
    group_covers,
    group_matches,
    lemma_cover_reaches_beneath,
    lies_beneath,
    names_pattern,
    GlobGroup,
};
use crate::paths::is_segment_end;

verus! {

/// What happens to one entry of the source tree.
#[derive(Clone, Copy, Debug, PartialEq, Eq, Structural)]
pub enum FileSelectionOutcome {
    /// The entry does not reach the package.
    Skip,
    /// The entry is copied byte for byte.
    CopyVerbatim,
    /// The entry is copied with its imports rewritten.
    CopyWithRewrite,
}

/// The selection rule: an entry that is excluded and not included again is
/// skipped; any other entry is copied, with rewriting where it is a rewrite
/// target. Rewriting changes how an entry is copied, never whether.
pub open spec fn outcome(excluded: bool, included: bool, rewritten: bool) -> FileSelectionOutcome {
    if excluded && !included {
        FileSelectionOutcome::Skip
    } else if rewritten {
        FileSelectionOutcome::CopyWithRewrite
    } else {
        FileSelectionOutcome::CopyVerbatim
    }
}

/// The outcome for `path` under three lists of patterns.
pub open spec fn verdict(
    exclude: Seq<Seq<char>>,
    reinclude: Seq<Seq<char>>,
    rewrite: Seq<Seq<char>>,
    path: Seq<char>,
) -> FileSelectionOutcome {
    outcome(
        group_covers(exclude, path),
        group_covers(reinclude, path),
        group_covers(rewrite, path),
    )
}

/// The outcome for `path` under a configuration.
pub open spec fn verdict_of(config: TypPkgConfig, path: Seq<char>) -> FileSelectionOutcome {
    verdict(config.exclusions(), config.include_list(), config.replace_imports_list(), path)
}

/// Applies the selection rule to the three answers of the pattern groups.
pub fn select(excluded: bool, included: bool, rewritten: bool) -> (o: FileSelectionOutcome)
    ensures
        o == outcome(excluded, included, rewritten),
{
    if excluded && !included {
        FileSelectionOutcome::Skip
    } else if rewritten {
        FileSelectionOutcome::CopyWithRewrite
    } else {
        FileSelectionOutcome::CopyVerbatim
    }
}

/// The three compiled pattern groups of a configuration.
pub struct SelectionRules<'t> {
    pub exclude: GlobGroup<'t>,
    pub reinclude: GlobGroup<'t>,
    pub rewrite: GlobGroup<'t>,
}

impl<'t> SelectionRules<'t> {
    /// Whether the rules were compiled from the lists of `config`.
    pub open spec fn belongs_to(self, config: TypPkgConfig) -> bool {
        &&& self.exclude.expressions() == config.exclusions()
        &&& self.reinclude.expressions() == config.include_list()
        &&& self.rewrite.expressions() == config.replace_imports_list()
    }

    /// The outcome that the rules give for `path`.
    pub open spec fn verdict(self, path: Seq<char>) -> FileSelectionOutcome {
        verdict(
            self.exclude.expressions(),
            self.reinclude.expressions(),
            self.rewrite.expressions(),
            path,
        )
    }

    /// Compiles the three lists of `config`, in the order exclude, include,
    /// replace_imports. The first list that does not build is reported.
    pub fn compile(config: &'t TypPkgConfig) -> (compiled: Result<SelectionRules<'t>, PatternError>)
        ensures
            compiled is Ok <==> compiles(config.exclusions()) && compiles(
                config.include_list(),
            ) && compiles(config.replace_imports_list()),
            compiled matches Ok(rules) ==> rules.belongs_to(*config),
            compiled matches Err(e) ==> e.group == first_invalid_group(*config) && names_pattern(
                e.pattern,
                blamed(list_of(*config, e.group)),
            ),
    {
        let exclude = match config.get_exclude_glob() {
            Ok(g) => g,
            Err(e) => {
                return Err(e);
            },
        };
        let reinclude = match config.get_include_glob() {
            Ok(g) => g,
            Err(e) => {
                return Err(e);
            },
        };
        let rewrite = match config.get_replace_imports_glob() {
            Ok(g) => g,
            Err(e) => {
                return Err(e);
            },
        };
        Ok(SelectionRules { exclude, reinclude, rewrite })
    }

    /// The outcome for the entry at `path`, a path relative to the root of
    /// the source tree.
    pub fn classify(&self, path: &str) -> (o: FileSelectionOutcome)
        ensures
            o == self.verdict(path@),
    {
        let excluded = self.exclude.covers(path);
        let included = self.reinclude.covers(path);
        let rewritten = self.rewrite.covers(path);
        select(excluded, included, rewritten)
    }
}

/// The list of `config` that a pattern group is compiled from.
pub open spec fn list_of(config: TypPkgConfig, group: PatternGroup) -> Seq<Seq<char>> {
    match group {
        PatternGroup::Exclude => config.exclusions(),
        PatternGroup::Include => config.include_list(),
        _ => config.replace_imports_list(),
    }
}

/// The first of the three lists of `config` that does not build.
pub open spec fn first_invalid_group(config: TypPkgConfig) -> PatternGroup {
    if !compiles(config.exclusions()) {
        PatternGroup::Exclude
    } else if !compiles(config.include_list()) {
        PatternGroup::Include
    } else {
        PatternGroup::ReplaceImports
    }
}

/// Every path gets exactly one of the three outcomes.
pub proof fn lemma_exactly_one_outcome(
    exclude: Seq<Seq<char>>,
    reinclude: Seq<Seq<char>>,
    rewrite: Seq<Seq<char>>,
    path: Seq<char>,
)
    ensures
        ({
            let v = verdict(exclude, reinclude, rewrite, path);
            &&& (v is Skip || v is CopyVerbatim || v is CopyWithRewrite)
            &&& !(v is Skip && v is CopyVerbatim)
            &&& !(v is Skip && v is CopyWithRewrite)
            &&& !(v is CopyVerbatim && v is CopyWithRewrite)
        }),
{
}

/// Selection is determined by the configuration and the path: two sets of
/// rules compiled from the same configuration give every path the same
/// outcome.
pub proof fn lemma_selection_is_deterministic(
    first: SelectionRules,
    second: SelectionRules,
    config: TypPkgConfig,
    path: Seq<char>,
)
    requires
        first.belongs_to(config),
        second.belongs_to(config),
    ensures
        first.verdict(path) == second.verdict(path),
        first.verdict(path) == verdict_of(config, path),
{
}

/// Rewriting changes how an entry is copied, never whether: the rewrite
/// targets decide nothing about which entries are skipped.
pub proof fn lemma_rewrite_changes_how_not_whether(
    exclude: Seq<Seq<char>>,
    reinclude: Seq<Seq<char>>,
    rewrite: Seq<Seq<char>>,
    other_rewrite: Seq<Seq<char>>,
    path: Seq<char>,
)
    ensures
        verdict(exclude, reinclude, rewrite, path) is Skip <==> verdict(
            exclude,
            reinclude,
            other_rewrite,
            path,
        ) is Skip,
        verdict(exclude, reinclude, rewrite, path) is CopyWithRewrite ==> group_covers(
            rewrite,
            path,
        ),
{
}

/// A pattern of a list covers every path that it matches, and every path
/// beneath a directory that it matches.
pub proof fn lemma_match_covers(expressions: Seq<Seq<char>>, i: int, path: Seq<char>, end: int)
    requires
        0 <= i < expressions.len(),
        is_segment_end(path, end),
        glob_accepts(expressions[i], path.take(end)),
    ensures
        group_covers(expressions, path),
{
    assert(group_matches(expressions, path.take(end)));
}

/// An entry that a built-in exclusion covers is skipped unless the
/// `include` list covers it too, whatever the user's `exclude` list holds.
pub proof fn lemma_default_exclusion_is_skipped(config: TypPkgConfig, path: Seq<char>)
    requires
        group_covers(default_exclusions(), path),
        !group_covers(config.include_list(), path),
    ensures
        verdict_of(config, path) is Skip,
{
    let end = choose|end: int|
        is_segment_end(path, end) && #[trigger] group_matches(
            default_exclusions(),
            path.take(end),
        );
    let i = choose|i: int|
        0 <= i < default_exclusions().len() && glob_accepts(
            #[trigger] default_exclusions()[i],
            path.take(end),
        );
    lemma_match_covers(config.exclusions(), i, path, end);
}

/// An entry that the `include` list covers is never skipped: `include`
/// overrides `exclude`.
pub proof fn lemma_include_overrides_exclude(config: TypPkgConfig, path: Seq<char>)
    requires
        group_covers(config.include_list(), path),
    ensures
        !(verdict_of(config, path) is Skip),
{
}

/// Exclusion reaches down: beneath a directory that the exclusions cover,
/// every entry that the `include` list does not cover is skipped. Leaving
/// out all that lies beneath a skipped directory therefore agrees with
/// judging each entry on its own, except where an entry is included again.
pub proof fn lemma_exclusion_reaches_beneath(
    config: TypPkgConfig,
    directory: Seq<char>,
    path: Seq<char>,
)
    requires
        lies_beneath(path, directory),
        group_covers(config.exclusions(), directory),
        !group_covers(config.include_list(), path),
    ensures
        verdict_of(config, path) is Skip,
        verdict_of(config, directory) is Skip,
{
    lemma_cover_reaches_beneath(config.exclusions(), directory, path);
    if group_covers(config.include_list(), directory) {
        lemma_cover_reaches_beneath(config.include_list(), directory, path);
    }
}

/// An entry that neither the exclusions nor the rewrite targets cover is
/// copied as it is.
pub proof fn lemma_uncovered_is_copied_verbatim(config: TypPkgConfig, path: Seq<char>)
    requires
        !group_covers(config.exclusions(), path),
        !group_covers(config.replace_imports_list(), path),
    ensures
        verdict_of(config, path) is CopyVerbatim,
{
}

} // verus!
