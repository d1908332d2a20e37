//! Groups of glob patterns, compiled and matched by the `wax` crate.

use vstd::prelude::*;
use vstd::string::*;
use crate::error::{PatternError, PatternGroup};
use crate::limits::{check_fits, fits};
use crate::paths::{is_segment_end, prefix_of};
use crate::text::{chars_of, string_of};

verus! {

/// `wax::Any`, a combinator of compiled glob patterns. It is carried as it
/// is; what it was built from is named by `any_expressions`.
#[verifier::external_type_specification]
#[verifier::external_body]
pub struct ExAny<'t>(wax::Any<'t>);

/// `wax::BuildError`, the reason why `wax` did not build a pattern. Only
/// its message is read.
#[verifier::external_type_specification]
#[verifier::external_body]
pub struct ExBuildError(wax::BuildError);

/// The glob expressions that a `wax::Any` was built from, in the order in
/// which they were given.
pub uninterp spec fn any_expressions(any: wax::Any<'static>) -> Seq<Seq<char>>;

/// Whether `wax::any` builds a combinator from these glob expressions.
pub uninterp spec fn expressions_build(expressions: Seq<Seq<char>>) -> bool;

/// Whether `expression`, as one of the patterns of a combinator that
/// `wax::any` built, matches the whole of `path`.
pub uninterp spec fn glob_accepts(expression: Seq<char>, path: Seq<char>) -> bool;

/// `wax::Glob`, one compiled glob pattern. It is carried as it is; the
/// expression it was built from is named by `glob_expression`.
#[verifier::external_type_specification]
#[verifier::external_body]
pub struct ExGlob<'t>(wax::Glob<'t>);

/// The expression that a `wax::Glob` was built from.
pub uninterp spec fn glob_expression(glob: wax::Glob<'static>) -> Seq<char>;

/// Whether `wax::Glob::new` builds a glob from this expression.
pub uninterp spec fn glob_builds(expression: Seq<char>) -> bool;

/// Whether the glob that `wax::Glob::new` builds from `expression` matches
/// the whole of `path`.
pub uninterp spec fn glob_matches(expression: Seq<char>, path: Seq<char>) -> bool;

/// What is said of a pattern that cannot be handed to `wax`.
pub open spec fn unfit_reason() -> Seq<char> {
    "The pattern is nested too deeply or repeats too much."@
}

/// Whether every expression of a list can be handed to `wax`.
pub open spec fn all_fit(expressions: Seq<Seq<char>>) -> bool {
    forall|i: int| 0 <= i < expressions.len() ==> fits(#[trigger] expressions[i])
}

/// Whether a list of expressions compiles: every expression can be handed
/// to `wax`, and `wax::any` builds a combinator from the list.
pub open spec fn compiles(expressions: Seq<Seq<char>>) -> bool {
    all_fit(expressions) && expressions_build(expressions)
}

/// Whether one expression compiles on its own: it can be handed to `wax`,
/// and `wax::Glob::new` builds a glob from it.
pub open spec fn glob_compiles(expression: Seq<char>) -> bool {
    fits(expression) && glob_builds(expression)
}

/// The texts of a sequence of string slices.
pub open spec fn texts(slices: Seq<&str>) -> Seq<Seq<char>> {
    Seq::new(slices.len(), |i: int| slices[i]@)
}

/// Whether some expression of the group matches the whole of `path`.
pub open spec fn group_matches(expressions: Seq<Seq<char>>, path: Seq<char>) -> bool {
    exists|i: int| 0 <= i < expressions.len() && glob_accepts(#[trigger] expressions[i], path)
}

/// Whether some expression of the group matches `path` itself or one of the
/// directories above it: a pattern that matches a directory covers all that
/// lies beneath it.
pub open spec fn group_covers(expressions: Seq<Seq<char>>, path: Seq<char>) -> bool {
    exists|end: int|
        is_segment_end(path, end) && #[trigger] group_matches(expressions, path.take(end))
}

/// Whether `directory` names a directory above `path`: `path` continues
/// `directory` with a separator.
pub open spec fn lies_beneath(path: Seq<char>, directory: Seq<char>) -> bool {
    &&& 0 < directory.len() < path.len()
    &&& path.take(directory.len() as int) == directory
    &&& path[directory.len() as int] == '/'
}

/// What covers a directory covers all that lies beneath it.
pub proof fn lemma_cover_reaches_beneath(
    expressions: Seq<Seq<char>>,
    directory: Seq<char>,
    path: Seq<char>,
)
    requires
        lies_beneath(path, directory),
        group_covers(expressions, directory),
    ensures
        group_covers(expressions, path),
{
    let end = choose|end: int|
        is_segment_end(directory, end) && #[trigger] group_matches(
            expressions,
            directory.take(end),
        );
    assert(path.take(end) =~= directory.take(end));
    assert(is_segment_end(path, end)) by {
        if end < directory.len() {
            assert(path[end] == path.take(directory.len() as int)[end]);
        }
    }
}

/// `wax::any` on glob expressions: it succeeds exactly on the lists that
/// `expressions_build` names, and the combinator it returns was built from
/// the given expressions, in their order. Only expressions that fit are
/// handed over.
#[verifier::external_body]
pub(crate) fn build_any<'t>(expressions: &Vec<&'t str>) -> (built: Result<
    wax::Any<'t>,
    wax::BuildError,
>)
    requires
        all_fit(texts(expressions@)),
    ensures
        built is Ok <==> expressions_build(texts(expressions@)),
        built is Ok ==> any_expressions(built->Ok_0) == texts(expressions@),
{
    wax::any(expressions.iter().copied())
}

/// `wax::Glob::new`: it succeeds exactly on the expressions that
/// `glob_builds` names, and the glob it returns was built from the given
/// expression. Only expressions that fit are handed over.
#[verifier::external_body]
pub(crate) fn build_glob<'t>(expression: &'t str) -> (built: Result<wax::Glob<'t>, wax::BuildError>)
    requires
        fits(expression@),
    ensures
        built is Ok <==> glob_builds(expression@),
        built is Ok ==> glob_expression(built->Ok_0) == expression@,
{
    wax::Glob::new(expression)
}

/// `wax::Pattern::is_match` on a `wax::Glob`: whether the glob matches the
/// whole of `path`, which depends on its expression and the path alone.
#[verifier::external_body]
pub(crate) fn glob_is_match(glob: &wax::Glob<'_>, path: &str) -> (matched: bool)
    ensures
        matched == glob_matches(glob_expression(*glob), path@),
{
    wax::Pattern::is_match(glob, path)
}

/// `wax::Pattern::is_match` on a `wax::Any`: a combinator built from at
/// least one expression matches a path exactly when one of its expressions
/// matches the whole path. What an expression matches depends on the
/// expression and the path alone, not on the other expressions of the
/// combinator.
#[verifier::external_body]
pub(crate) fn any_is_match(any: &wax::Any<'_>, path: &str) -> (matched: bool)
    requires
        any_expressions(*any).len() > 0,
    ensures
        matched == (exists|i: int|
            0 <= i < any_expressions(*any).len() && glob_accepts(
                #[trigger] any_expressions(*any)[i],
                path@,
            )),
{
    wax::Pattern::is_match(any, path)
}

/// The message of a `wax::BuildError`, as its `Display` writes it.
#[verifier::external_body]
pub(crate) fn build_error_text(error: &wax::BuildError) -> (message: String) {
    error.to_string()
}

/// The index of the first expression from `start` on that `wax::any` does
/// not build on its own; the length of the list where there is none.
pub open spec fn first_unbuildable(expressions: Seq<Seq<char>>, start: int) -> int
    decreases expressions.len() - start,
{
    if start < 0 || start >= expressions.len() {
        expressions.len() as int
    } else if !expressions_build(seq![expressions[start]]) {
        start
    } else {
        first_unbuildable(expressions, start + 1)
    }
}

/// The index of the first expression from `start` on that cannot be handed
/// to `wax`; the length of the list where there is none.
pub open spec fn first_unfit(expressions: Seq<Seq<char>>, start: int) -> int
    decreases expressions.len() - start,
{
    if start < 0 || start >= expressions.len() {
        expressions.len() as int
    } else if !fits(expressions[start]) {
        start
    } else {
        first_unfit(expressions, start + 1)
    }
}

/// The pattern that is blamed when a list does not compile: the first one
/// that cannot be handed to `wax`; where all can, the first one
/// that does not build on its own.
pub open spec fn blamed(expressions: Seq<Seq<char>>) -> Option<Seq<char>> {
    let large = first_unfit(expressions, 0);
    let at = first_unbuildable(expressions, 0);
    if large < expressions.len() {
        Some(expressions[large])
    } else if at < expressions.len() {
        Some(expressions[at])
    } else {
        None
    }
}

/// Whether `pattern` names the text `expected`, or neither names anything.
pub open spec fn names_pattern(pattern: Option<String>, expected: Option<Seq<char>>) -> bool {
    match (pattern, expected) {
        (Some(p), Some(e)) => p@ == e,
        (None, None) => true,
        _ => false,
    }
}

/// A compiled group of glob patterns.
pub struct GlobGroup<'t> {
    any: wax::Any<'t>,
    count: usize,
}

impl<'t> GlobGroup<'t> {
    #[verifier::type_invariant]
    spec fn counted(self) -> bool {
        self.count == any_expressions(self.any).len()
    }

    /// The glob expressions of the group, in the order of the list they
    /// were compiled from.
    pub closed spec fn expressions(self) -> Seq<Seq<char>> {
        any_expressions(self.any)
    }

    /// Compiles the patterns of one configuration list. A pattern that is
    /// beyond what `wax` can be asked to build is refused before `wax` sees
    /// it, with an error that names the list and the pattern. The list is
    /// refused as a whole where `wax` does not build it; the error then
    /// names the list and the first pattern that does not build alone.
    pub fn compile(group: PatternGroup, expressions: &Vec<&'t str>) -> (compiled: Result<
        GlobGroup<'t>,
        PatternError,
    >)
        ensures
            compiled is Ok <==> compiles(texts(expressions@)),
            compiled matches Ok(g) ==> g.expressions() == texts(expressions@),
            compiled matches Err(e) ==> e.group == group && names_pattern(
                e.pattern,
                blamed(texts(expressions@)),
            ),
            compiled matches Err(e) ==> (!all_fit(texts(expressions@)) ==> e.reason@
                == unfit_reason()),
    {
        let mut i: usize = 0;
        while i < expressions.len()
            invariant
                i <= expressions.len(),
                first_unfit(texts(expressions@), 0) == first_unfit(texts(expressions@), i as int),
                forall|k: int| 0 <= k < i ==> fits(#[trigger] texts(expressions@)[k]),
            decreases expressions.len() - i,
        {
            if !check_fits(expressions[i]) {
                let reason = String::from_str(
                    "The pattern is nested too deeply or repeats too much.",
                );
                assert(!fits(texts(expressions@)[i as int]));
                return Err(
                    PatternError { group, pattern: Some(expressions[i].to_owned()), reason },
                );
            }
            i += 1;
        }
        match build_any(expressions) {
            Ok(any) => Ok(GlobGroup { any, count: expressions.len() }),
            Err(error) => {
                let reason = build_error_text(&error);
                let pattern = first_invalid(expressions);
                Err(PatternError { group, pattern, reason })
            },
        }
    }

    /// How many patterns the group holds.
    pub fn len(&self) -> (n: usize)
        ensures
            n == self.expressions().len(),
    {
        proof {
            use_type_invariant(self);
        }
        self.count
    }

    /// Whether some pattern of the group matches the whole of `path`.
    pub fn is_match(&self, path: &str) -> (matched: bool)
        ensures
            matched == group_matches(self.expressions(), path@),
    {
        proof {
            use_type_invariant(self);
        }
        if self.count == 0 {
            false
        } else {
            any_is_match(&self.any, path)
        }
    }

    /// Whether some pattern of the group matches `path` or a directory
    /// above it.
    pub fn covers(&self, path: &str) -> (covered: bool)
        ensures
            covered == group_covers(self.expressions(), path@),
    {
        let p = chars_of(path);
        if p.len() == 0 {
            return false;
        }
        let mut end: usize = 1;
        while end < p.len()
            invariant
                1 <= end <= p.len(),
                p@ == path@,
                forall|e: int|
                    0 < e < end && is_segment_end(p@, e) ==> !#[trigger] group_matches(
                        self.expressions(),
                        p@.take(e),
                    ),
            decreases p.len() - end,
        {
            if p[end] == '/' {
                let head = prefix_of(&p, end);
                let head_text = string_of(&head);
                if self.is_match(head_text.as_str()) {
                    return true;
                }
            }
            end += 1;
        }
        assert(p@.take(p.len() as int) == p@);
        self.is_match(path)
    }
}

/// The first pattern of the list that `wax::any` does not build alone.
fn first_invalid(expressions: &Vec<&str>) -> (pattern: Option<String>)
    requires
        all_fit(texts(expressions@)),
        first_unfit(texts(expressions@), 0) == expressions@.len(),
    ensures
        names_pattern(pattern, blamed(texts(expressions@))),
{
    let mut i: usize = 0;
    while i < expressions.len()
        invariant
            i <= expressions.len(),
            all_fit(texts(expressions@)),
            first_unfit(texts(expressions@), 0) == expressions@.len(),
            first_unbuildable(texts(expressions@), 0) == first_unbuildable(
                texts(expressions@),
                i as int,
            ),
        decreases expressions.len() - i,
    {
        let mut single: Vec<&str> = Vec::new();
        single.push(expressions[i]);
        assert(texts(single@) == seq![texts(expressions@)[i as int]]);
        if build_any(&single).is_err() {
            return Some(expressions[i].to_owned());
        }
        i += 1;
    }
    None
}

/// One compiled glob pattern.
pub struct PathGlob<'t> {
    glob: wax::Glob<'t>,
}

impl<'t> PathGlob<'t> {
    /// The expression that the glob was compiled from.
    pub closed spec fn expression(self) -> Seq<char> {
        glob_expression(self.glob)
    }

    /// Compiles one pattern. An expression that cannot be handed to `wax`, or
    /// that `wax` does not build, is refused with an error that names the
    /// list it came from and the pattern itself.
    pub fn compile(group: PatternGroup, expression: &'t str) -> (compiled: Result<
        PathGlob<'t>,
        PatternError,
    >)
        ensures
            compiled is Ok <==> glob_compiles(expression@),
            compiled matches Ok(g) ==> g.expression() == expression@,
            compiled matches Err(e) ==> e.group == group && names_pattern(
                e.pattern,
                Some(expression@),
            ),
            compiled matches Err(e) ==> (!fits(expression@) ==> e.reason@ == unfit_reason()),
    {
        if !check_fits(expression) {
            let reason = String::from_str("The pattern is nested too deeply or repeats too much.");
            return Err(PatternError { group, pattern: Some(expression.to_owned()), reason });
        }
        match build_glob(expression) {
            Ok(glob) => Ok(PathGlob { glob }),
            Err(error) => {
                let reason = build_error_text(&error);
                Err(PatternError { group, pattern: Some(expression.to_owned()), reason })
            },
        }
    }

    /// Whether the glob matches the whole of `path`.
    pub fn is_match(&self, path: &str) -> (matched: bool)
        ensures
            matched == glob_matches(self.expression(), path@),
    {
        glob_is_match(&self.glob, path)
    }
}

} // verus!
