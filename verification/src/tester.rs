//! The visual regression verifier: test documents, their baselines, and
//! the comparison of a fresh rendering with its baseline.

use vstd::prelude::*;
use vstd::string::*;
use crate::compiler::{CommandModel, CompileCommand};
use crate::config::strings;
use crate::error::{CollaboratorError, PatternError, PatternGroup};
use crate::glob::{glob_compiles, glob_matches, names_pattern, PathGlob};
use crate::hash::{distance, hamming, hash_display, hash_text, lemma_distance_zero_iff_equal};
use crate::paths::{join, join_paths, replace_extension, with_extension};

verus! {

/// A rendered page in shades of grey: one byte for each pixel, row by row.
pub struct Raster {
    width: u32,
    height: u32,
    luma: Vec<u8>,
}

/// What a `Raster` stands for.
pub struct RasterModel {
    pub width: nat,
    pub height: nat,
    pub luma: Seq<u8>,
}

impl View for Raster {
    type V = RasterModel;

    closed spec fn view(&self) -> RasterModel {
        RasterModel { width: self.width as nat, height: self.height as nat, luma: self.luma@ }
    }
}

/// `image_hasher::Hasher::hash_image` with the default configuration, on
/// the grey image of the given size and pixels: its hash of eight bytes.
/// The image is scaled to nine by eight pixels before its pixels are
/// compared, with arithmetic whose precision is not fixed from one machine
/// to the next, so nothing is claimed of the bytes.
#[verifier::external_body]
pub(crate) fn gradient_hash(width: u32, height: u32, luma: &Vec<u8>) -> (hash: [u8; 8])
    requires
        luma@.len() == width * height,
{
    let image = image::GrayImage::from_raw(width, height, luma.clone()).unwrap();
    let hash = image_hasher::HasherConfig::new().to_hasher().hash_image(&image);
    hash.as_bytes().try_into().unwrap()
}

impl Raster {
    #[verifier::type_invariant]
    spec fn sized(self) -> bool {
        self.luma@.len() == self.width * self.height
    }

    /// A raster of the given size, where `luma` holds one byte for each of
    /// its pixels.
    pub fn new(width: u32, height: u32, luma: Vec<u8>) -> (raster: Option<Raster>)
        ensures
            raster is Some <==> luma@.len() == width * height,
            raster matches Some(r) ==> r@ == (RasterModel {
                width: width as nat,
                height: height as nat,
                luma: luma@,
            }),
    {
        assert(width * height <= 0xffff_ffff * 0xffff_ffff) by (nonlinear_arith)
            requires
                width <= 0xffff_ffff,
                height <= 0xffff_ffff,
        ;
        let pixels: u64 = (width as u64) * (height as u64);
        if luma.len() as u64 == pixels {
            Some(Raster { width, height, luma })
        } else {
            None
        }
    }

    /// Whether two rasters are identical, pixel by pixel.
    pub fn same_as(&self, other: &Raster) -> (same: bool)
        ensures
            same == (self@ == other@),
    {
        if self.width != other.width || self.height != other.height || self.luma.len()
            != other.luma.len() {
            return false;
        }
        let mut i: usize = 0;
        while i < self.luma.len()
            invariant
                i <= self.luma.len(),
                self.luma.len() == other.luma.len(),
                self.luma@.take(i as int) == other.luma@.take(i as int),
            decreases self.luma.len() - i,
        {
            if self.luma[i] != other.luma[i] {
                return false;
            }
            i += 1;
        }
        assert(self.luma@.take(self.luma.len() as int) == self.luma@);
        assert(other.luma@.take(other.luma.len() as int) == other.luma@);
        true
    }

    /// The perceptual hash of the raster: eight bytes, as `image_hasher`
    /// computes them. Which bytes they are is left open, since the scaling
    /// that precedes the hash is not exact; `judge` says what follows from
    /// two hashes, whatever they are.
    pub fn hash(&self) -> (hash: [u8; 8]) {
        proof {
            use_type_invariant(self);
        }
        gradient_hash(self.width, self.height, &self.luma)
    }
}

/// How one test ended.
pub enum TestOutcome {
    /// The document has no baseline: it is reported and counted neither as
    /// passed nor as failed.
    MissingBaseline,
    /// The fresh rendering is at distance zero from the baseline.
    Passed,
    /// The fresh rendering differs from the baseline: both hashes as
    /// `image_hasher` shows them, and their distance.
    Mismatch { old_hash: String, new_hash: String, distance: u32 },
}

/// What a `TestOutcome` stands for.
pub enum OutcomeModel {
    MissingBaseline,
    Passed,
    Mismatch { old_hash: Seq<char>, new_hash: Seq<char>, distance: nat },
}

impl View for TestOutcome {
    type V = OutcomeModel;

    open spec fn view(&self) -> OutcomeModel {
        match *self {
            TestOutcome::MissingBaseline => OutcomeModel::MissingBaseline,
            TestOutcome::Passed => OutcomeModel::Passed,
            TestOutcome::Mismatch { old_hash, new_hash, distance } => OutcomeModel::Mismatch {
                old_hash: old_hash@,
                new_hash: new_hash@,
                distance: distance as nat,
            },
        }
    }
}

/// The outcome for two hashes: passed at distance zero, otherwise a
/// mismatch that shows both hashes and the distance.
pub open spec fn outcome_of_hashes(old: Seq<u8>, new: Seq<u8>) -> OutcomeModel {
    if hamming(old, new) == 0 {
        OutcomeModel::Passed
    } else {
        OutcomeModel::Mismatch {
            old_hash: hash_display(old),
            new_hash: hash_display(new),
            distance: hamming(old, new),
        }
    }
}

/// Whether `outcome` can be the outcome of comparing a baseline with a
/// fresh rendering: identical rasters pass; any two rasters pass or give a
/// mismatch, as the hashes of the two decide.
pub open spec fn fits_comparison(
    outcome: OutcomeModel,
    baseline: RasterModel,
    fresh: RasterModel,
) -> bool {
    &&& baseline == fresh ==> outcome is Passed
    &&& exists|old: Seq<u8>, new: Seq<u8>|
        old.len() == 8 && new.len() == 8 && outcome == #[trigger] outcome_of_hashes(old, new)
}

/// Judges a fresh rendering by its hash and the hash of the baseline.
pub fn judge(old: &[u8; 8], new: &[u8; 8]) -> (outcome: TestOutcome)
    ensures
        outcome@ == outcome_of_hashes(old@, new@),
        outcome is Passed <==> old@ == new@,
{
    proof {
        lemma_distance_zero_iff_equal(old@, new@);
    }
    let d = distance(old, new);
    if d > 0 {
        TestOutcome::Mismatch {
            old_hash: hash_text(old),
            new_hash: hash_text(new),
            distance: d,
        }
    } else {
        TestOutcome::Passed
    }
}

/// Compares a fresh rendering with its baseline.
pub fn compare(baseline: &Raster, fresh: &Raster) -> (outcome: TestOutcome)
    ensures
        fits_comparison(outcome@, baseline@, fresh@),
{
    if baseline.same_as(fresh) {
        let zero: [u8; 8] = [0u8; 8];
        proof {
            lemma_distance_zero_iff_equal(zero@, zero@);
            assert(outcome_of_hashes(zero@, zero@) is Passed);
        }
        TestOutcome::Passed
    } else {
        let old = baseline.hash();
        let new = fresh.hash();
        let outcome = judge(&old, &new);
        outcome
    }
}

/// The glob of the test documents, relative to the test directory.
pub open spec fn document_glob() -> Seq<char> {
    "**/*.typ"@
}

/// The entries that `pattern` matches, in their order.
pub open spec fn matching(pattern: Seq<char>, entries: Seq<Seq<char>>) -> Seq<Seq<char>>
    decreases entries.len(),
{
    if entries.len() == 0 {
        Seq::empty()
    } else if glob_matches(pattern, entries.last()) {
        matching(pattern, entries.drop_last()).push(entries.last())
    } else {
        matching(pattern, entries.drop_last())
    }
}

/// The test documents among the entries of the test directory: those that
/// the glob of the test documents matches, in the order of the entries.
/// `entries` holds paths relative to the test directory.
pub fn test_documents(entries: &Vec<String>) -> (found: Result<Vec<String>, PatternError>)
    ensures
        found is Ok <==> glob_compiles(document_glob()),
        found matches Ok(documents) ==> strings(documents@) == matching(
            document_glob(),
            strings(entries@),
        ),
        found matches Err(e) ==> e.group == PatternGroup::TestDocuments && names_pattern(
            e.pattern,
            Some(document_glob()),
        ),
{
    let glob = match PathGlob::compile(PatternGroup::TestDocuments, "**/*.typ") {
        Ok(glob) => glob,
        Err(e) => {
            return Err(e);
        },
    };
    let mut documents: Vec<String> = Vec::new();
    assert(strings(documents@) =~= Seq::empty());
    let mut i: usize = 0;
    while i < entries.len()
        invariant
            i <= entries.len(),
            glob.expression() == document_glob(),
            strings(documents@) == matching(document_glob(), strings(entries@).take(i as int)),
        decreases entries.len() - i,
    {
        let ghost so_far = strings(documents@);
        assert(strings(entries@).take(i + 1).drop_last() == strings(entries@).take(i as int));
        if glob.is_match(entries[i].as_str()) {
            documents.push(entries[i].clone());
            assert(strings(documents@) =~= so_far.push(entries@[i as int]@));
        }
        i += 1;
    }
    assert(strings(entries@).take(entries.len() as int) == strings(entries@));
    Ok(documents)
}

/// A test document with the two images that belong to it.
pub struct TestCase {
    /// The test document.
    pub document: String,
    /// The baseline image beside the document.
    pub baseline: String,
    /// The fresh rendering in the scratch directory.
    pub rendered: String,
}

/// What a `TestCase` stands for.
pub struct TestCaseModel {
    pub document: Seq<char>,
    pub baseline: Seq<char>,
    pub rendered: Seq<char>,
}

impl View for TestCase {
    type V = TestCaseModel;

    open spec fn view(&self) -> TestCaseModel {
        TestCaseModel {
            document: self.document@,
            baseline: self.baseline@,
            rendered: self.rendered@,
        }
    }
}

/// The test case of the document at `relative`, a path relative to the
/// test directory of the package at `in_dir`: the baseline lies beside the
/// document, the fresh rendering at the same relative path under
/// `scratch`, both with the extension `png`.
pub open spec fn test_case(
    in_dir: Seq<char>,
    scratch: Seq<char>,
    relative: Seq<char>,
) -> TestCaseModel {
    let document = join(join(in_dir, "tests"@), relative);
    TestCaseModel {
        document,
        baseline: with_extension(document, "png"@),
        rendered: with_extension(join(scratch, relative), "png"@),
    }
}

/// The run of the compiler that renders the document of a test case: it is
/// started in the directory of the package.
pub open spec fn render_command(case: TestCaseModel, in_dir: Seq<char>) -> CommandModel {
    CommandModel {
        program: "typst"@,
        arguments: seq!["c"@, case.document, case.rendered],
        working_directory: in_dir,
        document: case.document,
    }
}

impl TestCase {
    /// The test case of the document at `relative`, a path relative to the
    /// test directory of the package at `in_dir`.
    pub fn locate(in_dir: &str, scratch: &str, relative: &str) -> (case: TestCase)
        ensures
            case@ == test_case(in_dir@, scratch@, relative@),
    {
        let tests = join_paths(in_dir, "tests");
        let document = join_paths(tests.as_str(), relative);
        let baseline = replace_extension(document.as_str(), "png");
        let fresh = join_paths(scratch, relative);
        let rendered = replace_extension(fresh.as_str(), "png");
        TestCase { document, baseline, rendered }
    }

    /// The run of the compiler that renders the document.
    pub fn command(&self, in_dir: &str) -> (run: CompileCommand)
        ensures
            run@ == render_command(self@, in_dir@),
    {
        let mut arguments: Vec<String> = Vec::new();
        arguments.push(String::from_str("c"));
        arguments.push(self.document.clone());
        arguments.push(self.rendered.clone());
        let run = CompileCommand {
            program: String::from_str("typst"),
            arguments,
            working_directory: String::from_str(in_dir),
            document: self.document.clone(),
        };
        assert(run@.arguments =~= render_command(self@, in_dir@).arguments);
        run
    }
}

/// What is done next for a test document.
pub enum TestStep {
    /// The document has no baseline: the user is warned and the document is
    /// left alone.
    Warn,
    /// The document is rendered by this run of the compiler.
    Render(CompileCommand),
}

/// What a `TestStep` stands for.
pub enum TestStepModel {
    Warn,
    Render(CommandModel),
}

impl View for TestStep {
    type V = TestStepModel;

    open spec fn view(&self) -> TestStepModel {
        match *self {
            TestStep::Warn => TestStepModel::Warn,
            TestStep::Render(run) => TestStepModel::Render(run@),
        }
    }
}

/// What is done next for a test document: the compiler is started for a
/// document that has a baseline, once, and for no other.
pub open spec fn test_step(case: TestCaseModel, in_dir: Seq<char>, has_baseline: bool) -> TestStepModel {
    if has_baseline {
        TestStepModel::Render(render_command(case, in_dir))
    } else {
        TestStepModel::Warn
    }
}

/// What is done next for a test document. `has_baseline` says whether the
/// baseline image of the document exists.
pub fn next_step(case: &TestCase, in_dir: &str, has_baseline: bool) -> (step: TestStep)
    ensures
        step@ == test_step(case@, in_dir@, has_baseline),
{
    if has_baseline {
        TestStep::Render(case.command(in_dir))
    } else {
        TestStep::Warn
    }
}

/// What was found for one test document.
pub enum Evidence {
    /// There is no baseline image.
    NoBaseline,
    /// The compiler did not render the document.
    Failed(CollaboratorError),
    /// The baseline and the fresh rendering.
    Rendered { baseline: Raster, fresh: Raster },
}

/// Whether `outcome` can be the outcome for `evidence`: a document without
/// baseline is reported as such; a rendering is compared with its baseline;
/// a document that was not rendered has no outcome.
pub open spec fn fits(outcome: OutcomeModel, evidence: Evidence) -> bool {
    match evidence {
        Evidence::NoBaseline => outcome is MissingBaseline,
        Evidence::Failed(_) => false,
        Evidence::Rendered { baseline, fresh } => fits_comparison(outcome, baseline@, fresh@),
    }
}

/// Whether `error` says what `failure` says: the same program, the same
/// document, the same end.
pub open spec fn same_failure(error: CollaboratorError, failure: CollaboratorError) -> bool {
    &&& error.program@ == failure.program@
    &&& error.document@ == failure.document@
    &&& error.end == failure.end
}

/// The index of the first document from `start` on that was not rendered;
/// the number of documents where all were.
pub open spec fn first_failure(evidence: Seq<Evidence>, start: int) -> int
    decreases evidence.len() - start,
{
    if start < 0 || start >= evidence.len() {
        evidence.len() as int
    } else if evidence[start] is Failed {
        start
    } else {
        first_failure(evidence, start + 1)
    }
}

/// The outcome for one test document. A document that the compiler did not
/// render has none: the failure of the compiler is handed on.
pub fn evaluate(evidence: &Evidence) -> (outcome: Result<TestOutcome, CollaboratorError>)
    ensures
        outcome is Ok <==> !(*evidence is Failed),
        outcome matches Ok(o) ==> fits(o@, *evidence),
        outcome matches Err(e) ==> same_failure(e, evidence->Failed_0),
{
    match evidence {
        Evidence::NoBaseline => Ok(TestOutcome::MissingBaseline),
        Evidence::Failed(failure) => Err(
            CollaboratorError {
                program: failure.program.clone(),
                document: failure.document.clone(),
                end: failure.end,
            },
        ),
        Evidence::Rendered { baseline, fresh } => Ok(compare(baseline, fresh)),
    }
}

/// How many of the first `n` outcomes passed.
pub open spec fn passes(outcomes: Seq<TestOutcome>, n: int) -> nat
    decreases n,
{
    if n <= 0 {
        0
    } else if outcomes[n - 1] is Passed {
        passes(outcomes, n - 1) + 1
    } else {
        passes(outcomes, n - 1)
    }
}

/// How many of the first `n` outcomes are mismatches.
pub open spec fn failures(outcomes: Seq<TestOutcome>, n: int) -> nat
    decreases n,
{
    if n <= 0 {
        0
    } else if outcomes[n - 1] is Mismatch {
        failures(outcomes, n - 1) + 1
    } else {
        failures(outcomes, n - 1)
    }
}

/// The outcomes of a run of the tests.
pub struct TestReport {
    /// One outcome for each test document, in their order.
    pub outcomes: Vec<TestOutcome>,
    /// How many tests passed.
    pub passed: usize,
    /// How many tests failed.
    pub failed: usize,
}

impl TestReport {
    /// Whether the counts of the report are those of its outcomes.
    pub open spec fn counted(self) -> bool {
        &&& self.passed == passes(self.outcomes@, self.outcomes@.len() as int)
        &&& self.failed == failures(self.outcomes@, self.outcomes@.len() as int)
    }
}

/// Evaluates every test: no test is left out, whatever the outcome of
/// those before it. A document without baseline is counted neither as
/// passed nor as failed. Only a document that the compiler did not render
/// ends the evaluation: the failure of the compiler on the first such
/// document is the error.
pub fn compile_tests(evidence: &Vec<Evidence>) -> (report: Result<TestReport, CollaboratorError>)
    ensures
        report is Ok <==> first_failure(evidence@, 0) == evidence@.len(),
        report matches Ok(r) ==> {
            &&& r.outcomes@.len() == evidence@.len()
            &&& forall|i: int|
                0 <= i < evidence@.len() ==> fits((#[trigger] r.outcomes@[i])@, evidence@[i])
            &&& r.counted()
        },
        report matches Err(e) ==> same_failure(
            e,
            evidence@[first_failure(evidence@, 0)]->Failed_0,
        ),
{
    let mut outcomes: Vec<TestOutcome> = Vec::new();
    let mut passed: usize = 0;
    let mut failed: usize = 0;
    let mut i: usize = 0;
    while i < evidence.len()
        invariant
            i <= evidence.len(),
            outcomes@.len() == i,
            first_failure(evidence@, 0) == first_failure(evidence@, i as int),
            forall|k: int| 0 <= k < i ==> fits((#[trigger] outcomes@[k])@, evidence@[k]),
            passed == passes(outcomes@, i as int),
            failed == failures(outcomes@, i as int),
            passed + failed <= i,
        decreases evidence.len() - i,
    {
        let outcome = match evaluate(&evidence[i]) {
            Ok(outcome) => outcome,
            Err(e) => {
                return Err(e);
            },
        };
        match &outcome {
            TestOutcome::Passed => {
                passed += 1;
            },
            TestOutcome::Mismatch { .. } => {
                failed += 1;
            },
            TestOutcome::MissingBaseline => {},
        }
        let ghost before = outcomes@;
        outcomes.push(outcome);
        proof {
            lemma_counts_ignore_later(before, outcomes@, i as int);
        }
        i += 1;
    }
    Ok(TestReport { outcomes, passed, failed })
}

proof fn lemma_counts_ignore_later(a: Seq<TestOutcome>, b: Seq<TestOutcome>, n: int)
    requires
        0 <= n <= a.len(),
        n <= b.len(),
        forall|k: int| 0 <= k < n ==> a[k] == b[k],
    ensures
        passes(a, n) == passes(b, n),
        failures(a, n) == failures(b, n),
    decreases n,
{
    if n > 0 {
        lemma_counts_ignore_later(a, b, n - 1);
    }
}

/// A test without baseline changes neither the number of tests that passed
/// nor the number of tests that failed.
pub proof fn lemma_missing_baseline_is_not_counted(outcomes: Seq<TestOutcome>)
    requires
        outcomes.len() > 0,
        outcomes.last() is MissingBaseline,
    ensures
        passes(outcomes, outcomes.len() as int) == passes(
            outcomes.drop_last(),
            outcomes.len() - 1,
        ),
        failures(outcomes, outcomes.len() as int) == failures(
            outcomes.drop_last(),
            outcomes.len() - 1,
        ),
{
    lemma_counts_ignore_later(outcomes.drop_last(), outcomes, outcomes.len() - 1);
}

/// A fresh rendering that is identical to its baseline, pixel by pixel,
/// passes: its distance from the baseline is zero and nothing is reported.
pub proof fn lemma_identical_rendering_passes(
    outcome: OutcomeModel,
    baseline: Raster,
    fresh: Raster,
)
    requires
        baseline@ == fresh@,
        fits(outcome, Evidence::Rendered { baseline, fresh }),
    ensures
        outcome is Passed,
{
}

} // verus!
