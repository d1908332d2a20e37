//! The package assembly engine: the steps that turn a source tree into the
//! tree of the package.

use vstd::prelude::*;
use vstd::string::*;
use crate::config::{default_exclusions, TypstPackageConfig};
use crate::document::{render_document, toml_text};
use crate::error::PatternError;
use crate::glob::{
    blamed,
    compiles,
    group_covers,
    lemma_cover_reaches_beneath,
    lies_beneath,
    names_pattern,
};
use crate::paths::{join, join_paths, prefix_of};
use crate::rewrite::{package_import, qualified_import, rule_for, RewriteModel, RewriteRule};
use crate::select::{
    first_invalid_group,
    lemma_default_exclusion_is_skipped,
    list_of,
    verdict_of,
    FileSelectionOutcome,
    SelectionRules,
};
use crate::text::{chars_of, string_of};

verus! {

/// One entry of the source tree, as the walk of the tree meets it.
pub struct SourceEntry {
    /// The path of the entry, relative to the root of the tree.
    pub path: String,
    /// Whether the entry is a file; a directory otherwise.
    pub is_file: bool,
}

/// One step of the assembly. Paths are relative: to the source tree where
/// something is read, to the package tree where something is written.
pub enum AssemblyStep {
    /// Write the manifest with this content.
    WriteManifest { content: String },
    /// Leave the entry out.
    Skip { path: String },
    /// Create the directory unless it exists.
    CreateDirectory { path: String },
    /// Copy the file byte for byte.
    CopyFile { path: String },
    /// Read the file as text, apply the rule, write the result.
    RewriteFile { path: String, rule: RewriteRule },
}

/// What an `AssemblyStep` stands for.
pub enum StepModel {
    WriteManifest { content: Seq<char> },
    Skip { path: Seq<char> },
    CreateDirectory { path: Seq<char> },
    CopyFile { path: Seq<char> },
    RewriteFile { path: Seq<char>, rule: RewriteModel },
}

impl View for AssemblyStep {
    type V = StepModel;

    open spec fn view(&self) -> StepModel {
        match *self {
            AssemblyStep::WriteManifest { content } => StepModel::WriteManifest {
                content: content@,
            },
            AssemblyStep::Skip { path } => StepModel::Skip { path: path@ },
            AssemblyStep::CreateDirectory { path } => StepModel::CreateDirectory { path: path@ },
            AssemblyStep::CopyFile { path } => StepModel::CopyFile { path: path@ },
            AssemblyStep::RewriteFile { path, rule } => StepModel::RewriteFile {
                path: path@,
                rule: rule@,
            },
        }
    }
}

/// Why no assembly was planned.
pub enum AssemblyError {
    /// The manifest cannot be written as TOML; the message is the writer's.
    Manifest(String),
    /// A list of patterns does not compile.
    Pattern(PatternError),
}

/// The step for one entry on its own: a skipped entry is left out, a
/// directory that is not skipped is created, a file is copied, with
/// rewriting where it is a rewrite target.
pub open spec fn step_for(
    config: TypstPackageConfig,
    path: Seq<char>,
    is_file: bool,
    is_local: bool,
) -> StepModel {
    match verdict_of(config.typpkg_config, path) {
        FileSelectionOutcome::Skip => StepModel::Skip { path },
        FileSelectionOutcome::CopyVerbatim => if is_file {
            StepModel::CopyFile { path }
        } else {
            StepModel::CreateDirectory { path }
        },
        FileSelectionOutcome::CopyWithRewrite => if is_file {
            StepModel::RewriteFile { path, rule: rule_for(config, path, is_local) }
        } else {
            StepModel::CreateDirectory { path }
        },
    }
}

/// Whether `path` is cut before a separator at `cut`: the first `cut`
/// characters then name a directory above the entry.
pub open spec fn is_parent_cut(path: Seq<char>, cut: int) -> bool {
    0 < cut < path.len() && path[cut] == '/'
}

/// The steps that create the skipped directories above `path`, from the
/// one nearest to the root downwards, as far as they are cut before index
/// `upto`. A directory above an entry that is kept must exist before the
/// entry is written; one that is not skipped is created by its own step,
/// one that is skipped is created here.
pub open spec fn missing_parents(config: TypstPackageConfig, path: Seq<char>, upto: int) -> Seq<
    StepModel,
>
    decreases upto,
{
    if upto <= 1 {
        Seq::empty()
    } else {
        let before = missing_parents(config, path, upto - 1);
        if is_parent_cut(path, upto - 1) && verdict_of(
            config.typpkg_config,
            path.take(upto - 1),
        ) is Skip {
            before.push(StepModel::CreateDirectory { path: path.take(upto - 1) })
        } else {
            before
        }
    }
}

/// The steps for one entry: a skipped entry is left out; for an entry that
/// is kept, the skipped directories above it are created, then the entry
/// gets its own step.
pub open spec fn steps_for(
    config: TypstPackageConfig,
    path: Seq<char>,
    is_file: bool,
    is_local: bool,
) -> Seq<StepModel> {
    if verdict_of(config.typpkg_config, path) is Skip {
        seq![StepModel::Skip { path }]
    } else {
        missing_parents(config, path, path.len() as int).push(
            step_for(config, path, is_file, is_local),
        )
    }
}

/// The steps for a list of entries: the steps of each entry, in the order
/// of the entries.
pub open spec fn plan_of(config: TypstPackageConfig, entries: Seq<SourceEntry>, is_local: bool) -> Seq<
    StepModel,
>
    decreases entries.len(),
{
    if entries.len() == 0 {
        Seq::empty()
    } else {
        plan_of(config, entries.drop_last(), is_local) + steps_for(
            config,
            entries.last().path@,
            entries.last().is_file,
            is_local,
        )
    }
}

/// What a sequence of steps stands for.
pub open spec fn step_models(steps: Seq<AssemblyStep>) -> Seq<StepModel> {
    Seq::new(steps.len(), |i: int| steps[i]@)
}

/// Whether an assembly can be planned for `config`: its manifest can be
/// written and its three lists of patterns compile.
pub open spec fn can_assemble(config: TypstPackageConfig) -> bool {
    &&& toml_text(config.non_typpkg@) is Some
    &&& compiles(config.typpkg_config.exclusions())
    &&& compiles(config.typpkg_config.include_list())
    &&& compiles(config.typpkg_config.replace_imports_list())
}

/// Whether `steps` is the assembly of `entries`: the manifest first, then
/// the steps of each entry, in the order of the entries.
pub open spec fn is_assembly_of(
    steps: Seq<AssemblyStep>,
    config: TypstPackageConfig,
    entries: Seq<SourceEntry>,
    is_local: bool,
) -> bool {
    &&& toml_text(config.non_typpkg@) is Some
    &&& step_models(steps) == seq![
        StepModel::WriteManifest { content: toml_text(config.non_typpkg@)->Some_0 },
    ] + plan_of(config, entries, is_local)
}

/// The steps that create the skipped directories above `path`.
pub fn plan_parents(config: &TypstPackageConfig, rules: &SelectionRules, path: &str) -> (steps:
    Vec<AssemblyStep>)
    requires
        rules.belongs_to(config.typpkg_config),
    ensures
        step_models(steps@) == missing_parents(*config, path@, path@.len() as int),
{
    let p = chars_of(path);
    let mut steps: Vec<AssemblyStep> = Vec::new();
    assert(step_models(steps@) =~= Seq::empty());
    if p.len() < 2 {
        return steps;
    }
    let mut cut: usize = 1;
    while cut < p.len()
        invariant
            1 <= cut <= p.len(),
            p@ == path@,
            rules.belongs_to(config.typpkg_config),
            step_models(steps@) == missing_parents(*config, p@, cut as int),
        decreases p.len() - cut,
    {
        if p[cut] == '/' {
            let above = prefix_of(&p, cut);
            let directory = string_of(&above);
            match rules.classify(directory.as_str()) {
                FileSelectionOutcome::Skip => {
                    let ghost before = step_models(steps@);
                    steps.push(AssemblyStep::CreateDirectory { path: directory });
                    assert(step_models(steps@) =~= before.push(
                        StepModel::CreateDirectory { path: p@.take(cut as int) },
                    ));
                },
                _ => {},
            }
        }
        cut += 1;
    }
    steps
}

/// The steps for one entry of the source tree.
pub fn plan_steps(
    config: &TypstPackageConfig,
    rules: &SelectionRules,
    entry: &SourceEntry,
    is_local: bool,
) -> (steps: Vec<AssemblyStep>)
    requires
        rules.belongs_to(config.typpkg_config),
    ensures
        step_models(steps@) == steps_for(*config, entry.path@, entry.is_file, is_local),
{
    let own = plan_entry(config, rules, entry, is_local);
    let skipped = match &own {
        AssemblyStep::Skip { .. } => true,
        _ => false,
    };
    let mut steps = if skipped {
        Vec::new()
    } else {
        plan_parents(config, rules, entry.path.as_str())
    };
    let ghost before = step_models(steps@);
    steps.push(own);
    assert(step_models(steps@) =~= before.push(own@));
    steps
}

/// The step for one entry of the source tree on its own.
pub fn plan_entry(
    config: &TypstPackageConfig,
    rules: &SelectionRules,
    entry: &SourceEntry,
    is_local: bool,
) -> (step: AssemblyStep)
    requires
        rules.belongs_to(config.typpkg_config),
    ensures
        step@ == step_for(*config, entry.path@, entry.is_file, is_local),
{
    let path = entry.path.clone();
    match rules.classify(entry.path.as_str()) {
        FileSelectionOutcome::Skip => AssemblyStep::Skip { path },
        FileSelectionOutcome::CopyVerbatim => if entry.is_file {
            AssemblyStep::CopyFile { path }
        } else {
            AssemblyStep::CreateDirectory { path }
        },
        FileSelectionOutcome::CopyWithRewrite => if entry.is_file {
            let rule = RewriteRule::for_entry(config, entry.path.as_str(), is_local);
            AssemblyStep::RewriteFile { path, rule }
        } else {
            AssemblyStep::CreateDirectory { path }
        },
    }
}

/// Plans the assembly of a package from the entries of its source tree:
/// the manifest is written first, then every entry gets its steps, in the
/// order in which the walk met it. A directory above an entry that is kept
/// is created before the entry is written, also where the directory itself
/// is skipped. `is_local_dir` says whether the package goes to the local
/// package directory.
///
/// Nothing is planned where the manifest cannot be written or a list of
/// patterns does not compile; the manifest is looked at first, then the
/// lists in the order exclude, include, replace_imports.
pub fn package_into(
    config: &TypstPackageConfig,
    entries: &Vec<SourceEntry>,
    is_local_dir: bool,
) -> (plan: Result<Vec<AssemblyStep>, AssemblyError>)
    ensures
        plan is Ok <==> can_assemble(*config),
        plan matches Ok(steps) ==> is_assembly_of(steps@, *config, entries@, is_local_dir),
        plan matches Err(AssemblyError::Manifest(_)) ==> toml_text(config.non_typpkg@) is None,
        plan matches Err(AssemblyError::Pattern(e)) ==> {
            &&& toml_text(config.non_typpkg@) is Some
            &&& e.group == first_invalid_group(config.typpkg_config)
            &&& names_pattern(e.pattern, blamed(list_of(config.typpkg_config, e.group)))
        },
{
    let content = match render_document(&config.non_typpkg) {
        Ok(text) => text,
        Err(message) => {
            return Err(AssemblyError::Manifest(message));
        },
    };
    let rules = match SelectionRules::compile(&config.typpkg_config) {
        Ok(rules) => rules,
        Err(e) => {
            return Err(AssemblyError::Pattern(e));
        },
    };
    let mut steps: Vec<AssemblyStep> = Vec::new();
    steps.push(AssemblyStep::WriteManifest { content });
    let ghost first = step_models(steps@);
    assert(first =~= seq![
        StepModel::WriteManifest { content: toml_text(config.non_typpkg@)->Some_0 },
    ]);
    let mut i: usize = 0;
    while i < entries.len()
        invariant
            i <= entries.len(),
            rules.belongs_to(config.typpkg_config),
            step_models(steps@) == first + plan_of(*config, entries@.take(i as int), is_local_dir),
        decreases entries.len() - i,
    {
        let mut more = plan_steps(config, &rules, &entries[i], is_local_dir);
        let ghost before = step_models(steps@);
        let ghost added = step_models(more@);
        steps.append(&mut more);
        assert(step_models(steps@) =~= before + added);
        assert(entries@.take(i + 1).drop_last() == entries@.take(i as int));
        i += 1;
    }
    assert(entries@.take(entries.len() as int) == entries@);
    Ok(steps)
}

/// The directory in which a package is assembled. Under a directory that
/// the user chose it is `<base>/<name>/<version>`; otherwise `base` is the
/// cache directory of the user, and the package goes to the local packages
/// in it: `<base>/typst/packages/local/<name>/<version>`.
pub open spec fn package_directory(
    base: Seq<char>,
    name: Seq<char>,
    version: Seq<char>,
    is_local_dir: bool,
) -> Seq<char> {
    let root = if is_local_dir {
        join(join(join(base, "typst"@), "packages"@), "local"@)
    } else {
        base
    };
    join(join(root, name), version)
}

/// The directory in which the package of `config` is assembled.
pub fn output_directory(config: &TypstPackageConfig, base: &str, is_local_dir: bool) -> (out:
    String)
    ensures
        out@ == package_directory(base@, config.name@, config.version@, is_local_dir),
{
    let root = if is_local_dir {
        let cache = join_paths(base, "typst");
        let packages = join_paths(cache.as_str(), "packages");
        join_paths(packages.as_str(), "local")
    } else {
        String::from_str(base)
    };
    let named = join_paths(root.as_str(), config.name.as_str());
    join_paths(named.as_str(), config.version.as_str())
}

/// What the user is told once the package is assembled in `out_dir`: where
/// it is, how to publish it and, for a local package, how to import it.
/// The import is the one that rewritten files hold.
pub open spec fn release_note(
    out_dir: Seq<char>,
    name: Seq<char>,
    version: Seq<char>,
    entrypoint: Seq<char>,
    is_local_dir: bool,
) -> Seq<char> {
    let local = if is_local_dir {
        "\n- test and/or use via `#"@ + package_import(true, name, version, entrypoint)
            + "` it, or"@
    } else {
        Seq::empty()
    };
    "Project released to "@ + out_dir + "."@ + local
        + "\n- release it to 'https://github.com/typst/packages'."@
}

/// What the user is told once the package of `config` is assembled.
pub fn release_message(config: &TypstPackageConfig, out_dir: &str, is_local_dir: bool) -> (note:
    String)
    ensures
        note@ == release_note(
            out_dir@,
            config.name@,
            config.version@,
            config.entrypoint@,
            is_local_dir,
        ),
{
    let mut note = String::from_str("Project released to ");
    note.append(out_dir);
    note.append(".");
    if is_local_dir {
        let import = qualified_import(config, true);
        note.append("\n- test and/or use via `#");
        note.append(import.as_str());
        note.append("` it, or");
    }
    note.append("\n- release it to 'https://github.com/typst/packages'.");
    note
}

/// The assembly is determined by the package, the entries and the mode:
/// planning twice gives the same steps.
pub proof fn lemma_assembly_is_determined(
    first: Seq<AssemblyStep>,
    second: Seq<AssemblyStep>,
    config: TypstPackageConfig,
    entries: Seq<SourceEntry>,
    is_local: bool,
)
    requires
        is_assembly_of(first, config, entries, is_local),
        is_assembly_of(second, config, entries, is_local),
    ensures
        first.len() == second.len(),
        forall|k: int| 0 <= k < first.len() ==> (#[trigger] first[k])@ == second[k]@,
{
    assert(step_models(first).len() == step_models(second).len());
    assert forall|k: int| 0 <= k < first.len() implies (#[trigger] first[k])@ == second[k]@ by {
        assert(step_models(first)[k] == step_models(second)[k]);
    }
}

/// The steps of the entries come in the order of the entries: the plan for
/// the first `i + 1` entries is the plan for the first `i`, followed by the
/// steps of the entry at index `i`.
pub proof fn lemma_steps_follow_entries(
    config: TypstPackageConfig,
    entries: Seq<SourceEntry>,
    is_local: bool,
    i: int,
)
    requires
        0 <= i < entries.len(),
    ensures
        plan_of(config, entries.take(i + 1), is_local) == plan_of(
            config,
            entries.take(i),
            is_local,
        ) + steps_for(config, entries[i].path@, entries[i].is_file, is_local),
{
    assert(entries.take(i + 1).drop_last() == entries.take(i));
}

/// An entry that a built-in exclusion covers is left out unless the
/// `include` list covers it too, whatever the user's `exclude` list holds:
/// its only step is the one that skips it.
pub proof fn lemma_default_exclusion_is_left_out(
    config: TypstPackageConfig,
    path: Seq<char>,
    is_file: bool,
    is_local: bool,
)
    requires
        group_covers(default_exclusions(), path),
        !group_covers(config.typpkg_config.include_list(), path),
    ensures
        steps_for(config, path, is_file, is_local) == seq![StepModel::Skip { path }],
{
    lemma_default_exclusion_is_skipped(config.typpkg_config, path);
}

/// The skipped directories above an entry are created, and nothing else is
/// done above it: each of the steps names a directory above the entry that
/// is skipped, and each such directory that is cut before `upto` has its
/// step.
pub proof fn lemma_missing_parents(config: TypstPackageConfig, path: Seq<char>, upto: int)
    requires
        upto <= path.len(),
    ensures
        forall|k: int|
            0 <= k < missing_parents(config, path, upto).len() ==> exists|cut: int|
                is_parent_cut(path, cut) && cut < upto && verdict_of(
                    config.typpkg_config,
                    path.take(cut),
                ) is Skip && #[trigger] missing_parents(config, path, upto)[k]
                    == (StepModel::CreateDirectory { path: path.take(cut) }),
        forall|cut: int|
            is_parent_cut(path, cut) && cut < upto && verdict_of(
                config.typpkg_config,
                #[trigger] path.take(cut),
            ) is Skip ==> missing_parents(config, path, upto).contains(
                StepModel::CreateDirectory { path: path.take(cut) },
            ),
    decreases upto,
{
    if upto > 1 {
        lemma_missing_parents(config, path, upto - 1);
        let before = missing_parents(config, path, upto - 1);
        let now = missing_parents(config, path, upto);
        let last = upto - 1;
        let added = is_parent_cut(path, last) && verdict_of(
            config.typpkg_config,
            path.take(last),
        ) is Skip;
        assert forall|k: int| 0 <= k < now.len() implies exists|cut: int|
            is_parent_cut(path, cut) && cut < upto && verdict_of(
                config.typpkg_config,
                path.take(cut),
            ) is Skip && #[trigger] now[k] == (StepModel::CreateDirectory {
                path: path.take(cut),
            }) by {
            if k < before.len() {
                assert(now[k] == before[k]);
                let cut = choose|cut: int|
                    is_parent_cut(path, cut) && cut < upto - 1 && verdict_of(
                        config.typpkg_config,
                        path.take(cut),
                    ) is Skip && before[k] == (StepModel::CreateDirectory {
                        path: path.take(cut),
                    });
                assert(is_parent_cut(path, cut) && cut < upto);
            } else {
                assert(added);
                assert(is_parent_cut(path, last) && last < upto);
            }
        }
        assert forall|cut: int|
            is_parent_cut(path, cut) && cut < upto && verdict_of(
                config.typpkg_config,
                #[trigger] path.take(cut),
            ) is Skip implies now.contains(StepModel::CreateDirectory { path: path.take(cut) }) by {
            let wanted = StepModel::CreateDirectory { path: path.take(cut) };
            if cut < last {
                assert(before.contains(wanted));
                let k = choose|k: int| 0 <= k < before.len() && before[k] == wanted;
                assert(now[k] == wanted);
            } else {
                assert(now[now.len() - 1] == wanted);
            }
        }
    }
}

/// An entry that the `include` list covers is never left out, whatever
/// excludes it: a file is copied or rewritten, a directory is created, and
/// before that every skipped directory above the entry is created.
pub proof fn lemma_included_entry_is_kept(
    config: TypstPackageConfig,
    path: Seq<char>,
    is_file: bool,
    is_local: bool,
)
    requires
        group_covers(config.typpkg_config.include_list(), path),
    ensures
        ({
            let steps = steps_for(config, path, is_file, is_local);
            &&& steps.len() > 0
            &&& steps.last() == step_for(config, path, is_file, is_local)
            &&& is_file ==> steps.last() is CopyFile || steps.last() is RewriteFile
            &&& !is_file ==> steps.last() is CreateDirectory
            &&& forall|cut: int|
                is_parent_cut(path, cut) && verdict_of(
                    config.typpkg_config,
                    #[trigger] path.take(cut),
                ) is Skip ==> steps.drop_last().contains(
                    StepModel::CreateDirectory { path: path.take(cut) },
                )
        }),
{
    lemma_missing_parents(config, path, path.len() as int);
    let parents = missing_parents(config, path, path.len() as int);
    let steps = steps_for(config, path, is_file, is_local);
    assert(steps.drop_last() =~= parents);
}

/// An entry that no exclusion and no rewrite target covers is reproduced
/// under its own path: a file is copied byte for byte, a directory is
/// created, and nothing else is done for it.
pub proof fn lemma_plain_entry_is_reproduced(
    config: TypstPackageConfig,
    path: Seq<char>,
    is_file: bool,
    is_local: bool,
)
    requires
        !group_covers(config.typpkg_config.exclusions(), path),
        !group_covers(config.typpkg_config.replace_imports_list(), path),
    ensures
        steps_for(config, path, is_file, is_local) == seq![
            if is_file {
                StepModel::CopyFile { path }
            } else {
                StepModel::CreateDirectory { path }
            },
        ],
{
    lemma_missing_parents(config, path, path.len() as int);
    let parents = missing_parents(config, path, path.len() as int);
    if parents.len() > 0 {
        let cut = choose|cut: int|
            is_parent_cut(path, cut) && cut < path.len() && verdict_of(
                config.typpkg_config,
                path.take(cut),
            ) is Skip && #[trigger] parents[0] == (StepModel::CreateDirectory {
                path: path.take(cut),
            });
        assert(lies_beneath(path, path.take(cut))) by {
            assert(path.take(path.take(cut).len() as int) =~= path.take(cut));
        }
        lemma_cover_reaches_beneath(config.typpkg_config.exclusions(), path.take(cut), path);
    }
    assert(parents =~= Seq::empty());
}

/// A tree that no exclusion and no rewrite target covers is reproduced
/// with its structure: the plan holds exactly one step for each entry, in
/// the order of the entries; every file is copied byte for byte and every
/// directory is created, each under its own relative path.
pub proof fn lemma_plain_tree_is_reproduced(
    config: TypstPackageConfig,
    entries: Seq<SourceEntry>,
    is_local: bool,
)
    requires
        forall|i: int|
            0 <= i < entries.len() ==> !group_covers(
                config.typpkg_config.exclusions(),
                #[trigger] entries[i].path@,
            ),
        forall|i: int|
            0 <= i < entries.len() ==> !group_covers(
                config.typpkg_config.replace_imports_list(),
                #[trigger] entries[i].path@,
            ),
    ensures
        plan_of(config, entries, is_local).len() == entries.len(),
        forall|i: int|
            0 <= i < entries.len() ==> #[trigger] plan_of(config, entries, is_local)[i]
                == if entries[i].is_file {
                StepModel::CopyFile { path: entries[i].path@ }
            } else {
                StepModel::CreateDirectory { path: entries[i].path@ }
            },
    decreases entries.len(),
{
    if entries.len() > 0 {
        let front = entries.drop_last();
        assert forall|i: int| 0 <= i < front.len() implies !group_covers(
            config.typpkg_config.exclusions(),
            #[trigger] front[i].path@,
        ) by {
            assert(front[i] == entries[i]);
        }
        assert forall|i: int| 0 <= i < front.len() implies !group_covers(
            config.typpkg_config.replace_imports_list(),
            #[trigger] front[i].path@,
        ) by {
            assert(front[i] == entries[i]);
        }
        lemma_plain_tree_is_reproduced(config, front, is_local);
        let last = entries.last();
        assert(last == entries[entries.len() - 1]);
        lemma_plain_entry_is_reproduced(config, last.path@, last.is_file, is_local);
        assert forall|i: int| 0 <= i < entries.len() implies #[trigger] plan_of(
            config,
            entries,
            is_local,
        )[i] == if entries[i].is_file {
            StepModel::CopyFile { path: entries[i].path@ }
        } else {
            StepModel::CreateDirectory { path: entries[i].path@ }
        } by {
            if i < front.len() {
                assert(plan_of(config, entries, is_local)[i] == plan_of(
                    config,
                    front,
                    is_local,
                )[i]);
                assert(front[i] == entries[i]);
            }
        }
    }
}

} // verus!
