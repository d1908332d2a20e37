//! The documents that are compiled before packaging, and the compiler
//! runs that produce them.

use vstd::prelude::*;
use vstd::string::*;
use crate::config::{
    compile_groups,
    strings,
    CompileGroupModel,
    TypstCompileConfig,
    TypstPackageConfig,
};
use crate::error::{check_exit, CollaboratorError, PatternError, PatternGroup, RunEnd};
use crate::glob::{glob_compiles, glob_matches, names_pattern, PathGlob};
use crate::paths::{join, join_paths, parent, parent_of};

verus! {

/// One run of the compiler.
pub struct CompileCommand {
    /// The program to start.
    pub program: String,
    /// Its arguments, in order.
    pub arguments: Vec<String>,
    /// The directory it runs in.
    pub working_directory: String,
    /// The document that it compiles.
    pub document: String,
}

/// What a `CompileCommand` stands for.
pub struct CommandModel {
    pub program: Seq<char>,
    pub arguments: Seq<Seq<char>>,
    pub working_directory: Seq<char>,
    pub document: Seq<char>,
}

impl View for CompileCommand {
    type V = CommandModel;

    open spec fn view(&self) -> CommandModel {
        CommandModel {
            program: self.program@,
            arguments: strings(self.arguments@),
            working_directory: self.working_directory@,
            document: self.document@,
        }
    }
}

impl CompileCommand {
    /// What the end of the run means: only an exit with code zero lets the
    /// tool go on; any other end is an error that names the program and the
    /// document.
    pub fn finished(&self, end: RunEnd) -> (checked: Result<(), CollaboratorError>)
        ensures
            checked is Ok <==> end == RunEnd::Exited(0i32),
            checked matches Err(e) ==> e.program@ == self.program@ && e.document@
                == self.document@ && e.end == end,
    {
        check_exit(self.program.as_str(), self.document.as_str(), end)
    }
}

/// Why the compiler runs were not planned to the end: the glob of a group
/// does not compile. The runs of the groups before it are planned.
pub struct CompileFault {
    /// The runs of the groups before the one whose glob does not compile.
    pub before: Vec<CompileCommand>,
    /// The glob that does not compile.
    pub error: PatternError,
}

/// What a sequence of commands stands for.
pub open spec fn commands(list: Seq<CompileCommand>) -> Seq<CommandModel> {
    Seq::new(list.len(), |i: int| list[i]@)
}

/// The run that compiles the document at `entry`, a path relative to the
/// package at `in_dir`, for a compile group: the compiler is started in the
/// directory of the document, with the format of the group, and resolves
/// imports from the root of the group, or from the directory of the
/// document where the group names no root.
pub open spec fn compile_command(
    in_dir: Seq<char>,
    group: CompileGroupModel,
    entry: Seq<char>,
) -> CommandModel {
    let document = join(in_dir, entry);
    let directory = parent(document);
    let root = match group.root {
        Some(r) => join(in_dir, r),
        None => directory,
    };
    CommandModel {
        program: "typst"@,
        arguments: seq!["c"@, document, "-f"@, group.format.label(), "--root"@, root],
        working_directory: directory,
        document,
    }
}

/// The runs for one compile group: one for each entry that the glob of the
/// group matches, in the order of the entries.
pub open spec fn commands_for(
    in_dir: Seq<char>,
    group: CompileGroupModel,
    entries: Seq<Seq<char>>,
) -> Seq<CommandModel>
    decreases entries.len(),
{
    if entries.len() == 0 {
        Seq::empty()
    } else {
        let before = commands_for(in_dir, group, entries.drop_last());
        if glob_matches(group.path, entries.last()) {
            before.push(compile_command(in_dir, group, entries.last()))
        } else {
            before
        }
    }
}

/// The runs for all compile groups, group after group.
pub open spec fn compile_plan(
    in_dir: Seq<char>,
    groups: Seq<CompileGroupModel>,
    entries: Seq<Seq<char>>,
) -> Seq<CommandModel>
    decreases groups.len(),
{
    if groups.len() == 0 {
        Seq::empty()
    } else {
        compile_plan(in_dir, groups.drop_last(), entries) + commands_for(
            in_dir,
            groups.last(),
            entries,
        )
    }
}

/// The index of the first group from `start` on whose glob does not
/// compile; the number of groups where there is none.
pub open spec fn first_invalid_glob(groups: Seq<CompileGroupModel>, start: int) -> int
    decreases groups.len() - start,
{
    if start < 0 || start >= groups.len() {
        groups.len() as int
    } else if !glob_compiles(groups[start].path) {
        start
    } else {
        first_invalid_glob(groups, start + 1)
    }
}

/// The run that compiles one document for a compile group.
pub fn command_for(in_dir: &str, group: &TypstCompileConfig, entry: &str) -> (command:
    CompileCommand)
    ensures
        command@ == compile_command(in_dir@, group@, entry@),
{
    let document = join_paths(in_dir, entry);
    let directory = parent_of(document.as_str());
    let root = match &group.root {
        Some(r) => join_paths(in_dir, r.as_str()),
        None => directory.clone(),
    };
    let mut arguments: Vec<String> = Vec::new();
    arguments.push(String::from_str("c"));
    arguments.push(document.clone());
    arguments.push(String::from_str("-f"));
    arguments.push(group.format.to_string());
    arguments.push(String::from_str("--root"));
    arguments.push(root);
    let command = CompileCommand {
        program: String::from_str("typst"),
        arguments,
        working_directory: directory,
        document,
    };
    assert(command@.arguments =~= compile_command(in_dir@, group@, entry@).arguments);
    command
}

/// Plans the compiler runs for the compile groups of a package. `in_dir` is
/// the directory of the package, `entries` the paths of all that lies in
/// it, relative to `in_dir`, in the order of the walk.
///
/// The groups are planned in their order. Where the glob of a group does
/// not compile, planning ends there: the error names the glob and comes
/// with the runs of the groups before it.
pub fn compile_files(config: &TypstPackageConfig, in_dir: &str, entries: &Vec<String>) -> (plan:
    Result<Vec<CompileCommand>, CompileFault>)
    ensures
        plan is Ok <==> first_invalid_glob(config@.typpkg.typst_compile, 0)
            == config@.typpkg.typst_compile.len(),
        plan matches Ok(list) ==> commands(list@) == compile_plan(
            in_dir@,
            config@.typpkg.typst_compile,
            strings(entries@),
        ),
        plan matches Err(fault) ==> {
            let at = first_invalid_glob(config@.typpkg.typst_compile, 0);
            &&& commands(fault.before@) == compile_plan(
                in_dir@,
                config@.typpkg.typst_compile.take(at),
                strings(entries@),
            )
            &&& fault.error.group == PatternGroup::TypstCompile
            &&& names_pattern(fault.error.pattern, Some(config@.typpkg.typst_compile[at].path))
        },
{
    let groups = &config.typpkg_config.typst_compile;
    let ghost models = compile_groups(groups@);
    let mut list: Vec<CompileCommand> = Vec::new();
    let mut g: usize = 0;
    while g < groups.len()
        invariant
            g <= groups.len(),
            models == compile_groups(groups@),
            models == config@.typpkg.typst_compile,
            first_invalid_glob(models, 0) == first_invalid_glob(models, g as int),
            commands(list@) == compile_plan(in_dir@, models.take(g as int), strings(entries@)),
        decreases groups.len() - g,
    {
        let group = &groups[g];
        let glob = match PathGlob::compile(PatternGroup::TypstCompile, group.path.as_str()) {
            Ok(glob) => glob,
            Err(error) => {
                assert(first_invalid_glob(models, g as int) == g);
                return Err(CompileFault { before: list, error });
            },
        };
        let ghost before = commands(list@);
        let mut i: usize = 0;
        while i < entries.len()
            invariant
                i <= entries.len(),
                g < groups.len(),
                models == compile_groups(groups@),
                group@ == models[g as int],
                glob.expression() == models[g as int].path,
                commands(list@) == before + commands_for(
                    in_dir@,
                    models[g as int],
                    strings(entries@).take(i as int),
                ),
            decreases entries.len() - i,
        {
            let ghost so_far = commands(list@);
            assert(strings(entries@).take(i + 1).drop_last() == strings(entries@).take(i as int));
            if glob.is_match(entries[i].as_str()) {
                let command = command_for(in_dir, group, entries[i].as_str());
                list.push(command);
                assert(commands(list@) =~= so_far.push(
                    compile_command(in_dir@, models[g as int], entries@[i as int]@),
                ));
            }
            i += 1;
        }
        assert(strings(entries@).take(entries.len() as int) == strings(entries@));
        assert(models.take(g + 1).drop_last() == models.take(g as int));
        g += 1;
    }
    assert(models.take(groups.len() as int) == models);
    Ok(list)
}

} // verus!
