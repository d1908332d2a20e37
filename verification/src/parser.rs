//! Reading the manifest: the package it names and the settings of its
//! `tool.typpkg` table.

use vstd::prelude::*;
use vstd::string::*;
use crate::config::{
    compile_groups,
    default_typpkg,
    strings,
    CompileGroupModel,
    CompileTarget,
    PackageModel,
    Script,
    ScriptModel,
    TypPkgConfig,
    TypPkgModel,
    TypstCompileConfig,
    TypstPackageConfig,
};
use crate::document::{
    entries_of,
    keys_of,
    last_position,
    lemma_last_position,
    models_of,
    parse_document,
    table_of,
    toml_document,
    values_of,
    Entries,
    TomlModel,
    TomlValue,
};
use crate::error::{ConfigError, ConfigErrorKind, PackageField, TypPkgField};
use crate::text::same_text;

verus! {

/// The value under `key`, if the table has the key.
pub open spec fn entry(table: Entries, key: Seq<char>) -> Option<TomlModel> {
    if table.dom().contains(key) {
        Some(table[key])
    } else {
        None
    }
}

/// The index of the entry that counts for `key`: the last one with this
/// key.
pub fn find_position(entries: &Vec<(String, TomlValue)>, key: &str) -> (found: Option<usize>)
    ensures
        match found {
            Some(i) => i < entries.len() && i == last_position(keys_of(entries@), key@),
            None => last_position(keys_of(entries@), key@) == -1,
        },
{
    let ghost keys = keys_of(entries@);
    let mut i: usize = entries.len();
    while i > 0
        invariant
            i <= entries.len(),
            keys == keys_of(entries@),
            forall|k: int| i <= k < entries.len() ==> keys[k] != key@,
        decreases i,
    {
        i -= 1;
        if same_text(entries[i].0.as_str(), key) {
            proof {
                assert(keys[i as int] == key@);
                lemma_last_position(keys, key@);
            }
            return Some(i);
        }
    }
    proof {
        lemma_last_position(keys, key@);
        if keys.contains(key@) {
            let k = choose|k: int| 0 <= k < keys.len() && keys[k] == key@;
        }
    }
    None
}

/// The value under `key`.
pub fn find_entry<'a>(entries: &'a Vec<(String, TomlValue)>, key: &str) -> (found: Option<
    &'a TomlValue,
>)
    ensures
        match found {
            Some(value) => entry(entries_of(*entries), key@) == Some(value@),
            None => entry(entries_of(*entries), key@) is None,
        },
{
    match find_position(entries, key) {
        Some(i) => {
            Some(&entries[i].1)
        },
        None => None,
    }
}

/// The texts of an array of strings; nothing for any other value.
pub open spec fn texts_of(value: TomlModel) -> Option<Seq<Seq<char>>> {
    match value {
        TomlModel::Array(items) => if forall|i: int|
            0 <= i < items.len() ==> (#[trigger] items[i]) is Text {
            Some(Seq::new(items.len(), |i: int| items[i]->Text_0))
        } else {
            None
        },
        _ => None,
    }
}

/// The list of strings under `key`: empty where the key is absent, nothing
/// where its value is not an array of strings.
pub open spec fn list_entry(table: Entries, key: Seq<char>) -> Option<Seq<Seq<char>>> {
    match entry(table, key) {
        None => Some(Seq::empty()),
        Some(value) => texts_of(value),
    }
}

/// The boolean under `key`: false where the key is absent, nothing where
/// its value is not a boolean.
pub open spec fn flag_entry(table: Entries, key: Seq<char>) -> Option<bool> {
    match entry(table, key) {
        None => Some(false),
        Some(TomlModel::Boolean(b)) => Some(b),
        Some(_) => None,
    }
}

/// The string under `key`, if the key is there; nothing where its value is
/// not a string.
pub open spec fn text_entry(table: Entries, key: Seq<char>) -> Option<Option<Seq<char>>> {
    match entry(table, key) {
        None => Some(None),
        Some(TomlModel::Text(t)) => Some(Some(t)),
        Some(_) => None,
    }
}

/// The text that is there, or the empty text.
pub open spec fn or_empty(text: Option<Seq<char>>) -> Seq<char> {
    match text {
        Some(t) => t,
        None => Seq::empty(),
    }
}

/// The script that a table describes: `command` is a string and
/// `arguments` an array of strings, each empty where it is absent.
pub open spec fn script_of(value: TomlModel) -> Option<ScriptModel> {
    match value {
        TomlModel::Table(table) => match (
            text_entry(table, "command"@),
            list_entry(table, "arguments"@),
        ) {
            (Some(command), Some(arguments)) => Some(
                ScriptModel { command: or_empty(command), arguments },
            ),
            _ => None,
        },
        _ => None,
    }
}

/// The format that a string names: `pdf`, `png` or `svg`.
pub open spec fn target_of(value: TomlModel) -> Option<CompileTarget> {
    match value {
        TomlModel::Text(t) => if t == "pdf"@ {
            Some(CompileTarget::Pdf)
        } else if t == "png"@ {
            Some(CompileTarget::Png)
        } else if t == "svg"@ {
            Some(CompileTarget::Svg)
        } else {
            None
        },
        _ => None,
    }
}

/// The format under `key`: PDF where the key is absent.
pub open spec fn target_entry(table: Entries, key: Seq<char>) -> Option<CompileTarget> {
    match entry(table, key) {
        None => Some(CompileTarget::Pdf),
        Some(value) => target_of(value),
    }
}

/// The compile group that a table describes: `path` is a string, empty
/// where it is absent; `format` names a format; `root` is a string or
/// absent.
pub open spec fn compile_group_of(value: TomlModel) -> Option<CompileGroupModel> {
    match value {
        TomlModel::Table(table) => match (
            text_entry(table, "path"@),
            target_entry(table, "format"@),
            text_entry(table, "root"@),
        ) {
            (Some(path), Some(format), Some(root)) => Some(
                CompileGroupModel { path: or_empty(path), format, root },
            ),
            _ => None,
        },
        _ => None,
    }
}

/// The compile groups that an array of tables describes.
pub open spec fn compile_groups_of(value: TomlModel) -> Option<Seq<CompileGroupModel>> {
    match value {
        TomlModel::Array(items) => if forall|i: int|
            0 <= i < items.len() ==> compile_group_of(#[trigger] items[i]) is Some {
            Some(Seq::new(items.len(), |i: int| compile_group_of(items[i])->Some_0))
        } else {
            None
        },
        _ => None,
    }
}

/// Reads an array of strings.
pub fn read_texts(value: &TomlValue) -> (list: Option<Vec<String>>)
    ensures
        match list {
            Some(l) => texts_of(value@) == Some(strings(l@)),
            None => texts_of(value@) is None,
        },
{
    match value {
        TomlValue::Array(items) => {
            let mut list: Vec<String> = Vec::new();
            let mut i: usize = 0;
            while i < items.len()
                invariant
                    i <= items.len(),
                    list.len() == i,
                    value@ == TomlModel::Array(models_of(*items)),
                    forall|k: int| 0 <= k < i ==> (#[trigger] models_of(*items)[k]) is Text,
                    forall|k: int|
                        0 <= k < i ==> (#[trigger] list@[k])@ == models_of(*items)[k]->Text_0,
                decreases items.len() - i,
            {
                match &items[i] {
                    TomlValue::Text(s) => {
                        list.push(s.clone());
                    },
                    _ => {
                        assert(!(models_of(*items)[i as int] is Text));
                        return None;
                    },
                }
                i += 1;
            }
            Some(list)
        },
        _ => None,
    }
}

/// Reads the list of strings under `key`.
pub fn read_list_entry(table: &Vec<(String, TomlValue)>, key: &str) -> (list: Option<Vec<String>>)
    ensures
        match list {
            Some(l) => list_entry(entries_of(*table), key@) == Some(strings(l@)),
            None => list_entry(entries_of(*table), key@) is None,
        },
{
    match find_entry(table, key) {
        None => {
            let list: Vec<String> = Vec::new();
            Some(list)
        },
        Some(value) => read_texts(value),
    }
}

/// Reads the boolean under `key`.
pub fn read_flag_entry(table: &Vec<(String, TomlValue)>, key: &str) -> (flag: Option<bool>)
    ensures
        flag == flag_entry(entries_of(*table), key@),
{
    match find_entry(table, key) {
        None => Some(false),
        Some(TomlValue::Boolean(b)) => Some(*b),
        Some(_) => None,
    }
}

/// Reads the string under `key`.
pub fn read_text_entry(table: &Vec<(String, TomlValue)>, key: &str) -> (text: Option<
    Option<String>,
>)
    ensures
        match text {
            Some(Some(t)) => text_entry(entries_of(*table), key@) == Some(Some(t@)),
            Some(None) => text_entry(entries_of(*table), key@) == Some(None::<Seq<char>>),
            None => text_entry(entries_of(*table), key@) is None,
        },
{
    match find_entry(table, key) {
        None => Some(None),
        Some(TomlValue::Text(t)) => Some(Some(t.clone())),
        Some(_) => None,
    }
}

/// Reads a script from its table.
pub fn read_script(value: &TomlValue) -> (script: Option<Script>)
    ensures
        match script {
            Some(s) => script_of(value@) == Some(s@),
            None => script_of(value@) is None,
        },
{
    match value {
        TomlValue::Table(table) => {
            let command = match read_text_entry(table, "command") {
                Some(Some(c)) => c,
                Some(None) => String::new(),
                None => {
                    return None;
                },
            };
            let arguments = match read_list_entry(table, "arguments") {
                Some(a) => a,
                None => {
                    return None;
                },
            };
            Some(Script { command, arguments })
        },
        _ => None,
    }
}

/// Reads the format that a string names.
pub fn read_target(value: &TomlValue) -> (target: Option<CompileTarget>)
    ensures
        target == target_of(value@),
{
    match value {
        TomlValue::Text(t) => {
            if same_text(t.as_str(), "pdf") {
                Some(CompileTarget::Pdf)
            } else if same_text(t.as_str(), "png") {
                Some(CompileTarget::Png)
            } else if same_text(t.as_str(), "svg") {
                Some(CompileTarget::Svg)
            } else {
                None
            }
        },
        _ => None,
    }
}

/// Reads a compile group from its table.
pub fn read_compile_group(value: &TomlValue) -> (group: Option<TypstCompileConfig>)
    ensures
        match group {
            Some(g) => compile_group_of(value@) == Some(g@),
            None => compile_group_of(value@) is None,
        },
{
    match value {
        TomlValue::Table(table) => {
            let path = match read_text_entry(table, "path") {
                Some(Some(p)) => p,
                Some(None) => String::new(),
                None => {
                    return None;
                },
            };
            let format = match find_entry(table, "format") {
                None => CompileTarget::Pdf,
                Some(value) => match read_target(value) {
                    Some(f) => f,
                    None => {
                        return None;
                    },
                },
            };
            let root = match read_text_entry(table, "root") {
                Some(r) => r,
                None => {
                    return None;
                },
            };
            Some(TypstCompileConfig { path, format, root })
        },
        _ => None,
    }
}

/// Reads an array of compile groups.
pub fn read_compile_groups(value: &TomlValue) -> (groups: Option<Vec<TypstCompileConfig>>)
    ensures
        match groups {
            Some(g) => compile_groups_of(value@) == Some(compile_groups(g@)),
            None => compile_groups_of(value@) is None,
        },
{
    match value {
        TomlValue::Array(items) => {
            let mut groups: Vec<TypstCompileConfig> = Vec::new();
            let mut i: usize = 0;
            while i < items.len()
                invariant
                    i <= items.len(),
                    groups.len() == i,
                    value@ == TomlModel::Array(models_of(*items)),
                    forall|k: int|
                        0 <= k < i ==> compile_group_of(#[trigger] models_of(*items)[k]) is Some,
                    forall|k: int|
                        0 <= k < i ==> (#[trigger] groups@[k])@ == compile_group_of(
                            models_of(*items)[k],
                        )->Some_0,
                decreases items.len() - i,
            {
                match read_compile_group(&items[i]) {
                    Some(g) => {
                        groups.push(g);
                    },
                    None => {
                        assert(compile_group_of(models_of(*items)[i as int]) is None);
                        return None;
                    },
                }
                i += 1;
            }
            Some(groups)
        },
        _ => None,
    }
}

/// The script under `key`, if the key is there; nothing where its value
/// does not describe a script.
pub open spec fn script_entry(table: Entries, key: Seq<char>) -> Option<Option<ScriptModel>> {
    match entry(table, key) {
        None => Some(None),
        Some(value) => match script_of(value) {
            Some(script) => Some(Some(script)),
            None => None,
        },
    }
}

/// The compile groups under `key`: none where the key is absent, nothing
/// where its value is not an array of compile groups.
pub open spec fn groups_entry(table: Entries, key: Seq<char>) -> Option<Seq<CompileGroupModel>> {
    match entry(table, key) {
        None => Some(Seq::empty()),
        Some(value) => compile_groups_of(value),
    }
}

/// Whether the entry under `key` is absent or an empty array.
pub open spec fn empty_entry(table: Entries, key: Seq<char>) -> bool {
    match entry(table, key) {
        None => true,
        Some(TomlModel::Array(items)) => items.len() == 0,
        Some(_) => false,
    }
}

/// The settings that a `tool.typpkg` table holds. An entry that is absent
/// has its default; entries under other keys are ignored; the first entry
/// with the wrong shape, in the order of the fields of `TypPkgField`, is
/// reported.
pub open spec fn typpkg_of(table: Entries) -> Result<TypPkgModel, TypPkgField> {
    let exclude = list_entry(table, TypPkgField::Exclude.key());
    let reinclude = list_entry(table, TypPkgField::Include.key());
    let replace_imports = list_entry(table, TypPkgField::ReplaceImports.key());
    let replace_locals = flag_entry(table, TypPkgField::ReplaceLocals.key());
    let postscript = script_entry(table, TypPkgField::Postscript.key());
    let typst_compile = groups_entry(table, TypPkgField::TypstCompile.key());
    if exclude is None {
        Err(TypPkgField::Exclude)
    } else if reinclude is None {
        Err(TypPkgField::Include)
    } else if replace_imports is None {
        Err(TypPkgField::ReplaceImports)
    } else if replace_locals is None {
        Err(TypPkgField::ReplaceLocals)
    } else if postscript is None {
        Err(TypPkgField::Postscript)
    } else if typst_compile is None {
        Err(TypPkgField::TypstCompile)
    } else if !empty_entry(table, TypPkgField::Tests.key()) {
        Err(TypPkgField::Tests)
    } else {
        Ok(
            TypPkgModel {
                exclude: exclude->Some_0,
                reinclude: reinclude->Some_0,
                replace_imports: replace_imports->Some_0,
                replace_locals: replace_locals->Some_0,
                postscript: postscript->Some_0,
                typst_compile: typst_compile->Some_0,
                tests: 0,
            },
        )
    }
}

/// Reads the settings of a `tool.typpkg` table.
pub fn read_typpkg(table: &Vec<(String, TomlValue)>) -> (settings: Result<
    TypPkgConfig,
    TypPkgField,
>)
    ensures
        match settings {
            Ok(c) => typpkg_of(entries_of(*table)) == Ok::<TypPkgModel, TypPkgField>(c@),
            Err(f) => typpkg_of(entries_of(*table)) == Err::<TypPkgModel, TypPkgField>(f),
        },
{
    let exclude = match read_list_entry(table, TypPkgField::Exclude.name()) {
        Some(l) => l,
        None => {
            return Err(TypPkgField::Exclude);
        },
    };
    let reinclude = match read_list_entry(table, TypPkgField::Include.name()) {
        Some(l) => l,
        None => {
            return Err(TypPkgField::Include);
        },
    };
    let replace_imports = match read_list_entry(table, TypPkgField::ReplaceImports.name()) {
        Some(l) => l,
        None => {
            return Err(TypPkgField::ReplaceImports);
        },
    };
    let replace_locals = match read_flag_entry(table, TypPkgField::ReplaceLocals.name()) {
        Some(b) => b,
        None => {
            return Err(TypPkgField::ReplaceLocals);
        },
    };
    let postscript = match find_entry(table, TypPkgField::Postscript.name()) {
        None => None,
        Some(value) => match read_script(value) {
            Some(script) => Some(script),
            None => {
                return Err(TypPkgField::Postscript);
            },
        },
    };
    let typst_compile = match find_entry(table, TypPkgField::TypstCompile.name()) {
        None => Vec::new(),
        Some(value) => match read_compile_groups(value) {
            Some(groups) => groups,
            None => {
                return Err(TypPkgField::TypstCompile);
            },
        },
    };
    match find_entry(table, TypPkgField::Tests.name()) {
        None => {},
        Some(TomlValue::Array(items)) => {
            if items.len() != 0 {
                return Err(TypPkgField::Tests);
            }
        },
        Some(_) => {
            return Err(TypPkgField::Tests);
        },
    }
    let settings = TypPkgConfig {
        exclude,
        reinclude,
        replace_imports,
        replace_locals,
        postscript,
        typst_compile,
        tests: Vec::new(),
    };
    assert(compile_groups(settings.typst_compile@) =~= groups_entry(
        entries_of(*table),
        TypPkgField::TypstCompile.key(),
    )->Some_0);
    Ok(settings)
}

/// The document without the settings of this tool: its `tool` table loses
/// the `typpkg` entry, and all else stays as it is. This is what is written
/// back as the manifest of the package.
pub open spec fn rest_of(document: Entries) -> Entries {
    match entry(document, "tool"@) {
        Some(TomlModel::Table(tool)) => document.insert(
            "tool"@,
            TomlModel::Table(tool.remove("typpkg"@)),
        ),
        _ => document,
    }
}

/// The `tool.typpkg` table of the document, if there is one. A `tool` or
/// `tool.typpkg` entry that is not a table is an error.
pub open spec fn settings_table(document: Entries) -> Result<Option<Entries>, ConfigErrorKind> {
    match entry(document, "tool"@) {
        None => Ok(None),
        Some(TomlModel::Table(tool)) => match entry(tool, "typpkg"@) {
            None => Ok(None),
            Some(TomlModel::Table(settings)) => Ok(Some(settings)),
            Some(_) => Err(ConfigErrorKind::TypPkgNotTable),
        },
        Some(_) => Err(ConfigErrorKind::ToolNotTable),
    }
}

/// The `package` table of the document.
pub open spec fn package_table(document: Entries) -> Result<Entries, ConfigErrorKind> {
    match entry(document, "package"@) {
        None => Err(ConfigErrorKind::MissingPackage),
        Some(TomlModel::Table(package)) => Ok(package),
        Some(_) => Err(ConfigErrorKind::PackageNotTable),
    }
}

/// A field of the `package` table: it must be there and be a string.
pub open spec fn package_field(package: Entries, field: PackageField) -> Result<
    Seq<char>,
    ConfigErrorKind,
> {
    match entry(package, field.key()) {
        None => Err(ConfigErrorKind::MissingField(field)),
        Some(TomlModel::Text(t)) => Ok(t),
        Some(_) => Err(ConfigErrorKind::FieldNotString(field)),
    }
}

/// The settings of the document: those of its `tool.typpkg` table, or the
/// defaults where it has none.
pub open spec fn settings_of(own: Option<Entries>) -> Result<TypPkgModel, ConfigErrorKind> {
    match own {
        None => Ok(default_typpkg()),
        Some(table) => match typpkg_of(table) {
            Ok(settings) => Ok(settings),
            Err(field) => Err(ConfigErrorKind::InvalidTypPkg(field)),
        },
    }
}

/// The package that a document describes. The document is looked at in
/// this order, and the first fault is reported: the `tool` and
/// `tool.typpkg` entries must be tables where they exist; the `package`
/// table must exist and hold the strings `name`, `version` and
/// `entrypoint`; the entries of `tool.typpkg` must have their shapes.
pub open spec fn manifest_of(document: Entries) -> Result<PackageModel, ConfigErrorKind> {
    let own = settings_table(document);
    let package = package_table(document);
    if own is Err {
        Err(own->Err_0)
    } else if package is Err {
        Err(package->Err_0)
    } else {
        let name = package_field(package->Ok_0, PackageField::Name);
        let version = package_field(package->Ok_0, PackageField::Version);
        let entrypoint = package_field(package->Ok_0, PackageField::Entrypoint);
        let settings = settings_of(own->Ok_0);
        if name is Err {
            Err(name->Err_0)
        } else if version is Err {
            Err(version->Err_0)
        } else if entrypoint is Err {
            Err(entrypoint->Err_0)
        } else if settings is Err {
            Err(settings->Err_0)
        } else {
            Ok(
                PackageModel {
                    name: name->Ok_0,
                    version: version->Ok_0,
                    entrypoint: entrypoint->Ok_0,
                    typpkg: settings->Ok_0,
                    rest: TomlModel::Table(rest_of(document)),
                },
            )
        }
    }
}

proof fn lemma_filtered_table(
    keys: Seq<Seq<char>>,
    values: Seq<TomlModel>,
    origin: Seq<int>,
    kept_keys: Seq<Seq<char>>,
    kept_values: Seq<TomlModel>,
    key: Seq<char>,
)
    requires
        keys.len() == values.len(),
        origin.len() == kept_keys.len(),
        origin.len() == kept_values.len(),
        forall|a: int, b: int|
            0 <= a < b < origin.len() ==> #[trigger] origin[a] < #[trigger] origin[b],
        forall|a: int|
            0 <= a < origin.len() ==> 0 <= #[trigger] origin[a] < keys.len() && keys[origin[a]]
                != key && kept_keys[a] == keys[origin[a]] && kept_values[a] == values[origin[a]],
        forall|p: int| 0 <= p < keys.len() && #[trigger] keys[p] != key ==> origin.contains(p),
    ensures
        table_of(kept_keys, kept_values) == table_of(keys, values).remove(key),
{
    let kept = table_of(kept_keys, kept_values);
    let rest = table_of(keys, values).remove(key);
    assert forall|k: Seq<char>| kept.dom().contains(k) <==> rest.dom().contains(k) by {
        lemma_last_position(keys, k);
        lemma_last_position(kept_keys, k);
        let p = last_position(keys, k);
        let q = last_position(kept_keys, k);
        if q >= 0 {
            assert(kept_keys[q] == keys[origin[q]]);
        }
        if p >= 0 && k != key {
            assert(origin.contains(p));
        }
    }
    assert forall|k: Seq<char>| rest.dom().contains(k) implies kept[k] == rest[k] by {
        lemma_last_position(keys, k);
        lemma_last_position(kept_keys, k);
        let p = last_position(keys, k);
        let q = last_position(kept_keys, k);
        let a = choose|a: int| 0 <= a < origin.len() && origin[a] == p;
        assert(kept_keys[q] == keys[origin[q]]);
        assert(a == q);
    }
}

/// Drops the entries under `key`.
pub fn remove_key(entries: Vec<(String, TomlValue)>, key: &str) -> (kept: Vec<(String, TomlValue)>)
    ensures
        entries_of(kept) == entries_of(entries).remove(key@),
{
    let ghost keys = keys_of(entries@);
    let ghost values = values_of(entries);
    let ghost total = entries@.len() as int;
    let mut rest = entries;
    let mut kept: Vec<(String, TomlValue)> = Vec::new();
    let ghost mut origin: Seq<int> = Seq::empty();
    while rest.len() > 0
        invariant
            keys.len() == total,
            values.len() == total,
            rest.len() <= total,
            origin.len() == kept.len(),
            forall|k: int|
                0 <= k < rest.len() ==> (#[trigger] rest@[k]).0@ == keys[total - rest.len() + k],
            forall|k: int|
                0 <= k < rest.len() ==> (#[trigger] rest@[k]).1@ == values[total - rest.len()
                    + k],
            forall|a: int, b: int|
                0 <= a < b < origin.len() ==> #[trigger] origin[a] < #[trigger] origin[b],
            forall|a: int|
                0 <= a < origin.len() ==> 0 <= #[trigger] origin[a] < total - rest.len()
                    && keys[origin[a]] != key@ && keys_of(kept@)[a] == keys[origin[a]]
                    && values_of(kept)[a] == values[origin[a]],
            forall|p: int|
                0 <= p < total - rest.len() && #[trigger] keys[p] != key@ ==> origin.contains(p),
        decreases rest.len(),
    {
        let ghost at = total - rest.len();
        let ghost origin_before = origin;
        let item = rest.remove(0);
        if !same_text(item.0.as_str(), key) {
            kept.push(item);
            proof {
                origin = origin.push(at);
                assert forall|p: int|
                    0 <= p < total - rest.len() && #[trigger] keys[p] != key@ implies origin.contains(
                    p,
                ) by {
                    if p < at {
                        let a = choose|a: int|
                            0 <= a < origin_before.len() && origin_before[a] == p;
                        assert(origin[a] == p);
                    } else {
                        assert(origin[origin.len() - 1] == p);
                    }
                }
            }
        }
    }
    proof {
        lemma_filtered_table(keys, values, origin, keys_of(kept@), values_of(kept), key@);
    }
    kept
}

proof fn lemma_updated_table(
    keys: Seq<Seq<char>>,
    values: Seq<TomlModel>,
    at: int,
    value: TomlModel,
)
    requires
        keys.len() == values.len(),
        0 <= at < keys.len(),
        last_position(keys, keys[at]) == at,
    ensures
        table_of(keys, values.update(at, value)) == table_of(keys, values).insert(keys[at], value),
{
    let changed = table_of(keys, values.update(at, value));
    let expected = table_of(keys, values).insert(keys[at], value);
    assert forall|k: Seq<char>| changed.dom().contains(k) <==> expected.dom().contains(k) by {
    }
    assert forall|k: Seq<char>| changed.dom().contains(k) implies changed[k] == expected[k] by {
        lemma_last_position(keys, k);
    }
}

/// Drops the settings of this tool from a document.
pub fn remove_settings(document: Vec<(String, TomlValue)>) -> (rest: Vec<(String, TomlValue)>)
    ensures
        entries_of(rest) == rest_of(entries_of(document)),
{
    let ghost keys = keys_of(document@);
    let ghost values = values_of(document);
    let mut rest = document;
    let at = match find_position(&rest, "tool") {
        Some(at) => at,
        None => {
            return rest;
        },
    };
    proof {
        lemma_last_position(keys, "tool"@);
    }
    let is_table = match &rest[at].1 {
        TomlValue::Table(_) => true,
        _ => false,
    };
    if !is_table {
        return rest;
    }
    let (key, value) = rest.remove(at);
    let changed = match value {
        TomlValue::Table(inner) => TomlValue::Table(remove_key(inner, "typpkg")),
        other => other,
    };
    let ghost model = changed@;
    rest.insert(at, (key, changed));
    proof {
        assert(keys_of(rest@) =~= keys);
        assert(values_of(rest) =~= values.update(at as int, model));
        lemma_updated_table(keys, values, at as int, model);
    }
    rest
}

/// Reads a field of the `package` table.
pub fn read_package_field(package: &Vec<(String, TomlValue)>, field: PackageField) -> (text: Result<
    String,
    ConfigErrorKind,
>)
    ensures
        match text {
            Ok(t) => package_field(entries_of(*package), field) == Ok::<
                Seq<char>,
                ConfigErrorKind,
            >(t@),
            Err(e) => package_field(entries_of(*package), field) == Err::<
                Seq<char>,
                ConfigErrorKind,
            >(e),
        },
{
    match find_entry(package, field.name()) {
        None => Err(ConfigErrorKind::MissingField(field)),
        Some(TomlValue::Text(t)) => Ok(t.clone()),
        Some(_) => Err(ConfigErrorKind::FieldNotString(field)),
    }
}

/// Whether `found` is what `expected` says: the same package, or the same
/// fault.
pub open spec fn agrees(
    found: Result<TypstPackageConfig, ConfigError>,
    expected: Result<PackageModel, ConfigErrorKind>,
) -> bool {
    match found {
        Ok(config) => expected == Ok::<PackageModel, ConfigErrorKind>(config@),
        Err(e) => expected == Err::<PackageModel, ConfigErrorKind>(e.kind),
    }
}

/// Reads the package that the top-level table of a manifest describes.
pub fn read_manifest(document: Vec<(String, TomlValue)>) -> (found: Result<
    TypstPackageConfig,
    ConfigError,
>)
    ensures
        agrees(found, manifest_of(entries_of(document))),
        found matches Err(e) ==> e.detail@.len() == 0,
{
    let settings = match find_entry(&document, "tool") {
        None => None,
        Some(TomlValue::Table(tool)) => match find_entry(tool, "typpkg") {
            None => None,
            Some(TomlValue::Table(own)) => Some(read_typpkg(own)),
            Some(_) => {
                return Err(ConfigError::of(ConfigErrorKind::TypPkgNotTable));
            },
        },
        Some(_) => {
            return Err(ConfigError::of(ConfigErrorKind::ToolNotTable));
        },
    };
    let (name, version, entrypoint) = match find_entry(&document, "package") {
        None => {
            return Err(ConfigError::of(ConfigErrorKind::MissingPackage));
        },
        Some(TomlValue::Table(package)) => {
            let name = match read_package_field(package, PackageField::Name) {
                Ok(t) => t,
                Err(kind) => {
                    return Err(ConfigError::of(kind));
                },
            };
            let version = match read_package_field(package, PackageField::Version) {
                Ok(t) => t,
                Err(kind) => {
                    return Err(ConfigError::of(kind));
                },
            };
            let entrypoint = match read_package_field(package, PackageField::Entrypoint) {
                Ok(t) => t,
                Err(kind) => {
                    return Err(ConfigError::of(kind));
                },
            };
            (name, version, entrypoint)
        },
        Some(_) => {
            return Err(ConfigError::of(ConfigErrorKind::PackageNotTable));
        },
    };
    let typpkg_config = match settings {
        None => TypPkgConfig::default(),
        Some(Ok(c)) => c,
        Some(Err(field)) => {
            return Err(ConfigError::of(ConfigErrorKind::InvalidTypPkg(field)));
        },
    };
    let non_typpkg = TomlValue::Table(remove_settings(document));
    Ok(TypstPackageConfig { name, version, entrypoint, typpkg_config, non_typpkg })
}

/// Whether the manifest holds settings for this tool: a `tool` table with a
/// `typpkg` table in it.
pub fn has_settings(text: &str) -> (present: bool)
    ensures
        present == (toml_document(text@) matches Some(TomlModel::Table(document))
            && settings_table(document) matches Ok(Some(_))),
{
    match parse_document(text) {
        Ok(TomlValue::Table(document)) => match find_entry(&document, "tool") {
            Some(TomlValue::Table(tool)) => match find_entry(tool, "typpkg") {
                Some(TomlValue::Table(_)) => true,
                _ => false,
            },
            _ => false,
        },
        _ => false,
    }
}

/// Reads a package from the text of its manifest.
pub fn parse_typst_toml(text: &str) -> (found: Result<TypstPackageConfig, ConfigError>)
    ensures
        match toml_document(text@) {
            Some(TomlModel::Table(document)) => agrees(found, manifest_of(document)),
            _ => found matches Err(e) && e.kind == ConfigErrorKind::InvalidToml,
        },
{
    match parse_document(text) {
        Err(detail) => Err(ConfigError { kind: ConfigErrorKind::InvalidToml, detail }),
        Ok(TomlValue::Table(document)) => read_manifest(document),
        Ok(_) => Err(ConfigError::of(ConfigErrorKind::InvalidToml)),
    }
}

} // verus!
