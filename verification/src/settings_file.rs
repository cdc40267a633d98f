//! The settings file: its versions, where it lies, and what is said about it.
//!
//! No file keeps the program from starting. A text that is no JSON object, or whose values have
//! wrong types, is set aside, and the defaults take its place. A file without a version has the
//! first format; older formats are brought up step by step. A file of a newer build is read as it
//! is: unknown fields are skipped.

use vstd::prelude::*;

use crate::json;
use crate::json::field;
use crate::json::fields;
use crate::json::json_of;
use crate::json::lemma_with_field;
use crate::json::lemma_without_field;
use crate::json::set_field;
use crate::json::take_field;
use crate::json::with_field;
use crate::json::without_field;
use crate::json::Doc;
use crate::json::Json;
use crate::paths;
use crate::paths::joined_path;
use crate::paths::name_of;
use crate::paths::renamed;
use crate::paths::stem;
use crate::paths::text_of;
use crate::saved::law_settings_read_back;
use crate::saved::lemma_saved_version;
use crate::saved::writable;
use crate::saved::write_settings;
use crate::schema::read_settings;
use crate::schema::settings_from;
use crate::settings::default_settings;
use crate::settings::Settings;
use crate::settings::SettingsView;
use crate::settings::CURRENT_VERSION;
use crate::text::decimal;
use crate::text::to_decimal;

verus! {

/// The folder of the program below a folder of application data.
pub const APP_DIR: &'static str = "MH Monitoring";

/// The folder under the name that the program had before. Another program shares it, so only the
/// files of this one are moved, and the folder stays.
pub const LEGACY_APP_DIR: &'static str = "MH Monitor";

/// The name of the file. `settings.json` belongs to another program with another schema.
pub const SETTINGS_FILE: &'static str = "settings-rs.json";

/// The version that a document says it has: 0 where it says none. Only 32 bits of it count.
pub open spec fn version_of(entries: Seq<(Seq<char>, Doc)>) -> u32 {
    match field(entries, "version"@) {
        Some(Doc::Unsigned(n)) => (n % 0x1_0000_0000) as u32,
        _ => 0,
    }
}

/// What is said about a file of a newer build.
pub open spec fn newer_notice(version: u32) -> Option<Seq<char>> {
    if version > CURRENT_VERSION {
        Some(
            "настройки от более новой версии ("@ + decimal(version as nat)
                + "); незнакомые поля будут потеряны при сохранении"@,
        )
    } else {
        None
    }
}

/// The section flags of a block become its `enabled` field.
pub open spec fn with_enabled(blocks: Doc, key: Seq<char>, flag: Option<Doc>) -> Doc {
    match (blocks, flag) {
        (Doc::Object(entries), Some(Doc::Bool(enabled))) => {
            let block = match field(entries, key) {
                Some(block) => block,
                None => Doc::Object(seq![]),
            };
            match block {
                Doc::Object(inner) => Doc::Object(
                    with_field(
                        entries,
                        key,
                        Doc::Object(with_field(inner, "enabled"@, Doc::Bool(enabled))),
                    ),
                ),
                _ => blocks,
            }
        },
        _ => blocks,
    }
}

/// The blocks of the third format from the flags of the second.
pub open spec fn blocks_from(blocks: Doc, sections: Seq<(Seq<char>, Doc)>) -> Doc {
    let blocks = with_enabled(blocks, "gpu"@, field(sections, "gpu"@));
    let blocks = with_enabled(blocks, "cpu"@, field(sections, "cpu"@));
    let blocks = with_enabled(blocks, "ram"@, field(sections, "ram"@));
    with_enabled(blocks, "fps"@, field(sections, "fps"@))
}

/// The flags of the second format are taken out, and become blocks where they are an object.
pub open spec fn sections_moved(entries: Seq<(Seq<char>, Doc)>) -> Seq<(Seq<char>, Doc)> {
    let rest = without_field(entries, "sections"@);
    match field(entries, "sections"@) {
        Some(Doc::Object(sections)) => {
            let blocks = match field(rest, "blocks"@) {
                Some(blocks) => blocks,
                None => Doc::Object(seq![]),
            };
            with_field(rest, "blocks"@, blocks_from(blocks, sections))
        },
        _ => rest,
    }
}

/// The first format becomes the second: only the mark of the version.
pub open spec fn to_first(entries: Seq<(Seq<char>, Doc)>) -> Seq<(Seq<char>, Doc)> {
    with_field(entries, "version"@, Doc::Unsigned(1))
}

/// The window of the first start: who has a file has used the program and does not need it.
pub open spec fn to_second(entries: Seq<(Seq<char>, Doc)>) -> Seq<(Seq<char>, Doc)> {
    with_field(
        with_field(entries, "setup_done"@, Doc::Bool(true)),
        "version"@,
        Doc::Unsigned(2),
    )
}

/// Blocks with their own titles, colours and thresholds.
pub open spec fn to_third(entries: Seq<(Seq<char>, Doc)>) -> Seq<(Seq<char>, Doc)> {
    with_field(sections_moved(entries), "version"@, Doc::Unsigned(3))
}

/// A document brought to the current format, step by step.
pub open spec fn migrated(entries: Seq<(Seq<char>, Doc)>, from: u32) -> Seq<(Seq<char>, Doc)> {
    let entries = if from < 1 {
        to_first(entries)
    } else {
        entries
    };
    let entries = if from < 2 {
        to_second(entries)
    } else {
        entries
    };
    if from < 3 {
        to_third(entries)
    } else {
        entries
    }
}

/// The settings that a document holds, repaired, and what there is to say about them; nothing
/// where the document is unreadable.
pub open spec fn settings_in(doc: Doc) -> Option<(SettingsView, Option<Seq<char>>)> {
    match doc {
        Doc::Object(entries) => {
            let version = version_of(entries);
            match read_settings(Doc::Object(migrated(entries, version))) {
                Some(settings) => Some((settings.repaired(), newer_notice(version))),
                None => None,
            }
        },
        _ => None,
    }
}

fn lift_blocks(entries: &mut Vec<(String, Json)>) -> (r: Json)
    ensures
        fields(final(entries)@) == with_field(fields(old(entries)@), "blocks"@, Doc::Null),
        r.doc() == (match field(fields(old(entries)@), "blocks"@) {
            Some(blocks) => blocks,
            None => Doc::Object(seq![]),
        }),
{
    let found = json::replace_field(entries, "blocks", Json::Null);
    match found {
        Some(blocks) => blocks,
        None => {
            let empty: Vec<(String, Json)> = Vec::new();
            proof {
                assert(fields(empty@) =~= seq![]);
            }
            Json::Object(empty)
        },
    }
}

fn enable_block(blocks: Json, key: &str, flag: Option<&Json>) -> (r: Json)
    ensures
        r.doc() == with_enabled(
            blocks.doc(),
            key@,
            match flag {
                Some(json) => Some(json.doc()),
                None => None,
            },
        ),
{
    let enabled = match flag {
        Some(Json::Bool(enabled)) => *enabled,
        _ => return blocks,
    };
    match blocks {
        Json::Object(entries) => {
            let mut entries = entries;
            let ghost start = fields(entries@);
            let found = json::replace_field(&mut entries, key, Json::Null);
            let ghost emptied = fields(entries@);
            let (block, new): (Json, bool) = match found {
                Some(block) => (block, false),
                None => {
                    let empty: Vec<(String, Json)> = Vec::new();
                    proof {
                        assert(fields(empty@) =~= seq![]);
                    }
                    (Json::Object(empty), true)
                },
            };
            let ghost block_doc = block.doc();
            let changed = match block {
                Json::Object(inner) => {
                    let mut inner = inner;
                    set_field(&mut inner, "enabled", Json::Bool(enabled));
                    Json::Object(inner)
                },
                other => other,
            };
            let ghost changed_doc = changed.doc();
            set_field(&mut entries, key, changed);
            proof {
                json::lemma_with_field_again(start, key@, Doc::Null, changed_doc);
                if !(block_doc is Object) {
                    json::lemma_with_same_field(start, key@);
                }
            }
            Json::Object(entries)
        },
        other => other,
    }
}

fn move_sections(entries: &mut Vec<(String, Json)>)
    ensures
        fields(final(entries)@) == sections_moved(fields(old(entries)@)),
{
    let taken = take_field(entries, "sections");
    let ghost rest = fields(entries@);
    match taken {
        Some(Json::Object(sections)) => {
            let blocks = lift_blocks(entries);
            let blocks = enable_block(blocks, "gpu", json::lookup(&sections, "gpu"));
            let blocks = enable_block(blocks, "cpu", json::lookup(&sections, "cpu"));
            let blocks = enable_block(blocks, "ram", json::lookup(&sections, "ram"));
            let blocks = enable_block(blocks, "fps", json::lookup(&sections, "fps"));
            let ghost blocks_doc = blocks.doc();
            set_field(entries, "blocks", blocks);
            proof {
                json::lemma_with_field_again(rest, "blocks"@, Doc::Null, blocks_doc);
            }
        },
        _ => {},
    }
}

/// Brings a document to the current format, step by step.
fn migrate(entries: &mut Vec<(String, Json)>, from: u32)
    ensures
        fields(final(entries)@) == migrated(fields(old(entries)@), from),
{
    if from < 1 {
        set_field(entries, "version", Json::Unsigned(1));
    }
    if from < 2 {
        set_field(entries, "setup_done", Json::Bool(true));
        set_field(entries, "version", Json::Unsigned(2));
    }
    if from < 3 {
        move_sections(entries);
        set_field(entries, "version", Json::Unsigned(3));
    }
}

/// The contents of loaded settings.
pub open spec fn loaded_view(r: Result<(Settings, Option<String>), ()>) -> Option<
    (SettingsView, Option<Seq<char>>),
> {
    match r {
        Ok((settings, notice)) => Some((settings@, text_of(notice))),
        Err(_) => None,
    }
}

/// The settings of a document: migration, reading, repair. `Err`: the file is set aside.
pub fn load(document: Json) -> (r: Result<(Settings, Option<String>), ()>)
    ensures
        loaded_view(r) == settings_in(document.doc()),
        r is Ok ==> r->Ok_0.0@.metrics.valid(),
{
    let mut entries = match document {
        Json::Object(entries) => entries,
        _ => return Err(()),
    };
    let version: u32 = match json::lookup(&entries, "version") {
        Some(Json::Unsigned(n)) => (*n % 0x1_0000_0000) as u32,
        _ => 0,
    };
    migrate(&mut entries, version);
    let current = Json::Object(entries);
    match settings_from(&current) {
        Some(settings) => {
            let notice = if version > CURRENT_VERSION {
                let mut text = "настройки от более новой версии (".to_owned();
                let digits = to_decimal(version as u64);
                text.append(digits.as_str());
                text.append("); незнакомые поля будут потеряны при сохранении");
                Some(text)
            } else {
                None
            };
            Ok((settings.sanitized(), notice))
        },
        None => Err(()),
    }
}

/// The settings of the text of a file: those of the document it is.
pub fn parse(text: &str) -> (r: Result<(Settings, Option<String>), ()>)
    ensures
        loaded_view(r) == (match json_of(text@) {
            Some(doc) => settings_in(doc),
            None => None,
        }),
        r is Ok ==> r->Ok_0.0@.metrics.valid(),
{
    match json::read(text) {
        Some(document) => load(document),
        None => Err(()),
    }
}

/// `settings-rs.json` becomes `settings-rs.corrupted.json`. The name without `-rs` is that of
/// another program.
pub open spec fn aside_path(path: Seq<char>) -> Seq<char> {
    let name = match name_of(path) {
        Some(name) => stem(name),
        None => "settings"@,
    };
    renamed(path, name + ".corrupted.json"@)
}

/// Where an unreadable settings file is set aside.
pub fn quarantine_path(path: &str) -> (r: String)
    ensures
        r@ == aside_path(path@),
{
    let mut name = match paths::file_stem(path) {
        Some(stem) => stem,
        None => "settings".to_owned(),
    };
    name.append(".corrupted.json");
    paths::with_file_name(path, name.as_str())
}

/// What a load comes to: the settings, and what there is to say to the user.
#[derive(Debug, PartialEq)]
pub struct Loaded {
    pub settings: Settings,
    pub notice: Option<String>,
}

/// What is to be done about a settings file.
#[derive(Debug, PartialEq)]
pub enum Opened {
    Ready(Loaded),
    /// The file is unreadable: move it to this path.
    SetAside(String),
}

/// What the text of the file comes to; nothing was read where there is no file.
pub fn open(text: Option<&str>, path: &str) -> (r: Opened)
    ensures
        match r {
            Opened::Ready(loaded) => match text {
                Some(text) => json_of(text@) is Some && settings_in(json_of(text@)->0) == Some(
                    (loaded.settings@, text_of(loaded.notice)),
                ),
                None => loaded.settings@ == default_settings() && loaded.notice is None,
            },
            Opened::SetAside(aside) => aside@ == aside_path(path@) && text is Some && (match json_of(
                text->0@,
            ) {
                Some(doc) => settings_in(doc) is None,
                None => true,
            }),
        },
{
    match text {
        Some(text) => match parse(text) {
            Ok((settings, notice)) => Opened::Ready(Loaded { settings, notice }),
            Err(_) => Opened::SetAside(quarantine_path(path)),
        },
        None => Opened::Ready(Loaded { settings: Settings::default(), notice: None }),
    }
}

/// The defaults after an unreadable file, with a word on where it went, if it could be moved.
pub fn after_setting_aside(aside: &str, moved: bool) -> (r: Loaded)
    ensures
        r.settings@ == default_settings(),
        text_of(r.notice) == Some(
            if moved {
                "настройки повреждены и сброшены; старый файл — "@ + (match name_of(aside@) {
                    Some(name) => name,
                    None => "?"@,
                })
            } else {
                "настройки повреждены и сброшены"@
            },
        ),
{
    let notice = if moved {
        let mut text = "настройки повреждены и сброшены; старый файл — ".to_owned();
        match paths::file_name(aside) {
            Some(name) => text.append(name.as_str()),
            None => text.append("?"),
        }
        text
    } else {
        "настройки повреждены и сброшены".to_owned()
    };
    Loaded { settings: Settings::default(), notice: Some(notice) }
}

/// Settings from a file that the user chose: a bad one is not accepted, and stays where it is.
/// `text` is what was read of it, or why it could not be read.
pub fn import(text: Result<&str, &str>) -> (r: Result<Loaded, String>)
    ensures
        match (text, r) {
            (Ok(text), Ok(loaded)) => json_of(text@) is Some && settings_in(json_of(text@)->0)
                == Some((loaded.settings@, text_of(loaded.notice))),
            (Ok(text), Err(error)) => error@ == "это не файл настроек MH Monitoring"@ && (match json_of(
                text@,
            ) {
                Some(doc) => settings_in(doc) is None,
                None => true,
            }),
            (Err(reason), Err(error)) => error@ == "не прочитан: "@ + reason@,
            (Err(_), Ok(_)) => false,
        },
{
    match text {
        Ok(text) => match parse(text) {
            Ok((settings, notice)) => Ok(Loaded { settings, notice }),
            Err(_) => Err("это не файл настроек MH Monitoring".to_owned()),
        },
        Err(reason) => {
            let mut error = "не прочитан: ".to_owned();
            error.append(reason);
            Err(error)
        },
    }
}

/// The folder of the program in a folder of application data, or in the one for temporary files
/// where there is none.
pub open spec fn app_folder(base: Option<Seq<char>>, temp: Seq<char>) -> Seq<char> {
    joined_path(
        match base {
            Some(base) => base,
            None => temp,
        },
        APP_DIR@,
    )
}

/// The folder of the program: with `%APPDATA%` for the settings, with `%LOCALAPPDATA%` for
/// journals and unpacked programs. `temp` stands in where the variable is not set.
pub fn app_dir(base: Option<&str>, temp: &str) -> (r: String)
    ensures
        r@ == app_folder(crate::blocks::opt_text(base), temp@),
{
    match base {
        Some(base) => paths::join(base, APP_DIR),
        None => paths::join(temp, APP_DIR),
    }
}

/// `%APPDATA%\MH Monitoring\settings-rs.json`.
pub fn default_path(appdata: Option<&str>, temp: &str) -> (r: String)
    ensures
        r@ == joined_path(
            app_folder(crate::blocks::opt_text(appdata), temp@),
            SETTINGS_FILE@,
        ),
{
    let dir = app_dir(appdata, temp);
    paths::join(dir.as_str(), SETTINGS_FILE)
}

/// A file of the old folder that belongs into the new one.
#[derive(Debug, PartialEq)]
pub struct LegacyFile {
    pub name: String,
    pub from: String,
    pub to: String,
}

/// The files that move from the folder of the old name to the one of the new name: the settings
/// and what was set aside of them.
pub fn legacy_files(old_dir: &str, new_dir: &str) -> (r: (LegacyFile, LegacyFile))
    ensures
        r.0.name@ == SETTINGS_FILE@,
        r.0.from@ == joined_path(old_dir@, SETTINGS_FILE@),
        r.0.to@ == joined_path(new_dir@, SETTINGS_FILE@),
        r.1.name@ == "settings-rs.corrupted.json"@,
        r.1.from@ == joined_path(old_dir@, r.1.name@),
        r.1.to@ == joined_path(new_dir@, r.1.name@),
{
    let aside = "settings-rs.corrupted.json";
    (
        LegacyFile {
            name: SETTINGS_FILE.to_owned(),
            from: paths::join(old_dir, SETTINGS_FILE),
            to: paths::join(new_dir, SETTINGS_FILE),
        },
        LegacyFile {
            name: aside.to_owned(),
            from: paths::join(old_dir, aside),
            to: paths::join(new_dir, aside),
        },
    )
}

/// A file is moved where it is there and the new folder has none of its name: that one goes
/// before the old one.
pub fn moves(from_is_file: bool, to_exists: bool) -> (r: bool)
    ensures
        r == (from_is_file && !to_exists),
{
    from_is_file && !to_exists
}

/// A file that moves from one place to another under its name.
#[verifier::ext_equal]
pub struct MoveView {
    pub name: Seq<char>,
    pub from: Seq<char>,
    pub to: Seq<char>,
}

impl View for LegacyFile {
    type V = MoveView;

    open spec fn view(&self) -> MoveView {
        MoveView { name: self.name@, from: self.from@, to: self.to@ }
    }
}

pub open spec fn move_views(files: Seq<LegacyFile>) -> Seq<MoveView> {
    files.map_values(|file: LegacyFile| file@)
}

/// The name of the settings that were set aside.
pub open spec fn aside_name() -> Seq<char> {
    "settings-rs.corrupted.json"@
}

/// The names that move, in order: that of the settings, then that of what was set aside.
pub open spec fn moving_names(settings: bool, aside: bool) -> Seq<Seq<char>> {
    let first = if settings {
        seq![SETTINGS_FILE@]
    } else {
        seq![]
    };
    if aside {
        first.push(aside_name())
    } else {
        first
    }
}

/// Names as files that move from one folder to another.
pub open spec fn moves_of(names: Seq<Seq<char>>, old_dir: Seq<char>, new_dir: Seq<char>) -> Seq<
    MoveView,
> {
    names.map_values(
        |name: Seq<char>|
            MoveView { name, from: joined_path(old_dir, name), to: joined_path(new_dir, name) },
    )
}

/// The files to move from the folder of the old name to the one of the new name, in order. Of the
/// settings and of what was set aside of them: whether the old folder has the file, and whether
/// the new one has something of that name.
pub fn move_legacy_files(
    old_dir: &str,
    new_dir: &str,
    settings: (bool, bool),
    aside: (bool, bool),
) -> (r: Vec<LegacyFile>)
    ensures
        move_views(r@) == moves_of(
            moving_names(settings.0 && !settings.1, aside.0 && !aside.1),
            old_dir@,
            new_dir@,
        ),
{
    let (first, second) = legacy_files(old_dir, new_dir);
    let mut r: Vec<LegacyFile> = Vec::new();
    if moves(settings.0, settings.1) {
        r.push(first);
    }
    if moves(aside.0, aside.1) {
        r.push(second);
    }
    proof {
        let names = moving_names(settings.0 && !settings.1, aside.0 && !aside.1);
        assert(move_views(r@) =~= moves_of(names, old_dir@, new_dir@));
    }
    r
}

/// The two folders, each with the contents of its files by their names.
#[verifier::ext_equal]
pub struct Folders {
    pub old: Map<Seq<char>, Seq<u8>>,
    pub new: Map<Seq<char>, Seq<u8>>,
}

/// The old folder has the file and the new one has none of its name.
pub open spec fn goes_over(folders: Folders, name: Seq<char>) -> bool {
    folders.old.contains_key(name) && !folders.new.contains_key(name)
}

/// The names that move between two folders.
pub open spec fn moved(folders: Folders) -> Seq<Seq<char>> {
    moving_names(goes_over(folders, SETTINGS_FILE@), goes_over(folders, aside_name()))
}

/// The folders after some files were moved, one after another.
pub open spec fn after_moving(folders: Folders, names: Seq<Seq<char>>) -> Folders
    decreases names.len(),
{
    if names.len() == 0 {
        folders
    } else {
        let before = after_moving(folders, names.drop_last());
        let name = names.last();
        Folders {
            old: before.old.remove(name),
            new: before.new.insert(name, before.old[name]),
        }
    }
}

/// Exactly the settings and what was set aside of them move, where the new folder has nothing of
/// that name, and they keep their contents. All else stays as it is in both folders, and a second
/// time there is nothing to move.
pub proof fn law_legacy_files_move_once(folders: Folders)
    ensures
        ({
            let names = moved(folders);
            let after = after_moving(folders, names);
            &&& forall|name: Seq<char>| #[trigger]
                names.contains(name) <==> (name == SETTINGS_FILE@ || name == aside_name())
                    && goes_over(folders, name)
            &&& forall|name: Seq<char>| #[trigger]
                names.contains(name) ==> !after.old.contains_key(name) && after.new.contains_key(
                    name,
                ) && after.new[name] == folders.old[name]
            &&& forall|name: Seq<char>|
                !(#[trigger] names.contains(name)) ==> {
                    &&& after.old.contains_key(name) == folders.old.contains_key(name)
                    &&& after.old[name] == folders.old[name]
                    &&& after.new.contains_key(name) == folders.new.contains_key(name)
                    &&& after.new[name] == folders.new[name]
                }
            &&& moved(after) =~= Seq::<Seq<char>>::empty()
            &&& after_moving(after, moved(after)) == after
        }),
{
    let names = moved(folders);
    let after = after_moving(folders, names);
    reveal_strlit("settings-rs.json");
    reveal_strlit("settings-rs.corrupted.json");
    assert(SETTINGS_FILE@.len() == 16);
    assert(aside_name().len() == 26);
    let settings = goes_over(folders, SETTINGS_FILE@);
    let aside = goes_over(folders, aside_name());
    reveal_with_fuel(after_moving, 3);
    if settings {
        assert(names[0] == SETTINGS_FILE@);
        if aside {
            assert(names[1] == aside_name());
            assert(names.drop_last() =~= seq![SETTINGS_FILE@]);
            assert(names.drop_last().drop_last() =~= seq![]);
        } else {
            assert(names.drop_last() =~= seq![]);
        }
    } else if aside {
        assert(names[0] == aside_name());
        assert(names.drop_last() =~= seq![]);
    }
    assert(moved(after) =~= Seq::<Seq<char>>::empty());
}

/// Saved settings load as they were, repaired, with a word on them only where they are of a newer
/// build.
#[verifier::rlimit(60)]
#[verifier::spinoff_prover]
pub proof fn law_saved_settings_load(v: SettingsView)
    requires
        writable(v),
        v.version >= CURRENT_VERSION,
    ensures
        settings_in(write_settings(v)) == Some((v.repaired(), newer_notice(v.version))),
{
    lemma_saved_version(v);
    law_settings_read_back(v);
    let entries = write_settings(v)->Object_0;
    assert(version_of(entries) == v.version);
    assert(write_settings(v) == Doc::Object(entries));
}

/// Settings in order survive being saved and loaded, and nothing is said about them.
pub proof fn law_settings_survive(v: SettingsView)
    requires
        writable(v),
        v.version == CURRENT_VERSION,
        v.repaired() == v,
    ensures
        settings_in(write_settings(v)) == Some((v, None::<Seq<char>>)),
{
    law_saved_settings_load(v);
}

proof fn lemma_read_metrics_valid(doc: Doc)
    ensures
        read_settings(doc) is Some ==> read_settings(doc)->0.metrics.valid(),
{
    reveal(read_settings);
    assert forall|names: Doc| crate::schema::read_names(names) is Some implies crate::names::in_order(
        #[trigger] crate::schema::read_names(names)->0,
    ) by {
        crate::names::lemma_set_of_in_order(
            crate::schema::texts_in(names->List_0)->0,
        );
    }
}

/// What was loaded from any document, saved, loads again unchanged, as long as no title ends
/// with white space.
pub proof fn law_loading_settles(doc: Doc)
    requires
        settings_in(doc) is Some,
        ({
            let blocks = (settings_in(doc)->0).0.blocks;
            &&& crate::text::trimmed(blocks.gpu.title) == blocks.gpu.title
            &&& crate::text::trimmed(blocks.cpu.title) == blocks.cpu.title
            &&& crate::text::trimmed(blocks.ram.title) == blocks.ram.title
            &&& crate::text::trimmed(blocks.fps.title) == blocks.fps.title
        }),
    ensures
        ({
            let v = (settings_in(doc)->0).0;
            settings_in(write_settings(v)) == Some((v, newer_notice(v.version)))
        }),
{
    let v = (settings_in(doc)->0).0;
    let entries = doc->Object_0;
    let current = Doc::Object(migrated(entries, version_of(entries)));
    let read = read_settings(current)->0;
    lemma_read_metrics_valid(current);
    crate::settings::law_repair_settles(read);
    crate::settings::lemma_repaired_is_writable(read);
    law_saved_settings_load(v);
}

/// A document of the current or a newer format is not changed.
pub proof fn law_current_format_stays(entries: Seq<(Seq<char>, Doc)>)
    requires
        version_of(entries) >= CURRENT_VERSION,
    ensures
        migrated(entries, version_of(entries)) == entries,
{
}

proof fn lemma_key_names()
    ensures
        "version"@ != "setup_done"@,
        "version"@ != "sections"@,
        "version"@ != "blocks"@,
        "setup_done"@ != "sections"@,
        "setup_done"@ != "blocks"@,
        "sections"@ != "blocks"@,
        "gpu"@ != "cpu"@,
        "gpu"@ != "ram"@,
        "gpu"@ != "fps"@,
        "cpu"@ != "ram"@,
        "cpu"@ != "fps"@,
        "ram"@ != "fps"@,
{
    reveal_strlit("version");
    reveal_strlit("setup_done");
    reveal_strlit("sections");
    reveal_strlit("blocks");
    assert("version"@.len() == 7);
    assert("setup_done"@.len() == 10);
    assert("sections"@.len() == 8);
    assert("blocks"@.len() == 6);
    reveal_strlit("gpu");
    reveal_strlit("cpu");
    reveal_strlit("ram");
    reveal_strlit("fps");
    assert("gpu"@.len() == 3);
    assert("cpu"@.len() == 3);
    assert("ram"@.len() == 3);
    assert("fps"@.len() == 3);
    assert("gpu"@[0] == 'g');
    assert("cpu"@[0] == 'c');
    assert("ram"@[0] == 'r');
    assert("fps"@[0] == 'f');
}

proof fn lemma_sections_moved(entries: Seq<(Seq<char>, Doc)>, key: Seq<char>)
    requires
        key != "blocks"@,
    ensures
        field(sections_moved(entries), key) == (if key == "sections"@ {
            None
        } else {
            field(entries, key)
        }),
{
    lemma_key_names();
    let rest = without_field(entries, "sections"@);
    lemma_without_field(entries, "sections"@, key);
    match field(entries, "sections"@) {
        Some(Doc::Object(sections)) => {
            let blocks = match field(rest, "blocks"@) {
                Some(blocks) => blocks,
                None => Doc::Object(seq![]),
            };
            lemma_with_field(rest, "blocks"@, blocks_from(blocks, sections), key);
        },
        _ => {},
    }
}

/// A document of an old format comes out marked as current, without the flags of the second
/// format, and one from before the window of the first start counts as set up.
pub proof fn law_old_formats_are_brought_up(entries: Seq<(Seq<char>, Doc)>)
    requires
        version_of(entries) < CURRENT_VERSION,
    ensures
        ({
            let r = migrated(entries, version_of(entries));
            &&& version_of(r) == CURRENT_VERSION
            &&& migrated(r, version_of(r)) == r
            &&& field(r, "sections"@) is None
            &&& version_of(entries) < 2 ==> field(r, "setup_done"@) == Some(Doc::Bool(true))
        }),
{
    lemma_key_names();
    let from = version_of(entries);
    let first = if from < 1 {
        to_first(entries)
    } else {
        entries
    };
    let second = if from < 2 {
        to_second(first)
    } else {
        first
    };
    let flagged = with_field(first, "setup_done"@, Doc::Bool(true));
    lemma_with_field(first, "setup_done"@, Doc::Bool(true), "setup_done"@);
    lemma_with_field(flagged, "version"@, Doc::Unsigned(2), "setup_done"@);
    let moved = sections_moved(second);
    lemma_sections_moved(second, "sections"@);
    lemma_sections_moved(second, "setup_done"@);
    lemma_with_field(moved, "version"@, Doc::Unsigned(3), "version"@);
    lemma_with_field(moved, "version"@, Doc::Unsigned(3), "sections"@);
    lemma_with_field(moved, "version"@, Doc::Unsigned(3), "setup_done"@);
}

/// The flag of a block, as its field.
pub open spec fn block_flag(blocks: Doc, key: Seq<char>) -> Option<Doc> {
    match blocks {
        Doc::Object(entries) => match field(entries, key) {
            Some(Doc::Object(block)) => field(block, "enabled"@),
            _ => None,
        },
        _ => None,
    }
}

proof fn lemma_with_enabled(blocks: Doc, key: Seq<char>, flag: Option<Doc>, other: Seq<char>)
    requires
        blocks is Object,
    ensures
        with_enabled(blocks, key, flag) is Object,
        other != key ==> field(with_enabled(blocks, key, flag)->Object_0, other) == field(
            blocks->Object_0,
            other,
        ),
        flag is Some && flag->0 is Bool && field(blocks->Object_0, key) is None ==> block_flag(
            with_enabled(blocks, key, flag),
            key,
        ) == flag,
{
    if flag is Some && flag->0 is Bool {
        let entries = blocks->Object_0;
        let block = match field(entries, key) {
            Some(block) => block,
            None => Doc::Object(seq![]),
        };
        if block is Object {
            let changed = with_field(block->Object_0, "enabled"@, flag->0);
            lemma_with_field(entries, key, Doc::Object(changed), other);
            lemma_with_field(entries, key, Doc::Object(changed), key);
            lemma_with_field(block->Object_0, "enabled"@, flag->0, "enabled"@);
        }
    }
}

/// Where a document has no blocks yet, every flag of the second format becomes the flag of its
/// block.
pub proof fn law_sections_become_blocks(
    entries: Seq<(Seq<char>, Doc)>,
    sections: Seq<(Seq<char>, Doc)>,
    key: Seq<char>,
)
    requires
        field(entries, "sections"@) == Some(Doc::Object(sections)),
        field(entries, "blocks"@) is None,
        key == "gpu"@ || key == "cpu"@ || key == "ram"@ || key == "fps"@,
        field(sections, key) is Some,
        field(sections, key)->0 is Bool,
    ensures
        field(to_third(entries), "blocks"@) is Some,
        block_flag(field(to_third(entries), "blocks"@)->0, key) == field(sections, key),
{
    lemma_key_names();
    let rest = without_field(entries, "sections"@);
    lemma_without_field(entries, "sections"@, "blocks"@);
    let empty = Doc::Object(seq![]);
    let a = with_enabled(empty, "gpu"@, field(sections, "gpu"@));
    let b = with_enabled(a, "cpu"@, field(sections, "cpu"@));
    let c = with_enabled(b, "ram"@, field(sections, "ram"@));
    let d = with_enabled(c, "fps"@, field(sections, "fps"@));
    lemma_with_enabled(empty, "gpu"@, field(sections, "gpu"@), "cpu"@);
    lemma_with_enabled(empty, "gpu"@, field(sections, "gpu"@), "ram"@);
    lemma_with_enabled(empty, "gpu"@, field(sections, "gpu"@), "fps"@);
    lemma_with_enabled(a, "cpu"@, field(sections, "cpu"@), "gpu"@);
    lemma_with_enabled(a, "cpu"@, field(sections, "cpu"@), "ram"@);
    lemma_with_enabled(a, "cpu"@, field(sections, "cpu"@), "fps"@);
    lemma_with_enabled(b, "ram"@, field(sections, "ram"@), "gpu"@);
    lemma_with_enabled(b, "ram"@, field(sections, "ram"@), "cpu"@);
    lemma_with_enabled(b, "ram"@, field(sections, "ram"@), "fps"@);
    lemma_with_enabled(c, "fps"@, field(sections, "fps"@), "gpu"@);
    lemma_with_enabled(c, "fps"@, field(sections, "fps"@), "cpu"@);
    lemma_with_enabled(c, "fps"@, field(sections, "fps"@), "ram"@);
    let moved = sections_moved(entries);
    assert(moved == with_field(rest, "blocks"@, d));
    lemma_with_field(rest, "blocks"@, d, "blocks"@);
    lemma_with_field(moved, "version"@, Doc::Unsigned(3), "blocks"@);
}

/// Without a file the settings are those of a first start and nothing is said; a file that cannot
/// be read is set aside, and every other gives its settings.
pub proof fn law_files_open_or_are_set_aside(text: Option<&str>, path: &str, r: Opened)
    requires
        call_ensures(open, (text, path), r),
    ensures
        text is None ==> r is Ready && r->Ready_0.settings@ == default_settings()
            && r->Ready_0.notice is None,
        text is Some ==> (r is SetAside <==> (json_of(text->0@) is None || settings_in(
            json_of(text->0@)->0,
        ) is None)),
        r matches Opened::SetAside(aside) ==> aside@ == aside_path(path@),
{
}

/// What is set aside stays beside the file, under its name with a mark.
pub proof fn law_set_aside_beside_the_file(folder: Seq<char>)
    requires
        crate::paths::drive_folder(folder),
    ensures
        aside_path(joined_path(folder, "settings-rs.json"@)) == joined_path(
            folder,
            "settings-rs.corrupted.json"@,
        ),
{
    reveal_strlit("settings-rs.json");
    reveal_strlit("settings-rs");
    reveal_strlit("json");
    reveal_strlit(".corrupted.json");
    reveal_strlit("settings-rs.corrupted.json");
    let name = "settings-rs.json"@;
    assert(name.len() == 16);
    crate::paths::law_joined_paths_come_apart(folder, name);
    assert(name =~= "settings-rs"@ + seq!['.'] + "json"@);
    crate::paths::law_names_part_at_their_last_point("settings-rs"@, "json"@);
    assert("settings-rs"@ + ".corrupted.json"@ =~= "settings-rs.corrupted.json"@);
}

} // verus!
