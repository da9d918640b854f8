//! Loading the preferences: from their file, from its backup where the file is
//! missing, and from the defaults where neither can be used.

use crate::schema::{decode_settings, DecodeSettingsError, SettingsFile};
use crate::settings::Settings;
use vstd::prelude::*;
use vstd::string::*;

verus! {

/// What came of an attempt to read a file.
#[derive(Debug)]
pub enum FileRead {
    /// It was read; what parsing it gave.
    Parsed(Result<SettingsFile, String>),
    /// There is no such file.
    NotFound,
    /// It could not be read; the message says why.
    Failed(String),
}

/// What came of an attempt to read and decode a file.
pub enum ReadView {
    Decoded(Result<crate::settings::SettingsView, crate::schema::DecodeErrorView>),
    NotFound,
    Failed(Seq<char>),
}

impl FileRead {
    /// Whether `view` is what was read, decoded.
    pub open spec fn reads_as(self, view: ReadView) -> bool {
        match (self, view) {
            (FileRead::Parsed(parsed), ReadView::Decoded(decoded)) => crate::schema::decodes_to(
                crate::schema::parsed_view(parsed),
                decoded,
            ),
            (FileRead::NotFound, ReadView::NotFound) => true,
            (FileRead::Failed(message), ReadView::Failed(text)) => message@ == text,
            _ => false,
        }
    }
}

/// The preferences that the program starts with, and what is said of them.
#[derive(Debug, PartialEq, Eq)]
pub struct LoadedSettings {
    pub settings: Settings,
    pub status: String,
    /// Whether the preferences on disk are of another version, so that they may
    /// not be written over.
    pub writes_blocked: bool,
}

/// What `LoadedSettings` stand for.
pub struct LoadedView {
    pub settings: crate::settings::SettingsView,
    pub status: Seq<char>,
    pub writes_blocked: bool,
}

impl View for LoadedSettings {
    type V = LoadedView;

    open spec fn view(&self) -> LoadedView {
        LoadedView {
            settings: self.settings@,
            status: self.status@,
            writes_blocked: self.writes_blocked,
        }
    }
}

/// What is loaded where no file can be used.
pub open spec fn defaults_with(status: Seq<char>, writes_blocked: bool) -> LoadedView {
    LoadedView {
        settings: crate::settings::SettingsView::defaults(),
        status,
        writes_blocked,
    }
}

/// What is loaded from the file of the preferences; nothing yet where there is
/// no such file.
pub open spec fn canonical_outcome(read: ReadView) -> Option<LoadedView> {
    match read {
        ReadView::Decoded(Ok(settings)) => Some(
            LoadedView { settings, status: "Preferences restored"@, writes_blocked: false },
        ),
        ReadView::Decoded(Err(crate::schema::DecodeErrorView::Parse(error))) => Some(
            defaults_with("Preferences unreadable; using defaults ("@ + error + ")"@, false),
        ),
        ReadView::Decoded(Err(crate::schema::DecodeErrorView::Unsupported)) => Some(
            defaults_with("Preferences version unsupported; using defaults"@, true),
        ),
        ReadView::NotFound => None,
        ReadView::Failed(error) => Some(
            defaults_with("Preferences unavailable; using defaults ("@ + error + ")"@, false),
        ),
    }
}

/// What is loaded from the backup, where there is no file of the preferences.
pub open spec fn backup_outcome(read: ReadView) -> LoadedView {
    match read {
        ReadView::Decoded(Ok(settings)) => LoadedView {
            settings,
            status: "Preferences restored from backup"@,
            writes_blocked: false,
        },
        ReadView::Decoded(Err(crate::schema::DecodeErrorView::Parse(error))) => defaults_with(
            "Preferences and backup unreadable; using defaults ("@ + error + ")"@,
            false,
        ),
        ReadView::Decoded(Err(crate::schema::DecodeErrorView::Unsupported)) => defaults_with(
            "Preferences backup version unsupported; using defaults"@,
            true,
        ),
        ReadView::NotFound => defaults_with("Using default preferences"@, false),
        ReadView::Failed(error) => defaults_with(
            "Preferences unavailable; using defaults ("@ + error + ")"@,
            false,
        ),
    }
}

fn defaults_because(reason: &str, error: &str) -> (loaded: LoadedSettings)
    ensures
        loaded@ == defaults_with(reason@ + error@ + ")"@, false),
        loaded@.settings.valid(),
{
    let mut status = reason.to_owned();
    status.append(error);
    status.append(")");
    LoadedSettings { settings: Settings::default(), status, writes_blocked: false }
}

/// Loads the preferences from what their file was read as. Where there is no
/// such file the backup is to be read next.
pub fn load_canonical(read: FileRead) -> (loaded: Option<LoadedSettings>)
    ensures
        exists|view: ReadView|
            #[trigger] read.reads_as(view) && canonical_outcome(view) == (match loaded {
                Some(loaded) => Some(loaded@),
                None => None,
            }),
        loaded matches Some(loaded) ==> loaded@.settings.valid(),
{
    let ghost read_before = read;
    match read {
        FileRead::Parsed(parsed) => {
            let result = decode_settings(parsed);
            let ghost view = ReadView::Decoded(crate::schema::decoded_view(result));
            assert(read_before.reads_as(view));
            Some(
                match result {
                    Ok(settings) => LoadedSettings {
                        settings,
                        status: "Preferences restored".to_owned(),
                        writes_blocked: false,
                    },
                    Err(DecodeSettingsError::Parse(error)) => defaults_because(
                        "Preferences unreadable; using defaults (",
                        error.as_str(),
                    ),
                    Err(DecodeSettingsError::Unsupported) => LoadedSettings {
                        settings: Settings::default(),
                        status: "Preferences version unsupported; using defaults".to_owned(),
                        writes_blocked: true,
                    },
                },
            )
        },
        FileRead::NotFound => {
            assert(read_before.reads_as(ReadView::NotFound));
            None
        },
        FileRead::Failed(error) => {
            assert(read_before.reads_as(ReadView::Failed(error@)));
            Some(defaults_because("Preferences unavailable; using defaults (", error.as_str()))
        },
    }
}

/// Loads the preferences from what the backup was read as.
pub fn load_backup(read: FileRead) -> (loaded: LoadedSettings)
    ensures
        exists|view: ReadView| #[trigger] read.reads_as(view) && loaded@ == backup_outcome(view),
        loaded@.settings.valid(),
{
    let ghost read_before = read;
    match read {
        FileRead::Parsed(parsed) => {
            let result = decode_settings(parsed);
            let ghost view = ReadView::Decoded(crate::schema::decoded_view(result));
            assert(read_before.reads_as(view));
            match result {
                Ok(settings) => LoadedSettings {
                    settings,
                    status: "Preferences restored from backup".to_owned(),
                    writes_blocked: false,
                },
                Err(DecodeSettingsError::Parse(error)) => defaults_because(
                    "Preferences and backup unreadable; using defaults (",
                    error.as_str(),
                ),
                Err(DecodeSettingsError::Unsupported) => LoadedSettings {
                    settings: Settings::default(),
                    status: "Preferences backup version unsupported; using defaults".to_owned(),
                    writes_blocked: true,
                },
            }
        },
        FileRead::NotFound => {
            assert(read_before.reads_as(ReadView::NotFound));
            LoadedSettings {
                settings: Settings::default(),
                status: "Using default preferences".to_owned(),
                writes_blocked: false,
            }
        },
        FileRead::Failed(error) => {
            assert(read_before.reads_as(ReadView::Failed(error@)));
            defaults_because("Preferences unavailable; using defaults (", error.as_str())
        },
    }
}

/// What is loaded where there is no place to keep preferences.
pub fn load_without_file() -> (loaded: LoadedSettings)
    ensures
        loaded@ == defaults_with("Using default preferences (config path unavailable)"@, false),
        loaded@.settings.valid(),
{
    LoadedSettings {
        settings: Settings::default(),
        status: "Using default preferences (config path unavailable)".to_owned(),
        writes_blocked: false,
    }
}

/// Usable preferences that were saved are restored, from the file and from the
/// backup alike, and can be saved again.
pub proof fn law_saved_settings_are_restored(
    file: SettingsFile,
    settings: crate::settings::SettingsView,
    read: ReadView,
)
    requires
        settings.valid(),
        file@ == crate::schema::file_of(settings),
        FileRead::Parsed(Ok(file)).reads_as(read),
    ensures
        canonical_outcome(read) is Some,
        canonical_outcome(read)->0.settings == settings,
        !canonical_outcome(read)->0.writes_blocked,
        backup_outcome(read).settings == settings,
        !backup_outcome(read).writes_blocked,
{
    crate::schema::law_saved_settings_read_back(settings, read->Decoded_0);
}

/// Writing is blocked where the preferences on disk are of another version, and
/// nowhere else. The defaults are used then.
pub proof fn law_only_other_versions_block_writes(read: ReadView)
    ensures
        ({
            let other = read matches ReadView::Decoded(
                Err(crate::schema::DecodeErrorView::Unsupported),
            );
            &&& backup_outcome(read).writes_blocked == other
            &&& canonical_outcome(read) matches Some(loaded) ==> loaded.writes_blocked == other
            &&& other ==> canonical_outcome(read) is Some && canonical_outcome(read)->0.settings
                == crate::settings::SettingsView::defaults() && backup_outcome(read).settings
                == crate::settings::SettingsView::defaults()
        }),
{
}

} // verus!
