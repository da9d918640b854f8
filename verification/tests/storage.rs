use jxtimer::load::{load_backup, load_canonical, load_without_file, FileRead};
use jxtimer::replace::ReplaceStep;
use jxtimer::save::{
    backup_file_name, has_unsupported_schema, temporary_file_name, Place, SaveEvent, SaveStep,
};
use jxtimer::schema::{to_file, RawSettings, SettingsFile};
use jxtimer::settings::Settings;

fn newer() -> SettingsFile {
    SettingsFile {
        schema_version: 99,
        settings: RawSettings {
            overlay_mode: Some(true),
            ..Default::default()
        },
    }
}

fn overlaid() -> Settings {
    let mut settings = Settings::default();
    settings.overlay_mode = true;
    settings
}

fn run(events: Vec<SaveEvent>) -> SaveStep {
    let mut step = SaveStep::first();
    for event in events {
        step = step.next(event);
    }
    step
}

fn up_to_writing() -> Vec<SaveEvent> {
    vec![
        SaveEvent::Done,
        SaveEvent::Exists(true),
        SaveEvent::Done,
        SaveEvent::Exists(false),
        SaveEvent::Exists(false),
        SaveEvent::Exists(false),
        SaveEvent::Exists(false),
    ]
}

#[test]
fn unsupported_version_is_safe() {
    let file = SettingsFile {
        schema_version: 99,
        settings: RawSettings::default(),
    };
    let loaded = load_canonical(FileRead::Parsed(Ok(file))).unwrap();
    assert_eq!(loaded.settings, Settings::default());
    assert!(loaded.status.contains("unsupported"));
    assert!(loaded.writes_blocked);
}

#[test]
fn missing_canonical_recovers_valid_backup() {
    let settings = overlaid();
    assert!(load_canonical(FileRead::NotFound).is_none());
    let loaded = load_backup(FileRead::Parsed(Ok(to_file(&settings))));
    assert_eq!(loaded.settings, settings);
    assert!(loaded.status.contains("backup"));
    assert!(!loaded.writes_blocked);
}

#[test]
fn future_schema_backup_is_non_destructive_and_blocks_writes() {
    assert!(load_canonical(FileRead::NotFound).is_none());
    let loaded = load_backup(FileRead::Parsed(Ok(newer())));
    assert!(loaded.writes_blocked);
    let mut events = vec![
        SaveEvent::Done,
        SaveEvent::Exists(true),
        SaveEvent::Done,
        SaveEvent::Exists(false),
        SaveEvent::Exists(false),
        SaveEvent::Exists(false),
        SaveEvent::Exists(true),
        SaveEvent::Link(false),
    ];
    events.push(SaveEvent::Contents(Ok(newer())));
    assert_eq!(
        run(events),
        SaveStep::Finished(Err(
            "preferences belong to a newer version; save is disabled".into()
        ))
    );
}

#[test]
fn future_schema_is_non_destructive_and_blocks_writes() {
    let loaded = load_canonical(FileRead::Parsed(Ok(newer()))).unwrap();
    assert!(loaded.writes_blocked);
    let events = vec![
        SaveEvent::Done,
        SaveEvent::Exists(true),
        SaveEvent::Done,
        SaveEvent::Exists(true),
        SaveEvent::Link(false),
        SaveEvent::Exists(true),
        SaveEvent::Link(false),
        SaveEvent::Contents(Ok(newer())),
    ];
    assert_eq!(
        run(events),
        SaveStep::Finished(Err(
            "preferences belong to a newer version; save is disabled".into()
        ))
    );
}

#[test]
fn missing_file_uses_safe_defaults() {
    assert!(load_canonical(FileRead::NotFound).is_none());
    let loaded = load_backup(FileRead::NotFound);
    assert_eq!(loaded.settings, Settings::default());
    assert_eq!(loaded.status, "Using default preferences");
    assert!(!loaded.writes_blocked);
}

#[test]
fn malformed_json_and_existing_file_recover_safely() {
    let loaded = load_canonical(FileRead::Parsed(Err("expected ident".into()))).unwrap();
    assert_eq!(loaded.settings, Settings::default());
    assert_eq!(
        loaded.status,
        "Preferences unreadable; using defaults (expected ident)"
    );
    let mut events = vec![
        SaveEvent::Done,
        SaveEvent::Exists(true),
        SaveEvent::Done,
        SaveEvent::Exists(true),
        SaveEvent::Link(false),
        SaveEvent::Exists(true),
        SaveEvent::Link(false),
        SaveEvent::Contents(Err("expected ident".into())),
        SaveEvent::Exists(true),
    ];
    events.push(SaveEvent::Done);
    events.push(SaveEvent::Done);
    assert_eq!(run(events), SaveStep::Finished(Ok(())));
    let settings = overlaid();
    let loaded = load_canonical(FileRead::Parsed(Ok(to_file(&settings)))).unwrap();
    assert_eq!(loaded.settings, settings);
}

#[test]
fn loading_says_where_preferences_come_from() {
    let file = || FileRead::Parsed(Ok(to_file(&overlaid())));
    assert_eq!(
        load_canonical(file()).unwrap().status,
        "Preferences restored"
    );
    assert_eq!(load_backup(file()).status, "Preferences restored from backup");
    assert_eq!(
        load_canonical(FileRead::Failed("denied".into()))
            .unwrap()
            .status,
        "Preferences unavailable; using defaults (denied)"
    );
    assert_eq!(
        load_backup(FileRead::Failed("denied".into())).status,
        "Preferences unavailable; using defaults (denied)"
    );
    assert_eq!(
        load_backup(FileRead::Parsed(Err("bad".into()))).status,
        "Preferences and backup unreadable; using defaults (bad)"
    );
    assert_eq!(
        load_canonical(FileRead::Parsed(Ok(newer()))).unwrap().status,
        "Preferences version unsupported; using defaults"
    );
    assert_eq!(
        load_backup(FileRead::Parsed(Ok(newer()))).status,
        "Preferences backup version unsupported; using defaults"
    );
    assert_eq!(
        load_without_file().status,
        "Using default preferences (config path unavailable)"
    );
    assert_eq!(load_without_file().settings, Settings::default());
}

#[test]
fn malformed_colors_never_keep_a_file_from_being_used() {
    let split = |schema_version: u32| SettingsFile {
        schema_version,
        settings: RawSettings {
            chroma_key: Some("#1\u{e9}234".into()),
            overlay_mode: Some(true),
            ..Default::default()
        },
    };
    let loaded = load_canonical(FileRead::Parsed(Ok(split(1)))).unwrap();
    assert_eq!(loaded.settings, overlaid());
    assert_eq!(loaded.status, "Preferences restored");
    assert_eq!(
        load_backup(FileRead::Parsed(Ok(split(1)))).settings,
        overlaid()
    );
    assert!(!has_unsupported_schema(Ok(split(1))));
    assert!(has_unsupported_schema(Ok(split(2))));
}

#[test]
fn only_other_versions_are_unsupported() {
    assert!(has_unsupported_schema(Ok(newer())));
    assert!(!has_unsupported_schema(Ok(to_file(&overlaid()))));
    assert!(!has_unsupported_schema(Err("bad".into())));
}

#[test]
fn saving_goes_through_its_steps_in_order() {
    let steps = [
        (SaveEvent::Done, SaveStep::FindDirectory),
        (SaveEvent::Exists(true), SaveStep::CreateDirectory),
        (SaveEvent::Done, SaveStep::ProbeFile),
        (SaveEvent::Exists(true), SaveStep::InspectFile),
        (SaveEvent::Link(false), SaveStep::ProbeSchema(Place::Canonical)),
        (SaveEvent::Exists(true), SaveStep::InspectSchema(Place::Canonical)),
        (SaveEvent::Link(false), SaveStep::ReadSchema(Place::Canonical)),
        (
            SaveEvent::Contents(Ok(to_file(&overlaid()))),
            SaveStep::ProbeFileAgain,
        ),
        (SaveEvent::Exists(false), SaveStep::ProbeSchema(Place::Backup)),
        (SaveEvent::Exists(true), SaveStep::InspectSchema(Place::Backup)),
        (SaveEvent::Link(false), SaveStep::ReadSchema(Place::Backup)),
        (
            SaveEvent::Contents(Err("bad".into())),
            SaveStep::WriteTemporary,
        ),
        (SaveEvent::Done, SaveStep::Replace),
        (SaveEvent::Done, SaveStep::Finished(Ok(()))),
    ];
    let mut step = SaveStep::first();
    assert_eq!(step, SaveStep::Serialize);
    for (event, expected) in steps {
        step = step.next(event);
        assert_eq!(step, expected);
    }
}

#[test]
fn failures_before_writing_end_saving_at_once() {
    assert_eq!(
        run(vec![SaveEvent::Failed("no bytes".into())]),
        SaveStep::Finished(Err("no bytes".into()))
    );
    assert_eq!(
        run(vec![SaveEvent::Done, SaveEvent::Exists(false)]),
        SaveStep::Finished(Err("No preferences directory".into()))
    );
    assert_eq!(
        run(vec![
            SaveEvent::Done,
            SaveEvent::Exists(true),
            SaveEvent::Failed("denied".into())
        ]),
        SaveStep::Finished(Err("denied".into()))
    );
}

#[test]
fn links_are_never_replaced() {
    let start = || {
        vec![
            SaveEvent::Done,
            SaveEvent::Exists(true),
            SaveEvent::Done,
            SaveEvent::Exists(true),
        ]
    };
    let refused = SaveStep::Finished(Err("preferences path is a symlink".into()));
    let mut first = start();
    first.push(SaveEvent::Link(true));
    assert_eq!(run(first), refused);
    let mut later = start();
    later.push(SaveEvent::Link(false));
    later.push(SaveEvent::Exists(true));
    later.push(SaveEvent::Link(true));
    assert_eq!(run(later), refused);
}

#[test]
fn injected_write_sync_and_replace_failures_preserve_durable_config() {
    for message in ["injected write failure", "injected sync failure"] {
        let mut events = up_to_writing();
        events.push(SaveEvent::Failed(message.into()));
        let step = run(events);
        assert_eq!(step, SaveStep::RemoveTemporary(message.into()));
        assert_eq!(
            step.next(SaveEvent::Done),
            SaveStep::Finished(Err(message.into()))
        );
    }
    let mut events = up_to_writing();
    events.push(SaveEvent::Done);
    events.push(SaveEvent::Failed("injected replace failure".into()));
    let step = run(events);
    assert_eq!(
        step,
        SaveStep::RemoveTemporary("injected replace failure".into())
    );
    assert_eq!(
        step.next(SaveEvent::Failed("gone".into())),
        SaveStep::Finished(Err("injected replace failure".into()))
    );
}

#[test]
fn renaming_is_all_where_it_replaces() {
    assert_eq!(ReplaceStep::first(true), ReplaceStep::Rename);
    assert_eq!(
        ReplaceStep::first(true).next(SaveEvent::Done),
        ReplaceStep::Finished(Ok(()))
    );
    assert_eq!(
        ReplaceStep::first(true).next(SaveEvent::Failed("busy".into())),
        ReplaceStep::Finished(Err("busy".into()))
    );
}

#[test]
fn old_files_are_backed_up_before_they_are_removed() {
    let mut step = ReplaceStep::first(false);
    assert_eq!(step, ReplaceStep::ProbeDestination);
    for (event, expected) in [
        (SaveEvent::Exists(true), ReplaceStep::ProbeBackup),
        (SaveEvent::Exists(true), ReplaceStep::InspectBackup),
        (SaveEvent::Link(false), ReplaceStep::CopyToBackup),
        (SaveEvent::Done, ReplaceStep::SyncBackup),
        (SaveEvent::Done, ReplaceStep::RemoveDestination),
        (SaveEvent::Done, ReplaceStep::Rename),
        (SaveEvent::Done, ReplaceStep::Finished(Ok(()))),
    ] {
        step = step.next(event);
        assert_eq!(step, expected);
    }
    assert_eq!(
        ReplaceStep::first(false).next(SaveEvent::Exists(false)),
        ReplaceStep::Rename
    );
    assert_eq!(
        ReplaceStep::ProbeBackup.next(SaveEvent::Exists(false)),
        ReplaceStep::CopyToBackup
    );
    assert_eq!(
        ReplaceStep::InspectBackup.next(SaveEvent::Link(true)),
        ReplaceStep::Finished(Err("preferences backup path is a symlink".into()))
    );
    assert_eq!(
        ReplaceStep::SyncBackup.next(SaveEvent::Failed("io".into())),
        ReplaceStep::Finished(Err("io".into()))
    );
}

#[test]
fn file_names_are_spelled_out() {
    assert_eq!(temporary_file_name(4321, 0), ".settings-4321-0.tmp");
    assert_eq!(
        temporary_file_name(0, u64::MAX),
        ".settings-0-18446744073709551615.tmp"
    );
    assert_ne!(temporary_file_name(7, 1), temporary_file_name(7, 2));
    assert_eq!(
        backup_file_name(Some("settings.json")),
        "settings.json.backup"
    );
    assert_eq!(backup_file_name(None), "settings.backup");
}
