use package_manager::entities::wit_interface::Model;
use package_manager::serve::{poll_action, rebuild_action, tick_action, PollAction, RebuildAction, TickAction};
use package_manager::sql::{check, install, migrate, SQL_COMMAND_NOTE};
use package_manager::store::{tally_listing, FetchTaskKind, ListedEntry};
use package_manager::wit_interface::WitInterface;

#[test]
fn fetch_task_kind_from_names() {
    assert_eq!(FetchTaskKind::from("reindex"), FetchTaskKind::Reindex);
    assert_eq!(FetchTaskKind::from("pull"), FetchTaskKind::Pull);
    assert_eq!(FetchTaskKind::from("anything"), FetchTaskKind::Pull);
    assert_eq!(FetchTaskKind::from("Reindex"), FetchTaskKind::Pull);
    assert_eq!(FetchTaskKind::from("reindex".to_string()), FetchTaskKind::Reindex);
    assert_eq!(FetchTaskKind::from(String::new()), FetchTaskKind::Pull);
}

#[test]
fn sql_commands_report_the_note() {
    assert_eq!(install(), Err(SQL_COMMAND_NOTE));
    assert_eq!(migrate("anything"), Err(SQL_COMMAND_NOTE));
    assert_eq!(check(), Err(SQL_COMMAND_NOTE));
    assert!(SQL_COMMAND_NOTE.contains("Migrator::up"));
}

#[test]
fn serve_decisions() {
    assert_eq!(tick_action(true, true), TickAction::Shutdown);
    assert_eq!(tick_action(false, true), TickAction::Rebuild);
    assert_eq!(tick_action(false, false), TickAction::PollServers);
    assert_eq!(rebuild_action(true), RebuildAction::RestartServers);
    assert_eq!(rebuild_action(false), RebuildAction::KeepServers);
    assert_eq!(poll_action(true, true), PollAction::WasmtimeExited);
    assert_eq!(poll_action(false, true), PollAction::RegistryExited);
    assert_eq!(poll_action(false, false), PollAction::Wait);
}

#[test]
fn wit_interface_from_row() {
    let w = WitInterface::from_model(Model {
        id: 42,
        wit_text: "package a:b;".to_string(),
        package_name: Some("a:b".to_string()),
        world_name: None,
        import_count: 2,
        export_count: 1,
        created_at: "now".to_string(),
    });
    assert_eq!(w.id(), 42);
    assert_eq!(w.package_name, Some("a:b".to_string()));
    assert_eq!(w.import_count, 2);
    let t = WitInterface::new_for_testing(7, None, "x".to_string(), Some("w".to_string()), 0, 3, "t".to_string());
    assert_eq!(t.id(), 7);
    assert_eq!(t.world_name, Some("w".to_string()));
}

#[test]
fn tally_listing_adds_files_and_finds_directories() {
    let listing = vec![
        ListedEntry { is_dir: false, len: 10 },
        ListedEntry { is_dir: true, len: 4096 },
        ListedEntry { is_dir: false, len: 5 },
        ListedEntry { is_dir: true, len: 4096 },
    ];
    assert_eq!(tally_listing(100, &listing), (115, vec![1, 3]));
    assert_eq!(tally_listing(7, &Vec::new()), (7, vec![]));
    assert_eq!(tally_listing(u64::MAX - 1, &vec![ListedEntry { is_dir: false, len: 1 }]).0, u64::MAX);
}
