use tmux_layout::cli::{
    ConfigFormat, CreateOpts, DumpCommandOps, DumpConfigOps, ExportOpts, Matches,
    SessionSelectModeOption, Subcommand,
};
use tmux_layout::order::sort_positions;
use tmux_layout::text::{decimal_string, same_text, signed_decimal_string};
use tmux_layout::tmux::{QueryScope, SessionSelectMode};

fn matches<'a>(subcommand: Option<&'a str>) -> Matches<'a> {
    Matches {
        subcommand,
        config: Some("layout.yaml"),
        session_select_mode: Some("switch"),
        ignore_existing_sessions: true,
        scope: Some("window"),
        format: Some("toml"),
        tmux_args: vec!["-L", "socket"],
    }
}

#[test]
fn formats_by_name() {
    assert_eq!(ConfigFormat::from_arg(None), ConfigFormat::Yaml);
    assert_eq!(ConfigFormat::from_arg(Some("yaml")), ConfigFormat::Yaml);
    assert_eq!(ConfigFormat::from_arg(Some("toml")), ConfigFormat::Toml);
}

#[test]
fn scopes_by_name() {
    assert_eq!(QueryScope::from_arg(Some("all")), QueryScope::AllSessions);
    assert_eq!(QueryScope::from_arg(Some("session")), QueryScope::CurrentSession);
    assert_eq!(QueryScope::from_arg(Some("window")), QueryScope::CurrentWindow);
}

#[test]
fn modes_by_name() {
    assert_eq!(SessionSelectModeOption::from_arg(None), SessionSelectModeOption::Auto);
    assert_eq!(SessionSelectModeOption::from_arg(Some("auto")), SessionSelectModeOption::Auto);
    assert_eq!(SessionSelectModeOption::from_arg(Some("attach")), SessionSelectModeOption::Attach);
    assert_eq!(SessionSelectModeOption::from_arg(Some("switch")), SessionSelectModeOption::Switch);
    assert_eq!(
        SessionSelectModeOption::from_arg(Some("detached")),
        SessionSelectModeOption::Detached
    );
    assert_eq!(SessionSelectModeOption::default(), SessionSelectModeOption::Auto);
}

#[test]
fn modes_are_resolved_by_how_the_tool_runs() {
    let switch = SessionSelectModeOption::Switch;
    let detached = SessionSelectModeOption::Detached;
    let attach = SessionSelectModeOption::Attach;
    let auto = SessionSelectModeOption::Auto;
    for terminal in [false, true] {
        for overwrite in [false, true] {
            for clients in [false, true] {
                assert_eq!(
                    switch.resolve(terminal, overwrite, clients),
                    (SessionSelectMode::Switch, false)
                );
                assert_eq!(
                    detached.resolve(terminal, overwrite, clients),
                    (SessionSelectMode::Detached, false)
                );
            }
        }
    }
    assert_eq!(attach.resolve(true, true, false), (SessionSelectMode::Attach, false));
    assert_eq!(attach.resolve(false, false, false), (SessionSelectMode::Attach, false));
    assert_eq!(attach.resolve(false, true, true), (SessionSelectMode::Detached, true));
    assert_eq!(auto.resolve(false, true, true), (SessionSelectMode::Switch, false));
    assert_eq!(auto.resolve(true, true, true), (SessionSelectMode::Switch, false));
    assert_eq!(auto.resolve(true, true, false), (SessionSelectMode::Attach, false));
    assert_eq!(auto.resolve(false, true, false), (SessionSelectMode::Detached, false));
    assert!(auto.needs_clients());
    assert!(!attach.needs_clients());
}

#[test]
fn options_of_each_subcommand() {
    let create = CreateOpts::from_matches(matches(Some("create")));
    assert_eq!(create.config_path, Some("layout.yaml"));
    assert_eq!(create.session_select_mode, SessionSelectModeOption::Switch);
    assert!(create.ignore_existing_sessions);
    assert_eq!(create.tmux_args, vec!["-L", "socket"]);

    let dump = DumpCommandOps::from_matches(matches(Some("dump-command")));
    assert_eq!(dump.config_path, Some("layout.yaml"));
    assert_eq!(dump.session_select_mode, SessionSelectModeOption::Switch);
    assert!(dump.ignore_existing_sessions);
    assert_eq!(dump.tmux_args, vec!["-L", "socket"]);

    let config = DumpConfigOps::from_matches(matches(Some("dump-config")));
    assert_eq!(config.config_path, Some("layout.yaml"));
    assert_eq!(config.format, ConfigFormat::Toml);

    let export = ExportOpts::from_matches(matches(Some("export")));
    assert_eq!(export.scope, QueryScope::CurrentWindow);
    assert_eq!(export.format, ConfigFormat::Toml);
    assert_eq!(export.tmux_args, vec!["-L", "socket"]);
}

#[test]
fn subcommands_by_name() {
    assert!(Subcommand::from_matches(matches(None)).is_none());
    assert!(matches!(
        Subcommand::from_matches(matches(Some("create"))),
        Some(Subcommand::Create(_))
    ));
    assert!(matches!(
        Subcommand::from_matches(matches(Some("dump-command"))),
        Some(Subcommand::DumpCommand(_))
    ));
    assert!(matches!(
        Subcommand::from_matches(matches(Some("dump-config"))),
        Some(Subcommand::DumpConfig(_))
    ));
    assert!(matches!(
        Subcommand::from_matches(matches(Some("export"))),
        Some(Subcommand::Export(_))
    ));
}

#[test]
fn decimal_notation() {
    assert_eq!(decimal_string(0), "0");
    assert_eq!(decimal_string(7), "7");
    assert_eq!(decimal_string(10), "10");
    assert_eq!(decimal_string(4294967295), "4294967295");
    assert_eq!(decimal_string(u128::MAX), "340282366920938463463374607431768211455");
    assert_eq!(signed_decimal_string(0), "0");
    assert_eq!(signed_decimal_string(-1), "-1");
    assert_eq!(signed_decimal_string(-120), "-120");
    assert_eq!(signed_decimal_string(i128::MIN), "-170141183460469231731687303715884105728");
    assert_eq!(signed_decimal_string(i128::MAX), "170141183460469231731687303715884105727");
}

#[test]
fn texts_are_compared_by_their_characters() {
    assert!(same_text("", ""));
    assert!(same_text("yaml", "yaml"));
    assert!(!same_text("yaml", "yam"));
    assert!(!same_text("yaml", "yamL"));
    assert!(same_text("größe", "größe"));
    assert!(!same_text("größe", "grosse"));
}

#[test]
fn positions_are_sorted_by_key_and_stay_in_order_for_equal_keys() {
    assert_eq!(sort_positions(&vec![]), Vec::<usize>::new());
    assert_eq!(sort_positions(&vec![5]), vec![0]);
    assert_eq!(sort_positions(&vec![3, 1, 2]), vec![1, 2, 0]);
    assert_eq!(sort_positions(&vec![2, 1, 2, 1, 0]), vec![4, 1, 3, 0, 2]);
    assert_eq!(sort_positions(&vec![1, 1, 1]), vec![0, 1, 2]);
}
