use tmux_layout::cli::ConfigFormat;
use tmux_layout::config::loader::{default_config_paths, format_of_extension, formats_to_try, Error};
use tmux_layout::config::{
    is_default_size, Config, ConfigIncludes, ConfigL, FilePathIncludes, HSplitPart, NoIncludes,
    Pane, PaneSetting, PartialConfig, RootSplit, Session, Split, SplitMap, UnresolvedIncludes,
    VSplitPart, Window,
};
use tmux_layout::cwd::Cwd;

fn pane_in(cwd: &str) -> Pane {
    Pane { cwd: Cwd::from_path(cwd), ..Pane::default() }
}

fn columns(left: Split, right: Split) -> Split {
    Split::H {
        left: HSplitPart { width: None, split: Box::new(left) },
        right: HSplitPart { width: Some("30%".to_string()), split: Box::new(right) },
    }
}

fn rows(top: Split, bottom: Split) -> Split {
    Split::V {
        top: VSplitPart { height: Some("5".to_string()), split: Box::new(top) },
        bottom: VSplitPart { height: None, split: Box::new(bottom) },
    }
}

fn keyless() -> SplitMap {
    SplitMap {
        left: None,
        right: None,
        top: None,
        bottom: None,
        cwd: Cwd::none(),
        active: false,
        shell_command: None,
        send_keys: None,
    }
}

fn session(name: &str) -> Session {
    Session { name: name.to_string(), cwd: Cwd::none(), windows: Vec::new() }
}

fn window(name: &str) -> Window {
    Window {
        name: Some(name.to_string()),
        cwd: Cwd::none(),
        active: false,
        root_split: RootSplit::default(),
    }
}

#[test]
fn defaults() {
    assert_eq!(
        Pane::default(),
        Pane { cwd: Cwd::none(), active: false, shell_command: None, send_keys: None }
    );
    assert_eq!(Split::default(), Split::Pane(Pane::default()));
    assert_eq!(HSplitPart::default(), HSplitPart { width: None, split: Box::new(Split::default()) });
    assert_eq!(VSplitPart::default(), VSplitPart { height: None, split: Box::new(Split::default()) });
    assert_eq!(RootSplit::default().split(), &Split::default());
}

#[test]
fn panes_come_in_the_order_of_their_numbers() {
    let split = columns(
        rows(Split::Pane(pane_in("a")), Split::Pane(pane_in("b"))),
        rows(Split::Pane(pane_in("c")), columns(Split::Pane(pane_in("d")), Split::Pane(pane_in("e")))),
    );
    let mut iter = split.pane_iter();
    let mut seen = Vec::new();
    while let Some(pane) = iter.next() {
        seen.push(pane.cwd.to_path().unwrap().to_string());
    }
    assert_eq!(seen, vec!["a", "b", "c", "d", "e"]);
    assert!(iter.next().is_none());
    assert_eq!(split.pane_count(), Some(5));
}

#[test]
fn single_pane_of_a_layout() {
    let pane = pane_in("x");
    assert_eq!(Split::Pane(pane.clone()).single_pane(), Some(&pane));
    assert_eq!(columns(Split::default(), Split::default()).single_pane(), None);
}

#[test]
fn clones_are_equal() {
    let split = columns(rows(Split::Pane(pane_in("a")), Split::default()), Split::Pane(pane_in("c")));
    assert_eq!(split.clone(), split);
    let root = split.into_root();
    assert_eq!(root.clone().into_split(), root.into_split());
}

#[test]
fn assigned_panes_take_their_settings_in_order() {
    let split = columns(
        Split::Pane(Pane { shell_command: Some("vi".to_string()), ..pane_in("old") }),
        rows(Split::Pane(pane_in("b")), Split::Pane(pane_in("c"))),
    );
    let settings = vec![
        PaneSetting { active: false, cwd: Cwd::from_path("one") },
        PaneSetting { active: true, cwd: Cwd::none() },
    ];
    assert_eq!(
        split.assign_panes(&settings),
        columns(
            Split::Pane(Pane { shell_command: Some("vi".to_string()), ..pane_in("one") }),
            rows(Split::Pane(Pane { active: true, ..Pane::default() }), Split::Pane(pane_in("c"))),
        )
    );
}

#[test]
fn a_map_with_a_side_is_a_split() {
    let right = HSplitPart { width: Some("20%".to_string()), split: Box::new(Split::Pane(pane_in("r"))) };
    let map = SplitMap { right: Some(right.clone()), cwd: Cwd::from_path("ignored"), ..keyless() };
    assert_eq!(Split::from_map(map), Split::H { left: HSplitPart::default(), right });
    let top = VSplitPart { height: None, split: Box::new(Split::Pane(pane_in("t"))) };
    let map = SplitMap { top: Some(top.clone()), ..keyless() };
    assert_eq!(Split::from_map(map), Split::V { top, bottom: VSplitPart::default() });
}

#[test]
fn left_and_right_come_before_top_and_bottom() {
    let left = HSplitPart { width: None, split: Box::new(Split::Pane(pane_in("l"))) };
    let top = VSplitPart { height: None, split: Box::new(Split::Pane(pane_in("t"))) };
    let map = SplitMap { left: Some(left.clone()), top: Some(top), ..keyless() };
    assert_eq!(Split::from_map(map), Split::H { left, right: HSplitPart::default() });
}

#[test]
fn a_map_without_a_side_is_a_pane() {
    let map = SplitMap {
        cwd: Cwd::from_path("/tmp"),
        active: true,
        shell_command: Some("bash".to_string()),
        send_keys: Some(vec!["g".to_string(), "ENTER".to_string()]),
        ..keyless()
    };
    assert_eq!(
        Split::from_map(map),
        Split::Pane(Pane {
            cwd: Cwd::from_path("/tmp"),
            active: true,
            shell_command: Some("bash".to_string()),
            send_keys: Some(vec!["g".to_string(), "ENTER".to_string()]),
        })
    );
    assert_eq!(Split::from_map(keyless()), Split::default());
}

#[test]
fn a_layout_comes_back_from_its_map() {
    let layouts = vec![
        Split::default(),
        Split::Pane(Pane { active: true, ..pane_in("x") }),
        columns(Split::Pane(pane_in("a")), Split::default()),
        rows(columns(Split::default(), Split::Pane(pane_in("b"))), Split::default()),
    ];
    for split in layouts {
        assert_eq!(Split::from_map(SplitMap::from_split(split.clone())), split);
    }
}

#[test]
fn the_map_of_a_window_that_is_one_pane_is_not_active() {
    let root = Split::Pane(Pane { active: true, ..pane_in("x") }).into_root();
    let map = SplitMap::from_root(root);
    assert!(!map.active);
    assert_eq!(RootSplit::from_map(map).into_split(), Split::Pane(pane_in("x")));

    let split = columns(Split::Pane(Pane { active: true, ..pane_in("a") }), Split::default());
    let map = SplitMap::from_root(split.clone().into_root());
    assert_eq!(RootSplit::from_map(map).into_split(), split);
}

#[test]
fn sizes_that_need_not_be_written() {
    assert!(is_default_size(&None));
    assert!(is_default_size(&Some("50%".to_string())));
    assert!(!is_default_size(&Some("50".to_string())));
    assert!(!is_default_size(&Some("51%".to_string())));
    assert!(!is_default_size(&Some(String::new())));
}

#[test]
fn includes_are_empty_or_not() {
    assert!(NoIncludes.is_empty());
    assert!(FilePathIncludes(Vec::new()).is_empty());
    assert!(FilePathIncludes::default().is_empty());
    assert!(!FilePathIncludes(vec!["other.yaml".to_string()]).is_empty());
    assert_eq!(UnresolvedIncludes.message(), "unresolved includes");
}

#[test]
fn a_configuration_without_includes_is_complete() {
    let partial: PartialConfig = ConfigL {
        includes: FilePathIncludes(Vec::new()),
        selected_session: Some("s".to_string()),
        sessions: vec![session("s")],
        windows: vec![window("w")],
    };
    let config = partial.into_config().unwrap();
    assert_eq!(
        config,
        ConfigL {
            includes: NoIncludes,
            selected_session: Some("s".to_string()),
            sessions: vec![session("s")],
            windows: vec![window("w")],
        }
    );
}

#[test]
fn a_configuration_with_includes_is_not_complete() {
    let partial: PartialConfig = ConfigL {
        includes: FilePathIncludes(vec!["more.toml".to_string()]),
        selected_session: None,
        sessions: Vec::new(),
        windows: Vec::new(),
    };
    assert_eq!(partial.into_config(), Err(UnresolvedIncludes));
}

#[test]
fn merging_appends_and_keeps_the_first_selection() {
    let mut config = Config::empty();
    config.sessions.push(session("a"));
    let first = ConfigL {
        includes: NoIncludes,
        selected_session: Some("b".to_string()),
        sessions: vec![session("b")],
        windows: vec![window("w1")],
    };
    assert_eq!(config.merge(first), None);
    assert_eq!(config.selected_session, Some("b".to_string()));
    let second = ConfigL {
        includes: NoIncludes,
        selected_session: Some("c".to_string()),
        sessions: vec![session("c")],
        windows: vec![window("w2")],
    };
    assert_eq!(config.merge(second), Some("c".to_string()));
    assert_eq!(config.selected_session, Some("b".to_string()));
    assert_eq!(config.sessions, vec![session("a"), session("b"), session("c")]);
    assert_eq!(config.windows, vec![window("w1"), window("w2")]);
    assert_eq!(config.merge(Config::empty()), None);
}

#[test]
fn formats_go_by_extension() {
    assert_eq!(format_of_extension(Some("toml")), Ok(ConfigFormat::Toml));
    assert_eq!(format_of_extension(Some("yml")), Ok(ConfigFormat::Yaml));
    assert_eq!(format_of_extension(Some("yaml")), Ok(ConfigFormat::Yaml));
    assert_eq!(format_of_extension(Some("json")), Err(Error::UnsupportedFormat));
    assert_eq!(format_of_extension(Some("YAML")), Err(Error::UnsupportedFormat));
    assert_eq!(format_of_extension(None), Err(Error::UnsupportedFormat));
}

#[test]
fn formats_of_a_configuration_without_a_name() {
    assert_eq!(formats_to_try(b"[[sessions]]\nname = 'a'"), (ConfigFormat::Toml, None));
    assert_eq!(formats_to_try(b"sessions: []"), (ConfigFormat::Yaml, Some(ConfigFormat::Toml)));
    assert_eq!(formats_to_try(b"[windows]"), (ConfigFormat::Yaml, Some(ConfigFormat::Toml)));
    assert_eq!(formats_to_try(b"["), (ConfigFormat::Yaml, Some(ConfigFormat::Toml)));
    assert_eq!(formats_to_try(b""), (ConfigFormat::Yaml, Some(ConfigFormat::Toml)));
}

#[test]
fn default_paths_in_order() {
    let dirs = vec!["/work".to_string(), "/home/u/".to_string()];
    assert_eq!(
        default_config_paths(&dirs),
        vec![
            "/work/.tmux-layout.yaml",
            "/work/.tmux-layout.yml",
            "/work/.tmux-layout.toml",
            "/home/u/.tmux-layout.yaml",
            "/home/u/.tmux-layout.yml",
            "/home/u/.tmux-layout.toml",
        ]
    );
    assert!(default_config_paths(&Vec::new()).is_empty());
}

#[test]
fn loader_error_messages() {
    assert_eq!(
        Error::Io { path: "a.yaml".to_string(), error: "not found".to_string() }.message(),
        "failed to load config file at \"a.yaml\": not found"
    );
    assert_eq!(
        Error::ParseError { path: "a.yaml".to_string(), message: "bad".to_string() }.message(),
        "failed to parse config file at \"a.yaml\": bad"
    );
    assert_eq!(
        Error::UnsupportedFormat.message(),
        "unsupported config format (supported: YAML, TOML)"
    );
    assert_eq!(Error::LookupError("X".to_string()).message(), "variable lookup error: X");
}

#[test]
fn single_pane_can_be_changed_in_place() {
    let mut split = Split::Pane(pane_in("x"));
    if let Some(pane) = split.single_pane_mut() {
        pane.active = true;
    }
    assert_eq!(split, Split::Pane(Pane { active: true, ..pane_in("x") }));
    let mut two = columns(Split::default(), Split::default());
    assert!(two.single_pane_mut().is_none());
}

#[test]
fn panes_can_be_changed_by_number() {
    let mut split = columns(
        rows(Split::Pane(pane_in("a")), Split::Pane(pane_in("b"))),
        Split::Pane(pane_in("c")),
    );
    split.pane_mut(1).unwrap().active = true;
    split.pane_mut(2).unwrap().cwd = Cwd::from_path("z");
    assert_eq!(split.pane_mut(3).err(), Some(3));
    assert_eq!(split.pane_mut(usize::MAX).err(), Some(3));
    assert_eq!(
        split,
        columns(
            rows(Split::Pane(pane_in("a")), Split::Pane(Pane { active: true, ..pane_in("b") })),
            Split::Pane(pane_in("z")),
        )
    );
}

#[test]
fn panes_can_be_changed_on_a_walk() {
    let mut split = columns(
        rows(Split::Pane(pane_in("a")), Split::Pane(pane_in("b"))),
        Split::Pane(pane_in("c")),
    );
    let names = ["x", "y", "z"];
    let mut iter = split.pane_iter_mut();
    let mut seen = 0;
    while let Some(pane) = iter.next() {
        pane.cwd = Cwd::from_path(names[seen]);
        seen += 1;
    }
    assert_eq!(seen, 3);
    assert!(iter.next().is_none());
    assert_eq!(
        split,
        columns(
            rows(Split::Pane(pane_in("x")), Split::Pane(pane_in("y"))),
            Split::Pane(pane_in("z")),
        )
    );
}

#[test]
fn a_layout_is_canonical_unless_a_split_sizes_both_sides() {
    assert!(Split::default().is_canonical());
    assert!(columns(Split::default(), rows(Split::default(), Split::default())).is_canonical());
    let both = Split::H {
        left: HSplitPart { width: Some("30%".to_string()), split: Box::new(Split::default()) },
        right: HSplitPart { width: Some("70%".to_string()), split: Box::new(Split::default()) },
    };
    assert!(!both.is_canonical());
    assert!(!rows(Split::default(), both).is_canonical());
}

#[test]
fn sessions_need_names_of_their_own() {
    let mut config = Config::empty();
    assert!(config.has_named_sessions());
    config.sessions = vec![session("a"), session("b"), session("c")];
    assert!(config.has_named_sessions());
    config.sessions = vec![session("a"), session("b"), session("a")];
    assert!(!config.has_named_sessions());
    config.sessions = vec![session("a"), session("")];
    assert!(!config.has_named_sessions());
}
