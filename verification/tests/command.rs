use tmux_layout::config::{HSplitPart, Pane, Session, Split, VSplitPart, Window};
use tmux_layout::cwd::Cwd;
use tmux_layout::tmux::command::find_root_pane;
use tmux_layout::tmux::{
    Axis, Direction, QueryScope, SessionSelectMode, SplitFlow, Target, TmuxCommandBuilder,
};

fn pane_in(cwd: &str) -> Pane {
    Pane { cwd: Cwd::from_path(cwd), ..Pane::default() }
}

fn pane_running(command: &str) -> Pane {
    Pane { shell_command: Some(command.to_string()), ..Pane::default() }
}

fn active_pane() -> Pane {
    Pane { active: true, ..Pane::default() }
}

fn h(left: (Option<&str>, Split), right: (Option<&str>, Split)) -> Split {
    Split::H {
        left: HSplitPart { width: left.0.map(String::from), split: Box::new(left.1) },
        right: HSplitPart { width: right.0.map(String::from), split: Box::new(right.1) },
    }
}

fn v(top: (Option<&str>, Split), bottom: (Option<&str>, Split)) -> Split {
    Split::V {
        top: VSplitPart { height: top.0.map(String::from), split: Box::new(top.1) },
        bottom: VSplitPart { height: bottom.0.map(String::from), split: Box::new(bottom.1) },
    }
}

fn window(name: Option<&str>, active: bool, split: Split) -> Window {
    Window { name: name.map(String::from), cwd: Cwd::none(), active, root_split: split.into_root() }
}

fn session(name: &str, windows: Vec<Window>) -> Session {
    Session { name: name.to_string(), cwd: Cwd::none(), windows }
}

fn builder() -> TmuxCommandBuilder {
    TmuxCommandBuilder::new("tmux", Vec::new())
}

/// The subcommands on a command line, each as one line of text.
fn subcommands(argv: &[String]) -> Vec<String> {
    let mut lines = Vec::new();
    let mut current: Vec<String> = Vec::new();
    for arg in &argv[1..] {
        if arg == ";" {
            lines.push(current.join(" "));
            current = Vec::new();
        } else {
            current.push(arg.clone());
        }
    }
    if !current.is_empty() {
        lines.push(current.join(" "));
    }
    lines
}

#[test]
fn single_pane_window() {
    let sessions = vec![session("s", vec![window(Some("w"), false, Split::Pane(pane_running("bash")))])];
    let argv = builder().new_sessions(&sessions).into_command();
    assert_eq!(
        subcommands(&argv),
        vec![
            "new-session -s s -d",
            "new-window -n w -b -t s:0",
            "split-window -t s: -h bash",
            "kill-pane -t s:.0",
            "kill-window -t s:1",
        ]
    );
}

#[test]
fn single_pane_window_argv_is_flat() {
    let sessions = vec![session("s", vec![window(Some("w"), false, Split::Pane(pane_running("bash")))])];
    let argv = builder().new_sessions(&sessions).into_command();
    let expected: Vec<String> = [
        "tmux", "new-session", "-s", "s", "-d", ";", "new-window", "-n", "w", "-b",
        "-t", "s:0", ";", "split-window", "-t", "s:", "-h", "bash", ";", "kill-pane", "-t",
        "s:.0", ";", "kill-window", "-t", "s:1",
    ]
    .iter()
    .map(|s| s.to_string())
    .collect();
    assert_eq!(argv, expected);
}

#[test]
fn horizontal_split_with_sized_right_side() {
    let split = h((None, Split::default()), (Some("25%"), Split::default()));
    let sessions = vec![session("s", vec![window(Some("w"), false, split)])];
    let argv = builder().new_sessions(&sessions).into_command();
    assert_eq!(
        subcommands(&argv),
        vec![
            "new-session -s s -d",
            "new-window -n w -b -t s:0",
            "split-window -t s: -h",
            "kill-pane -t s:.0",
            "split-window -t s: -h -l 25%",
            "select-pane -t s: -L",
            "kill-window -t s:1",
        ]
    );
}

#[test]
fn horizontal_split_with_sized_left_side() {
    let split = h((Some("25%"), Split::default()), (None, Split::default()));
    let sessions = vec![session("s", vec![window(Some("w"), false, split)])];
    let argv = builder().new_sessions(&sessions).into_command();
    assert_eq!(
        subcommands(&argv),
        vec![
            "new-session -s s -d",
            "new-window -n w -b -t s:0",
            "split-window -t s: -h",
            "kill-pane -t s:.0",
            "split-window -t s: -h -b -l 25%",
            "select-pane -t s: -R",
            "kill-window -t s:1",
        ]
    );
}

#[test]
fn vertical_splits_go_up_and_down() {
    let regular = v((None, Split::default()), (Some("10"), Split::default()));
    let inverted = v((Some("10"), Split::default()), (None, Split::default()));
    let argv = builder()
        .new_window(&window(None, false, regular), &Cwd::none(), None)
        .new_window(&window(None, false, inverted), &Cwd::none(), None)
        .into_command();
    assert_eq!(
        subcommands(&argv),
        vec![
            "new-window -t :",
            "split-window -t : -h",
            "kill-pane -t :.0",
            "split-window -t : -v -l 10",
            "select-pane -t : -U",
            "new-window -t :",
            "split-window -t : -h",
            "kill-pane -t :.0",
            "split-window -t : -v -b -l 10",
            "select-pane -t : -D",
        ]
    );
}

#[test]
fn selected_session_switch_mode() {
    let sessions = vec![
        session("work", vec![window(None, false, Split::default())]),
        session("s2", vec![window(None, false, Split::default())]),
    ];
    let argv = builder()
        .new_sessions(&sessions)
        .select_session(Some("s2"), SessionSelectMode::Switch)
        .into_command();
    let lines = subcommands(&argv);
    assert_eq!(lines.last().unwrap(), "switch-client -t s2:");
}

#[test]
fn select_session_modes() {
    let attach = builder().select_session(Some("s"), SessionSelectMode::Attach).into_command();
    assert_eq!(subcommands(&attach), vec!["attach-session -t s:"]);
    let current = builder().select_session(None, SessionSelectMode::Switch).into_command();
    assert_eq!(subcommands(&current), vec!["switch-client -t :"]);
    let detached = builder().select_session(Some("s"), SessionSelectMode::Detached).into_command();
    assert_eq!(detached, vec!["tmux".to_string()]);
}

#[test]
fn nothing_to_create_leaves_the_command_line_alone() {
    let args = vec!["-L".to_string(), "socket".to_string()];
    let no_windows: Vec<Window> = Vec::new();
    let no_sessions: Vec<Session> = Vec::new();
    let argv = TmuxCommandBuilder::new("/usr/bin/tmux", args)
        .new_windows(&no_windows, &Cwd::default())
        .new_sessions(&no_sessions)
        .into_command();
    assert_eq!(argv, vec!["/usr/bin/tmux".to_string(), "-L".to_string(), "socket".to_string()]);
}

#[test]
fn session_without_windows_is_passed_over() {
    let sessions = vec![session("empty", Vec::new())];
    let argv = builder().new_sessions(&sessions).into_command();
    assert_eq!(argv, vec!["tmux".to_string()]);
}

#[test]
fn first_active_pane_is_selected_once() {
    let split = h(
        (None, Split::default()),
        (None, v((None, Split::Pane(active_pane())), (None, Split::Pane(active_pane())))),
    );
    let sessions = vec![session("s", vec![window(Some("w"), false, split)])];
    let built = builder().new_sessions(&sessions);
    assert_eq!(
        built.warnings().clone(),
        vec!["Multiple active panes in window 'w' of session 's'".to_string()]
    );
    let lines = subcommands(&built.into_command());
    let selections: Vec<&String> =
        lines.iter().filter(|line| line.starts_with("select-pane -t s:.")).collect();
    assert_eq!(selections, vec!["select-pane -t s:.1"]);
}

#[test]
fn window_without_active_pane_selects_none() {
    let split = h((None, Split::default()), (None, Split::default()));
    let built = builder().new_window(&window(None, false, split), &Cwd::none(), None);
    assert!(built.warnings().is_empty());
    let lines = subcommands(&built.into_command());
    assert!(lines.iter().all(|line| !line.starts_with("select-pane -t :.")));
}

#[test]
fn unnamed_window_warning() {
    let split = h((None, Split::Pane(active_pane())), (None, Split::Pane(active_pane())));
    let built = builder().new_window(&window(None, false, split), &Cwd::none(), None);
    assert_eq!(
        built.warnings().clone(),
        vec!["Multiple active panes in window '(unnamed)' of session '(current)'".to_string()]
    );
}

#[test]
fn active_window_of_a_session_is_selected_by_index() {
    let sessions = vec![session(
        "s",
        vec![
            window(Some("a"), false, Split::default()),
            window(Some("b"), true, Split::default()),
            window(Some("c"), true, Split::default()),
        ],
    )];
    let built = builder().new_sessions(&sessions);
    assert_eq!(
        built.warnings().clone(),
        vec!["Multiple active windows in session 's'".to_string()]
    );
    let lines = subcommands(&built.into_command());
    assert_eq!(lines.last().unwrap(), "select-window -t s:1");
    assert_eq!(lines.iter().filter(|line| line.starts_with("select-window")).count(), 1);
}

#[test]
fn active_top_level_window_is_reached_by_stepping_back() {
    let windows = vec![
        window(Some("a"), true, Split::default()),
        window(Some("b"), false, Split::default()),
        window(Some("c"), false, Split::default()),
    ];
    let lines = subcommands(&builder().new_windows(&windows, &Cwd::none()).into_command());
    assert_eq!(
        lines,
        vec![
            "new-window -n a -t :",
            "split-window -t : -h",
            "kill-pane -t :.0",
            "new-window -n b -t :",
            "split-window -t : -h",
            "kill-pane -t :.0",
            "new-window -n c -t :",
            "split-window -t : -h",
            "kill-pane -t :.0",
            "select-window -t : -p",
            "select-window -t : -p",
        ]
    );
}

#[test]
fn directories_are_joined_onto_their_parents() {
    let split = h((None, Split::Pane(pane_in("left"))), (None, Split::Pane(pane_in("/abs"))));
    let mut w = window(Some("w"), false, split);
    w.cwd = Cwd::from_path("win");
    let mut s = session("s", vec![w]);
    s.cwd = Cwd::from_path("/home/u");
    let lines = subcommands(&builder().new_session(&s).into_command());
    assert_eq!(
        lines,
        vec![
            "new-session -s s -c /home/u -d",
            "new-window -n w -c /home/u/win -b -t s:0",
            "split-window -t s: -h -c /home/u/win/left",
            "kill-pane -t s:.0",
            "split-window -t s: -h -c /abs",
            "select-pane -t s: -L",
            "kill-window -t s:1",
        ]
    );
}

#[test]
fn keys_are_sent_to_their_pane() {
    let typing =
        Pane { send_keys: Some(vec!["ls -al".to_string(), "ENTER".to_string()]), ..Pane::default() };
    let split = h((Some("20%"), Split::Pane(typing)), (None, Split::Pane(pane_running("bash"))));
    let lines = subcommands(
        &builder().new_window(&window(None, false, split), &Cwd::none(), None).into_command(),
    );
    assert_eq!(
        lines,
        vec![
            "new-window -t :",
            "split-window -t : -h bash",
            "kill-pane -t :.0",
            "split-window -t : -h -b -l 20%",
            "send-keys -t : ls -al ENTER",
            "select-pane -t : -R",
        ]
    );
}

#[test]
fn nested_splits_are_made_in_pane_order() {
    let split = h(
        (None, v((None, Split::Pane(pane_in("a"))), (None, Split::Pane(pane_in("b"))))),
        (Some("66%"), v((None, Split::Pane(pane_in("c"))), (None, Split::Pane(pane_in("d"))))),
    );
    let lines = subcommands(
        &builder().new_window(&window(None, false, split), &Cwd::none(), None).into_command(),
    );
    assert_eq!(
        lines,
        vec![
            "new-window -t :",
            "split-window -t : -h -c a",
            "kill-pane -t :.0",
            "split-window -t : -h -c c -l 66%",
            "split-window -t : -v -c d",
            "select-pane -t : -U",
            "select-pane -t : -L",
            "split-window -t : -v -c b",
            "select-pane -t : -U",
        ]
    );
}

#[test]
fn query_commands() {
    let all = builder().query_panes("#{pane_id}", QueryScope::AllSessions).into_command();
    assert_eq!(subcommands(&all), vec!["list-panes -F #{pane_id} -a"]);
    let one = builder().query_panes("#{pane_id}", QueryScope::CurrentSession).into_command();
    assert_eq!(subcommands(&one), vec!["list-panes -F #{pane_id} -s"]);
    let here = builder().query_panes("#{pane_id}", QueryScope::CurrentWindow).into_command();
    assert_eq!(subcommands(&here), vec!["list-panes -F #{pane_id}"]);
    let clients = builder().query_clients().query_clients().into_command();
    assert_eq!(clients, vec!["tmux", "list-clients", ";", "list-clients"]);
}

#[test]
fn flow_goes_by_the_size_of_the_first_side() {
    let sized_left = h((Some("25%"), Split::default()), (None, Split::default()));
    let sized_right = h((None, Split::default()), (Some("25%"), Split::default()));
    let both = h((Some("25%"), Split::default()), (Some("75%"), Split::default()));
    let sized_top = v((Some("5"), Split::default()), (None, Split::default()));
    let plain = v((None, Split::default()), (None, Split::default()));
    assert_eq!(SplitFlow::from(&sized_left), SplitFlow::Inverted);
    assert_eq!(SplitFlow::from(&sized_right), SplitFlow::Regular);
    assert_eq!(SplitFlow::from(&both), SplitFlow::Inverted);
    assert_eq!(SplitFlow::from(&sized_top), SplitFlow::Inverted);
    assert_eq!(SplitFlow::from(&plain), SplitFlow::Regular);
    assert_eq!(SplitFlow::from(&Split::default()), SplitFlow::Regular);
}

#[test]
fn root_pane_lies_on_the_side_that_is_not_created() {
    let split = h(
        (Some("30%"), Split::Pane(pane_in("new"))),
        (None, v((None, Split::Pane(pane_in("root"))), (None, Split::Pane(pane_in("below"))))),
    );
    assert_eq!(find_root_pane(&split).cwd.to_path(), Some("root"));
}

#[test]
fn directions() {
    assert_eq!(SplitFlow::Regular.direction(Axis::Horizontal), Direction::Right);
    assert_eq!(SplitFlow::Regular.direction(Axis::Vertical), Direction::Down);
    assert_eq!(SplitFlow::Inverted.direction(Axis::Horizontal), Direction::Left);
    assert_eq!(SplitFlow::Inverted.direction(Axis::Vertical), Direction::Up);
    assert_eq!(Direction::Left.inverted(), Direction::Right);
    assert_eq!(Direction::Right.inverted(), Direction::Left);
    assert_eq!(Direction::Up.inverted(), Direction::Down);
    assert_eq!(Direction::Down.inverted(), Direction::Up);
    assert_eq!(Axis::from(Direction::Left), Axis::Horizontal);
    assert_eq!(Axis::from(Direction::Down), Axis::Vertical);
}

#[test]
fn targets() {
    assert_eq!(Target::default().text(), ":");
    assert_eq!(Target::session("s").text(), "s:");
    assert_eq!(Target::session("s").window("2").text(), "s:2");
    assert_eq!(Target::session("s").current_window().text(), "s:");
    assert_eq!(Target::session("s").current_window().pane("0").text(), "s:.0");
    assert_eq!(Target::session("s").window("1").pane("3").text(), "s:1.3");
    assert_eq!(Target::default().current_window().pane("4").text(), ":.4");
}
