use tmux_layout::config::{Config, HSplitPart, Pane, Session, Split, Window};
use tmux_layout::cwd::Cwd;
use tmux_layout::tmux::import::{
    pane_info, parse_line, parse_tmux_state, remove_existing_sessions, state_from_output,
    state_query, Error, PaneId, PaneIndex, SessionId, TmuxState, WindowId, WindowIndex,
    TMUX_FORMAT,
};
use tmux_layout::tmux::layout::{Layout, PaneGeom, Size};
use tmux_layout::tmux::{QueryScope, TmuxCommandBuilder};

const ONE_PANE: &str = "b25d,80x24,0,0,0";
const TWO_PANES: &str = "abcd,80x24,0,0{40x24,0,0,1,39x24,41,0,2}";

fn words(line: &[&str]) -> Vec<String> {
    line.iter().map(|w| w.to_string()).collect()
}

fn config_pane(cwd: Option<&str>, active: bool) -> Pane {
    Pane {
        cwd: match cwd {
            Some(path) => Cwd::from_path(path),
            None => Cwd::none(),
        },
        active,
        ..Pane::default()
    }
}

#[test]
fn a_line_is_read_field_by_field() {
    let line = format!("$1 @2 %3 main /home/u 4 editor 1 {} 5 0 /home/u/src", ONE_PANE);
    let info = parse_line(&line).unwrap();
    assert_eq!(info.session_id, SessionId(1));
    assert_eq!(info.window_id, WindowId(2));
    assert_eq!(info.pane_id, PaneId(3));
    assert_eq!(info.session_name, "main");
    assert_eq!(info.session_cwd, "/home/u");
    assert_eq!(info.window_index, WindowIndex(4));
    assert_eq!(info.window_name, "editor");
    assert!(info.window_active);
    assert_eq!(
        info.window_layout,
        Layout::Pane(PaneGeom { size: Size { width: 80, height: 24 }, x_offset: 0, y_offset: 0 })
    );
    assert_eq!(info.pane_index, PaneIndex(5));
    assert!(!info.pane_active);
    assert_eq!(info.pane_cwd, "/home/u/src");
}

#[test]
fn quoting_is_taken_away() {
    let line = format!(
        "'$1' @2 %3 'my session' \"/home/u/my dir\" 0 two\\ words 0 {} 0 1 /tmp/a\\'b",
        ONE_PANE
    );
    let info = parse_line(&line).unwrap();
    assert_eq!(info.session_id, SessionId(1));
    assert_eq!(info.session_name, "my session");
    assert_eq!(info.session_cwd, "/home/u/my dir");
    assert_eq!(info.window_name, "two words");
    assert_eq!(info.pane_cwd, "/tmp/a'b");
}

#[test]
fn a_missing_pane_directory_is_empty() {
    let line = format!("$1 @2 %3 main /home/u 4 editor 1 {} 5 0", ONE_PANE);
    assert_eq!(parse_line(&line).unwrap().pane_cwd, "");
}

#[test]
fn further_words_are_passed_over() {
    let line = format!("$1 @2 %3 main /home/u 4 editor 1 {} 5 0 /tmp more words", ONE_PANE);
    assert_eq!(parse_line(&line).unwrap().pane_cwd, "/tmp");
}

#[test]
fn a_line_that_is_too_short_is_rejected() {
    let line = format!("$1 @2 %3 main /home/u 4 editor 1 {} 5", ONE_PANE);
    assert_eq!(parse_line(&line).unwrap_err().message, "missing word");
    assert!(parse_line("").is_err());
}

#[test]
fn mismatched_quotes_are_rejected() {
    let line = format!("$1 @2 %3 'main /home/u 4 editor 1 {} 5 0 /tmp", ONE_PANE);
    assert_eq!(parse_line(&line).unwrap_err().message, "missing quotes");
}

#[test]
fn identifiers_have_their_own_shape() {
    let good = words(&["$1", "@2", "%3", "s", "/", "0", "w", "0", ONE_PANE, "0", "0"]);
    assert!(pane_info(&good).is_ok());
    for (position, bad) in [(0, "1"), (0, "@1"), (0, "$"), (0, "$1x"), (0, "$-1"), (1, "$2"), (1, "@"), (2, "3"), (2, "%3 ")] {
        let mut line = good.clone();
        line[position] = bad.to_string();
        assert!(pane_info(&line).is_err());
    }
}

#[test]
fn numbers_must_fit() {
    let good = words(&["$4294967295", "@0", "%0", "s", "/", "4294967295", "w", "255", ONE_PANE, "+7", "0"]);
    let info = pane_info(&good).unwrap();
    assert_eq!(info.session_id, SessionId(4294967295));
    assert_eq!(info.window_index, WindowIndex(4294967295));
    assert!(info.window_active);
    assert_eq!(info.pane_index, PaneIndex(7));
    for (position, bad) in [
        (0, "$4294967296"),
        (5, "4294967296"),
        (5, ""),
        (5, "+"),
        (5, "-1"),
        (5, "1 "),
        (7, "256"),
        (7, "yes"),
        (9, "0x1"),
        (10, "1000"),
    ] {
        let mut line = good.clone();
        line[position] = bad.to_string();
        assert!(pane_info(&line).is_err());
    }
}

#[test]
fn a_bad_layout_is_rejected() {
    let line = words(&["$1", "@2", "%3", "s", "/", "0", "w", "0", "80x24,0,0,0", "0", "0"]);
    assert!(pane_info(&line).unwrap_err().message.starts_with("layout parse error: "));
}

#[test]
fn flags_say_yes_unless_zero() {
    let line = words(&["$1", "@2", "%3", "s", "/", "0", "w", "2", ONE_PANE, "0", "00"]);
    let info = pane_info(&line).unwrap();
    assert!(info.window_active);
    assert!(!info.pane_active);
}

#[test]
fn a_listing_is_gathered_by_identifiers() {
    let listing = format!(
        "$1 @1 %1 one /a 0 w1 1 {two} 0 1 /a/x\n\
         $0 @5 %7 zero /b 3 w5 0 {one} 0 1 /b\r\n\
         $1 @1 %2 other /other 9 renamed 0 {one} 1 0 /tmp\n\
         $1 @0 %3 one /a 1 w0 0 {one} 0 1 /a\n",
        two = TWO_PANES,
        one = ONE_PANE
    );
    let state = parse_tmux_state(&listing).unwrap();
    assert_eq!(state.sessions.len(), 2);

    let first = &state.sessions[0];
    assert_eq!(first.id, SessionId(1));
    assert_eq!(first.name, "one");
    assert_eq!(first.cwd, "/a");
    assert_eq!(first.windows.len(), 2);
    assert_eq!(first.windows[0].id, WindowId(1));
    assert_eq!(first.windows[0].index, WindowIndex(0));
    assert_eq!(first.windows[0].name, "w1");
    assert!(first.windows[0].active);
    assert_eq!(first.windows[0].layout, Layout::parse(TWO_PANES).unwrap());
    assert_eq!(first.windows[0].panes.len(), 2);
    assert_eq!(first.windows[0].panes[0].id, PaneId(1));
    assert_eq!(first.windows[0].panes[1].id, PaneId(2));
    assert_eq!(first.windows[0].panes[1].index, PaneIndex(1));
    assert_eq!(first.windows[0].panes[1].cwd, "/tmp");
    assert_eq!(first.windows[1].id, WindowId(0));

    let second = &state.sessions[1];
    assert_eq!(second.id, SessionId(0));
    assert_eq!(second.name, "zero");
    assert_eq!(second.windows[0].panes[0].cwd, "/b");
}

#[test]
fn a_pane_listed_twice_is_kept_as_listed_last() {
    let listing = format!(
        "$1 @1 %1 s /a 0 w 1 {one} 0 1 /first\n$1 @1 %1 s /a 0 w 1 {one} 4 0 /second",
        one = ONE_PANE
    );
    let state = parse_tmux_state(&listing).unwrap();
    let panes = &state.sessions[0].windows[0].panes;
    assert_eq!(panes.len(), 1);
    assert_eq!(panes[0].index, PaneIndex(4));
    assert!(!panes[0].active);
    assert_eq!(panes[0].cwd, "/second");
}

#[test]
fn an_empty_listing_is_an_empty_state() {
    assert_eq!(parse_tmux_state("").unwrap(), TmuxState::new());
    assert!(parse_tmux_state("\n").is_err());
}

#[test]
fn one_bad_line_spoils_the_listing() {
    let listing = format!("$1 @1 %1 s /a 0 w 1 {one} 0 1 /a\nnonsense\n", one = ONE_PANE);
    assert!(parse_tmux_state(&listing).is_err());
}

#[test]
fn pane_directories_are_taken_from_the_session_directory() {
    let listing = format!(
        "$1 @1 %1 s /home/u/proj 0 w 1 {two} 0 0 /home/u/proj/src\n\
         $1 @1 %2 s /home/u/proj 0 w 1 {two} 1 1 /tmp\n",
        two = TWO_PANES
    );
    let state = parse_tmux_state(&listing).unwrap();
    let sessions = state.to_config_sessions();
    assert_eq!(
        sessions,
        vec![Session {
            name: "s".to_string(),
            cwd: Cwd::from_path("/home/u/proj"),
            windows: vec![Window {
                name: Some("w".to_string()),
                cwd: Cwd::none(),
                active: true,
                root_split: Split::H {
                    left: HSplitPart {
                        width: None,
                        split: Box::new(Split::Pane(config_pane(Some("src"), false))),
                    },
                    right: HSplitPart {
                        width: Some("50%".to_string()),
                        split: Box::new(Split::Pane(config_pane(Some("/tmp"), true))),
                    },
                }
                .into_root(),
            }],
        }]
    );
}

#[test]
fn a_pane_in_the_session_directory_has_none_of_its_own() {
    let listing = format!("$1 @1 %1 s /home/u 0 w 0 {one} 0 1 /home/u\n", one = ONE_PANE);
    let state = parse_tmux_state(&listing).unwrap();
    let session = state.sessions[0].to_config();
    assert_eq!(
        session.windows[0].root_split.split(),
        &Split::Pane(config_pane(None, true))
    );
}

#[test]
fn export_goes_by_identifier_and_index() {
    let listing = format!(
        "$2 @9 %9 late /l 0 only 1 {one} 0 1 /l\n\
         $1 @4 %4 early /e 2 third 0 {two} 1 1 /e/b\n\
         $1 @4 %5 early /e 2 third 0 {two} 0 0 /e/a\n\
         $1 @3 %3 early /e 1 second 1 {one} 0 1 /e\n\
         $1 @2 %2 early /e 0 first 0 {one} 0 0 /x\n",
        one = ONE_PANE,
        two = TWO_PANES
    );
    let state = parse_tmux_state(&listing).unwrap();
    let config = state.export(QueryScope::AllSessions).unwrap();
    assert!(config.windows.is_empty());
    assert_eq!(config.selected_session, None);
    let names: Vec<&str> = config.sessions.iter().map(|s| s.name.as_str()).collect();
    assert_eq!(names, vec!["early", "late"]);
    let windows: Vec<Option<&str>> =
        config.sessions[0].windows.iter().map(|w| w.name.as_deref()).collect();
    assert_eq!(windows, vec![Some("first"), Some("second"), Some("third")]);
    let third = config.sessions[0].windows[2].root_split.split();
    assert_eq!(
        third,
        &Split::H {
            left: HSplitPart {
                width: None,
                split: Box::new(Split::Pane(config_pane(Some("a"), false))),
            },
            right: HSplitPart {
                width: Some("50%".to_string()),
                split: Box::new(Split::Pane(config_pane(Some("b"), true))),
            },
        }
    );
    assert_eq!(state.export(QueryScope::CurrentSession), Some(config));
}

#[test]
fn export_of_the_current_window() {
    let listing = format!(
        "$1 @2 %2 s /e 0 first 0 {one} 0 0 /e\n$1 @3 %3 s /e 1 second 1 {one} 0 1 /e/sub\n",
        one = ONE_PANE
    );
    let state = parse_tmux_state(&listing).unwrap();
    assert_eq!(state.active_window().unwrap().name, "second");
    let config = state.export(QueryScope::CurrentWindow).unwrap();
    assert!(config.sessions.is_empty());
    assert_eq!(
        config.windows,
        vec![Window {
            name: Some("second".to_string()),
            cwd: Cwd::none(),
            active: true,
            root_split: Split::Pane(config_pane(Some("/e/sub"), true)).into_root(),
        }]
    );
}

#[test]
fn export_of_the_current_window_needs_an_active_window() {
    let listing = format!("$1 @2 %2 s /e 0 first 0 {one} 0 0 /e\n", one = ONE_PANE);
    let state = parse_tmux_state(&listing).unwrap();
    assert!(state.active_window().is_none());
    assert_eq!(state.export(QueryScope::CurrentWindow), None);
    assert_eq!(TmuxState::new().export(QueryScope::CurrentWindow), None);
    assert_eq!(TmuxState::new().export(QueryScope::AllSessions), Some(Config::empty()));
}

#[test]
fn more_listed_panes_than_the_layout_holds() {
    let listing = format!(
        "$1 @1 %1 s /a 0 w 0 {one} 0 0 /a/x\n$1 @1 %2 s /a 0 w 0 {one} 1 1 /a/y\n",
        one = ONE_PANE
    );
    let state = parse_tmux_state(&listing).unwrap();
    let window = state.sessions[0].windows[0].to_config();
    assert_eq!(window.root_split.split(), &Split::Pane(config_pane(Some("/a/x"), false)));
}

#[test]
fn fewer_listed_panes_than_the_layout_holds() {
    let listing = format!("$1 @1 %1 s /a 0 w 0 {two} 0 1 /a/x\n", two = TWO_PANES);
    let state = parse_tmux_state(&listing).unwrap();
    let window = state.sessions[0].windows[0].into_config_window(&Cwd::from_path("/a"));
    assert_eq!(
        window.root_split.split(),
        &Split::H {
            left: HSplitPart {
                width: None,
                split: Box::new(Split::Pane(config_pane(Some("x"), true))),
            },
            right: HSplitPart {
                width: Some("50%".to_string()),
                split: Box::new(Split::Pane(Pane::default())),
            },
        }
    );
}

#[test]
fn sessions_that_exist_are_taken_out() {
    let listing = format!(
        "$1 @1 %1 b /a 0 w 0 {one} 0 0 /a\n$2 @2 %2 d /a 0 w 0 {one} 0 0 /a\n",
        one = ONE_PANE
    );
    let state = parse_tmux_state(&listing).unwrap();
    let named = |name: &str| Session { name: name.to_string(), cwd: Cwd::none(), windows: Vec::new() };
    let mut sessions = vec![named("a"), named("b"), named("c"), named("d"), named("b"), named("e")];
    remove_existing_sessions(&mut sessions, &state);
    let names: Vec<&str> = sessions.iter().map(|s| s.name.as_str()).collect();
    assert_eq!(names, vec!["a", "c", "e"]);
    let mut none: Vec<Session> = Vec::new();
    remove_existing_sessions(&mut none, &state);
    assert!(none.is_empty());
}

#[test]
fn the_query_asks_for_the_twelve_fields() {
    let argv =
        state_query(TmuxCommandBuilder::new("tmux", Vec::new()), QueryScope::AllSessions).into_command();
    assert_eq!(argv, vec!["tmux", "list-panes", "-F", TMUX_FORMAT, "-a"]);
    assert_eq!(
        TMUX_FORMAT,
        "#{q:session_id} #{q:window_id} #{q:pane_id} #{q:session_name} #{q:session_path} #{q:window_index} #{q:window_name} #{q:window_active} #{q:window_layout} #{q:pane_index} #{q:pane_active} #{q:pane_current_path}"
    );
}

#[test]
fn the_answer_to_the_query() {
    let listing = format!("$1 @1 %1 s /a 0 w 0 {one} 0 0 /a\n", one = ONE_PANE);
    let state = state_from_output(true, Some(0), Some(&listing)).unwrap();
    assert_eq!(state, parse_tmux_state(&listing).unwrap());
    assert_eq!(state_from_output(false, Some(3), Some(&listing)), Err(Error::CommandExitCode(3)));
    assert_eq!(state_from_output(false, None, None), Err(Error::CommandExitCode(1)));
    assert!(matches!(state_from_output(true, Some(0), None), Err(Error::ParseError(_))));
    assert!(matches!(state_from_output(true, Some(0), Some("x")), Err(Error::ParseError(_))));
}

#[test]
fn import_error_messages() {
    assert_eq!(
        Error::CommandIo("no such file".to_string()).message(),
        "error while invoking tmux command: no such file"
    );
    assert_eq!(Error::CommandExitCode(3).message(), "non-successful tmux exit code: 3");
    assert_eq!(Error::CommandExitCode(-1).message(), "non-successful tmux exit code: -1");
    let error = parse_tmux_state("x").unwrap_err();
    assert_eq!(Error::ParseError(error).message(), "parse error: missing word");
}

#[test]
fn a_long_listing_is_read() {
    let mut listing = String::new();
    for session in 0..20 {
        for window in 0..20 {
            for pane in 0..5 {
                listing.push_str(&format!(
                    "${} @{} %{} name{} /home/u/{} {} w{} 0 {} {} 0 /home/u/{}/{}\n",
                    session,
                    session * 100 + window,
                    (session * 100 + window) * 10 + pane,
                    session,
                    session,
                    19 - window,
                    window,
                    ONE_PANE,
                    4 - pane,
                    session,
                    pane
                ));
            }
        }
    }
    let state = parse_tmux_state(&listing).unwrap();
    assert_eq!(state.sessions.len(), 20);
    assert!(state.sessions.iter().all(|s| s.windows.len() == 20));
    assert!(state.sessions.iter().all(|s| s.windows.iter().all(|w| w.panes.len() == 5)));
    let config = state.export(QueryScope::AllSessions).unwrap();
    assert_eq!(config.sessions.len(), 20);
    let first = &config.sessions[0];
    assert_eq!(first.name, "name0");
    assert_eq!(first.windows[0].name.as_deref(), Some("w19"));
    assert_eq!(first.windows[19].name.as_deref(), Some("w0"));
    assert_eq!(
        first.windows[0].root_split.split(),
        &Split::Pane(config_pane(Some("4"), false))
    );
}
