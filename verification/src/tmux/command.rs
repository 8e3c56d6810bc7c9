use vstd::prelude::*;
use vstd::string::StringExecFns;
use crate::config::model::{panes, window_views, session_views};
use crate::config::{Pane, PaneView, Session, SessionView, SideView, Split, SplitView, Window, WindowView};
use crate::cwd::{join, Cwd};
use crate::text::{decimal, decimal_string, opt_text, texts, lemma_texts_push};

verus! {

/// Which panes a query lists.
#[derive(Debug, Clone, Copy, PartialEq, Eq)]
pub enum QueryScope {
    AllSessions,
    CurrentSession,
    CurrentWindow,
}

/// What is done with the selected session once everything is created.
#[derive(Debug, Clone, Copy, PartialEq, Eq)]
pub enum SessionSelectMode {
    Attach,
    Switch,
    Detached,
}

/// On which side of its parent a new pane appears.
///
/// The size given to `split-window` is that of the new pane, so the side
/// that carries a size is the one that is created. Creating the left or
/// top side is the inverted flow.
#[derive(Debug, Clone, Copy, PartialEq, Eq)]
pub enum SplitFlow {
    /// The new pane is the right or bottom one.
    Regular,
    /// The new pane is the left or top one.
    Inverted,
}

#[derive(Debug, Clone, Copy, PartialEq, Eq)]
pub enum Direction {
    Left,
    Right,
    Up,
    Down,
}

#[derive(Debug, Clone, Copy, PartialEq, Eq)]
pub enum Axis {
    Horizontal,
    Vertical,
}

/// The flow of a layout: inverted exactly when its left or top side
/// carries a size.
pub open spec fn flow_of(split: SplitView) -> SplitFlow {
    match split {
        SplitView::Pane(_) => SplitFlow::Regular,
        SplitView::H { left, right } => if left.size is Some {
            SplitFlow::Inverted
        } else {
            SplitFlow::Regular
        },
        SplitView::V { top, bottom } => if top.size is Some {
            SplitFlow::Inverted
        } else {
            SplitFlow::Regular
        },
    }
}

/// The direction in which a flow lays out new panes along an axis.
pub open spec fn flow_direction(flow: SplitFlow, axis: Axis) -> Direction {
    match (flow, axis) {
        (SplitFlow::Regular, Axis::Horizontal) => Direction::Right,
        (SplitFlow::Regular, Axis::Vertical) => Direction::Down,
        (SplitFlow::Inverted, Axis::Horizontal) => Direction::Left,
        (SplitFlow::Inverted, Axis::Vertical) => Direction::Up,
    }
}

pub open spec fn opposite(direction: Direction) -> Direction {
    match direction {
        Direction::Left => Direction::Right,
        Direction::Right => Direction::Left,
        Direction::Up => Direction::Down,
        Direction::Down => Direction::Up,
    }
}

/// The pane on which all the splits of a layout are made: the one reached
/// by going down, at each split, into the side that is not newly created.
pub open spec fn root_pane(split: SplitView) -> PaneView
    decreases split,
{
    match split {
        SplitView::Pane(pane) => pane,
        SplitView::H { left, right } => if left.size is Some {
            root_pane(*right.split)
        } else {
            root_pane(*left.split)
        },
        SplitView::V { top, bottom } => if top.size is Some {
            root_pane(*bottom.split)
        } else {
            root_pane(*top.split)
        },
    }
}

impl SplitFlow {
    pub fn from(split: &Split) -> (flow: SplitFlow)
        ensures
            flow == flow_of(split@),
    {
        match split {
            Split::Pane(_) => SplitFlow::Regular,
            Split::H { left, .. } => {
                if left.width.is_some() {
                    SplitFlow::Inverted
                } else {
                    SplitFlow::Regular
                }
            },
            Split::V { top, .. } => {
                if top.height.is_some() {
                    SplitFlow::Inverted
                } else {
                    SplitFlow::Regular
                }
            },
        }
    }

    pub fn direction(self, axis: Axis) -> (direction: Direction)
        ensures
            direction == flow_direction(self, axis),
    {
        match (self, axis) {
            (SplitFlow::Regular, Axis::Horizontal) => Direction::Right,
            (SplitFlow::Regular, Axis::Vertical) => Direction::Down,
            (SplitFlow::Inverted, Axis::Horizontal) => Direction::Left,
            (SplitFlow::Inverted, Axis::Vertical) => Direction::Up,
        }
    }
}

impl Direction {
    pub fn inverted(self) -> (direction: Direction)
        ensures
            direction == opposite(self),
    {
        match self {
            Direction::Left => Direction::Right,
            Direction::Right => Direction::Left,
            Direction::Up => Direction::Down,
            Direction::Down => Direction::Up,
        }
    }
}

impl Axis {
    /// The axis along which a direction runs.
    pub fn from(direction: Direction) -> (axis: Axis)
        ensures
            axis == match direction {
                Direction::Left | Direction::Right => Axis::Horizontal,
                Direction::Up | Direction::Down => Axis::Vertical,
            },
    {
        match direction {
            Direction::Left | Direction::Right => Axis::Horizontal,
            Direction::Up | Direction::Down => Axis::Vertical,
        }
    }
}

/// Finds the root pane of a layout.
pub fn find_root_pane(split: &Split) -> (pane: &Pane)
    ensures
        pane@ == root_pane(split@),
    decreases split,
{
    match split {
        Split::Pane(pane) => pane,
        Split::H { left, right } => match SplitFlow::from(split) {
            SplitFlow::Regular => find_root_pane(&left.split),
            SplitFlow::Inverted => find_root_pane(&right.split),
        },
        Split::V { top, bottom } => match SplitFlow::from(split) {
            SplitFlow::Regular => find_root_pane(&top.split),
            SplitFlow::Inverted => find_root_pane(&bottom.split),
        },
    }
}

/// How much of `session:window.pane` a target names.
#[derive(Debug, Clone, Copy, PartialEq, Eq)]
pub enum TargetScope {
    Session,
    Window,
    Pane,
}

/// Where a subcommand applies. A part that is left out stands for the
/// current session, window or pane.
#[derive(Debug, Clone, PartialEq, Eq)]
pub struct Target {
    session: Option<String>,
    window: Option<String>,
    pane: Option<String>,
    scope: TargetScope,
}

pub struct TargetView {
    pub session: Option<Seq<char>>,
    pub window: Option<Seq<char>>,
    pub pane: Option<Seq<char>>,
    pub scope: TargetScope,
}

pub open spec fn or_empty(part: Option<Seq<char>>) -> Seq<char> {
    match part {
        Some(s) => s,
        None => Seq::empty(),
    }
}

/// `session:`
pub open spec fn session_target(session: Option<Seq<char>>) -> Seq<char> {
    or_empty(session) + seq![':']
}

/// `session:window`
pub open spec fn window_target(session: Option<Seq<char>>, window: Option<Seq<char>>) -> Seq<char> {
    or_empty(session) + seq![':'] + or_empty(window)
}

/// `session:window.pane`
pub open spec fn pane_target(
    session: Option<Seq<char>>,
    window: Option<Seq<char>>,
    pane: Option<Seq<char>>,
) -> Seq<char> {
    or_empty(session) + seq![':'] + or_empty(window) + seq!['.'] + or_empty(pane)
}

/// How a target is written on the command line.
pub open spec fn target_text(target: TargetView) -> Seq<char> {
    match target.scope {
        TargetScope::Session => session_target(target.session),
        TargetScope::Window => window_target(target.session, target.window),
        TargetScope::Pane => pane_target(target.session, target.window, target.pane),
    }
}

impl View for Target {
    type V = TargetView;

    closed spec fn view(&self) -> TargetView {
        TargetView {
            session: opt_text(self.session),
            window: opt_text(self.window),
            pane: opt_text(self.pane),
            scope: self.scope,
        }
    }
}

impl Target {
    pub fn session(session: &str) -> (target: Target)
        ensures
            target@ == (TargetView {
                session: Some(session@),
                window: None,
                pane: None,
                scope: TargetScope::Session,
            }),
    {
        Target { session: Some(session.to_owned()), window: None, pane: None, scope: TargetScope::Session }
    }

    pub fn window(self, window: &str) -> (target: Target)
        ensures
            target@ == (TargetView {
                session: self@.session,
                window: Some(window@),
                pane: None,
                scope: TargetScope::Window,
            }),
    {
        Target { session: self.session, window: Some(window.to_owned()), pane: None, scope: TargetScope::Window }
    }

    pub fn current_window(self) -> (target: Target)
        ensures
            target@ == (TargetView {
                session: self@.session,
                window: None,
                pane: None,
                scope: TargetScope::Window,
            }),
    {
        Target { session: self.session, window: None, pane: None, scope: TargetScope::Window }
    }

    pub fn pane(self, pane: &str) -> (target: Target)
        ensures
            target@ == (TargetView {
                session: self@.session,
                window: self@.window,
                pane: Some(pane@),
                scope: TargetScope::Pane,
            }),
    {
        Target { session: self.session, window: self.window, pane: Some(pane.to_owned()), scope: TargetScope::Pane }
    }

    /// The target as it is written on the command line.
    pub fn text(&self) -> (text: String)
        ensures
            text@ == target_text(self@),
    {
        proof {
            reveal_strlit(":");
            reveal_strlit(".");
        }
        let mut text = String::new();
        match &self.session {
            Some(s) => text.append(s.as_str()),
            None => {},
        }
        text.append(":");
        match self.scope {
            TargetScope::Session => {
                assert(text@ =~= target_text(self@));
            },
            TargetScope::Window => {
                match &self.window {
                    Some(w) => text.append(w.as_str()),
                    None => {},
                }
                assert(text@ =~= target_text(self@));
            },
            TargetScope::Pane => {
                match &self.window {
                    Some(w) => text.append(w.as_str()),
                    None => {},
                }
                text.append(".");
                match &self.pane {
                    Some(p) => text.append(p.as_str()),
                    None => {},
                }
                assert(text@ =~= target_text(self@));
            },
        }
        text
    }
}

impl Default for Target {
    fn default() -> (target: Target)
        ensures
            target@ == (TargetView {
                session: None,
                window: None,
                pane: None,
                scope: TargetScope::Session,
            }),
    {
        Target { session: None, window: None, pane: None, scope: TargetScope::Session }
    }
}


/// A flag with its value, or nothing where the value is missing.
pub open spec fn flag(name: Seq<char>, value: Option<Seq<char>>) -> Seq<Seq<char>> {
    match value {
        Some(v) => seq![name, v],
        None => Seq::empty(),
    }
}

/// A single argument, or nothing where it is missing.
pub open spec fn word(value: Option<Seq<char>>) -> Seq<Seq<char>> {
    match value {
        Some(v) => seq![v],
        None => Seq::empty(),
    }
}

pub open spec fn axis_flag(axis: Axis) -> Seq<char> {
    match axis {
        Axis::Horizontal => "-h"@,
        Axis::Vertical => "-v"@,
    }
}

pub open spec fn flow_flag(flow: SplitFlow) -> Seq<Seq<char>> {
    match flow {
        SplitFlow::Regular => Seq::empty(),
        SplitFlow::Inverted => seq!["-b"@],
    }
}

pub open spec fn direction_flag(direction: Direction) -> Seq<char> {
    match direction {
        Direction::Left => "-L"@,
        Direction::Right => "-R"@,
        Direction::Up => "-U"@,
        Direction::Down => "-D"@,
    }
}

pub open spec fn next_prev_flag(direction: Direction) -> Seq<char> {
    match direction {
        Direction::Left | Direction::Up => "-p"@,
        Direction::Right | Direction::Down => "-n"@,
    }
}

pub open spec fn scope_flag(scope: QueryScope) -> Seq<Seq<char>> {
    match scope {
        QueryScope::AllSessions => seq!["-a"@],
        QueryScope::CurrentSession => seq!["-s"@],
        QueryScope::CurrentWindow => Seq::empty(),
    }
}

/// `split-window -t <session>: {-h|-v} [-b] [-c <cwd>] [-l <size>] [<command>]`
pub open spec fn split_window(
    session: Option<Seq<char>>,
    axis: Axis,
    flow: SplitFlow,
    cwd: Option<Seq<char>>,
    size: Option<Seq<char>>,
    shell_command: Option<Seq<char>>,
) -> Seq<Seq<char>> {
    seq!["split-window"@, "-t"@, session_target(session), axis_flag(axis)] + flow_flag(flow) + flag(
        "-c"@,
        cwd,
    ) + flag("-l"@, size) + word(shell_command)
}

/// `select-pane -t <session>: {-L|-R|-U|-D}`
pub open spec fn select_pane_at(session: Option<Seq<char>>, direction: Direction) -> Seq<Seq<char>> {
    seq!["select-pane"@, "-t"@, session_target(session), direction_flag(direction)]
}

/// `select-window -t <session>: {-p|-n}`
pub open spec fn select_window_at(session: Option<Seq<char>>, direction: Direction) -> Seq<
    Seq<char>,
> {
    seq!["select-window"@, "-t"@, session_target(session), next_prev_flag(direction)]
}

/// `send-keys -t <session>: <key> ...`
pub open spec fn send_keys(session: Option<Seq<char>>, keys: Seq<Seq<char>>) -> Seq<Seq<char>> {
    seq!["send-keys"@, "-t"@, session_target(session)] + keys
}

/// A subcommand that takes a target and nothing else.
pub open spec fn targeted(name: Seq<char>, target: Seq<char>) -> Seq<Seq<char>> {
    seq![name, "-t"@, target]
}

/// The subcommands that lay out `split` inside the pane that the cursor
/// is on, which is already the root pane of `split`.
///
/// At a split, the side that carries a size (or else the right or bottom
/// one) is created by `split-window` and laid out; then the cursor goes
/// back to the other side, which is laid out in what is left of the pane.
pub open spec fn split_commands(
    split: SplitView,
    session: Option<Seq<char>>,
    cwd: Option<Seq<char>>,
) -> Seq<Seq<Seq<char>>>
    decreases split,
{
    match split {
        SplitView::Pane(pane) => match pane.send_keys {
            Some(keys) => seq![send_keys(session, keys)],
            None => Seq::empty(),
        },
        SplitView::H { left, right } => {
            let flow = flow_of(split);
            let (parent, child) = if flow == SplitFlow::Regular {
                (left, right)
            } else {
                (right, left)
            };
            let first = root_pane(*child.split);
            seq![
                split_window(
                    session,
                    Axis::Horizontal,
                    flow,
                    join(cwd, first.cwd),
                    child.size,
                    first.shell_command,
                ),
            ] + split_commands(*child.split, session, cwd) + seq![
                select_pane_at(session, opposite(flow_direction(flow, Axis::Horizontal))),
            ] + split_commands(*parent.split, session, cwd)
        },
        SplitView::V { top, bottom } => {
            let flow = flow_of(split);
            let (parent, child) = if flow == SplitFlow::Regular {
                (top, bottom)
            } else {
                (bottom, top)
            };
            let first = root_pane(*child.split);
            seq![
                split_window(
                    session,
                    Axis::Vertical,
                    flow,
                    join(cwd, first.cwd),
                    child.size,
                    first.shell_command,
                ),
            ] + split_commands(*child.split, session, cwd) + seq![
                select_pane_at(session, opposite(flow_direction(flow, Axis::Vertical))),
            ] + split_commands(*parent.split, session, cwd)
        },
    }
}

/// The subcommands that lay out a fresh window, which holds one pane that
/// nothing was asked of: the root pane is split off it, the first pane is
/// killed, and the layout is made on the root pane.
pub open spec fn root_split_commands(
    split: SplitView,
    session: Option<Seq<char>>,
    cwd: Option<Seq<char>>,
) -> Seq<Seq<Seq<char>>> {
    let first = root_pane(split);
    seq![
        split_window(
            session,
            Axis::Horizontal,
            SplitFlow::Regular,
            join(cwd, first.cwd),
            None,
            first.shell_command,
        ),
        targeted("kill-pane"@, pane_target(session, None, Some("0"@))),
    ] + split_commands(split, session, cwd)
}

/// The number of active panes among `ps`.
pub open spec fn active_count(ps: Seq<PaneView>) -> nat
    decreases ps.len(),
{
    if ps.len() == 0 {
        0
    } else {
        active_count(ps.drop_last()) + if ps.last().active {
            1nat
        } else {
            0nat
        }
    }
}

/// The index of the first active pane among `ps`.
pub open spec fn first_active(ps: Seq<PaneView>) -> Option<nat>
    decreases ps.len(),
{
    if ps.len() == 0 {
        None
    } else {
        match first_active(ps.drop_last()) {
            Some(i) => Some(i),
            None => if ps.last().active {
                Some((ps.len() - 1) as nat)
            } else {
                None
            },
        }
    }
}

/// The subcommand that selects the active pane of a layout: the first of
/// its panes that is marked active, if any is.
pub open spec fn active_pane_commands(split: SplitView, session: Option<Seq<char>>) -> Seq<
    Seq<Seq<char>>,
> {
    match first_active(panes(split)) {
        Some(i) => seq![targeted("select-pane"@, pane_target(session, None, Some(decimal(i))))],
        None => Seq::empty(),
    }
}

/// The name by which a warning calls the session.
pub open spec fn session_label(session: Option<Seq<char>>) -> Seq<char> {
    match session {
        Some(name) => name,
        None => "(current)"@,
    }
}

/// The name by which a warning calls a window.
pub open spec fn window_label(name: Option<Seq<char>>) -> Seq<char> {
    match name {
        Some(name) => name,
        None => "(unnamed)"@,
    }
}

pub open spec fn active_windows_warning(session: Option<Seq<char>>) -> Seq<char> {
    "Multiple active windows in session '"@ + session_label(session) + "'"@
}

pub open spec fn active_panes_warning(window: Option<Seq<char>>, session: Option<Seq<char>>) -> Seq<
    char,
> {
    "Multiple active panes in window '"@ + window_label(window) + "' of session '"@ + session_label(
        session,
    ) + "'"@
}

/// The `new-window` subcommand for `window`: with `before`, the window
/// is put before the window of that index; without, it comes last.
pub open spec fn new_window_command(
    window: WindowView,
    session: Option<Seq<char>>,
    cwd: Option<Seq<char>>,
    before: Option<Seq<char>>,
) -> Seq<Seq<char>> {
    seq!["new-window"@] + flag("-n"@, window.name) + flag("-c"@, cwd) + match before {
        Some(index) => seq!["-b"@, "-t"@, window_target(session, Some(index))],
        None => seq!["-t"@, session_target(session)],
    }
}

/// All the subcommands that create `window` and lay it out.
pub open spec fn window_commands(
    window: WindowView,
    session: Option<Seq<char>>,
    parent_cwd: Option<Seq<char>>,
    before: Option<Seq<char>>,
) -> Seq<Seq<Seq<char>>> {
    let cwd = join(parent_cwd, window.cwd);
    seq![new_window_command(window, session, cwd, before)] + root_split_commands(
        window.root_split,
        session,
        cwd,
    ) + active_pane_commands(window.root_split, session)
}

/// The warnings that creating `window` gives rise to.
pub open spec fn window_warnings(b: BuilderView, window: WindowView) -> Seq<Seq<char>> {
    (if window.active && b.active_window_index is Some {
        seq![active_windows_warning(b.session)]
    } else {
        Seq::empty()
    }) + (if active_count(panes(window.root_split)) > 1 {
        seq![active_panes_warning(window.name, b.session)]
    } else {
        Seq::empty()
    })
}

/// The arguments that one subcommand adds: it is set off from the one
/// before it by `;`.
pub open spec fn subcommand_args(first: bool, command: Seq<Seq<char>>) -> Seq<Seq<char>> {
    if first {
        command
    } else {
        seq![";"@] + command
    }
}

/// The arguments that a run of subcommands adds to a command line on
/// which a subcommand already stands unless `first` holds.
pub open spec fn stream(first: bool, commands: Seq<Seq<Seq<char>>>) -> Seq<Seq<char>>
    decreases commands.len(),
{
    if commands.len() == 0 {
        Seq::empty()
    } else {
        stream(first, commands.drop_last()) + subcommand_args(
            first && commands.len() == 1,
            commands.last(),
        )
    }
}

/// What a builder holds.
pub struct BuilderView {
    /// The command line so far: the program, its own arguments, then the
    /// subcommands.
    pub argv: Seq<Seq<char>>,
    /// Whether no subcommand stands on the command line yet.
    pub first_command: bool,
    /// The session that subcommands are aimed at; `None` is the current one.
    pub session: Option<Seq<char>>,
    /// How many windows were created in this session.
    pub window_count: nat,
    /// The index of the first window that was marked active.
    pub active_window_index: Option<nat>,
    /// The warnings given so far.
    pub warnings: Seq<Seq<char>>,
}

/// The builder for the program `tmux_path` with the arguments
/// `tmux_args`, before anything is added.
pub open spec fn fresh(tmux_path: Seq<char>, tmux_args: Seq<Seq<char>>) -> BuilderView {
    BuilderView {
        argv: seq![tmux_path] + tmux_args,
        first_command: true,
        session: None,
        window_count: 0,
        active_window_index: None,
        warnings: Seq::empty(),
    }
}

/// Whether the window that is marked active is one of those created.
pub open spec fn coherent(b: BuilderView) -> bool {
    match b.active_window_index {
        Some(index) => index < b.window_count,
        None => true,
    }
}

/// The builder after it has added `commands`.
pub open spec fn emit(b: BuilderView, commands: Seq<Seq<Seq<char>>>) -> BuilderView {
    BuilderView {
        argv: b.argv + stream(b.first_command, commands),
        first_command: b.first_command && commands.len() == 0,
        ..b
    }
}

/// The builder after `new_window`.
pub open spec fn with_window(
    b: BuilderView,
    window: WindowView,
    parent_cwd: Option<Seq<char>>,
    before: Option<Seq<char>>,
) -> BuilderView {
    BuilderView {
        window_count: b.window_count + 1,
        active_window_index: if window.active && b.active_window_index is None {
            Some(b.window_count)
        } else {
            b.active_window_index
        },
        warnings: b.warnings + window_warnings(b, window),
        ..emit(b, window_commands(window, b.session, parent_cwd, before))
    }
}

/// The builder after one `new_window` for each of `windows`, in order.
pub open spec fn with_windows(
    b: BuilderView,
    windows: Seq<WindowView>,
    parent_cwd: Option<Seq<char>>,
) -> BuilderView
    decreases windows.len(),
{
    if windows.len() == 0 {
        b
    } else {
        with_window(with_windows(b, windows.drop_last(), parent_cwd), windows.last(), parent_cwd, None)
    }
}

/// `n` times the same subcommand.
pub open spec fn repeated(command: Seq<Seq<char>>, n: nat) -> Seq<Seq<Seq<char>>> {
    Seq::new(n, |i: int| command)
}

/// The subcommands that go to the window that was marked active: by its
/// index where the session is known, else by stepping back from the
/// window created last.
pub open spec fn active_window_commands(b: BuilderView) -> Seq<Seq<Seq<char>>> {
    match b.active_window_index {
        None => Seq::empty(),
        Some(index) => match b.session {
            Some(name) => seq![
                targeted("select-window"@, window_target(Some(name), Some(decimal(index)))),
            ],
            None => repeated(
                select_window_at(None, Direction::Left),
                if index < b.window_count {
                    (b.window_count - index - 1) as nat
                } else {
                    0
                },
            ),
        },
    }
}

/// The builder after `new_windows`.
pub open spec fn with_new_windows(
    b: BuilderView,
    windows: Seq<WindowView>,
    parent_cwd: Option<Seq<char>>,
) -> BuilderView {
    let created = with_windows(b, windows, parent_cwd);
    emit(created, active_window_commands(created))
}

/// The builder after `new_session`: a session without windows changes
/// nothing.
pub open spec fn with_session(b: BuilderView, session: SessionView) -> BuilderView {
    if session.windows.len() == 0 {
        b
    } else {
        let name = Some(session.name);
        let started = BuilderView {
            session: name,
            window_count: 0,
            active_window_index: None,
            ..emit(
                b,
                seq![
                    seq!["new-session"@] + flag("-s"@, name) + flag("-c"@, session.cwd) + seq![
                        "-d"@,
                    ],
                ],
            )
        };
        let first = with_window(started, session.windows[0], session.cwd, Some("0"@));
        let cleared = emit(first, seq![targeted("kill-window"@, window_target(name, Some("1"@)))]);
        with_new_windows(cleared, session.windows.subrange(1, session.windows.len() as int), session.cwd)
    }
}

/// The builder after one `new_session` for each of `sessions`, in order.
pub open spec fn with_sessions(b: BuilderView, sessions: Seq<SessionView>) -> BuilderView
    decreases sessions.len(),
{
    if sessions.len() == 0 {
        b
    } else {
        with_session(with_sessions(b, sessions.drop_last()), sessions.last())
    }
}

/// The subcommand that goes to the selected session.
pub open spec fn select_session_commands(name: Option<Seq<char>>, mode: SessionSelectMode) -> Seq<
    Seq<Seq<char>>,
> {
    match mode {
        SessionSelectMode::Detached => Seq::empty(),
        SessionSelectMode::Switch => seq![targeted("switch-client"@, session_target(name))],
        SessionSelectMode::Attach => seq![targeted("attach-session"@, session_target(name))],
    }
}

/// `list-panes -F <format> [-a|-s]`
pub open spec fn query_panes_command(format: Seq<char>, scope: QueryScope) -> Seq<Seq<char>> {
    seq!["list-panes"@, "-F"@, format] + scope_flag(scope)
}

/// Whether the panes of a layout can be counted in 64 bits.
pub open spec fn countable(split: SplitView) -> bool {
    panes(split).len() <= u64::MAX
}

pub open spec fn all_countable(windows: Seq<WindowView>) -> bool {
    forall|i: int| 0 <= i < windows.len() ==> countable(#[trigger] windows[i].root_split)
}

pub open spec fn opt_str(o: Option<&str>) -> Option<Seq<char>> {
    match o {
        Some(s) => Some(s@),
        None => None,
    }
}

pub proof fn lemma_stream_one(first: bool, command: Seq<Seq<char>>)
    ensures
        stream(first, seq![command]) == subcommand_args(first, command),
{
    reveal_with_fuel(stream, 2);
    assert(seq![command].drop_last() =~= Seq::<Seq<Seq<char>>>::empty());
    assert(stream(first, seq![command]) =~= subcommand_args(first, command));
}

pub proof fn lemma_stream_concat(first: bool, a: Seq<Seq<Seq<char>>>, b: Seq<Seq<Seq<char>>>)
    ensures
        stream(first, a + b) == stream(first, a) + stream(first && a.len() == 0, b),
    decreases b.len(),
{
    if b.len() == 0 {
        assert(a + b =~= a);
        assert(stream(first, a) + stream(first && a.len() == 0, b) =~= stream(first, a));
    } else {
        lemma_stream_concat(first, a, b.drop_last());
        assert((a + b).drop_last() =~= a + b.drop_last());
        assert((a + b).last() == b.last());
        assert(stream(first, a + b) =~= stream(first, a) + stream(first && a.len() == 0, b));
    }
}

/// Adding two runs of subcommands one after the other adds their
/// concatenation.
pub proof fn lemma_emit_emit(b: BuilderView, c1: Seq<Seq<Seq<char>>>, c2: Seq<Seq<Seq<char>>>)
    ensures
        emit(emit(b, c1), c2) == emit(b, c1 + c2),
{
    lemma_stream_concat(b.first_command, c1, c2);
    assert(b.argv + stream(b.first_command, c1) + stream(b.first_command && c1.len() == 0, c2)
        =~= b.argv + stream(b.first_command, c1 + c2));
}

pub proof fn lemma_emit_nothing(b: BuilderView)
    ensures
        emit(b, Seq::empty()) == b,
{
    assert(b.argv + stream(b.first_command, Seq::empty()) =~= b.argv);
}

/// Assembles the command line that makes the multiplexer create sessions,
/// windows and panes.
#[derive(Debug)]
pub struct TmuxCommandBuilder {
    argv: Vec<String>,
    first_command: bool,
    current_session_name: Option<String>,
    window_count: u64,
    active_window_index: Option<u64>,
    warnings: Vec<String>,
}

impl View for TmuxCommandBuilder {
    type V = BuilderView;

    closed spec fn view(&self) -> BuilderView {
        BuilderView {
            argv: texts(self.argv@),
            first_command: self.first_command,
            session: opt_text(self.current_session_name),
            window_count: self.window_count as nat,
            active_window_index: match self.active_window_index {
                Some(i) => Some(i as nat),
                None => None,
            },
            warnings: texts(self.warnings@),
        }
    }
}

impl TmuxCommandBuilder {
    /// A builder for the program `tmux_path`, with `tmux_args` as the
    /// program's own arguments.
    pub fn new(tmux_path: &str, tmux_args: Vec<String>) -> (builder: Self)
        ensures
            builder@ == fresh(tmux_path@, texts(tmux_args@)),
    {
        let mut argv: Vec<String> = Vec::new();
        argv.push(tmux_path.to_owned());
        let mut tmux_args = tmux_args;
        let ghost args = tmux_args@;
        argv.append(&mut tmux_args);
        let builder = TmuxCommandBuilder {
            argv,
            first_command: true,
            current_session_name: None,
            window_count: 0,
            active_window_index: None,
            warnings: Vec::new(),
        };
        proof {
            assert(texts(builder.argv@) =~= seq![tmux_path@] + texts(args));
            assert(texts(builder.warnings@) =~= Seq::<Seq<char>>::empty());
        }
        builder
    }

    /// The command line: the program first, then its arguments.
    pub fn into_command(self) -> (argv: Vec<String>)
        ensures
            texts(argv@) == self@.argv,
    {
        self.argv
    }

    /// The warnings given so far, oldest first.
    pub fn warnings(&self) -> (warnings: &Vec<String>)
        ensures
            texts(warnings@) == self@.warnings,
    {
        &self.warnings
    }

    fn push(&mut self, arg: &str)
        ensures
            final(self)@ == (BuilderView { argv: old(self)@.argv.push(arg@), ..old(self)@ }),
    {
        let owned = arg.to_owned();
        proof {
            lemma_texts_push(self.argv@, owned);
        }
        self.argv.push(owned);
    }

    fn push_flag_arg(&mut self, name: &str, arg: Option<&str>)
        ensures
            final(self)@ == (BuilderView {
                argv: old(self)@.argv + flag(name@, opt_str(arg)),
                ..old(self)@
            }),
    {
        match arg {
            Some(arg) => {
                self.push(name);
                self.push(arg);
                assert(final(self)@.argv =~= old(self)@.argv + flag(name@, opt_str(Some(arg))));
            },
            None => {
                assert(final(self)@.argv =~= old(self)@.argv + flag(name@, opt_str(arg)));
            },
        }
    }

    fn push_arg(&mut self, arg: Option<&str>)
        ensures
            final(self)@ == (BuilderView {
                argv: old(self)@.argv + word(opt_str(arg)),
                ..old(self)@
            }),
    {
        match arg {
            Some(arg) => {
                self.push(arg);
                assert(final(self)@.argv =~= old(self)@.argv + word(opt_str(Some(arg))));
            },
            None => {
                assert(final(self)@.argv =~= old(self)@.argv + word(opt_str(arg)));
            },
        }
    }

    fn push_new_command(&mut self, command: &str)
        ensures
            final(self)@ == (BuilderView {
                argv: old(self)@.argv + subcommand_args(old(self)@.first_command, seq![command@]),
                first_command: false,
                ..old(self)@
            }),
    {
        if self.first_command {
            self.first_command = false;
        } else {
            self.push(";");
        }
        self.push(command);
        assert(final(self)@.argv =~= old(self)@.argv + subcommand_args(
            old(self)@.first_command,
            seq![command@],
        ));
    }

    /// The text of the target that names the session being built.
    fn session_target(&self) -> (text: String)
        ensures
            text@ == session_target(self@.session),
    {
        proof {
            reveal_strlit(":");
        }
        let mut text = String::new();
        match &self.current_session_name {
            Some(name) => text.append(name.as_str()),
            None => {},
        }
        text.append(":");
        assert(text@ =~= session_target(self@.session));
        text
    }

    /// The text of a target in the session being built.
    fn target_in_session(&self, window: Option<&str>, pane: Option<&str>) -> (text: String)
        ensures
            pane is None ==> text@ == window_target(self@.session, opt_str(window)),
            pane is Some ==> text@ == pane_target(self@.session, opt_str(window), opt_str(pane)),
    {
        let session = match &self.current_session_name {
            Some(name) => Target::session(name.as_str()),
            None => Target::default(),
        };
        let in_window = match window {
            Some(w) => session.window(w),
            None => session.current_window(),
        };
        match pane {
            Some(p) => in_window.pane(p).text(),
            None => in_window.text(),
        }
    }

    fn push_target_arg(&mut self, target: &str)
        ensures
            final(self)@ == (BuilderView {
                argv: old(self)@.argv + seq!["-t"@, target@],
                ..old(self)@
            }),
    {
        self.push("-t");
        self.push(target);
        assert(final(self)@.argv =~= old(self)@.argv + seq!["-t"@, target@]);
    }

    fn push_axis_arg(&mut self, axis: Axis)
        ensures
            final(self)@ == (BuilderView {
                argv: old(self)@.argv.push(axis_flag(axis)),
                ..old(self)@
            }),
    {
        match axis {
            Axis::Horizontal => self.push("-h"),
            Axis::Vertical => self.push("-v"),
        }
    }

    fn push_direction_arg(&mut self, direction: Direction)
        ensures
            final(self)@ == (BuilderView {
                argv: old(self)@.argv.push(direction_flag(direction)),
                ..old(self)@
            }),
    {
        match direction {
            Direction::Left => self.push("-L"),
            Direction::Right => self.push("-R"),
            Direction::Up => self.push("-U"),
            Direction::Down => self.push("-D"),
        }
    }

    fn push_next_prev_arg(&mut self, direction: Direction)
        ensures
            final(self)@ == (BuilderView {
                argv: old(self)@.argv.push(next_prev_flag(direction)),
                ..old(self)@
            }),
    {
        match direction {
            Direction::Left => self.push("-p"),
            Direction::Right => self.push("-n"),
            Direction::Up => self.push("-p"),
            Direction::Down => self.push("-n"),
        }
    }

    fn push_flow_arg(&mut self, flow: SplitFlow)
        ensures
            final(self)@ == (BuilderView {
                argv: old(self)@.argv + flow_flag(flow),
                ..old(self)@
            }),
    {
        match flow {
            SplitFlow::Regular => {
                assert(final(self)@.argv =~= old(self)@.argv + flow_flag(flow));
            },
            SplitFlow::Inverted => {
                self.push("-b");
                assert(final(self)@.argv =~= old(self)@.argv + flow_flag(flow));
            },
        }
    }

    fn push_query_scope_arg(&mut self, scope: QueryScope)
        ensures
            final(self)@ == (BuilderView {
                argv: old(self)@.argv + scope_flag(scope),
                ..old(self)@
            }),
    {
        match scope {
            QueryScope::AllSessions => self.push("-a"),
            QueryScope::CurrentSession => self.push("-s"),
            QueryScope::CurrentWindow => {},
        }
        assert(final(self)@.argv =~= old(self)@.argv + scope_flag(scope));
    }

    fn push_cwd_arg(&mut self, cwd: &Cwd)
        ensures
            final(self)@ == (BuilderView {
                argv: old(self)@.argv + flag("-c"@, cwd@),
                ..old(self)@
            }),
    {
        let path = cwd.to_path();
        self.push_flag_arg("-c", path);
    }

    fn split_pane(
        &mut self,
        axis: Axis,
        flow: SplitFlow,
        cwd: &Cwd,
        shell_command: Option<&str>,
        size: Option<&str>,
    )
        ensures
            final(self)@ == emit(
                old(self)@,
                seq![
                    split_window(
                        old(self)@.session,
                        axis,
                        flow,
                        cwd@,
                        opt_str(size),
                        opt_str(shell_command),
                    ),
                ],
            ),
    {
        let target = self.session_target();
        self.push_new_command("split-window");
        self.push_target_arg(target.as_str());
        self.push_axis_arg(axis);
        self.push_flow_arg(flow);
        self.push_cwd_arg(cwd);
        self.push_flag_arg("-l", size);
        self.push_arg(shell_command);
        proof {
            let command = split_window(
                old(self)@.session,
                axis,
                flow,
                cwd@,
                opt_str(size),
                opt_str(shell_command),
            );
            assert(final(self)@.argv =~= old(self)@.argv + subcommand_args(
                old(self)@.first_command,
                command,
            ));
            lemma_emit_one(old(self)@, command, final(self)@);
        }
    }

    fn select_pane_at(&mut self, direction: Direction)
        ensures
            final(self)@ == emit(old(self)@, seq![select_pane_at(old(self)@.session, direction)]),
    {
        let target = self.session_target();
        self.push_new_command("select-pane");
        self.push_target_arg(target.as_str());
        self.push_direction_arg(direction);
        proof {
            let command = select_pane_at(old(self)@.session, direction);
            assert(final(self)@.argv =~= old(self)@.argv + subcommand_args(
                old(self)@.first_command,
                command,
            ));
            lemma_emit_one(old(self)@, command, final(self)@);
        }
    }

    fn select_window_at(&mut self, direction: Direction)
        ensures
            final(self)@ == emit(old(self)@, seq![select_window_at(old(self)@.session, direction)]),
    {
        let target = self.session_target();
        self.push_new_command("select-window");
        self.push_target_arg(target.as_str());
        self.push_next_prev_arg(direction);
        proof {
            let command = select_window_at(old(self)@.session, direction);
            assert(final(self)@.argv =~= old(self)@.argv + subcommand_args(
                old(self)@.first_command,
                command,
            ));
            lemma_emit_one(old(self)@, command, final(self)@);
        }
    }

    /// Adds the subcommand `name -t target`.
    fn push_targeted(&mut self, name: &str, target: &str)
        ensures
            final(self)@ == emit(old(self)@, seq![targeted(name@, target@)]),
    {
        self.push_new_command(name);
        self.push_target_arg(target);
        proof {
            let command = targeted(name@, target@);
            assert(final(self)@.argv =~= old(self)@.argv + subcommand_args(
                old(self)@.first_command,
                command,
            ));
            lemma_emit_one(old(self)@, command, final(self)@);
        }
    }

    fn send_keys(&mut self, keys: &Vec<String>)
        ensures
            final(self)@ == emit(old(self)@, seq![send_keys(old(self)@.session, texts(keys@))]),
    {
        let target = self.session_target();
        self.push_new_command("send-keys");
        self.push_target_arg(target.as_str());
        let ghost head = self@;
        let mut i: usize = 0;
        while i < keys.len()
            invariant
                i <= keys.len(),
                self@ == (BuilderView { argv: head.argv + texts(keys@).take(i as int), ..head }),
            decreases keys.len() - i,
        {
            self.push(keys[i].as_str());
            assert(head.argv + texts(keys@).take(i + 1) =~= (head.argv + texts(keys@).take(
                i as int,
            )).push(keys@[i as int]@));
            i += 1;
        }
        proof {
            let command = send_keys(old(self)@.session, texts(keys@));
            assert(texts(keys@).take(keys.len() as int) =~= texts(keys@));
            assert(final(self)@.argv =~= old(self)@.argv + subcommand_args(
                old(self)@.first_command,
                command,
            ));
            lemma_emit_one(old(self)@, command, final(self)@);
        }
    }

    fn apply_split(&mut self, split: &Split, parent_cwd: &Cwd)
        ensures
            final(self)@ == emit(
                old(self)@,
                split_commands(split@, old(self)@.session, parent_cwd@),
            ),
        decreases split,
    {
        let flow = SplitFlow::from(split);
        let ghost session = self@.session;
        match split {
            Split::Pane(pane) => {
                match &pane.send_keys {
                    Some(keys) => {
                        self.send_keys(keys);
                    },
                    None => {
                        proof {
                            lemma_emit_nothing(self@);
                        }
                    },
                }
            },
            Split::H { left, right } => {
                let (parent, child) = match flow {
                    SplitFlow::Regular => (left, right),
                    SplitFlow::Inverted => (right, left),
                };
                let child_pane = find_root_pane(&child.split);
                let child_pane_cwd = parent_cwd.joined(&child_pane.cwd);
                self.split_pane(
                    Axis::Horizontal,
                    flow,
                    &child_pane_cwd,
                    as_str_opt(&child_pane.shell_command),
                    as_str_opt(&child.width),
                );
                let ghost c1 = seq![
                    split_window(
                        session,
                        Axis::Horizontal,
                        flow,
                        child_pane_cwd@,
                        opt_text(child.width),
                        opt_text(child_pane.shell_command),
                    ),
                ];
                self.apply_split(&child.split, parent_cwd);
                let ghost c2 = split_commands(child.split@, session, parent_cwd@);
                self.select_pane_at(flow.direction(Axis::Horizontal).inverted());
                let ghost c3 = seq![
                    select_pane_at(session, opposite(flow_direction(flow, Axis::Horizontal))),
                ];
                self.apply_split(&parent.split, parent_cwd);
                let ghost c4 = split_commands(parent.split@, session, parent_cwd@);
                proof {
                    lemma_emit_emit(old(self)@, c1, c2);
                    lemma_emit_emit(old(self)@, c1 + c2, c3);
                    lemma_emit_emit(old(self)@, c1 + c2 + c3, c4);
                    assert(split_commands(split@, session, parent_cwd@) == c1 + c2 + c3 + c4);
                }
            },
            Split::V { top, bottom } => {
                let (parent, child) = match flow {
                    SplitFlow::Regular => (top, bottom),
                    SplitFlow::Inverted => (bottom, top),
                };
                let child_pane = find_root_pane(&child.split);
                let child_pane_cwd = parent_cwd.joined(&child_pane.cwd);
                self.split_pane(
                    Axis::Vertical,
                    flow,
                    &child_pane_cwd,
                    as_str_opt(&child_pane.shell_command),
                    as_str_opt(&child.height),
                );
                let ghost c1 = seq![
                    split_window(
                        session,
                        Axis::Vertical,
                        flow,
                        child_pane_cwd@,
                        opt_text(child.height),
                        opt_text(child_pane.shell_command),
                    ),
                ];
                self.apply_split(&child.split, parent_cwd);
                let ghost c2 = split_commands(child.split@, session, parent_cwd@);
                self.select_pane_at(flow.direction(Axis::Vertical).inverted());
                let ghost c3 = seq![
                    select_pane_at(session, opposite(flow_direction(flow, Axis::Vertical))),
                ];
                self.apply_split(&parent.split, parent_cwd);
                let ghost c4 = split_commands(parent.split@, session, parent_cwd@);
                proof {
                    lemma_emit_emit(old(self)@, c1, c2);
                    lemma_emit_emit(old(self)@, c1 + c2, c3);
                    lemma_emit_emit(old(self)@, c1 + c2 + c3, c4);
                    assert(split_commands(split@, session, parent_cwd@) == c1 + c2 + c3 + c4);
                }
            },
        }
    }

    fn apply_root_split(&mut self, split: &Split, parent_cwd: &Cwd)
        ensures
            final(self)@ == emit(
                old(self)@,
                root_split_commands(split@, old(self)@.session, parent_cwd@),
            ),
    {
        let ghost session = self@.session;
        let first_pane = find_root_pane(split);
        let first_pane_cwd = parent_cwd.joined(&first_pane.cwd);
        self.split_pane(
            Axis::Horizontal,
            SplitFlow::Regular,
            &first_pane_cwd,
            as_str_opt(&first_pane.shell_command),
            None,
        );
        let first_pane_target = self.target_in_session(None, Some("0"));
        self.push_targeted("kill-pane", first_pane_target.as_str());
        self.apply_split(split, parent_cwd);
        proof {
            let c1 = seq![
                split_window(
                    session,
                    Axis::Horizontal,
                    SplitFlow::Regular,
                    first_pane_cwd@,
                    None,
                    opt_text(first_pane.shell_command),
                ),
            ];
            let c2 = seq![targeted("kill-pane"@, pane_target(session, None, Some("0"@)))];
            let c3 = split_commands(split@, session, parent_cwd@);
            lemma_emit_emit(old(self)@, c1, c2);
            lemma_emit_emit(old(self)@, c1 + c2, c3);
            assert(root_split_commands(split@, session, parent_cwd@) =~= c1 + c2 + c3);
        }
    }

    fn push_warning(&mut self, warning: String)
        ensures
            final(self)@ == (BuilderView {
                warnings: old(self)@.warnings.push(warning@),
                ..old(self)@
            }),
    {
        proof {
            lemma_texts_push(self.warnings@, warning);
        }
        self.warnings.push(warning);
    }

    /// The name by which a warning calls the session being built.
    fn session_label(&self) -> (label: &str)
        ensures
            label@ == session_label(self@.session),
    {
        match &self.current_session_name {
            Some(name) => name.as_str(),
            None => "(current)",
        }
    }

    fn select_active_pane(&mut self, window: &Window)
        requires
            countable(window@.root_split),
        ensures
            final(self)@ == (BuilderView {
                warnings: old(self)@.warnings + (if active_count(panes(window@.root_split)) > 1 {
                    seq![active_panes_warning(window@.name, old(self)@.session)]
                } else {
                    Seq::empty()
                }),
                ..emit(old(self)@, active_pane_commands(window@.root_split, old(self)@.session))
            }),
    {
        let ghost all = panes(window@.root_split);
        let mut iter = window.root_split.split().pane_iter();
        let mut index: u64 = 0;
        let mut first: Option<u64> = None;
        let mut many = false;
        loop
            invariant
                all.len() <= u64::MAX,
                index <= all.len(),
                iter.remaining() == all.skip(index as int),
                match first {
                    Some(i) => first_active(all.take(index as int)) == Some(i as nat),
                    None => first_active(all.take(index as int)) is None,
                },
                first is Some <==> active_count(all.take(index as int)) >= 1,
                many <==> active_count(all.take(index as int)) > 1,
            ensures
                index == all.len(),
            decreases all.len() - index,
        {
            match iter.next() {
                None => {
                    assert(all.skip(index as int).len() == 0);
                    break ;
                },
                Some(pane) => {
                    proof {
                        assert(all.take(index + 1).drop_last() =~= all.take(index as int));
                        assert(all.take(index + 1).last() == all[index as int]);
                        assert(all.skip(index as int)[0] == all[index as int]);
                        assert(all.skip(index as int).drop_first() =~= all.skip(index + 1));
                    }
                    if pane.active {
                        if first.is_none() {
                            first = Some(index);
                        } else {
                            many = true;
                        }
                    }
                    index += 1;
                },
            }
        }
        proof {
            assert(all.take(index as int) =~= all);
        }
        if many {
            proof {
                reveal_strlit("'");
            }
            let mut warning = "Multiple active panes in window '".to_owned();
            match &window.name {
                Some(name) => warning.append(name.as_str()),
                None => warning.append("(unnamed)"),
            }
            warning.append("' of session '");
            warning.append(self.session_label());
            warning.append("'");
            assert(warning@ =~= active_panes_warning(window@.name, self@.session));
            self.push_warning(warning);
        }
        match first {
            Some(pane_index) => {
                let pane_name = decimal_string(pane_index as u128);
                let target = self.target_in_session(None, Some(pane_name.as_str()));
                self.push_targeted("select-pane", target.as_str());
            },
            None => {
                proof {
                    lemma_emit_nothing(self@);
                }
            },
        }
        proof {
            assert(old(self)@.warnings + Seq::<Seq<char>>::empty() =~= old(self)@.warnings);
            assert(old(self)@.warnings + seq![
                active_panes_warning(window@.name, old(self)@.session),
            ] =~= old(self)@.warnings.push(
                active_panes_warning(window@.name, old(self)@.session),
            ));
        }
    }

    /// Counts a window, and takes note of it if it is the first that is
    /// marked active.
    fn count_window(&mut self, window: &Window)
        requires
            old(self)@.window_count < u64::MAX,
        ensures
            final(self)@ == (BuilderView {
                window_count: old(self)@.window_count + 1,
                active_window_index: if window@.active && old(self)@.active_window_index is None {
                    Some(old(self)@.window_count)
                } else {
                    old(self)@.active_window_index
                },
                warnings: old(self)@.warnings + (if window@.active
                    && old(self)@.active_window_index is Some {
                    seq![active_windows_warning(old(self)@.session)]
                } else {
                    Seq::empty()
                }),
                ..old(self)@
            }),
    {
        let ghost b = self@;
        if window.active {
            if self.active_window_index.is_none() {
                self.active_window_index = Some(self.window_count);
            } else {
                proof {
                    reveal_strlit("'");
                }
                let mut warning = "Multiple active windows in session '".to_owned();
                warning.append(self.session_label());
                warning.append("'");
                assert(warning@ =~= active_windows_warning(b.session));
                self.push_warning(warning);
            }
        }
        self.window_count += 1;
        proof {
            assert(b.warnings + Seq::<Seq<char>>::empty() =~= b.warnings);
            assert(b.warnings + seq![active_windows_warning(b.session)] =~= b.warnings.push(
                active_windows_warning(b.session),
            ));
        }
    }

    fn push_new_window(&mut self, window: &Window, cwd: &Cwd, before_target: Option<&str>)
        ensures
            final(self)@ == emit(
                old(self)@,
                seq![new_window_command(window@, old(self)@.session, cwd@, opt_str(before_target))],
            ),
    {
        let ghost b = self@;
        self.push_new_command("new-window");
        self.push_flag_arg("-n", as_str_opt(&window.name));
        self.push_cwd_arg(cwd);
        match before_target {
            Some(before) => {
                let target = self.target_in_session(Some(before), None);
                self.push("-b");
                self.push_target_arg(target.as_str());
            },
            None => {
                let target = self.session_target();
                self.push_target_arg(target.as_str());
            },
        }
        proof {
            let command = new_window_command(window@, b.session, cwd@, opt_str(before_target));
            assert(self@.argv =~= b.argv + subcommand_args(b.first_command, command));
            lemma_emit_one(b, command, self@);
        }
    }

    fn add_window(&mut self, window: &Window, parent_cwd: &Cwd, before_target: Option<&str>)
        requires
            countable(window@.root_split),
            old(self)@.window_count < u64::MAX,
        ensures
            final(self)@ == with_window(old(self)@, window@, parent_cwd@, opt_str(before_target)),
    {
        let ghost b = self@;
        let ghost session = b.session;
        self.count_window(window);
        let ghost counted = self@;
        let window_cwd = parent_cwd.joined(&window.cwd);
        self.push_new_window(window, &window_cwd, before_target);
        let ghost c1 = seq![
            new_window_command(window@, session, window_cwd@, opt_str(before_target)),
        ];
        self.apply_root_split(window.root_split.split(), &window_cwd);
        let ghost c2 = root_split_commands(window@.root_split, session, window_cwd@);
        self.select_active_pane(window);
        let ghost c3 = active_pane_commands(window@.root_split, session);
        proof {
            lemma_emit_emit(counted, c1, c2);
            lemma_emit_emit(counted, c1 + c2, c3);
            assert(window_commands(window@, session, parent_cwd@, opt_str(before_target)) == c1
                + c2 + c3);
            assert(final(self)@.warnings =~= b.warnings + window_warnings(b, window@));
            assert(final(self)@.argv == emit(
                b,
                window_commands(window@, session, parent_cwd@, opt_str(before_target)),
            ).argv);
        }
    }

    pub fn new_window(
        self,
        window: &Window,
        parent_cwd: &Cwd,
        before_target: Option<&str>,
    ) -> (builder: Self)
        requires
            countable(window@.root_split),
            self@.window_count < u64::MAX,
        ensures
            builder@ == with_window(self@, window@, parent_cwd@, opt_str(before_target)),
    {
        let mut builder = self;
        builder.add_window(window, parent_cwd, before_target);
        builder
    }

    fn select_active_window(&mut self)
        ensures
            final(self)@ == emit(old(self)@, active_window_commands(old(self)@)),
    {
        let ghost b = self@;
        match self.active_window_index {
            Some(index) => {
                if self.current_session_name.is_some() {
                    let window_name = decimal_string(index as u128);
                    let target = self.target_in_session(Some(window_name.as_str()), None);
                    self.push_targeted("select-window", target.as_str());
                } else {
                    let steps = if index < self.window_count {
                        self.window_count - index - 1
                    } else {
                        0
                    };
                    let ghost command = select_window_at(None, Direction::Left);
                    let mut done: u64 = 0;
                    proof {
                        lemma_emit_nothing(b);
                        assert(repeated(command, 0) =~= Seq::empty());
                    }
                    while done < steps
                        invariant
                            done <= steps,
                            b.session is None,
                            command == select_window_at(None, Direction::Left),
                            self@ == emit(b, repeated(command, done as nat)),
                        decreases steps - done,
                    {
                        self.select_window_at(Direction::Left);
                        proof {
                            lemma_emit_emit(b, repeated(command, done as nat), seq![command]);
                            assert(repeated(command, done as nat) + seq![command] =~= repeated(
                                command,
                                (done + 1) as nat,
                            ));
                        }
                        done += 1;
                    }
                }
            },
            None => {
                proof {
                    lemma_emit_nothing(b);
                }
            },
        }
    }

    /// Creates the windows `windows[from..]`, in order.
    fn add_windows(&mut self, windows: &[Window], from: usize, parent_cwd: &Cwd)
        requires
            from <= windows@.len(),
            all_countable(window_views(windows@)),
            old(self)@.window_count + (windows@.len() - from) <= u64::MAX,
        ensures
            final(self)@ == with_windows(
                old(self)@,
                window_views(windows@).subrange(from as int, windows@.len() as int),
                parent_cwd@,
            ),
    {
        let ghost b = self@;
        let ghost views = window_views(windows@);
        let mut i: usize = from;
        proof {
            assert(views.subrange(from as int, from as int) =~= Seq::empty());
        }
        while i < windows.len()
            invariant
                from <= i <= windows@.len(),
                views == window_views(windows@),
                all_countable(views),
                b.window_count + (windows@.len() - from) <= u64::MAX,
                self@.window_count == b.window_count + (i - from),
                self@ == with_windows(b, views.subrange(from as int, i as int), parent_cwd@),
            decreases windows@.len() - i,
        {
            proof {
                assert(views.subrange(from as int, i + 1).drop_last() =~= views.subrange(
                    from as int,
                    i as int,
                ));
                assert(views.subrange(from as int, i + 1).last() == views[i as int]);
                assert(views[i as int] == windows@[i as int]@);
                assert(countable(views[i as int].root_split));
            }
            self.add_window(&windows[i], parent_cwd, None);
            i += 1;
        }
    }

    pub fn new_windows(self, windows: &[Window], parent_cwd: &Cwd) -> (builder: Self)
        requires
            all_countable(window_views(windows@)),
            self@.window_count + windows@.len() <= u64::MAX,
        ensures
            builder@ == with_new_windows(self@, window_views(windows@), parent_cwd@),
    {
        let mut builder = self;
        let ghost views = window_views(windows@);
        assert(views.subrange(0, windows@.len() as int) =~= views);
        builder.add_windows(windows, 0, parent_cwd);
        builder.select_active_window();
        builder
    }

    pub fn new_session(self, session: &Session) -> (builder: Self)
        requires
            all_countable(session@.windows),
        ensures
            builder@ == with_session(self@, session@),
    {
        let mut builder = self;
        builder.add_session(session);
        builder
    }

    /// Creates the first window of a session. It is put at index 0,
    /// which moves the window that came with the session to index 1;
    /// that one is then killed.
    fn create_initial_window(&mut self, window: &Window, parent_cwd: &Cwd)
        requires
            countable(window@.root_split),
        ensures
            final(self)@ == emit(
                with_window(
                    BuilderView { window_count: 0, active_window_index: None, ..old(self)@ },
                    window@,
                    parent_cwd@,
                    Some("0"@),
                ),
                seq![targeted("kill-window"@, window_target(old(self)@.session, Some("1"@)))],
            ),
    {
        self.active_window_index = None;
        self.window_count = 0;
        self.add_window(window, parent_cwd, Some("0"));
        let spare = self.target_in_session(Some("1"), None);
        self.push_targeted("kill-window", spare.as_str());
    }

    fn add_session(&mut self, session: &Session)
        requires
            all_countable(session@.windows),
        ensures
            final(self)@ == with_session(old(self)@, session@),
    {
        if session.windows.len() == 0 {
            return ;
        }
        let ghost name = Some(session@.name);
        self.current_session_name = Some(session.name.clone());
        let ghost named = self@;
        self.push_new_command("new-session");
        self.push_flag_arg("-s", Some(session.name.as_str()));
        self.push_cwd_arg(&session.cwd);
        self.push("-d");
        proof {
            let command = seq!["new-session"@] + flag("-s"@, name) + flag("-c"@, session@.cwd)
                + seq!["-d"@];
            assert(self@.argv =~= named.argv + subcommand_args(named.first_command, command));
            lemma_emit_one(named, command, self@);
        }
        proof {
            assert(session@.windows[0] == session.windows@[0]@);
            assert(countable(session@.windows[0].root_split));
        }
        self.create_initial_window(&session.windows[0], &session.cwd);
        self.add_windows(session.windows.as_slice(), 1, &session.cwd);
        self.select_active_window();
    }

    pub fn new_sessions(self, sessions: &[Session]) -> (builder: Self)
        requires
            forall|i: int|
                0 <= i < sessions@.len() ==> all_countable(
                    (#[trigger] session_views(sessions@)[i]).windows,
                ),
        ensures
            builder@ == with_sessions(self@, session_views(sessions@)),
    {
        let mut builder = self;
        let ghost b = builder@;
        let ghost views = session_views(sessions@);
        let mut i: usize = 0;
        proof {
            assert(views.take(0) =~= Seq::empty());
        }
        while i < sessions.len()
            invariant
                i <= sessions@.len(),
                views == session_views(sessions@),
                forall|j: int| 0 <= j < sessions@.len() ==> all_countable((#[trigger] views[j]).windows),
                builder@ == with_sessions(b, views.take(i as int)),
            decreases sessions@.len() - i,
        {
            proof {
                assert(views.take(i + 1).drop_last() =~= views.take(i as int));
                assert(views.take(i + 1).last() == views[i as int]);
                assert(views[i as int] == sessions@[i as int]@);
            }
            builder.add_session(&sessions[i]);
            i += 1;
        }
        proof {
            assert(views.take(sessions@.len() as int) =~= views);
        }
        builder
    }

    pub fn select_session(self, name: Option<&str>, mode: SessionSelectMode) -> (builder: Self)
        ensures
            builder@ == emit(self@, select_session_commands(opt_str(name), mode)),
    {
        let mut builder = self;
        let target = match name {
            None => Target::default(),
            Some(name) => Target::session(name),
        };
        let text = target.text();
        match mode {
            SessionSelectMode::Detached => {
                proof {
                    lemma_emit_nothing(builder@);
                }
            },
            SessionSelectMode::Switch => {
                builder.push_targeted("switch-client", text.as_str());
            },
            SessionSelectMode::Attach => {
                builder.push_targeted("attach-session", text.as_str());
            },
        }
        builder
    }

    pub fn query_panes(self, format: &str, scope: QueryScope) -> (builder: Self)
        ensures
            builder@ == emit(self@, seq![query_panes_command(format@, scope)]),
    {
        let mut builder = self;
        let ghost b = builder@;
        builder.push_new_command("list-panes");
        builder.push("-F");
        builder.push(format);
        builder.push_query_scope_arg(scope);
        proof {
            let command = query_panes_command(format@, scope);
            assert(builder@.argv =~= b.argv + subcommand_args(b.first_command, command));
            lemma_emit_one(b, command, builder@);
        }
        builder
    }

    pub fn query_clients(self) -> (builder: Self)
        ensures
            builder@ == emit(self@, seq![seq!["list-clients"@]]),
    {
        let mut builder = self;
        let ghost b = builder@;
        builder.push_new_command("list-clients");
        proof {
            lemma_emit_one(b, seq!["list-clients"@], builder@);
        }
        builder
    }
}

/// The text of an optional string.
pub fn as_str_opt(o: &Option<String>) -> (r: Option<&str>)
    ensures
        opt_str(r) == opt_text(*o),
{
    match o {
        Some(s) => Some(s.as_str()),
        None => None,
    }
}

pub proof fn lemma_emit_one(b: BuilderView, command: Seq<Seq<char>>, after: BuilderView)
    requires
        after == (BuilderView {
            argv: b.argv + subcommand_args(b.first_command, command),
            first_command: false,
            ..b
        }),
    ensures
        after == emit(b, seq![command]),
{
    lemma_stream_one(b.first_command, command);
}


/// Creating windows and sessions keeps the active window among the
/// windows created.
pub proof fn lemma_with_windows_coherent(
    b: BuilderView,
    windows: Seq<WindowView>,
    parent_cwd: Option<Seq<char>>,
)
    requires
        coherent(b),
    ensures
        coherent(with_windows(b, windows, parent_cwd)),
        coherent(with_new_windows(b, windows, parent_cwd)),
        with_windows(b, windows, parent_cwd).window_count == b.window_count + windows.len(),
    decreases windows.len(),
{
    if windows.len() > 0 {
        lemma_with_windows_coherent(b, windows.drop_last(), parent_cwd);
    }
}

pub proof fn lemma_with_sessions_coherent(b: BuilderView, sessions: Seq<SessionView>)
    requires
        coherent(b),
    ensures
        coherent(with_sessions(b, sessions)),
    decreases sessions.len(),
{
    if sessions.len() > 0 {
        lemma_with_sessions_coherent(b, sessions.drop_last());
        let before = with_sessions(b, sessions.drop_last());
        let session = sessions.last();
        if session.windows.len() > 0 {
            let name = Some(session.name);
            let started = BuilderView {
                session: name,
                window_count: 0,
                active_window_index: None,
                ..emit(
                    before,
                    seq![
                        seq!["new-session"@] + flag("-s"@, name) + flag("-c"@, session.cwd) + seq![
                            "-d"@,
                        ],
                    ],
                )
            };
            let first = with_window(started, session.windows[0], session.cwd, Some("0"@));
            let cleared = emit(
                first,
                seq![targeted("kill-window"@, window_target(name, Some("1"@)))],
            );
            lemma_with_windows_coherent(
                cleared,
                session.windows.subrange(1, session.windows.len() as int),
                session.cwd,
            );
        }
    }
}

/// With no window and no session to create, the command line stays as
/// it was made: the program and its own arguments.
pub proof fn lemma_nothing_to_create(
    tmux_path: Seq<char>,
    tmux_args: Seq<Seq<char>>,
    parent_cwd: Option<Seq<char>>,
)
    ensures
        with_sessions(
            with_new_windows(fresh(tmux_path, tmux_args), Seq::empty(), parent_cwd),
            Seq::empty(),
        ) == fresh(tmux_path, tmux_args),
        with_sessions(
            with_new_windows(fresh(tmux_path, tmux_args), Seq::empty(), parent_cwd),
            Seq::empty(),
        ).argv == seq![tmux_path] + tmux_args,
{
    lemma_emit_nothing(fresh(tmux_path, tmux_args));
}

/// A pane is first among the active ones exactly if there is an active
/// one, and then it is active and none before it is.
pub proof fn lemma_first_active(ps: Seq<PaneView>)
    ensures
        first_active(ps) is Some <==> active_count(ps) >= 1,
        match first_active(ps) {
            Some(i) => i < ps.len() && ps[i as int].active && forall|j: int|
                0 <= j < i ==> !(#[trigger] ps[j]).active,
            None => forall|j: int| 0 <= j < ps.len() ==> !(#[trigger] ps[j]).active,
        },
    decreases ps.len(),
{
    if ps.len() > 0 {
        lemma_first_active(ps.drop_last());
        assert forall|j: int| 0 <= j < ps.len() - 1 implies ps[j] == ps.drop_last()[j] by {}
    }
}

/// Whether a subcommand selects a pane by its number.
pub open spec fn selects_numbered_pane(command: Seq<Seq<char>>) -> bool {
    command.len() == 3 && command[0] == "select-pane"@
}

/// How many of `commands` select a pane by its number.
pub open spec fn numbered_selections(commands: Seq<Seq<Seq<char>>>) -> nat
    decreases commands.len(),
{
    if commands.len() == 0 {
        0
    } else {
        numbered_selections(commands.drop_last()) + if selects_numbered_pane(commands.last()) {
            1nat
        } else {
            0nat
        }
    }
}

pub proof fn lemma_numbered_selections_concat(a: Seq<Seq<Seq<char>>>, b: Seq<Seq<Seq<char>>>)
    ensures
        numbered_selections(a + b) == numbered_selections(a) + numbered_selections(b),
    decreases b.len(),
{
    if b.len() == 0 {
        assert(a + b =~= a);
    } else {
        lemma_numbered_selections_concat(a, b.drop_last());
        assert((a + b).drop_last() =~= a + b.drop_last());
        assert((a + b).last() == b.last());
    }
}

pub proof fn lemma_numbered_selections_one(command: Seq<Seq<char>>)
    ensures
        numbered_selections(seq![command]) == if selects_numbered_pane(command) {
            1nat
        } else {
            0nat
        },
{
    reveal_with_fuel(numbered_selections, 2);
    assert(seq![command].drop_last() =~= Seq::<Seq<Seq<char>>>::empty());
}

/// Laying out a split selects no pane by its number.
pub proof fn lemma_split_selects_no_numbered_pane(
    split: SplitView,
    session: Option<Seq<char>>,
    cwd: Option<Seq<char>>,
)
    ensures
        numbered_selections(split_commands(split, session, cwd)) == 0,
    decreases split,
{
    reveal_strlit("select-pane");
    reveal_strlit("split-window");
    reveal_strlit("send-keys");
    assert("select-pane"@.len() == 11);
    assert("split-window"@.len() == 12);
    assert("send-keys"@.len() == 9);
    match split {
        SplitView::Pane(pane) => {
            match pane.send_keys {
                Some(keys) => {
                    lemma_numbered_selections_one(send_keys(session, keys));
                    assert(send_keys(session, keys)[0] == "send-keys"@);
                },
                None => {},
            }
        },
        SplitView::H { left, right } => {
            let flow = flow_of(split);
            let (parent, child) = if flow == SplitFlow::Regular {
                (left, right)
            } else {
                (right, left)
            };
            let first = root_pane(*child.split);
            let c1 = seq![
                split_window(
                    session,
                    Axis::Horizontal,
                    flow,
                    join(cwd, first.cwd),
                    child.size,
                    first.shell_command,
                ),
            ];
            let c2 = split_commands(*child.split, session, cwd);
            let c3 = seq![select_pane_at(session, opposite(flow_direction(flow, Axis::Horizontal)))];
            let c4 = split_commands(*parent.split, session, cwd);
            lemma_split_selects_no_numbered_pane(*child.split, session, cwd);
            lemma_split_selects_no_numbered_pane(*parent.split, session, cwd);
            lemma_numbered_selections_one(c1[0]);
            lemma_numbered_selections_one(c3[0]);
            lemma_numbered_selections_concat(c1, c2);
            lemma_numbered_selections_concat(c1 + c2, c3);
            lemma_numbered_selections_concat(c1 + c2 + c3, c4);
        },
        SplitView::V { top, bottom } => {
            let flow = flow_of(split);
            let (parent, child) = if flow == SplitFlow::Regular {
                (top, bottom)
            } else {
                (bottom, top)
            };
            let first = root_pane(*child.split);
            let c1 = seq![
                split_window(
                    session,
                    Axis::Vertical,
                    flow,
                    join(cwd, first.cwd),
                    child.size,
                    first.shell_command,
                ),
            ];
            let c2 = split_commands(*child.split, session, cwd);
            let c3 = seq![select_pane_at(session, opposite(flow_direction(flow, Axis::Vertical)))];
            let c4 = split_commands(*parent.split, session, cwd);
            lemma_split_selects_no_numbered_pane(*child.split, session, cwd);
            lemma_split_selects_no_numbered_pane(*parent.split, session, cwd);
            lemma_numbered_selections_one(c1[0]);
            lemma_numbered_selections_one(c3[0]);
            lemma_numbered_selections_concat(c1, c2);
            lemma_numbered_selections_concat(c1 + c2, c3);
            lemma_numbered_selections_concat(c1 + c2 + c3, c4);
        },
    }
}

/// Among the subcommands that create a window, at most one selects a
/// pane by its number, and one does exactly if a pane of the window is
/// marked active; it selects the first such pane.
pub proof fn lemma_one_active_pane_selected(
    window: WindowView,
    session: Option<Seq<char>>,
    parent_cwd: Option<Seq<char>>,
    before: Option<Seq<char>>,
)
    ensures
        numbered_selections(window_commands(window, session, parent_cwd, before)) == if active_count(
            panes(window.root_split),
        ) >= 1 {
            1nat
        } else {
            0nat
        },
        active_pane_commands(window.root_split, session).len() <= 1,
{
    reveal_strlit("select-pane");
    reveal_strlit("split-window");
    reveal_strlit("new-window");
    reveal_strlit("kill-pane");
    assert("select-pane"@.len() == 11);
    assert("split-window"@.len() == 12);
    assert("new-window"@.len() == 10);
    assert("kill-pane"@.len() == 9);
    let cwd = join(parent_cwd, window.cwd);
    let first = root_pane(window.root_split);
    let c1 = seq![new_window_command(window, session, cwd, before)];
    let r1 = seq![
        split_window(
            session,
            Axis::Horizontal,
            SplitFlow::Regular,
            join(cwd, first.cwd),
            None,
            first.shell_command,
        ),
    ];
    let r2 = seq![targeted("kill-pane"@, pane_target(session, None, Some("0"@)))];
    let r3 = split_commands(window.root_split, session, cwd);
    let c3 = active_pane_commands(window.root_split, session);
    lemma_first_active(panes(window.root_split));
    lemma_split_selects_no_numbered_pane(window.root_split, session, cwd);
    lemma_numbered_selections_one(c1[0]);
    lemma_numbered_selections_one(r1[0]);
    lemma_numbered_selections_one(r2[0]);
    assert(c1[0][0] == "new-window"@);
    assert(r1[0][0] == "split-window"@);
    assert(r2[0][0] == "kill-pane"@);
    assert(root_split_commands(window.root_split, session, cwd) =~= r1 + r2 + r3);
    assert(window_commands(window, session, parent_cwd, before) =~= c1 + (r1 + r2 + r3) + c3);
    lemma_numbered_selections_concat(r1, r2);
    lemma_numbered_selections_concat(r1 + r2, r3);
    lemma_numbered_selections_concat(c1, r1 + r2 + r3);
    lemma_numbered_selections_concat(c1 + (r1 + r2 + r3), c3);
    if c3.len() > 0 {
        lemma_numbered_selections_one(c3[0]);
        assert(c3 =~= seq![c3[0]]);
    }
}

} // verus!
