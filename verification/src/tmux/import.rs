use vstd::prelude::*;
use vstd::string::StrSliceExecFns;
use crate::config;
use crate::config::model::{assign, setting_views};
use crate::config::{Config, PaneSetting, PaneSettingView, Split};
use crate::cwd::{of_text, path_relative_to, relative_to, Cwd};
use crate::order::{positions, sort_positions, stable_order};
use vstd::string::StringExecFns;
use crate::text::{chars_of, same_text, signed_decimal, signed_decimal_string, texts};
use crate::tmux::command::{emit, query_panes_command, QueryScope, TmuxCommandBuilder};
use crate::tmux::layout::split_of;
use crate::tmux::layout::{char_at, digits_end, digits_value, layout_of, number_at, read_char, read_number, scan_digits, Layout, LayoutView};

verus! {

#[derive(Debug, Clone, Copy, PartialEq, Eq, PartialOrd, Ord, Hash)]
pub struct SessionId(pub u32);

#[derive(Debug, Clone, Copy, PartialEq, Eq, PartialOrd, Ord, Hash)]
pub struct WindowId(pub u32);

#[derive(Debug, Clone, Copy, PartialEq, Eq, PartialOrd, Ord, Hash)]
pub struct WindowIndex(pub u32);

#[derive(Debug, Clone, Copy, PartialEq, Eq, PartialOrd, Ord, Hash)]
pub struct PaneId(pub u32);

#[derive(Debug, Clone, Copy, PartialEq, Eq, PartialOrd, Ord, Hash)]
pub struct PaneIndex(pub u32);

/// A pane as the multiplexer lists it.
#[derive(Debug, Clone, PartialEq, Eq)]
pub struct Pane {
    pub id: PaneId,
    pub index: PaneIndex,
    pub active: bool,
    pub cwd: String,
}

pub struct PaneView {
    pub id: PaneId,
    pub index: PaneIndex,
    pub active: bool,
    pub cwd: Seq<char>,
}

impl View for Pane {
    type V = PaneView;

    open spec fn view(&self) -> PaneView {
        PaneView { id: self.id, index: self.index, active: self.active, cwd: self.cwd@ }
    }
}

pub open spec fn pane_views(panes: Seq<Pane>) -> Seq<PaneView> {
    Seq::new(panes.len(), |i: int| panes[i]@)
}

/// A window as the multiplexer lists it, with the panes listed for it.
#[derive(Debug, Clone, PartialEq, Eq)]
pub struct Window {
    pub id: WindowId,
    pub index: WindowIndex,
    pub name: String,
    pub layout: Layout,
    pub active: bool,
    pub panes: Vec<Pane>,
}

pub struct WindowView {
    pub id: WindowId,
    pub index: WindowIndex,
    pub name: Seq<char>,
    pub layout: LayoutView,
    pub active: bool,
    pub panes: Seq<PaneView>,
}

impl View for Window {
    type V = WindowView;

    open spec fn view(&self) -> WindowView {
        WindowView {
            id: self.id,
            index: self.index,
            name: self.name@,
            layout: self.layout@,
            active: self.active,
            panes: pane_views(self.panes@),
        }
    }
}

pub open spec fn window_views(windows: Seq<Window>) -> Seq<WindowView> {
    Seq::new(windows.len(), |i: int| windows[i]@)
}

/// A session as the multiplexer lists it, with the windows listed for it.
#[derive(Debug, Clone, PartialEq, Eq)]
pub struct Session {
    pub id: SessionId,
    pub name: String,
    pub cwd: String,
    pub windows: Vec<Window>,
}

pub struct SessionView {
    pub id: SessionId,
    pub name: Seq<char>,
    pub cwd: Seq<char>,
    pub windows: Seq<WindowView>,
}

impl View for Session {
    type V = SessionView;

    open spec fn view(&self) -> SessionView {
        SessionView {
            id: self.id,
            name: self.name@,
            cwd: self.cwd@,
            windows: window_views(self.windows@),
        }
    }
}

pub open spec fn session_views(sessions: Seq<Session>) -> Seq<SessionView> {
    Seq::new(sessions.len(), |i: int| sessions[i]@)
}

/// What the multiplexer holds: its sessions, each found by its
/// identifier, in the order in which they were first listed.
#[derive(Debug, Clone, PartialEq, Eq)]
pub struct TmuxState {
    pub sessions: Vec<Session>,
}

impl View for TmuxState {
    type V = Seq<SessionView>;

    open spec fn view(&self) -> Seq<SessionView> {
        session_views(self.sessions@)
    }
}

/// What one line of the listing says: a pane, with the window and the
/// session that it belongs to.
#[derive(Debug, Clone, PartialEq, Eq)]
pub struct PaneInfo {
    pub session_id: SessionId,
    pub window_id: WindowId,
    pub pane_id: PaneId,
    pub session_name: String,
    pub session_cwd: String,
    pub window_index: WindowIndex,
    pub window_name: String,
    pub window_active: bool,
    pub window_layout: Layout,
    pub pane_index: PaneIndex,
    pub pane_active: bool,
    pub pane_cwd: String,
}

pub struct PaneInfoView {
    pub session_id: SessionId,
    pub window_id: WindowId,
    pub pane_id: PaneId,
    pub session_name: Seq<char>,
    pub session_cwd: Seq<char>,
    pub window_index: WindowIndex,
    pub window_name: Seq<char>,
    pub window_active: bool,
    pub window_layout: LayoutView,
    pub pane_index: PaneIndex,
    pub pane_active: bool,
    pub pane_cwd: Seq<char>,
}

impl View for PaneInfo {
    type V = PaneInfoView;

    open spec fn view(&self) -> PaneInfoView {
        PaneInfoView {
            session_id: self.session_id,
            window_id: self.window_id,
            pane_id: self.pane_id,
            session_name: self.session_name@,
            session_cwd: self.session_cwd@,
            window_index: self.window_index,
            window_name: self.window_name@,
            window_active: self.window_active,
            window_layout: self.window_layout@,
            pane_index: self.pane_index,
            pane_active: self.pane_active,
            pane_cwd: self.pane_cwd@,
        }
    }
}

/// Why a listing could not be read.
#[derive(Debug, Clone, PartialEq, Eq)]
pub struct ParseError {
    pub message: String,
}

/// Why the state of the multiplexer could not be had.
#[derive(Debug, Clone, PartialEq, Eq)]
pub enum Error {
    /// The multiplexer could not be run.
    CommandIo(String),
    /// The multiplexer ended with this exit code.
    CommandExitCode(i32),
    /// Its listing could not be read.
    ParseError(ParseError),
}

impl Error {
    /// The error as a message.
    pub fn message(&self) -> (message: String)
        ensures
            message@ == match self {
                Error::CommandIo(cause) => "error while invoking tmux command: "@ + cause@,
                Error::CommandExitCode(code) => "non-successful tmux exit code: "@
                    + signed_decimal(*code as int),
                Error::ParseError(cause) => "parse error: "@ + cause.message@,
            },
    {
        match self {
            Error::CommandIo(cause) => {
                let mut message = "error while invoking tmux command: ".to_owned();
                message.append(cause.as_str());
                message
            },
            Error::CommandExitCode(code) => {
                let mut message = "non-successful tmux exit code: ".to_owned();
                let number = signed_decimal_string(*code as i128);
                message.append(number.as_str());
                message
            },
            Error::ParseError(cause) => {
                let mut message = "parse error: ".to_owned();
                message.append(cause.message.as_str());
                message
            },
        }
    }
}

/// The format handed to `list-panes -F`: twelve fields, each quoted for
/// the shell.
pub const TMUX_FORMAT: &'static str =
    "#{q:session_id} #{q:window_id} #{q:pane_id} #{q:session_name} #{q:session_path} #{q:window_index} #{q:window_name} #{q:window_active} #{q:window_layout} #{q:pane_index} #{q:pane_active} #{q:pane_current_path}";

/// The identifier that `word` writes: the character `sigil` and then a
/// number of 32 bits, with nothing after it.
pub open spec fn id_of(word: Seq<char>, sigil: char) -> Option<u32> {
    if char_at(word, 0, sigil) {
        match number_at(word, 1) {
            Some((n, end)) => if end == word.len() {
                Some(n)
            } else {
                None
            },
            None => None,
        }
    } else {
        None
    }
}

/// The number that `word` writes, if it is at most `max`: digits and
/// nothing else, but for a `+` that may stand before them.
pub open spec fn plain_number(word: Seq<char>, max: nat) -> Option<nat> {
    let start: int = if char_at(word, 0, '+') {
        1
    } else {
        0
    };
    let end = digits_end(word, start);
    if end == word.len() && end > start && digits_value(word, start, end) <= max {
        Some(digits_value(word, start, end))
    } else {
        None
    }
}

/// What the words of a line say. The first eleven are needed; the
/// twelfth, the directory of the pane, is empty where it is missing, and
/// further words are passed over.
pub open spec fn info_of(words: Seq<Seq<char>>) -> Option<PaneInfoView> {
    if words.len() < 11 {
        None
    } else {
        let session_id = id_of(words[0], '$');
        let window_id = id_of(words[1], '@');
        let pane_id = id_of(words[2], '%');
        let window_index = plain_number(words[5], u32::MAX as nat);
        let window_active = plain_number(words[7], u8::MAX as nat);
        let window_layout = layout_of(words[8]);
        let pane_index = plain_number(words[9], u32::MAX as nat);
        let pane_active = plain_number(words[10], u8::MAX as nat);
        if session_id is Some && window_id is Some && pane_id is Some && window_index is Some
            && window_active is Some && window_layout is Some && pane_index is Some
            && pane_active is Some {
            Some(
                PaneInfoView {
                    session_id: SessionId(session_id->0),
                    window_id: WindowId(window_id->0),
                    pane_id: PaneId(pane_id->0),
                    session_name: words[3],
                    session_cwd: words[4],
                    window_index: WindowIndex(window_index->0 as u32),
                    window_name: words[6],
                    window_active: window_active->0 != 0,
                    window_layout: window_layout->0,
                    pane_index: PaneIndex(pane_index->0 as u32),
                    pane_active: pane_active->0 != 0,
                    pane_cwd: if words.len() > 11 {
                        words[11]
                    } else {
                        Seq::empty()
                    },
                },
            )
        } else {
            None
        }
    }
}

fn failure(message: &str) -> (error: ParseError)
    ensures
        error.message@ == message@,
{
    ParseError { message: message.to_owned() }
}

/// Reads an identifier: `sigil` and a number.
fn read_id(word: &str, sigil: char) -> (r: Option<u32>)
    ensures
        r == id_of(word@, sigil),
{
    let s = chars_of(word);
    if read_char(&s, 0, sigil) {
        match read_number(&s, 1) {
            Some((n, end)) => if end == s.len() {
                Some(n)
            } else {
                None
            },
            None => None,
        }
    } else {
        None
    }
}

/// Reads a number of 32 bits.
fn read_plain_number(word: &str) -> (r: Option<u32>)
    ensures
        match r {
            Some(n) => plain_number(word@, u32::MAX as nat) == Some(n as nat),
            None => plain_number(word@, u32::MAX as nat) is None,
        },
        forall|max: nat|
            max <= u32::MAX ==> #[trigger] plain_number(word@, max) == (match r {
                Some(n) => if n <= max {
                    Some(n as nat)
                } else {
                    None
                },
                None => None,
            }),
{
    let s = chars_of(word);
    let start: usize = if read_char(&s, 0, '+') {
        1
    } else {
        0
    };
    let (end, value) = scan_digits(&s, start);
    match value {
        Some(n) => if end == s.len() && end > start {
            Some(n)
        } else {
            None
        },
        None => None,
    }
}

/// Reads a flag: a number of 8 bits, which says yes unless it is zero.
fn read_flag(word: &str) -> (r: Option<bool>)
    ensures
        match r {
            Some(b) => plain_number(word@, u8::MAX as nat) is Some && b == (plain_number(
                word@,
                u8::MAX as nat,
            )->0 != 0),
            None => plain_number(word@, u8::MAX as nat) is None,
        },
{
    match read_plain_number(word) {
        Some(n) => if n <= 255 {
            Some(n != 0)
        } else {
            None
        },
        None => None,
    }
}

/// Reads what the words of one line say.
pub fn pane_info(words: &Vec<String>) -> (r: Result<PaneInfo, ParseError>)
    ensures
        match r {
            Ok(info) => info_of(texts(words@)) == Some(info@),
            Err(_) => info_of(texts(words@)) is None,
        },
{
    if words.len() < 11 {
        return Err(failure("missing word"));
    }
    let session_id = match read_id(words[0].as_str(), '$') {
        Some(n) => SessionId(n),
        None => {
            return Err(failure("not a session identifier"));
        },
    };
    let window_id = match read_id(words[1].as_str(), '@') {
        Some(n) => WindowId(n),
        None => {
            return Err(failure("not a window identifier"));
        },
    };
    let pane_id = match read_id(words[2].as_str(), '%') {
        Some(n) => PaneId(n),
        None => {
            return Err(failure("not a pane identifier"));
        },
    };
    let window_index = match read_plain_number(words[5].as_str()) {
        Some(n) => WindowIndex(n),
        None => {
            return Err(failure("not a window index"));
        },
    };
    let window_active = match read_flag(words[7].as_str()) {
        Some(b) => b,
        None => {
            return Err(failure("not a window flag"));
        },
    };
    let window_layout = match Layout::parse(words[8].as_str()) {
        Ok(layout) => layout,
        Err(error) => {
            return Err(ParseError { message: error.message() });
        },
    };
    let pane_index = match read_plain_number(words[9].as_str()) {
        Some(n) => PaneIndex(n),
        None => {
            return Err(failure("not a pane index"));
        },
    };
    let pane_active = match read_flag(words[10].as_str()) {
        Some(b) => b,
        None => {
            return Err(failure("not a pane flag"));
        },
    };
    let pane_cwd = if words.len() > 11 {
        words[11].clone()
    } else {
        String::new()
    };
    Ok(
        PaneInfo {
            session_id,
            window_id,
            pane_id,
            session_name: words[3].clone(),
            session_cwd: words[4].clone(),
            window_index,
            window_name: words[6].clone(),
            window_active,
            window_layout,
            pane_index,
            pane_active,
            pane_cwd,
        },
    )
}

/// The words into which `shellwords::split` divides a line, or `None`
/// where it finds a quote that is not closed.
pub uninterp spec fn shell_words(line: Seq<char>) -> Option<Seq<Seq<char>>>;

/// Calls `shellwords::split`, which divides a line into words as a
/// Bourne shell would: at white space, with single quotes, double quotes
/// and backslashes taken away. It fails on a quote that is not closed.
/// What it returns depends on the line alone.
#[verifier::external_body]
fn shell_split(line: &str) -> (r: Option<Vec<String>>)
    ensures
        match r {
            Some(words) => shell_words(line@) == Some(texts(words@)),
            None => shell_words(line@) is None,
        },
{
    match shellwords::split(line) {
        Ok(words) => Some(words),
        Err(shellwords::MismatchedQuotes) => None,
    }
}

/// What a line of the listing says.
pub open spec fn line_info(line: Seq<char>) -> Option<PaneInfoView> {
    match shell_words(line) {
        Some(words) => info_of(words),
        None => None,
    }
}

/// Reads one line of the listing.
pub fn parse_line(line: &str) -> (r: Result<PaneInfo, ParseError>)
    ensures
        match r {
            Ok(info) => line_info(line@) == Some(info@),
            Err(_) => line_info(line@) is None,
        },
{
    match shell_split(line) {
        Some(words) => pane_info(&words),
        None => Err(failure("missing quotes")),
    }
}


/// Where the line that starts at `i` ends: at the next line feed, or at
/// the end of the text.
pub open spec fn line_end(s: Seq<char>, i: int) -> int
    decreases s.len() - i,
{
    if 0 <= i < s.len() && s[i] != '\n' {
        line_end(s, i + 1)
    } else {
        i
    }
}

/// The line that starts at `i`, without the line feed that ends it and
/// without a carriage return that stands before that line feed.
pub open spec fn line_at(s: Seq<char>, i: int) -> Seq<char> {
    let end = line_end(s, i);
    if i < end < s.len() && s[end - 1] == '\r' {
        s.subrange(i, end - 1)
    } else {
        s.subrange(i, end)
    }
}

pub proof fn lemma_line_end(s: Seq<char>, i: int)
    requires
        0 <= i <= s.len(),
    ensures
        i <= line_end(s, i) <= s.len(),
    decreases s.len() - i,
{
    if i < s.len() && s[i] != '\n' {
        lemma_line_end(s, i + 1);
    }
}

/// The lines of a text from `i` on. A line feed at the very end of the
/// text starts no further line.
pub open spec fn lines_from(s: Seq<char>, i: int) -> Seq<Seq<char>>
    decreases s.len() + 1 - i,
    via lines_from_decreases
{
    if i < 0 || i >= s.len() {
        Seq::empty()
    } else {
        seq![line_at(s, i)] + lines_from(s, line_end(s, i) + 1)
    }
}

#[via_fn]
proof fn lines_from_decreases(s: Seq<char>, i: int) {
    if 0 <= i < s.len() {
        lemma_line_end(s, i);
    }
}

/// The lines of a text.
pub fn split_lines(input: &str) -> (lines: Vec<String>)
    ensures
        texts(lines@) == lines_from(input@, 0),
{
    let s = chars_of(input);
    let mut lines: Vec<String> = Vec::new();
    let mut i: usize = 0;
    proof {
        assert(texts(lines@) =~= Seq::<Seq<char>>::empty());
    }
    while i < s.len()
        invariant
            s@ == input@,
            i <= s.len(),
            lines_from(s@, 0) == texts(lines@) + lines_from(s@, i as int),
        decreases s.len() - i,
    {
        let mut end: usize = i;
        while end < s.len() && s[end] != '\n'
            invariant
                i <= end <= s.len(),
                line_end(s@, i as int) == line_end(s@, end as int),
            decreases s.len() - end,
        {
            end += 1;
        }
        let stop = if i < end && end < s.len() && s[end - 1] == '\r' {
            end - 1
        } else {
            end
        };
        let line = input.substring_char(i, stop).to_owned();
        proof {
            assert(line@ == line_at(s@, i as int));
            crate::text::lemma_texts_push(lines@, line);
            assert(texts(lines@).push(line@) + lines_from(s@, end + 1) =~= texts(lines@) + (
            seq![line@] + lines_from(s@, end + 1)));
        }
        lines.push(line);
        if end < s.len() {
            i = end + 1;
        } else {
            assert(lines_from(s@, end + 1) =~= lines_from(s@, end as int));
            i = end;
        }
    }
    proof {
        assert(texts(lines@) + Seq::<Seq<char>>::empty() =~= texts(lines@));
    }
    lines
}

/// Where `id` stands first among `ids`.
pub open spec fn first_index(ids: Seq<u32>, id: u32) -> Option<int>
    decreases ids.len(),
{
    if ids.len() == 0 {
        None
    } else {
        match first_index(ids.drop_last(), id) {
            Some(i) => Some(i),
            None => if ids.last() == id {
                Some(ids.len() - 1)
            } else {
                None
            },
        }
    }
}

pub proof fn lemma_first_index(ids: Seq<u32>, id: u32)
    ensures
        match first_index(ids, id) {
            Some(i) => 0 <= i < ids.len() && ids[i] == id && forall|j: int|
                0 <= j < i ==> ids[j] != id,
            None => forall|j: int| 0 <= j < ids.len() ==> ids[j] != id,
        },
    decreases ids.len(),
{
    if ids.len() > 0 {
        lemma_first_index(ids.drop_last(), id);
        assert forall|j: int| 0 <= j < ids.len() - 1 implies ids[j] == ids.drop_last()[j] by {}
    }
}

pub open spec fn pane_ids(panes: Seq<PaneView>) -> Seq<u32> {
    Seq::new(panes.len(), |i: int| panes[i].id.0)
}

pub open spec fn window_ids(windows: Seq<WindowView>) -> Seq<u32> {
    Seq::new(windows.len(), |i: int| windows[i].id.0)
}

pub open spec fn session_ids(sessions: Seq<SessionView>) -> Seq<u32> {
    Seq::new(sessions.len(), |i: int| sessions[i].id.0)
}

/// The pane that a line lists.
pub open spec fn listed_pane(info: PaneInfoView) -> PaneView {
    PaneView { id: info.pane_id, index: info.pane_index, active: info.pane_active, cwd: info.pane_cwd }
}

/// The window that a line lists, with the pane of that line.
pub open spec fn listed_window(info: PaneInfoView) -> WindowView {
    WindowView {
        id: info.window_id,
        index: info.window_index,
        name: info.window_name,
        layout: info.window_layout,
        active: info.window_active,
        panes: seq![listed_pane(info)],
    }
}

/// The session that a line lists, with the window of that line.
pub open spec fn listed_session(info: PaneInfoView) -> SessionView {
    SessionView {
        id: info.session_id,
        name: info.session_name,
        cwd: info.session_cwd,
        windows: seq![listed_window(info)],
    }
}

/// The panes of a window once `pane` is listed: it takes the place of
/// the pane that had its identifier, or else comes last.
pub open spec fn with_pane(panes: Seq<PaneView>, pane: PaneView) -> Seq<PaneView> {
    match first_index(pane_ids(panes), pane.id.0) {
        Some(i) => panes.update(i, pane),
        None => panes.push(pane),
    }
}

/// The windows of a session once a line is read: the window that has
/// the line's identifier keeps what was said of it first and gets the
/// pane; where there is none, the line's window comes last.
pub open spec fn with_window_of(windows: Seq<WindowView>, info: PaneInfoView) -> Seq<WindowView> {
    match first_index(window_ids(windows), info.window_id.0) {
        Some(i) => windows.update(
            i,
            WindowView { panes: with_pane(windows[i].panes, listed_pane(info)), ..windows[i] },
        ),
        None => windows.push(listed_window(info)),
    }
}

/// The sessions once a line is read, in the same way.
pub open spec fn with_info(sessions: Seq<SessionView>, info: PaneInfoView) -> Seq<SessionView> {
    match first_index(session_ids(sessions), info.session_id.0) {
        Some(i) => sessions.update(
            i,
            SessionView { windows: with_window_of(sessions[i].windows, info), ..sessions[i] },
        ),
        None => sessions.push(listed_session(info)),
    }
}

/// The sessions that a run of lines lists.
pub open spec fn state_of(infos: Seq<PaneInfoView>) -> Seq<SessionView>
    decreases infos.len(),
{
    if infos.len() == 0 {
        Seq::empty()
    } else {
        with_info(state_of(infos.drop_last()), infos.last())
    }
}

/// Whether every one of `lines` can be read.
pub open spec fn all_readable(lines: Seq<Seq<char>>) -> bool {
    forall|i: int| 0 <= i < lines.len() ==> (#[trigger] line_info(lines[i])) is Some
}

/// What `lines` say, one after the other.
pub open spec fn infos_of(lines: Seq<Seq<char>>) -> Seq<PaneInfoView> {
    Seq::new(lines.len(), |i: int| line_info(lines[i])->0)
}

/// The state that a listing describes, if every line of it can be read.
pub open spec fn listed_state(listing: Seq<char>) -> Option<Seq<SessionView>> {
    let lines = lines_from(listing, 0);
    if all_readable(lines) {
        Some(state_of(infos_of(lines)))
    } else {
        None
    }
}

fn find_pane(panes: &Vec<Pane>, id: PaneId) -> (r: Option<usize>)
    ensures
        match r {
            Some(i) => first_index(pane_ids(pane_views(panes@)), id.0) == Some(i as int) && i
                < panes.len(),
            None => first_index(pane_ids(pane_views(panes@)), id.0) is None,
        },
{
    let ghost ids = pane_ids(pane_views(panes@));
    let mut i: usize = 0;
    while i < panes.len()
        invariant
            i <= panes.len(),
            ids == pane_ids(pane_views(panes@)),
            first_index(ids.take(i as int), id.0) is None,
        decreases panes.len() - i,
    {
        proof {
            assert(ids.take(i + 1).drop_last() =~= ids.take(i as int));
        }
        if panes[i].id.0 == id.0 {
            proof {
                lemma_first_index_prefix(ids, i + 1, id.0);
            }
            return Some(i);
        }
        i += 1;
    }
    assert(ids.take(panes.len() as int) =~= ids);
    None
}

fn find_window(windows: &Vec<Window>, id: WindowId) -> (r: Option<usize>)
    ensures
        match r {
            Some(i) => first_index(window_ids(window_views(windows@)), id.0) == Some(i as int) && i
                < windows.len(),
            None => first_index(window_ids(window_views(windows@)), id.0) is None,
        },
{
    let ghost ids = window_ids(window_views(windows@));
    let mut i: usize = 0;
    while i < windows.len()
        invariant
            i <= windows.len(),
            ids == window_ids(window_views(windows@)),
            first_index(ids.take(i as int), id.0) is None,
        decreases windows.len() - i,
    {
        proof {
            assert(ids.take(i + 1).drop_last() =~= ids.take(i as int));
        }
        if windows[i].id.0 == id.0 {
            proof {
                lemma_first_index_prefix(ids, i + 1, id.0);
            }
            return Some(i);
        }
        i += 1;
    }
    assert(ids.take(windows.len() as int) =~= ids);
    None
}

fn find_session(sessions: &Vec<Session>, id: SessionId) -> (r: Option<usize>)
    ensures
        match r {
            Some(i) => first_index(session_ids(session_views(sessions@)), id.0) == Some(i as int)
                && i < sessions.len(),
            None => first_index(session_ids(session_views(sessions@)), id.0) is None,
        },
{
    let ghost ids = session_ids(session_views(sessions@));
    let mut i: usize = 0;
    while i < sessions.len()
        invariant
            i <= sessions.len(),
            ids == session_ids(session_views(sessions@)),
            first_index(ids.take(i as int), id.0) is None,
        decreases sessions.len() - i,
    {
        proof {
            assert(ids.take(i + 1).drop_last() =~= ids.take(i as int));
        }
        if sessions[i].id.0 == id.0 {
            proof {
                lemma_first_index_prefix(ids, i + 1, id.0);
            }
            return Some(i);
        }
        i += 1;
    }
    assert(ids.take(sessions.len() as int) =~= ids);
    None
}

/// What is found in a prefix is found in the whole, at the same place.
pub proof fn lemma_first_index_prefix(ids: Seq<u32>, n: int, id: u32)
    requires
        0 <= n <= ids.len(),
        first_index(ids.take(n), id) is Some,
    ensures
        first_index(ids, id) == first_index(ids.take(n), id),
    decreases ids.len() - n,
{
    if n < ids.len() {
        assert(ids.take(n + 1).drop_last() =~= ids.take(n));
        lemma_first_index_prefix(ids, n + 1, id);
    } else {
        assert(ids.take(n) =~= ids);
    }
}

fn insert_pane(panes: &mut Vec<Pane>, pane: Pane)
    ensures
        pane_views(final(panes)@) == with_pane(pane_views(old(panes)@), pane@),
{
    match find_pane(panes, pane.id) {
        Some(i) => {
            panes[i] = pane;
            assert(pane_views(panes@) =~= pane_views(old(panes)@).update(i as int, pane@));
        },
        None => {
            panes.push(pane);
            assert(pane_views(panes@) =~= pane_views(old(panes)@).push(pane@));
        },
    }
}

fn insert_window(windows: &mut Vec<Window>, info: PaneInfo)
    ensures
        window_views(final(windows)@) == with_window_of(window_views(old(windows)@), info@),
{
    let pane = Pane {
        id: info.pane_id,
        index: info.pane_index,
        active: info.pane_active,
        cwd: info.pane_cwd,
    };
    match find_window(windows, info.window_id) {
        Some(i) => {
            let ghost before = windows@[i as int]@;
            insert_pane(&mut windows[i].panes, pane);
            assert(window_views(windows@) =~= window_views(old(windows)@).update(
                i as int,
                WindowView { panes: with_pane(before.panes, pane@), ..before },
            ));
        },
        None => {
            let mut panes: Vec<Pane> = Vec::new();
            panes.push(pane);
            let window = Window {
                id: info.window_id,
                index: info.window_index,
                name: info.window_name,
                layout: info.window_layout,
                active: info.window_active,
                panes,
            };
            assert(window@.panes =~= seq![pane@]);
            windows.push(window);
            assert(window_views(windows@) =~= window_views(old(windows)@).push(window@));
        },
    }
}

impl TmuxState {
    /// The state in which nothing is listed.
    pub fn new() -> (state: TmuxState)
        ensures
            state@ == Seq::<SessionView>::empty(),
    {
        let state = TmuxState { sessions: Vec::new() };
        assert(state@ =~= Seq::<SessionView>::empty());
        state
    }

    /// Takes in what one line says.
    pub fn insert(&mut self, info: PaneInfo)
        ensures
            final(self)@ == with_info(old(self)@, info@),
    {
        match find_session(&self.sessions, info.session_id) {
            Some(i) => {
                let ghost before = self.sessions@[i as int]@;
                insert_window(&mut self.sessions[i].windows, info);
                assert(self@ =~= old(self)@.update(
                    i as int,
                    SessionView { windows: with_window_of(before.windows, info@), ..before },
                ));
            },
            None => {
                let pane = Pane {
                    id: info.pane_id,
                    index: info.pane_index,
                    active: info.pane_active,
                    cwd: info.pane_cwd,
                };
                let mut panes: Vec<Pane> = Vec::new();
                panes.push(pane);
                let window = Window {
                    id: info.window_id,
                    index: info.window_index,
                    name: info.window_name,
                    layout: info.window_layout,
                    active: info.window_active,
                    panes,
                };
                assert(window@.panes =~= seq![pane@]);
                let mut windows: Vec<Window> = Vec::new();
                windows.push(window);
                let session = Session {
                    id: info.session_id,
                    name: info.session_name,
                    cwd: info.session_cwd,
                    windows,
                };
                assert(session@.windows =~= seq![window@]);
                self.sessions.push(session);
                assert(self@ =~= old(self)@.push(session@));
            },
        }
    }
}

/// Reads the listing that `list-panes` gives in the format
/// `TMUX_FORMAT`, one pane on each line.
pub fn parse_tmux_state(input: &str) -> (r: Result<TmuxState, ParseError>)
    ensures
        match r {
            Ok(state) => listed_state(input@) == Some(state@) && keyed(state@),
            Err(_) => listed_state(input@) is None,
        },
{
    proof {
        lemma_state_of_keyed(infos_of(lines_from(input@, 0)));
    }
    let lines = split_lines(input);
    let ghost all = texts(lines@);
    let mut state = TmuxState::new();
    let mut i: usize = 0;
    proof {
        assert(infos_of(all).take(0) =~= Seq::<PaneInfoView>::empty());
    }
    while i < lines.len()
        invariant
            i <= lines.len(),
            all == texts(lines@),
            all == lines_from(input@, 0),
            forall|j: int| 0 <= j < i ==> (#[trigger] line_info(all[j])) is Some,
            state@ == state_of(infos_of(all).take(i as int)),
        decreases lines.len() - i,
    {
        assert(all[i as int] == lines@[i as int]@);
        match parse_line(lines[i].as_str()) {
            Err(error) => {
                return Err(error);
            },
            Ok(info) => {
                proof {
                    assert(infos_of(all).take(i + 1).drop_last() =~= infos_of(all).take(i as int));
                    assert(infos_of(all).take(i + 1).last() == info@);
                }
                state.insert(info);
            },
        }
        i += 1;
    }
    proof {
        assert(infos_of(all).take(lines.len() as int) =~= infos_of(all));
    }
    Ok(state)
}


pub open spec fn pane_indexes(panes: Seq<PaneView>) -> Seq<u32> {
    Seq::new(panes.len(), |i: int| panes[i].index.0)
}

pub open spec fn window_indexes(windows: Seq<WindowView>) -> Seq<u32> {
    Seq::new(windows.len(), |i: int| windows[i].index.0)
}

/// The directory that a configuration gives a pane whose directory is
/// `pane_cwd`, in a session whose directory is `session_cwd`: the path
/// from the session's directory where the pane's lies inside it, else
/// the pane's directory as it is.
pub open spec fn config_cwd(session_cwd: Option<Seq<char>>, pane_cwd: Seq<char>) -> Option<
    Seq<char>,
> {
    match session_cwd {
        Some(root) => match relative_to(pane_cwd, root) {
            Some(relative) => of_text(relative),
            None => of_text(pane_cwd),
        },
        None => of_text(pane_cwd),
    }
}

/// What the panes listed for a window say of its panes, by rising index.
pub open spec fn pane_settings(panes: Seq<PaneView>, session_cwd: Option<Seq<char>>) -> Seq<
    PaneSettingView,
> {
    let order = stable_order(pane_indexes(panes));
    Seq::new(
        panes.len(),
        |k: int|
            PaneSettingView {
                active: panes[order[k]].active,
                cwd: config_cwd(session_cwd, panes[order[k]].cwd),
            },
    )
}

/// The window of a configuration that describes a listed window: its
/// layout is made from the geometry, and its panes are set as the listed
/// panes say.
pub open spec fn config_window(window: WindowView, session_cwd: Option<Seq<char>>) -> config::WindowView {
    config::WindowView {
        name: Some(window.name),
        cwd: None,
        active: window.active,
        root_split: assign(split_of(window.layout), pane_settings(window.panes, session_cwd), 0),
    }
}

/// The windows of a configuration that describe listed windows, by
/// rising index.
pub open spec fn config_windows(windows: Seq<WindowView>, session_cwd: Option<Seq<char>>) -> Seq<
    config::WindowView,
> {
    let order = stable_order(window_indexes(windows));
    Seq::new(windows.len(), |k: int| config_window(windows[order[k]], session_cwd))
}

/// The session of a configuration that describes a listed session.
pub open spec fn config_session(session: SessionView) -> config::SessionView {
    config::SessionView {
        name: session.name,
        cwd: of_text(session.cwd),
        windows: config_windows(session.windows, of_text(session.cwd)),
    }
}

/// The sessions of a configuration that describe listed sessions, by
/// rising identifier.
pub open spec fn config_sessions(sessions: Seq<SessionView>) -> Seq<config::SessionView> {
    let order = stable_order(session_ids(sessions));
    Seq::new(sessions.len(), |k: int| config_session(sessions[order[k]]))
}

fn pane_keys(panes: &Vec<Pane>) -> (keys: Vec<u32>)
    ensures
        keys@ == pane_indexes(pane_views(panes@)),
{
    let mut keys: Vec<u32> = Vec::new();
    let mut i: usize = 0;
    while i < panes.len()
        invariant
            i <= panes.len(),
            keys@ == pane_indexes(pane_views(panes@)).take(i as int),
        decreases panes.len() - i,
    {
        keys.push(panes[i].index.0);
        assert(keys@ =~= pane_indexes(pane_views(panes@)).take(i + 1));
        i += 1;
    }
    assert(keys@ =~= pane_indexes(pane_views(panes@)));
    keys
}

fn window_keys(windows: &Vec<Window>) -> (keys: Vec<u32>)
    ensures
        keys@ == window_indexes(window_views(windows@)),
{
    let mut keys: Vec<u32> = Vec::new();
    let mut i: usize = 0;
    while i < windows.len()
        invariant
            i <= windows.len(),
            keys@ == window_indexes(window_views(windows@)).take(i as int),
        decreases windows.len() - i,
    {
        keys.push(windows[i].index.0);
        assert(keys@ =~= window_indexes(window_views(windows@)).take(i + 1));
        i += 1;
    }
    assert(keys@ =~= window_indexes(window_views(windows@)));
    keys
}

fn session_keys(sessions: &Vec<Session>) -> (keys: Vec<u32>)
    ensures
        keys@ == session_ids(session_views(sessions@)),
{
    let mut keys: Vec<u32> = Vec::new();
    let mut i: usize = 0;
    while i < sessions.len()
        invariant
            i <= sessions.len(),
            keys@ == session_ids(session_views(sessions@)).take(i as int),
        decreases sessions.len() - i,
    {
        keys.push(sessions[i].id.0);
        assert(keys@ =~= session_ids(session_views(sessions@)).take(i + 1));
        i += 1;
    }
    assert(keys@ =~= session_ids(session_views(sessions@)));
    keys
}

/// The directory that a configuration gives a pane.
fn pane_cwd(session_cwd: &Cwd, cwd: &String) -> (r: Cwd)
    ensures
        r@ == config_cwd(session_cwd@, cwd@),
{
    match session_cwd.to_path() {
        Some(root) => match path_relative_to(cwd.as_str(), root) {
            Some(relative) => Cwd::from_string(relative),
            None => Cwd::from_string(cwd.clone()),
        },
        None => Cwd::from_string(cwd.clone()),
    }
}

impl Window {
    /// The window of a configuration that describes this window, in a
    /// session whose directory is `session_cwd`.
    pub fn into_config_window(&self, session_cwd: &Cwd) -> (window: config::Window)
        ensures
            window@ == config_window(self@, session_cwd@),
    {
        let keys = pane_keys(&self.panes);
        let order = sort_positions(&keys);
        let ghost listed = pane_views(self.panes@);
        let ghost wanted = pane_settings(listed, session_cwd@);
        let mut settings: Vec<PaneSetting> = Vec::new();
        let mut k: usize = 0;
        while k < order.len()
            invariant
                k <= order.len(),
                order@.len() == self.panes@.len(),
                listed == pane_views(self.panes@),
                wanted == pane_settings(listed, session_cwd@),
                positions(order@) == stable_order(pane_indexes(listed)),
                forall|a: int| 0 <= a < order@.len() ==> order@[a] < self.panes@.len(),
                setting_views(settings@) == wanted.take(k as int),
            decreases order.len() - k,
        {
            let pane = &self.panes[order[k]];
            let setting = PaneSetting { active: pane.active, cwd: pane_cwd(session_cwd, &pane.cwd) };
            proof {
                assert(positions(order@)[k as int] == order@[k as int]);
                assert(listed[order@[k as int] as int] == pane@);
                assert(setting@ == wanted[k as int]);
                assert(wanted.len() == order@.len());
                assert(setting_views(settings@.push(setting)) =~= setting_views(settings@).push(
                    setting@,
                ));
                assert(wanted.take(k + 1) =~= wanted.take(k as int).push(wanted[k as int]));
            }
            settings.push(setting);
            k += 1;
        }
        proof {
            assert(wanted.take(order.len() as int) =~= wanted);
        }
        let root_split = Split::from_layout(&self.layout).assign_panes(&settings).into_root();
        config::Window {
            name: Some(self.name.clone()),
            cwd: Cwd::none(),
            active: self.active,
            root_split,
        }
    }

    /// The window of a configuration that describes this window by
    /// itself, outside its session.
    pub fn to_config(&self) -> (window: config::Window)
        ensures
            window@ == config_window(self@, None),
    {
        self.into_config_window(&Cwd::none())
    }
}

impl Session {
    /// The session of a configuration that describes this session.
    pub fn to_config(&self) -> (session: config::Session)
        ensures
            session@ == config_session(self@),
    {
        let session_cwd = Cwd::from_string(self.cwd.clone());
        let keys = window_keys(&self.windows);
        let order = sort_positions(&keys);
        let ghost listed = window_views(self.windows@);
        let ghost wanted = config_windows(listed, session_cwd@);
        let mut windows: Vec<config::Window> = Vec::new();
        let mut k: usize = 0;
        while k < order.len()
            invariant
                k <= order.len(),
                order@.len() == self.windows@.len(),
                listed == window_views(self.windows@),
                wanted == config_windows(listed, session_cwd@),
                positions(order@) == stable_order(window_indexes(listed)),
                forall|a: int| 0 <= a < order@.len() ==> order@[a] < self.windows@.len(),
                config::model::window_views(windows@) == wanted.take(k as int),
            decreases order.len() - k,
        {
            let window = (&self.windows[order[k]]).into_config_window(&session_cwd);
            proof {
                assert(positions(order@)[k as int] == order@[k as int]);
                assert(listed[order@[k as int] as int] == self.windows@[order@[k as int] as int]@);
                assert(window@ == wanted[k as int]);
                assert(wanted.len() == order@.len());
                assert(config::model::window_views(windows@.push(window))
                    =~= config::model::window_views(windows@).push(window@));
                assert(wanted.take(k + 1) =~= wanted.take(k as int).push(wanted[k as int]));
            }
            windows.push(window);
            k += 1;
        }
        proof {
            assert(wanted.take(order.len() as int) =~= wanted);
        }
        config::Session { name: self.name.clone(), cwd: session_cwd, windows }
    }
}

/// Where the first window that is active stands among `windows`.
pub open spec fn first_active_window(windows: Seq<WindowView>) -> Option<int>
    decreases windows.len(),
{
    if windows.len() == 0 {
        None
    } else {
        match first_active_window(windows.drop_last()) {
            Some(i) => Some(i),
            None => if windows.last().active {
                Some(windows.len() - 1)
            } else {
                None
            },
        }
    }
}

pub proof fn lemma_first_active_window_prefix(windows: Seq<WindowView>, n: int)
    requires
        0 <= n <= windows.len(),
        first_active_window(windows.take(n)) is Some,
    ensures
        first_active_window(windows) == first_active_window(windows.take(n)),
    decreases windows.len() - n,
{
    if n < windows.len() {
        assert(windows.take(n + 1).drop_last() =~= windows.take(n));
        lemma_first_active_window_prefix(windows, n + 1);
    } else {
        assert(windows.take(n) =~= windows);
    }
}

/// The window that is exported where only one is asked for: the first
/// active window of the session that was listed first.
pub open spec fn active_window_of(state: Seq<SessionView>) -> Option<WindowView> {
    if state.len() == 0 {
        None
    } else {
        match first_active_window(state[0].windows) {
            Some(i) => Some(state[0].windows[i]),
            None => None,
        }
    }
}

/// The configuration that describes a state, as far as `scope` asks.
pub open spec fn exported(state: Seq<SessionView>, scope: QueryScope) -> Option<config::ConfigView> {
    match scope {
        QueryScope::CurrentWindow => match active_window_of(state) {
            Some(window) => Some(
                config::ConfigView {
                    selected_session: None,
                    sessions: Seq::empty(),
                    windows: seq![config_window(window, None)],
                },
            ),
            None => None,
        },
        _ => Some(
            config::ConfigView {
                selected_session: None,
                sessions: config_sessions(state),
                windows: Seq::empty(),
            },
        ),
    }
}

impl TmuxState {
    /// The sessions of a configuration that describe this state.
    pub fn to_config_sessions(&self) -> (sessions: Vec<config::Session>)
        ensures
            config::model::session_views(sessions@) == config_sessions(self@),
    {
        let keys = session_keys(&self.sessions);
        let order = sort_positions(&keys);
        let ghost listed = self@;
        let ghost wanted = config_sessions(listed);
        let mut sessions: Vec<config::Session> = Vec::new();
        let mut k: usize = 0;
        while k < order.len()
            invariant
                k <= order.len(),
                order@.len() == self.sessions@.len(),
                listed == self@,
                wanted == config_sessions(listed),
                positions(order@) == stable_order(session_ids(listed)),
                forall|a: int| 0 <= a < order@.len() ==> order@[a] < self.sessions@.len(),
                config::model::session_views(sessions@) == wanted.take(k as int),
            decreases order.len() - k,
        {
            let session = (&self.sessions[order[k]]).to_config();
            proof {
                assert(positions(order@)[k as int] == order@[k as int]);
                assert(listed[order@[k as int] as int] == self.sessions@[order@[k as int] as int]@);
                assert(session@ == wanted[k as int]);
                assert(wanted.len() == order@.len());
                assert(config::model::session_views(sessions@.push(session))
                    =~= config::model::session_views(sessions@).push(session@));
                assert(wanted.take(k + 1) =~= wanted.take(k as int).push(wanted[k as int]));
            }
            sessions.push(session);
            k += 1;
        }
        proof {
            assert(wanted.take(order.len() as int) =~= wanted);
        }
        sessions
    }

    /// The active window of the session that was listed first.
    pub fn active_window(&self) -> (window: Option<&Window>)
        ensures
            match window {
                Some(w) => active_window_of(self@) == Some(w@),
                None => active_window_of(self@) is None,
            },
    {
        if self.sessions.len() == 0 {
            return None;
        }
        let windows = &self.sessions[0].windows;
        let ghost views = window_views(windows@);
        assert(self@[0].windows == views);
        let mut i: usize = 0;
        while i < windows.len()
            invariant
                i <= windows.len(),
                views == window_views(windows@),
                self@.len() > 0,
                self@[0].windows == views,
                first_active_window(views.take(i as int)) is None,
            decreases windows.len() - i,
        {
            proof {
                assert(views.take(i + 1).drop_last() =~= views.take(i as int));
            }
            if windows[i].active {
                proof {
                    assert(views.take(i + 1).last() == windows@[i as int]@);
                    assert(first_active_window(views.take(i + 1)) == Some(i as int));
                    lemma_first_active_window_prefix(views, i + 1);
                }
                return Some(&windows[i]);
            }
            i += 1;
        }
        assert(views.take(windows.len() as int) =~= views);
        None
    }

    /// The configuration that describes this state: its sessions, or,
    /// where only the current window is asked for, that window alone.
    pub fn export(&self, scope: QueryScope) -> (config: Option<Config>)
        ensures
            match config {
                Some(c) => exported(self@, scope) == Some(c@),
                None => exported(self@, scope) is None,
            },
    {
        match scope {
            QueryScope::CurrentWindow => match self.active_window() {
                Some(window) => {
                    let mut config = Config::empty();
                    let exported_window = window.to_config();
                    config.windows.push(exported_window);
                    assert(config@.windows =~= seq![exported_window@]);
                    assert(config@.sessions =~= Seq::empty());
                    Some(config)
                },
                None => None,
            },
            _ => {
                let mut config = Config::empty();
                config.sessions = self.to_config_sessions();
                assert(config@.windows =~= Seq::empty());
                Some(config)
            },
        }
    }
}

/// The command line that asks the multiplexer for its state.
pub fn state_query(builder: TmuxCommandBuilder, scope: QueryScope) -> (query: TmuxCommandBuilder)
    ensures
        query@ == emit(builder@, seq![query_panes_command(TMUX_FORMAT@, scope)]),
{
    builder.query_panes(TMUX_FORMAT, scope)
}

/// What the multiplexer's answer to `state_query` says: `success` and
/// `exit_code` are how it ended, and `output` is what it wrote, or `None`
/// if that is not UTF-8.
pub fn state_from_output(success: bool, exit_code: Option<i32>, output: Option<&str>) -> (r: Result<
    TmuxState,
    Error,
>)
    ensures
        match r {
            Ok(state) => success && output is Some && listed_state(output->0@) == Some(state@),
            Err(Error::CommandExitCode(code)) => !success && code == (match exit_code {
                Some(c) => c,
                None => 1,
            }),
            Err(Error::ParseError(_)) => success && (output is None || listed_state(output->0@)
                is None),
            Err(Error::CommandIo(_)) => false,
        },
{
    if !success {
        return Err(
            Error::CommandExitCode(
                match exit_code {
                    Some(code) => code,
                    None => 1,
                },
            ),
        );
    }
    match output {
        None => Err(Error::ParseError(failure("command output not UTF-8"))),
        Some(listing) => match parse_tmux_state(listing) {
            Ok(state) => Ok(state),
            Err(error) => Err(Error::ParseError(error)),
        },
    }
}


/// Whether one of `names` is `name`.
pub open spec fn names_hold(names: Seq<Seq<char>>, name: Seq<char>) -> bool {
    exists|i: int| 0 <= i < names.len() && names[i] == name
}

/// Those of `sessions` whose name is none of `names`, in order.
pub open spec fn sessions_not_named(sessions: Seq<config::Session>, names: Seq<Seq<char>>) -> Seq<
    config::Session,
>
    decreases sessions.len(),
{
    if sessions.len() == 0 {
        Seq::empty()
    } else {
        let before = sessions_not_named(sessions.drop_last(), names);
        if names_hold(names, sessions.last().name@) {
            before
        } else {
            before.push(sessions.last())
        }
    }
}

/// The names of the sessions that the multiplexer holds.
pub open spec fn session_names(state: Seq<SessionView>) -> Seq<Seq<char>> {
    Seq::new(state.len(), |i: int| state[i].name)
}

fn is_session_name(state: &TmuxState, name: &str) -> (b: bool)
    ensures
        b == names_hold(session_names(state@), name@),
{
    let mut i: usize = 0;
    while i < state.sessions.len()
        invariant
            i <= state.sessions.len(),
            forall|j: int| 0 <= j < i ==> session_names(state@)[j] != name@,
        decreases state.sessions.len() - i,
    {
        if same_text(state.sessions[i].name.as_str(), name) {
            assert(session_names(state@)[i as int] == name@);
            return true;
        }
        i += 1;
    }
    false
}

/// Takes out of `sessions` those that the multiplexer already holds,
/// going by their names.
pub fn remove_existing_sessions(sessions: &mut Vec<config::Session>, state: &TmuxState)
    ensures
        final(sessions)@ == sessions_not_named(old(sessions)@, session_names(state@)),
{
    let ghost all = sessions@;
    let ghost names = session_names(state@);
    let mut kept: usize = 0;
    let ghost mut seen: int = 0;
    proof {
        assert(all.take(0) =~= Seq::empty());
        assert(all.skip(0) =~= all);
    }
    while kept < sessions.len()
        invariant
            names == session_names(state@),
            0 <= seen <= all.len(),
            kept <= sessions@.len(),
            sessions@.len() - kept == all.len() - seen,
            sessions@.take(kept as int) == sessions_not_named(all.take(seen), names),
            sessions@.skip(kept as int) == all.skip(seen),
        decreases sessions@.len() - kept,
    {
        proof {
            assert(sessions@[kept as int] == all.skip(seen)[0]);
            assert(all.take(seen + 1).drop_last() =~= all.take(seen));
            assert(all.take(seen + 1).last() == all[seen]);
        }
        if is_session_name(state, sessions[kept].name.as_str()) {
            let ghost before = sessions@;
            sessions.remove(kept);
            proof {
                assert(sessions@.take(kept as int) =~= before.take(kept as int));
                assert forall|j: int| 0 <= j < sessions@.len() - kept implies sessions@.skip(
                    kept as int,
                )[j] == #[trigger] all.skip(seen + 1)[j] by {
                    assert(before.skip(kept as int)[j + 1] == all.skip(seen)[j + 1]);
                }
                assert(sessions@.skip(kept as int) =~= all.skip(seen + 1));
                seen = seen + 1;
            }
        } else {
            proof {
                assert(sessions@.take(kept + 1) =~= sessions@.take(kept as int).push(
                    sessions@[kept as int],
                ));
                assert forall|j: int| 0 <= j < sessions@.len() - kept - 1 implies sessions@.skip(
                    kept + 1,
                )[j] == #[trigger] all.skip(seen + 1)[j] by {
                    assert(sessions@.skip(kept as int)[j + 1] == all.skip(seen)[j + 1]);
                }
                assert(sessions@.skip(kept + 1) =~= all.skip(seen + 1));
                seen = seen + 1;
            }
            kept += 1;
        }
    }
    proof {
        assert(sessions@.take(kept as int) =~= sessions@);
        assert(all.take(seen) =~= all);
    }
}


/// Whether no identifier stands twice among `ids`.
pub open spec fn distinct(ids: Seq<u32>) -> bool {
    forall|a: int, b: int| 0 <= a < b < ids.len() ==> ids[a] != ids[b]
}

pub open spec fn panes_keyed(window: WindowView) -> bool {
    distinct(pane_ids(window.panes))
}

pub open spec fn windows_keyed(session: SessionView) -> bool {
    &&& distinct(window_ids(session.windows))
    &&& forall|j: int| 0 <= j < session.windows.len() ==> panes_keyed(#[trigger] session.windows[j])
}

/// Whether each session, each window of a session and each pane of a
/// window is the only one with its identifier.
pub open spec fn keyed(state: Seq<SessionView>) -> bool {
    &&& distinct(session_ids(state))
    &&& forall|i: int| 0 <= i < state.len() ==> windows_keyed(#[trigger] state[i])
}

proof fn lemma_with_pane_keyed(panes: Seq<PaneView>, pane: PaneView)
    requires
        distinct(pane_ids(panes)),
    ensures
        distinct(pane_ids(with_pane(panes, pane))),
{
    let ids = pane_ids(panes);
    let after = pane_ids(with_pane(panes, pane));
    lemma_first_index(ids, pane.id.0);
    assert forall|a: int, b: int| 0 <= a < b < after.len() implies after[a] != after[b] by {
        match first_index(ids, pane.id.0) {
            Some(i) => {
                assert(after[a] == ids[a]);
                assert(after[b] == ids[b]);
            },
            None => {
                if b < ids.len() {
                    assert(after[a] == ids[a]);
                    assert(after[b] == ids[b]);
                } else {
                    assert(after[a] == ids[a]);
                }
            },
        }
    }
}

proof fn lemma_with_window_of_keyed(windows: Seq<WindowView>, info: PaneInfoView)
    requires
        distinct(window_ids(windows)),
        forall|j: int| 0 <= j < windows.len() ==> panes_keyed(#[trigger] windows[j]),
    ensures
        distinct(window_ids(with_window_of(windows, info))),
        forall|j: int|
            0 <= j < with_window_of(windows, info).len() ==> panes_keyed(
                #[trigger] with_window_of(windows, info)[j],
            ),
{
    let ids = window_ids(windows);
    let new = with_window_of(windows, info);
    let after = window_ids(new);
    lemma_first_index(ids, info.window_id.0);
    match first_index(ids, info.window_id.0) {
        Some(i) => {
            assert(panes_keyed(windows[i]));
            lemma_with_pane_keyed(windows[i].panes, listed_pane(info));
        },
        None => {
            assert(pane_ids(listed_window(info).panes) =~= seq![info.pane_id.0]);
        },
    }
    assert forall|a: int, b: int| 0 <= a < b < after.len() implies after[a] != after[b] by {
        if b < ids.len() {
            assert(after[a] == ids[a]);
            assert(after[b] == ids[b]);
        } else {
            assert(after[a] == ids[a]);
        }
    }
    assert forall|j: int| 0 <= j < new.len() implies panes_keyed(#[trigger] new[j]) by {
        if j < windows.len() {
            assert(panes_keyed(windows[j]));
        }
    }
}

/// Reading a line keeps each identifier in one place.
pub proof fn lemma_with_info_keyed(state: Seq<SessionView>, info: PaneInfoView)
    requires
        keyed(state),
    ensures
        keyed(with_info(state, info)),
{
    let ids = session_ids(state);
    let new = with_info(state, info);
    let after = session_ids(new);
    lemma_first_index(ids, info.session_id.0);
    match first_index(ids, info.session_id.0) {
        Some(i) => {
            assert(windows_keyed(state[i]));
            lemma_with_window_of_keyed(state[i].windows, info);
        },
        None => {
            assert(window_ids(listed_session(info).windows) =~= seq![info.window_id.0]);
            assert(pane_ids(listed_window(info).panes) =~= seq![info.pane_id.0]);
        },
    }
    assert forall|a: int, b: int| 0 <= a < b < after.len() implies after[a] != after[b] by {
        if b < ids.len() {
            assert(after[a] == ids[a]);
            assert(after[b] == ids[b]);
        } else {
            assert(after[a] == ids[a]);
        }
    }
    assert forall|i: int| 0 <= i < new.len() implies windows_keyed(#[trigger] new[i]) by {
        if i < state.len() {
            assert(windows_keyed(state[i]));
        }
    }
}

/// In the state that lines list, each session, window and pane is the
/// only one with its identifier.
pub proof fn lemma_state_of_keyed(infos: Seq<PaneInfoView>)
    ensures
        keyed(state_of(infos)),
    decreases infos.len(),
{
    if infos.len() > 0 {
        lemma_state_of_keyed(infos.drop_last());
        lemma_with_info_keyed(state_of(infos.drop_last()), infos.last());
    }
}

} // verus!
