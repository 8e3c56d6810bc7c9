use vstd::prelude::*;
use crate::config::includes::{ConfigIncludes, FilePathIncludes, NoIncludes, UnresolvedIncludes};
use crate::cwd::Cwd;
use vstd::string::StrSliceExecFns;
use crate::text::{clone_opt_text, clone_texts, opt_text, opt_texts, same_text};

verus! {

/// A leaf of the layout: one pane.
#[derive(Debug, PartialEq, Eq)]
pub struct Pane {
    pub cwd: Cwd,
    pub active: bool,
    pub shell_command: Option<String>,
    pub send_keys: Option<Vec<String>>,
}

pub struct PaneView {
    pub cwd: Option<Seq<char>>,
    pub active: bool,
    pub shell_command: Option<Seq<char>>,
    pub send_keys: Option<Seq<Seq<char>>>,
}

impl View for Pane {
    type V = PaneView;

    open spec fn view(&self) -> PaneView {
        PaneView {
            cwd: self.cwd@,
            active: self.active,
            shell_command: opt_text(self.shell_command),
            send_keys: opt_texts(self.send_keys),
        }
    }
}

/// The pane that is not active, has no directory, no command and no keys.
pub open spec fn plain_pane() -> PaneView {
    PaneView { cwd: None, active: false, shell_command: None, send_keys: None }
}

impl Default for Pane {
    fn default() -> (pane: Pane)
        ensures
            pane@ == plain_pane(),
    {
        Pane { cwd: Cwd::none(), active: false, shell_command: None, send_keys: None }
    }
}

/// A layout: a pane, two columns, or two rows.
#[derive(Debug, PartialEq, Eq)]
pub enum Split {
    Pane(Pane),
    H { left: HSplitPart, right: HSplitPart },
    V { top: VSplitPart, bottom: VSplitPart },
}

/// One column of a horizontal split, with the width asked for it.
#[derive(Debug, PartialEq, Eq)]
pub struct HSplitPart {
    pub width: Option<String>,
    pub split: Box<Split>,
}

/// One row of a vertical split, with the height asked for it.
#[derive(Debug, PartialEq, Eq)]
pub struct VSplitPart {
    pub height: Option<String>,
    pub split: Box<Split>,
}

pub enum SplitView {
    Pane(PaneView),
    H { left: SideView, right: SideView },
    V { top: SideView, bottom: SideView },
}

/// One side of a split: the size asked for it, and what it holds.
pub struct SideView {
    pub size: Option<Seq<char>>,
    pub split: Box<SplitView>,
}

/// What a layout stands for.
pub open spec fn split_view(split: Split) -> SplitView
    decreases split,
{
    match split {
        Split::Pane(pane) => SplitView::Pane(pane@),
        Split::H { left, right } => SplitView::H {
            left: SideView { size: opt_text(left.width), split: Box::new(split_view(*left.split)) },
            right: SideView {
                size: opt_text(right.width),
                split: Box::new(split_view(*right.split)),
            },
        },
        Split::V { top, bottom } => SplitView::V {
            top: SideView { size: opt_text(top.height), split: Box::new(split_view(*top.split)) },
            bottom: SideView {
                size: opt_text(bottom.height),
                split: Box::new(split_view(*bottom.split)),
            },
        },
    }
}

impl View for Split {
    type V = SplitView;

    open spec fn view(&self) -> SplitView {
        split_view(*self)
    }
}

impl View for HSplitPart {
    type V = SideView;

    open spec fn view(&self) -> SideView {
        SideView { size: opt_text(self.width), split: Box::new(split_view(*self.split)) }
    }
}

impl View for VSplitPart {
    type V = SideView;

    open spec fn view(&self) -> SideView {
        SideView { size: opt_text(self.height), split: Box::new(split_view(*self.split)) }
    }
}

/// The side without a size that holds the plain pane.
pub open spec fn plain_side() -> SideView {
    SideView { size: None, split: Box::new(SplitView::Pane(plain_pane())) }
}

/// The panes of a layout in the order in which the multiplexer numbers
/// them: those of the left or top side before those of the other.
pub open spec fn panes(split: SplitView) -> Seq<PaneView>
    decreases split,
{
    match split {
        SplitView::Pane(pane) => seq![pane],
        SplitView::H { left, right } => panes(*left.split) + panes(*right.split),
        SplitView::V { top, bottom } => panes(*top.split) + panes(*bottom.split),
    }
}

/// Every layout holds a pane.
pub proof fn lemma_panes_nonempty(split: SplitView)
    ensures
        panes(split).len() >= 1,
    decreases split,
{
    match split {
        SplitView::Pane(_) => {},
        SplitView::H { left, right } => {
            lemma_panes_nonempty(*left.split);
        },
        SplitView::V { top, bottom } => {
            lemma_panes_nonempty(*top.split);
        },
    }
}

impl Split {
    pub fn into_root(self) -> (root: RootSplit)
        ensures
            root@ == self@,
    {
        RootSplit(self)
    }

    pub fn single_pane(&self) -> (pane: Option<&Pane>)
        ensures
            match pane {
                Some(p) => self@ == SplitView::Pane(p@) && *self == Split::Pane(*p),
                None => !(self@ is Pane),
            },
    {
        match self {
            Split::Pane(pane) => Some(pane),
            _ => None,
        }
    }

    pub fn single_pane_mut(&mut self) -> (pane: Option<&mut Pane>)
        ensures
            match pane {
                Some(p) => old(self)@ == SplitView::Pane(p@) && final(self)@ == SplitView::Pane(
                    final(p)@,
                ),
                None => !(old(self)@ is Pane) && *final(self) == *old(self),
            },
    {
        match self {
            Split::Pane(pane) => Some(pane),
            _ => None,
        }
    }

    /// The number of panes, if it can be counted in 64 bits.
    pub fn pane_count(&self) -> (count: Option<u64>)
        ensures
            match count {
                Some(n) => panes(self@).len() == n,
                None => panes(self@).len() > u64::MAX,
            },
        decreases self,
    {
        match self {
            Split::Pane(_) => Some(1),
            Split::H { left, right } => {
                match ((&*left.split).pane_count(), (&*right.split).pane_count()) {
                    (Some(a), Some(b)) => a.checked_add(b),
                    _ => None,
                }
            },
            Split::V { top, bottom } => {
                match ((&*top.split).pane_count(), (&*bottom.split).pane_count()) {
                    (Some(a), Some(b)) => a.checked_add(b),
                    _ => None,
                }
            },
        }
    }

    pub fn pane_iter(&self) -> (iter: Panes<'_>)
        ensures
            iter.remaining() == panes(self@),
    {
        Panes::new(self)
    }
}

impl Clone for Pane {
    fn clone(&self) -> (pane: Pane)
        ensures
            pane@ == self@,
    {
        Pane {
            cwd: self.cwd.shallow_clone(),
            active: self.active,
            shell_command: clone_opt_text(&self.shell_command),
            send_keys: match &self.send_keys {
                Some(keys) => Some(clone_texts(keys)),
                None => None,
            },
        }
    }
}

impl Clone for Split {
    fn clone(&self) -> (split: Split)
        ensures
            split@ == self@,
        decreases self,
    {
        match self {
            Split::Pane(pane) => Split::Pane(pane.clone()),
            Split::H { left, right } => Split::H {
                left: HSplitPart {
                    width: clone_opt_text(&left.width),
                    split: Box::new((&*left.split).clone()),
                },
                right: HSplitPart {
                    width: clone_opt_text(&right.width),
                    split: Box::new((&*right.split).clone()),
                },
            },
            Split::V { top, bottom } => Split::V {
                top: VSplitPart {
                    height: clone_opt_text(&top.height),
                    split: Box::new((&*top.split).clone()),
                },
                bottom: VSplitPart {
                    height: clone_opt_text(&bottom.height),
                    split: Box::new((&*bottom.split).clone()),
                },
            },
        }
    }
}

impl Clone for HSplitPart {
    fn clone(&self) -> (part: HSplitPart)
        ensures
            part@ == self@,
    {
        HSplitPart { width: clone_opt_text(&self.width), split: Box::new((&*self.split).clone()) }
    }
}

impl Clone for VSplitPart {
    fn clone(&self) -> (part: VSplitPart)
        ensures
            part@ == self@,
    {
        VSplitPart { height: clone_opt_text(&self.height), split: Box::new((&*self.split).clone()) }
    }
}

impl Default for Split {
    fn default() -> (split: Split)
        ensures
            split@ == SplitView::Pane(plain_pane()),
    {
        Split::Pane(Pane::default())
    }
}

impl Default for HSplitPart {
    fn default() -> (part: HSplitPart)
        ensures
            part@ == plain_side(),
    {
        HSplitPart { width: None, split: Box::new(Split::default()) }
    }
}

impl Default for VSplitPart {
    fn default() -> (part: VSplitPart)
        ensures
            part@ == plain_side(),
    {
        VSplitPart { height: None, split: Box::new(Split::default()) }
    }
}

/// The layout of a whole window.
#[derive(Debug, Clone, PartialEq, Eq)]
pub struct RootSplit(Split);

impl View for RootSplit {
    type V = SplitView;

    closed spec fn view(&self) -> SplitView {
        self.0@
    }
}

impl RootSplit {
    /// The layout itself.
    pub fn split(&self) -> (split: &Split)
        ensures
            split@ == self@,
    {
        &self.0
    }

    /// Gives the layout back.
    pub fn into_split(self) -> (split: Split)
        ensures
            split@ == self@,
    {
        self.0
    }
}

impl core::ops::Deref for RootSplit {
    type Target = Split;

    fn deref(&self) -> (split: &Split)
        ensures
            split@ == self@,
    {
        &self.0
    }
}

impl core::ops::DerefMut for RootSplit {
    fn deref_mut(&mut self) -> (split: &mut Split)
        ensures
            split@ == old(self)@,
            final(self)@ == final(split)@,
    {
        &mut self.0
    }
}

impl Default for RootSplit {
    fn default() -> (root: RootSplit)
        ensures
            root@ == SplitView::Pane(plain_pane()),
    {
        RootSplit(Split::default())
    }
}

/// Walks the panes of a layout in the order in which the multiplexer
/// numbers them.
pub struct Panes<'a> {
    stack: Vec<&'a Split>,
}

/// The panes that a stack of layouts still holds, the top of the stack
/// (its last entry) first.
pub open spec fn stack_panes(stack: Seq<&Split>) -> Seq<PaneView>
    decreases stack.len(),
{
    if stack.len() == 0 {
        Seq::empty()
    } else {
        panes(stack.last()@) + stack_panes(stack.drop_last())
    }
}

/// The number of nodes in a layout.
pub open spec fn nodes(split: SplitView) -> nat
    decreases split,
{
    match split {
        SplitView::Pane(_) => 1,
        SplitView::H { left, right } => 1 + nodes(*left.split) + nodes(*right.split),
        SplitView::V { top, bottom } => 1 + nodes(*top.split) + nodes(*bottom.split),
    }
}

pub open spec fn stack_nodes(stack: Seq<&Split>) -> nat
    decreases stack.len(),
{
    if stack.len() == 0 {
        0
    } else {
        nodes(stack.last()@) + stack_nodes(stack.drop_last())
    }
}

proof fn lemma_stack_push(stack: Seq<&Split>, top: &Split)
    ensures
        stack_panes(stack.push(top)) == panes(top@) + stack_panes(stack),
        stack_nodes(stack.push(top)) == nodes(top@) + stack_nodes(stack),
{
    assert(stack.push(top).drop_last() =~= stack);
    assert(stack.push(top).last() == top);
}

proof fn lemma_stack_pop(stack: Seq<&Split>)
    requires
        stack.len() > 0,
    ensures
        stack_panes(stack) == panes(stack.last()@) + stack_panes(stack.drop_last()),
        stack_nodes(stack) == nodes(stack.last()@) + stack_nodes(stack.drop_last()),
{
}

impl<'a> Panes<'a> {
    /// The panes still to come.
    pub closed spec fn remaining(&self) -> Seq<PaneView> {
        stack_panes(self.stack@)
    }

    pub fn new(root: &'a Split) -> (iter: Self)
        ensures
            iter.remaining() == panes(root@),
    {
        let mut stack: Vec<&'a Split> = Vec::new();
        proof {
            lemma_stack_push(stack@, root);
            assert(panes(root@) + Seq::<PaneView>::empty() =~= panes(root@));
        }
        stack.push(root);
        Panes { stack }
    }

    /// The next pane, if one is left.
    pub fn next(&mut self) -> (pane: Option<&'a Pane>)
        ensures
            match pane {
                Some(p) => old(self).remaining().len() > 0 && p@ == old(self).remaining()[0]
                    && final(self).remaining() == old(self).remaining().drop_first(),
                None => old(self).remaining().len() == 0 && final(self).remaining().len() == 0,
            },
    {
        loop
            invariant
                stack_panes(self.stack@) == stack_panes(old(self).stack@),
            decreases stack_nodes(self.stack@),
        {
            let ghost before = self.stack@;
            match self.stack.pop() {
                None => {
                    return None;
                },
                Some(split) => {
                    proof {
                        lemma_stack_pop(before);
                    }
                    let ghost rest = self.stack@;
                    match split {
                        Split::Pane(pane) => {
                            proof {
                                assert(stack_panes(before) =~= seq![pane@] + stack_panes(rest));
                                assert(stack_panes(before).drop_first() =~= stack_panes(rest));
                            }
                            return Some(pane);
                        },
                        Split::H { left, right } => {
                            proof {
                                lemma_stack_push(rest, &*right.split);
                                lemma_stack_push(rest.push(&*right.split), &*left.split);
                                assert(panes(left.split@) + (panes(right.split@) + stack_panes(
                                    rest,
                                )) =~= (panes(left.split@) + panes(right.split@)) + stack_panes(
                                    rest,
                                ));
                            }
                            self.stack.push(&right.split);
                            self.stack.push(&left.split);
                        },
                        Split::V { top, bottom } => {
                            proof {
                                lemma_stack_push(rest, &*bottom.split);
                                lemma_stack_push(rest.push(&*bottom.split), &*top.split);
                                assert(panes(top.split@) + (panes(bottom.split@) + stack_panes(
                                    rest,
                                )) =~= (panes(top.split@) + panes(bottom.split@)) + stack_panes(
                                    rest,
                                ));
                            }
                            self.stack.push(&bottom.split);
                            self.stack.push(&top.split);
                        },
                    }
                },
            }
        }
    }
}

/// A window: its name, its directory and its layout.
#[derive(Debug, Clone, PartialEq, Eq)]
pub struct Window {
    pub name: Option<String>,
    pub cwd: Cwd,
    pub active: bool,
    pub root_split: RootSplit,
}

pub struct WindowView {
    pub name: Option<Seq<char>>,
    pub cwd: Option<Seq<char>>,
    pub active: bool,
    pub root_split: SplitView,
}

impl View for Window {
    type V = WindowView;

    open spec fn view(&self) -> WindowView {
        WindowView {
            name: opt_text(self.name),
            cwd: self.cwd@,
            active: self.active,
            root_split: self.root_split@,
        }
    }
}

/// The views of a sequence of windows, in order.
pub open spec fn window_views(windows: Seq<Window>) -> Seq<WindowView> {
    Seq::new(windows.len(), |i: int| windows[i]@)
}

/// A session: its name, its directory and its windows.
#[derive(Debug, Clone, PartialEq, Eq)]
pub struct Session {
    pub name: String,
    pub cwd: Cwd,
    pub windows: Vec<Window>,
}

pub struct SessionView {
    pub name: Seq<char>,
    pub cwd: Option<Seq<char>>,
    pub windows: Seq<WindowView>,
}

impl View for Session {
    type V = SessionView;

    open spec fn view(&self) -> SessionView {
        SessionView { name: self.name@, cwd: self.cwd@, windows: window_views(self.windows@) }
    }
}

/// The views of a sequence of sessions, in order.
pub open spec fn session_views(sessions: Seq<Session>) -> Seq<SessionView> {
    Seq::new(sessions.len(), |i: int| sessions[i]@)
}


/// What is set on a pane that is found in a running multiplexer.
#[derive(Debug, PartialEq, Eq)]
pub struct PaneSetting {
    pub active: bool,
    pub cwd: Cwd,
}

pub struct PaneSettingView {
    pub active: bool,
    pub cwd: Option<Seq<char>>,
}

impl View for PaneSetting {
    type V = PaneSettingView;

    open spec fn view(&self) -> PaneSettingView {
        PaneSettingView { active: self.active, cwd: self.cwd@ }
    }
}

pub open spec fn setting_views(settings: Seq<PaneSetting>) -> Seq<PaneSettingView> {
    Seq::new(settings.len(), |i: int| settings[i]@)
}

/// The layout in which the pane numbered `start + k` has the `k`-th
/// pane's place and is set as `settings[start + k]` says, as far as
/// `settings` reaches; the other panes are as they were.
pub open spec fn assign(split: SplitView, settings: Seq<PaneSettingView>, start: int) -> SplitView
    decreases split,
{
    match split {
        SplitView::Pane(pane) => if 0 <= start < settings.len() {
            SplitView::Pane(
                PaneView { active: settings[start].active, cwd: settings[start].cwd, ..pane },
            )
        } else {
            split
        },
        SplitView::H { left, right } => SplitView::H {
            left: SideView { size: left.size, split: Box::new(assign(*left.split, settings, start)) },
            right: SideView {
                size: right.size,
                split: Box::new(assign(*right.split, settings, start + panes(*left.split).len())),
            },
        },
        SplitView::V { top, bottom } => SplitView::V {
            top: SideView { size: top.size, split: Box::new(assign(*top.split, settings, start)) },
            bottom: SideView {
                size: bottom.size,
                split: Box::new(assign(*bottom.split, settings, start + panes(*top.split).len())),
            },
        },
    }
}

/// Past the end of the settings nothing is set.
pub proof fn lemma_assign_beyond(split: SplitView, settings: Seq<PaneSettingView>, start: int)
    requires
        start >= settings.len(),
    ensures
        assign(split, settings, start) == split,
    decreases split,
{
    match split {
        SplitView::Pane(_) => {},
        SplitView::H { left, right } => {
            lemma_assign_beyond(*left.split, settings, start);
            lemma_assign_beyond(*right.split, settings, start + panes(*left.split).len());
        },
        SplitView::V { top, bottom } => {
            lemma_assign_beyond(*top.split, settings, start);
            lemma_assign_beyond(*bottom.split, settings, start + panes(*top.split).len());
        },
    }
}

/// Setting panes keeps their number and order, and sets the `k`-th as
/// the `k`-th setting says.
pub proof fn lemma_assign_panes(split: SplitView, settings: Seq<PaneSettingView>, start: int)
    requires
        0 <= start,
    ensures
        panes(assign(split, settings, start)).len() == panes(split).len(),
        forall|k: int|
            0 <= k < panes(split).len() ==> #[trigger] panes(assign(split, settings, start))[k] == (
            if start + k < settings.len() {
                PaneView {
                    active: settings[start + k].active,
                    cwd: settings[start + k].cwd,
                    ..panes(split)[k]
                }
            } else {
                panes(split)[k]
            }),
    decreases split,
{
    match split {
        SplitView::Pane(_) => {},
        SplitView::H { left, right } => {
            lemma_assign_panes(*left.split, settings, start);
            lemma_assign_panes(*right.split, settings, start + panes(*left.split).len());
        },
        SplitView::V { top, bottom } => {
            lemma_assign_panes(*top.split, settings, start);
            lemma_assign_panes(*bottom.split, settings, start + panes(*top.split).len());
        },
    }
}

fn assign_from(split: Split, settings: &Vec<PaneSetting>, start: usize) -> (r: (Split, usize))
    requires
        start <= settings.len(),
    ensures
        r.0@ == assign(split@, setting_views(settings@), start as int),
        r.1 <= settings.len(),
        r.1 == if start + panes(split@).len() <= settings.len() {
            start + panes(split@).len()
        } else {
            settings.len() as int
        },
    decreases split,
{
    match split {
        Split::Pane(pane) => {
            if start < settings.len() {
                let setting = &settings[start];
                (
                    Split::Pane(
                        Pane {
                            cwd: setting.cwd.shallow_clone(),
                            active: setting.active,
                            shell_command: pane.shell_command,
                            send_keys: pane.send_keys,
                        },
                    ),
                    start + 1,
                )
            } else {
                (Split::Pane(pane), start)
            }
        },
        Split::H { left, right } => {
            let ghost l = left.split@;
            let ghost r = right.split@;
            let (new_left, next) = assign_from(*left.split, settings, start);
            let (new_right, last) = assign_from(*right.split, settings, next);
            proof {
                lemma_panes_nonempty(l);
                if start + panes(l).len() > settings.len() {
                    lemma_assign_beyond(r, setting_views(settings@), start + panes(l).len());
                    lemma_assign_beyond(r, setting_views(settings@), next as int);
                }
            }
            (
                Split::H {
                    left: HSplitPart { width: left.width, split: Box::new(new_left) },
                    right: HSplitPart { width: right.width, split: Box::new(new_right) },
                },
                last,
            )
        },
        Split::V { top, bottom } => {
            let ghost l = top.split@;
            let ghost r = bottom.split@;
            let (new_top, next) = assign_from(*top.split, settings, start);
            let (new_bottom, last) = assign_from(*bottom.split, settings, next);
            proof {
                lemma_panes_nonempty(l);
                if start + panes(l).len() > settings.len() {
                    lemma_assign_beyond(r, setting_views(settings@), start + panes(l).len());
                    lemma_assign_beyond(r, setting_views(settings@), next as int);
                }
            }
            (
                Split::V {
                    top: VSplitPart { height: top.height, split: Box::new(new_top) },
                    bottom: VSplitPart { height: bottom.height, split: Box::new(new_bottom) },
                },
                last,
            )
        },
    }
}

impl Split {
    /// Sets the panes of the layout, in the order in which the
    /// multiplexer numbers them, as `settings` says. Panes for which
    /// there is no setting stay as they are, and settings for which
    /// there is no pane are passed over.
    pub fn assign_panes(self, settings: &Vec<PaneSetting>) -> (split: Split)
        ensures
            split@ == assign(self@, setting_views(settings@), 0),
    {
        let (split, _) = assign_from(self, settings, 0);
        split
    }
}


/// A configuration: sessions with their windows, and windows that go
/// into the session in which the multiplexer is called.
#[derive(Debug, Clone, Default, PartialEq, Eq)]
pub struct ConfigL<Includes: ConfigIncludes> {
    pub includes: Includes,
    pub selected_session: Option<String>,
    pub sessions: Vec<Session>,
    pub windows: Vec<Window>,
}

/// A configuration in which nothing is left to include.
pub type Config = ConfigL<NoIncludes>;

/// A configuration as a file holds it, with the files that it includes.
pub type PartialConfig = ConfigL<FilePathIncludes>;

pub struct ConfigView {
    pub selected_session: Option<Seq<char>>,
    pub sessions: Seq<SessionView>,
    pub windows: Seq<WindowView>,
}

impl<Includes: ConfigIncludes> View for ConfigL<Includes> {
    type V = ConfigView;

    open spec fn view(&self) -> ConfigView {
        ConfigView {
            selected_session: opt_text(self.selected_session),
            sessions: session_views(self.sessions@),
            windows: window_views(self.windows@),
        }
    }
}

impl ConfigL<FilePathIncludes> {
    /// The configuration itself, if it includes no file.
    pub fn into_config(self) -> (r: Result<Config, UnresolvedIncludes>)
        ensures
            match r {
                Ok(config) => self.includes.0@.len() == 0 && config@ == self@,
                Err(_) => self.includes.0@.len() > 0,
            },
    {
        if self.includes.is_empty() {
            Ok(
                ConfigL {
                    selected_session: self.selected_session,
                    sessions: self.sessions,
                    windows: self.windows,
                    includes: NoIncludes,
                },
            )
        } else {
            Err(UnresolvedIncludes)
        }
    }
}

impl ConfigL<NoIncludes> {
    /// The configuration without sessions and windows.
    pub fn empty() -> (config: Config)
        ensures
            config@ == (ConfigView {
                selected_session: None,
                sessions: Seq::empty(),
                windows: Seq::empty(),
            }),
    {
        let config = ConfigL {
            includes: NoIncludes,
            selected_session: None,
            sessions: Vec::new(),
            windows: Vec::new(),
        };
        assert(config@.sessions =~= Seq::empty());
        assert(config@.windows =~= Seq::empty());
        config
    }

    /// Takes in a configuration that this one includes: its sessions and
    /// windows come after those that are here. Its selected session
    /// counts only if none is selected here; otherwise it is handed
    /// back, as ignored.
    pub fn merge(&mut self, included: Config) -> (ignored: Option<String>)
        ensures
            final(self)@.sessions == old(self)@.sessions + included@.sessions,
            final(self)@.windows == old(self)@.windows + included@.windows,
            final(self)@.selected_session == match old(self)@.selected_session {
                Some(name) => Some(name),
                None => included@.selected_session,
            },
            opt_text(ignored) == if old(self)@.selected_session is Some {
                included@.selected_session
            } else {
                None
            },
    {
        let mut rest = included;
        self.sessions.append(&mut rest.sessions);
        self.windows.append(&mut rest.windows);
        proof {
            assert(self@.sessions =~= old(self)@.sessions + included@.sessions);
            assert(self@.windows =~= old(self)@.windows + included@.windows);
        }
        match rest.selected_session {
            Some(name) => {
                if self.selected_session.is_none() {
                    self.selected_session = Some(name);
                    None
                } else {
                    Some(name)
                }
            },
            None => None,
        }
    }
}


/// The layout in which `pane` has the place of the pane numbered
/// `index`; where there is no such pane, the layout itself.
pub open spec fn with_pane_at(split: SplitView, index: int, pane: PaneView) -> SplitView
    decreases split,
{
    match split {
        SplitView::Pane(_) => if index == 0 {
            SplitView::Pane(pane)
        } else {
            split
        },
        SplitView::H { left, right } => SplitView::H {
            left: SideView { size: left.size, split: Box::new(with_pane_at(*left.split, index, pane)) },
            right: SideView {
                size: right.size,
                split: Box::new(with_pane_at(*right.split, index - panes(*left.split).len(), pane)),
            },
        },
        SplitView::V { top, bottom } => SplitView::V {
            top: SideView { size: top.size, split: Box::new(with_pane_at(*top.split, index, pane)) },
            bottom: SideView {
                size: bottom.size,
                split: Box::new(with_pane_at(*bottom.split, index - panes(*top.split).len(), pane)),
            },
        },
    }
}

/// Outside the numbers of its panes a layout has no pane to replace.
pub proof fn lemma_with_pane_outside(split: SplitView, index: int, pane: PaneView)
    requires
        index < 0 || index >= panes(split).len(),
    ensures
        with_pane_at(split, index, pane) == split,
    decreases split,
{
    match split {
        SplitView::Pane(_) => {},
        SplitView::H { left, right } => {
            lemma_with_pane_outside(*left.split, index, pane);
            lemma_with_pane_outside(*right.split, index - panes(*left.split).len(), pane);
        },
        SplitView::V { top, bottom } => {
            lemma_with_pane_outside(*top.split, index, pane);
            lemma_with_pane_outside(*bottom.split, index - panes(*top.split).len(), pane);
        },
    }
}

impl Split {
    /// The pane numbered `index`, to be changed in place; or, where the
    /// layout has no such pane, the number of its panes.
    pub fn pane_mut(&mut self, index: usize) -> (r: Result<&mut Pane, usize>)
        ensures
            match r {
                Ok(pane) => index < panes(old(self)@).len() && pane@ == panes(old(self)@)[index as int]
                    && final(self)@ == with_pane_at(old(self)@, index as int, final(pane)@),
                Err(count) => count == panes(old(self)@).len() && count <= index && *final(self)
                    == *old(self),
            },
        decreases *old(self),
    {
        match self {
            Split::Pane(pane) => {
                if index == 0 {
                    Ok(pane)
                } else {
                    Err(1)
                }
            },
            Split::H { left, right } => {
                let ghost l = left.split@;
                let ghost r = right.split@;
                match left.split.pane_mut(index) {
                    Ok(pane) => {
                        proof {
                            lemma_with_pane_outside(r, index - panes(l).len(), final(pane)@);
                        }
                        Ok(pane)
                    },
                    Err(before) => {
                        match right.split.pane_mut(index - before) {
                            Ok(pane) => {
                                proof {
                                    lemma_with_pane_outside(l, index as int, final(pane)@);
                                }
                                Ok(pane)
                            },
                            Err(more) => Err(before + more),
                        }
                    },
                }
            },
            Split::V { top, bottom } => {
                let ghost l = top.split@;
                let ghost r = bottom.split@;
                match top.split.pane_mut(index) {
                    Ok(pane) => {
                        proof {
                            lemma_with_pane_outside(r, index - panes(l).len(), final(pane)@);
                        }
                        Ok(pane)
                    },
                    Err(before) => {
                        match bottom.split.pane_mut(index - before) {
                            Ok(pane) => {
                                proof {
                                    lemma_with_pane_outside(l, index as int, final(pane)@);
                                }
                                Ok(pane)
                            },
                            Err(more) => Err(before + more),
                        }
                    },
                }
            },
        }
    }
}


/// Walks the panes of a layout in the order in which the multiplexer
/// numbers them, and hands each out to be changed in place.
pub struct PanesMut<'a> {
    /// The layout that is walked.
    pub root: &'a mut Split,
    /// The number of the pane that comes next.
    pub position: usize,
}

impl<'a> PanesMut<'a> {
    pub fn new(root: &'a mut Split) -> (iter: Self)
        ensures
            *iter.root == *old(root),
            *final(iter.root) == *final(root),
            iter.position == 0,
    {
        PanesMut { root, position: 0 }
    }

    /// The next pane, if one is left. The layout is then the one in
    /// which the pane is as the caller leaves it.
    pub fn next(&mut self) -> (pane: Option<&mut Pane>)
        requires
            panes(old(self).root@).len() <= usize::MAX,
        ensures
            *final(final(self).root) == *final(old(self).root),
            match pane {
                Some(p) => old(self).position < panes(old(self).root@).len() && p@ == panes(
                    old(self).root@,
                )[old(self).position as int] && final(self).position == old(self).position + 1
                    && final(self).root@ == with_pane_at(
                    old(self).root@,
                    old(self).position as int,
                    final(p)@,
                ),
                None => old(self).position >= panes(old(self).root@).len()
                    && final(self).position == old(self).position
                    && *final(self).root == *old(self).root,
            },
    {
        match self.root.pane_mut(self.position) {
            Ok(pane) => {
                self.position += 1;
                Some(pane)
            },
            Err(_) => None,
        }
    }
}

impl Split {
    pub fn pane_iter_mut(&mut self) -> (iter: PanesMut<'_>)
        ensures
            *iter.root == *old(self),
            *final(iter.root) == *final(self),
            iter.position == 0,
    {
        PanesMut::new(self)
    }
}


/// Whether no split asks for the size of both of its sides.
pub open spec fn canonical(split: SplitView) -> bool
    decreases split,
{
    match split {
        SplitView::Pane(_) => true,
        SplitView::H { left, right } => !(left.size is Some && right.size is Some) && canonical(
            *left.split,
        ) && canonical(*right.split),
        SplitView::V { top, bottom } => !(top.size is Some && bottom.size is Some) && canonical(
            *top.split,
        ) && canonical(*bottom.split),
    }
}

impl Split {
    /// Whether no split in the layout asks for the size of both of its
    /// sides.
    pub fn is_canonical(&self) -> (b: bool)
        ensures
            b == canonical(self@),
        decreases self,
    {
        match self {
            Split::Pane(_) => true,
            Split::H { left, right } => !(left.width.is_some() && right.width.is_some()) && (
            &*left.split).is_canonical() && (&*right.split).is_canonical(),
            Split::V { top, bottom } => !(top.height.is_some() && bottom.height.is_some()) && (
            &*top.split).is_canonical() && (&*bottom.split).is_canonical(),
        }
    }
}

/// Whether each session has a name, which no other session has.
pub open spec fn sessions_named(sessions: Seq<SessionView>) -> bool {
    &&& forall|i: int| 0 <= i < sessions.len() ==> (#[trigger] sessions[i]).name.len() > 0
    &&& forall|i: int, j: int|
        0 <= i < j < sessions.len() ==> (#[trigger] sessions[i]).name != (
        #[trigger] sessions[j]).name
}

impl<Includes: ConfigIncludes> ConfigL<Includes> {
    /// Whether each session has a name, which no other session has.
    pub fn has_named_sessions(&self) -> (b: bool)
        ensures
            b == sessions_named(self@.sessions),
    {
        let ghost views = session_views(self.sessions@);
        let mut j: usize = 0;
        while j < self.sessions.len()
            invariant
                j <= self.sessions.len(),
                views == session_views(self.sessions@),
                sessions_named(views.take(j as int)),
            decreases self.sessions.len() - j,
        {
            let name = self.sessions[j].name.as_str();
            assert(views[j as int].name == name@);
            if name.unicode_len() == 0 {
                return false;
            }
            let mut i: usize = 0;
            while i < j
                invariant
                    i <= j < self.sessions.len(),
                    views == session_views(self.sessions@),
                    name@ == views[j as int].name,
                    forall|k: int| 0 <= k < i ==> (#[trigger] views[k]).name != name@,
                decreases j - i,
            {
                if same_text(self.sessions[i].name.as_str(), name) {
                    assert(views[i as int].name == views[j as int].name);
                    return false;
                }
                i += 1;
            }
            proof {
                let longer = views.take(j + 1);
                assert forall|a: int, b: int| 0 <= a < b < longer.len() implies (
                #[trigger] longer[a]).name != (#[trigger] longer[b]).name by {
                    if b < j {
                        assert(views.take(j as int)[a] == longer[a]);
                        assert(views.take(j as int)[b] == longer[b]);
                    }
                }
                assert forall|a: int| 0 <= a < longer.len() implies (#[trigger] longer[a]).name.len()
                    > 0 by {
                    if a < j {
                        assert(views.take(j as int)[a] == longer[a]);
                    }
                }
            }
            j += 1;
        }
        assert(views.take(self.sessions.len() as int) =~= views);
        true
    }
}

} // verus!
