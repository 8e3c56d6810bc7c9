use vstd::prelude::*;
use vstd::string::StrSliceExecFns;
use crate::config::model::{plain_side, PaneView, SideView, SplitView};
use crate::config::{HSplitPart, Pane, RootSplit, Split, VSplitPart};
use crate::cwd::Cwd;
use crate::text::{opt_text, opt_texts, same_text};

verus! {

/// A layout as a document holds it: one map, in which `left` and `right`
/// make a horizontal split, `top` and `bottom` a vertical one, and the
/// other keys describe a pane.
#[derive(Debug, PartialEq, Eq)]
pub struct SplitMap {
    pub left: Option<HSplitPart>,
    pub right: Option<HSplitPart>,
    pub top: Option<VSplitPart>,
    pub bottom: Option<VSplitPart>,
    pub cwd: Cwd,
    pub active: bool,
    pub shell_command: Option<String>,
    pub send_keys: Option<Vec<String>>,
}

pub struct SplitMapView {
    pub left: Option<SideView>,
    pub right: Option<SideView>,
    pub top: Option<SideView>,
    pub bottom: Option<SideView>,
    pub cwd: Option<Seq<char>>,
    pub active: bool,
    pub shell_command: Option<Seq<char>>,
    pub send_keys: Option<Seq<Seq<char>>>,
}

impl View for SplitMap {
    type V = SplitMapView;

    open spec fn view(&self) -> SplitMapView {
        SplitMapView {
            left: match self.left {
                Some(part) => Some(part@),
                None => None,
            },
            right: match self.right {
                Some(part) => Some(part@),
                None => None,
            },
            top: match self.top {
                Some(part) => Some(part@),
                None => None,
            },
            bottom: match self.bottom {
                Some(part) => Some(part@),
                None => None,
            },
            cwd: self.cwd@,
            active: self.active,
            shell_command: opt_text(self.shell_command),
            send_keys: opt_texts(self.send_keys),
        }
    }
}

/// The map without any key.
pub open spec fn empty_map() -> SplitMapView {
    SplitMapView {
        left: None,
        right: None,
        top: None,
        bottom: None,
        cwd: None,
        active: false,
        shell_command: None,
        send_keys: None,
    }
}

pub open spec fn side_or_plain(side: Option<SideView>) -> SideView {
    match side {
        Some(side) => side,
        None => plain_side(),
    }
}

/// The layout that a map describes. Where one of `left` and `right` is
/// there, it is a horizontal split, and a side that is missing holds the
/// plain pane; else the same with `top` and `bottom`; else it is a pane.
pub open spec fn split_of_map(map: SplitMapView) -> SplitView {
    if map.left is Some || map.right is Some {
        SplitView::H { left: side_or_plain(map.left), right: side_or_plain(map.right) }
    } else if map.top is Some || map.bottom is Some {
        SplitView::V { top: side_or_plain(map.top), bottom: side_or_plain(map.bottom) }
    } else {
        SplitView::Pane(
            PaneView {
                cwd: map.cwd,
                active: map.active,
                shell_command: map.shell_command,
                send_keys: map.send_keys,
            },
        )
    }
}

/// The map that describes a layout.
pub open spec fn map_of_split(split: SplitView) -> SplitMapView {
    match split {
        SplitView::Pane(pane) => SplitMapView {
            cwd: pane.cwd,
            active: pane.active,
            shell_command: pane.shell_command,
            send_keys: pane.send_keys,
            ..empty_map()
        },
        SplitView::H { left, right } => SplitMapView {
            left: Some(left),
            right: Some(right),
            ..empty_map()
        },
        SplitView::V { top, bottom } => SplitMapView {
            top: Some(top),
            bottom: Some(bottom),
            ..empty_map()
        },
    }
}

/// The layout of a window as its map shows it: a window that is one
/// pane shares its map with that pane, where `active` speaks of the
/// window, so the pane is not written as active.
pub open spec fn root_as_written(split: SplitView) -> SplitView {
    match split {
        SplitView::Pane(pane) => SplitView::Pane(PaneView { active: false, ..pane }),
        _ => split,
    }
}

/// The map that describes the layout of a window.
pub open spec fn map_of_root(split: SplitView) -> SplitMapView {
    map_of_split(root_as_written(split))
}

/// A layout is read back from its map as it was.
pub proof fn lemma_split_map_round_trip(split: SplitView)
    ensures
        split_of_map(map_of_split(split)) == split,
{
}

/// The layout of a window is read back from its map as it was, but for
/// the mark of a window that is one active pane.
pub proof fn lemma_root_map_round_trip(split: SplitView)
    ensures
        split_of_map(map_of_root(split)) == root_as_written(split),
        !(split is Pane && split->Pane_0.active) ==> split_of_map(map_of_root(split)) == split,
{
}

/// Whether a size need not be written: none, or one half.
pub open spec fn default_size(size: Option<Seq<char>>) -> bool {
    match size {
        None => true,
        Some(size) => size == "50%"@,
    }
}

pub fn is_default_size(size: &Option<String>) -> (b: bool)
    ensures
        b == default_size(opt_text(*size)),
{
    match size {
        None => true,
        Some(size) => same_text(size.as_str(), "50%"),
    }
}

impl Split {
    /// The layout that a map describes.
    pub fn from_map(map: SplitMap) -> (split: Split)
        ensures
            split@ == split_of_map(map@),
    {
        if map.left.is_some() || map.right.is_some() {
            return Split::H {
                left: match map.left {
                    Some(part) => part,
                    None => HSplitPart::default(),
                },
                right: match map.right {
                    Some(part) => part,
                    None => HSplitPart::default(),
                },
            };
        }
        if map.top.is_some() || map.bottom.is_some() {
            return Split::V {
                top: match map.top {
                    Some(part) => part,
                    None => VSplitPart::default(),
                },
                bottom: match map.bottom {
                    Some(part) => part,
                    None => VSplitPart::default(),
                },
            };
        }
        Split::Pane(
            Pane {
                cwd: map.cwd,
                active: map.active,
                shell_command: map.shell_command,
                send_keys: map.send_keys,
            },
        )
    }
}

impl SplitMap {
    fn keyless() -> (map: SplitMap)
        ensures
            map@ == empty_map(),
    {
        SplitMap {
            left: None,
            right: None,
            top: None,
            bottom: None,
            cwd: Cwd::none(),
            active: false,
            shell_command: None,
            send_keys: None,
        }
    }

    /// The map that describes a layout.
    pub fn from_split(split: Split) -> (map: SplitMap)
        ensures
            map@ == map_of_split(split@),
    {
        let mut map = SplitMap::keyless();
        match split {
            Split::Pane(pane) => {
                map.cwd = pane.cwd;
                map.active = pane.active;
                map.shell_command = pane.shell_command;
                map.send_keys = pane.send_keys;
            },
            Split::H { left, right } => {
                map.left = Some(left);
                map.right = Some(right);
            },
            Split::V { top, bottom } => {
                map.top = Some(top);
                map.bottom = Some(bottom);
            },
        }
        map
    }

    /// The map that describes the layout of a window.
    pub fn from_root(root: RootSplit) -> (map: SplitMap)
        ensures
            map@ == map_of_root(root@),
    {
        match root.into_split() {
            Split::Pane(pane) => SplitMap::from_split(
                Split::Pane(
                    Pane {
                        cwd: pane.cwd,
                        active: false,
                        shell_command: pane.shell_command,
                        send_keys: pane.send_keys,
                    },
                ),
            ),
            split => SplitMap::from_split(split),
        }
    }
}

impl RootSplit {
    /// The layout of a window that a map describes.
    pub fn from_map(map: SplitMap) -> (root: RootSplit)
        ensures
            root@ == split_of_map(map@),
    {
        Split::from_map(map).into_root()
    }
}

} // verus!
