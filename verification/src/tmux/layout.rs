use vstd::prelude::*;
use crate::config::model::{canonical, panes, plain_pane};
use crate::config::{HSplitPart, SideView, Split, SplitView, VSplitPart};
use crate::text::{chars_of, opt_text, signed_decimal, signed_decimal_string};
use crate::tmux::command::Axis;

verus! {

#[derive(Debug, Clone, Copy, Default, PartialEq, Eq)]
pub struct Size {
    pub width: u32,
    pub height: u32,
}

impl Size {
    pub fn new(width: u32, height: u32) -> (size: Size)
        ensures
            size.width == width,
            size.height == height,
    {
        Size { width, height }
    }
}

/// Where a pane or a group of panes lies in its window, in cells.
#[derive(Debug, Clone, Copy, Default, PartialEq, Eq)]
pub struct PaneGeom {
    pub size: Size,
    pub x_offset: u32,
    pub y_offset: u32,
}

impl PaneGeom {
    pub fn width(&self) -> (width: u32)
        ensures
            width == self.size.width,
    {
        self.size.width
    }

    pub fn height(&self) -> (height: u32)
        ensures
            height == self.size.height,
    {
        self.size.height
    }
}

/// The geometry of a window as the multiplexer describes it: a pane, or
/// panes and groups side by side (`H`) or one above the other (`V`).
#[derive(Debug, PartialEq, Eq)]
pub enum Layout {
    Pane(PaneGeom),
    H(PaneGeom, Vec<Layout>),
    V(PaneGeom, Vec<Layout>),
}

pub enum LayoutView {
    Pane(PaneGeom),
    H(PaneGeom, Seq<LayoutView>),
    V(PaneGeom, Seq<LayoutView>),
}

/// What a geometry stands for.
pub open spec fn layout_view(layout: Layout) -> LayoutView
    decreases layout,
{
    match layout {
        Layout::Pane(geom) => LayoutView::Pane(geom),
        Layout::H(geom, children) => LayoutView::H(geom, layout_views(children@)),
        Layout::V(geom, children) => LayoutView::V(geom, layout_views(children@)),
    }
}

/// What a sequence of geometries stands for.
pub open spec fn layout_views(layouts: Seq<Layout>) -> Seq<LayoutView>
    decreases layouts,
{
    if layouts.len() == 0 {
        Seq::empty()
    } else {
        layout_views(layouts.drop_last()).push(layout_view(layouts.last()))
    }
}

impl View for Layout {
    type V = LayoutView;

    open spec fn view(&self) -> LayoutView {
        layout_view(*self)
    }
}

pub proof fn lemma_layout_views(layouts: Seq<Layout>)
    ensures
        layout_views(layouts).len() == layouts.len(),
        forall|i: int|
            0 <= i < layouts.len() ==> #[trigger] layout_views(layouts)[i] == layout_view(
                layouts[i],
            ),
    decreases layouts.len(),
{
    if layouts.len() > 0 {
        lemma_layout_views(layouts.drop_last());
        assert forall|i: int| 0 <= i < layouts.len() implies #[trigger] layout_views(layouts)[i]
            == layout_view(layouts[i]) by {
            if i < layouts.len() - 1 {
                assert(layouts.drop_last()[i] == layouts[i]);
            }
        }
    }
}

impl LayoutView {
    pub open spec fn geom(self) -> PaneGeom {
        match self {
            LayoutView::Pane(geom) => geom,
            LayoutView::H(geom, _) => geom,
            LayoutView::V(geom, _) => geom,
        }
    }
}

impl Layout {
    pub fn geom(&self) -> (geom: &PaneGeom)
        ensures
            *geom == self@.geom(),
    {
        match self {
            Layout::Pane(geom) => geom,
            Layout::H(geom, _) => geom,
            Layout::V(geom, _) => geom,
        }
    }

    pub fn width(&self) -> (width: u32)
        ensures
            width == self@.geom().size.width,
    {
        self.geom().width()
    }

    pub fn height(&self) -> (height: u32)
        ensures
            height == self@.geom().size.height,
    {
        self.geom().height()
    }
}

impl Clone for Layout {
    fn clone(&self) -> (layout: Layout)
        ensures
            layout@ == self@,
        decreases self,
    {
        match self {
            Layout::Pane(geom) => Layout::Pane(*geom),
            Layout::H(geom, children) => Layout::H(*geom, clone_layouts(children)),
            Layout::V(geom, children) => Layout::V(*geom, clone_layouts(children)),
        }
    }
}

fn clone_layouts(layouts: &Vec<Layout>) -> (copy: Vec<Layout>)
    ensures
        layout_views(copy@) == layout_views(layouts@),
    decreases layouts,
{
    let mut copy: Vec<Layout> = Vec::new();
    let mut i: usize = 0;
    while i < layouts.len()
        invariant
            i <= layouts.len(),
            layout_views(copy@) == layout_views(layouts@.take(i as int)),
        decreases layouts.len() - i,
    {
        let child = (&layouts[i]).clone();
        proof {
            assert(layouts@.take(i + 1).drop_last() =~= layouts@.take(i as int));
            assert(copy@.push(child).drop_last() =~= copy@);
        }
        copy.push(child);
        i += 1;
    }
    assert(layouts@.take(layouts.len() as int) =~= layouts@);
    copy
}


pub open spec fn is_digit(c: char) -> bool {
    48 <= c as u32 <= 57
}

pub open spec fn digit_value(c: char) -> nat {
    (c as u32 - 48) as nat
}

/// Where the run of digits that starts at `i` ends.
pub open spec fn digits_end(s: Seq<char>, i: int) -> int
    decreases s.len() - i,
{
    if 0 <= i < s.len() && is_digit(s[i]) {
        digits_end(s, i + 1)
    } else {
        i
    }
}

/// The number that the digits `s[i..j]` write.
pub open spec fn digits_value(s: Seq<char>, i: int, j: int) -> nat
    decreases j - i,
{
    if j <= i {
        0
    } else {
        digits_value(s, i, j - 1) * 10 + digit_value(s[j - 1])
    }
}

/// Reads at `i` a number of 32 bits: all the digits that stand there, at
/// least one. Gives the number and where it ends.
pub open spec fn number_at(s: Seq<char>, i: int) -> Option<(u32, int)> {
    let j = digits_end(s, i);
    if j > i && digits_value(s, i, j) <= u32::MAX {
        Some((digits_value(s, i, j) as u32, j))
    } else {
        None
    }
}

/// Reads the character `c` at `i`.
pub open spec fn char_at(s: Seq<char>, i: int, c: char) -> bool {
    0 <= i < s.len() && s[i] == c
}

/// Reads `<width>x<height>` at `i`.
pub open spec fn size_at(s: Seq<char>, i: int) -> Option<(Size, int)> {
    match number_at(s, i) {
        Some((width, j)) => if char_at(s, j, 'x') {
            match number_at(s, j + 1) {
                Some((height, k)) => Some((Size { width, height }, k)),
                None => None,
            }
        } else {
            None
        },
        None => None,
    }
}

/// Reads `<size>,<x>,<y>` at `i`.
pub open spec fn geom_at(s: Seq<char>, i: int) -> Option<(PaneGeom, int)> {
    match size_at(s, i) {
        Some((size, j)) => if char_at(s, j, ',') {
            match number_at(s, j + 1) {
                Some((x_offset, k)) => if char_at(s, k, ',') {
                    match number_at(s, k + 1) {
                        Some((y_offset, l)) => Some((PaneGeom { size, x_offset, y_offset }, l)),
                        None => None,
                    }
                } else {
                    None
                },
                None => None,
            }
        } else {
            None
        },
        None => None,
    }
}

/// Reads at `i` a pane or a group: a geometry, followed by `,` and the
/// digits of a pane's number, or by two or more of the same between `{`
/// and `}` (side by side) or between `[` and `]` (one above the other),
/// with `,` between them.
pub open spec fn split_at(s: Seq<char>, i: int) -> Option<(LayoutView, int)>
    decreases s.len() - i, 0nat,
{
    match geom_at(s, i) {
        Some((geom, j)) => if char_at(s, j, ',') {
            if digits_end(s, j + 1) > j + 1 {
                Some((LayoutView::Pane(geom), digits_end(s, j + 1)))
            } else {
                None
            }
        } else if char_at(s, j, '{') && j >= i {
            match children_at(s, j + 1) {
                Some((children, k)) => if children.len() >= 2 && char_at(s, k, '}') {
                    Some((LayoutView::H(geom, children), k + 1))
                } else {
                    None
                },
                None => None,
            }
        } else if char_at(s, j, '[') && j >= i {
            match children_at(s, j + 1) {
                Some((children, k)) => if children.len() >= 2 && char_at(s, k, ']') {
                    Some((LayoutView::V(geom, children), k + 1))
                } else {
                    None
                },
                None => None,
            }
        } else {
            None
        },
        None => None,
    }
}

/// Reads at `i` the members of a group: one, and as many more as follow,
/// each after a `,`.
pub open spec fn children_at(s: Seq<char>, i: int) -> Option<(Seq<LayoutView>, int)>
    decreases s.len() - i, 1nat,
{
    match split_at(s, i) {
        Some((child, j)) => if char_at(s, j, ',') && j >= i {
            match children_at(s, j + 1) {
                Some((more, k)) => Some((seq![child] + more, k)),
                None => Some((seq![child], j)),
            }
        } else {
            Some((seq![child], j))
        },
        None => None,
    }
}

/// Where the first `,` at or after `i` stands, if there is one.
pub open spec fn comma_from(s: Seq<char>, i: int) -> Option<int>
    decreases s.len() - i,
{
    if 0 <= i < s.len() {
        if s[i] == ',' {
            Some(i)
        } else {
            comma_from(s, i + 1)
        }
    } else {
        None
    }
}

/// The geometry that a layout descriptor writes: what stands before the
/// first `,` is a checksum, which is passed over; after it stands a pane
/// or a group, and nothing more.
pub open spec fn layout_of(s: Seq<char>) -> Option<LayoutView> {
    match comma_from(s, 0) {
        Some(comma) => match split_at(s, comma + 1) {
            Some((layout, end)) => if end == s.len() {
                Some(layout)
            } else {
                None
            },
            None => None,
        },
        None => None,
    }
}

#[derive(Debug, Clone, PartialEq, Eq)]
pub enum Error {
    ParseError(String),
}

impl Error {
    /// The error as a message.
    pub fn message(&self) -> (message: String)
        ensures
            message@ == "layout parse error: "@ + (match self {
                Error::ParseError(m) => m@,
            }),
    {
        match self {
            Error::ParseError(m) => {
                let mut message = "layout parse error: ".to_owned();
                vstd::string::StringExecFns::append(&mut message, m.as_str());
                message
            },
        }
    }
}

fn digit_of(c: char) -> (d: Option<u64>)
    ensures
        match d {
            Some(d) => is_digit(c) && d == digit_value(c),
            None => !is_digit(c),
        },
{
    let code = c as u32;
    if code >= 48 && code <= 57 {
        Some((code - 48) as u64)
    } else {
        None
    }
}

/// Passes over the digits at `i`: gives where they end, and the number
/// they write if it fits in 32 bits.
pub fn scan_digits(s: &Vec<char>, i: usize) -> (r: (usize, Option<u32>))
    requires
        i <= s.len(),
    ensures
        r.0 == digits_end(s@, i as int),
        i <= r.0 <= s.len(),
        match r.1 {
            Some(n) => n == digits_value(s@, i as int, r.0 as int),
            None => digits_value(s@, i as int, r.0 as int) > u32::MAX,
        },
{
    let mut j: usize = i;
    let mut value: u64 = 0;
    let mut fits = true;
    loop
        invariant
            i <= j <= s.len(),
            digits_end(s@, i as int) == digits_end(s@, j as int),
            fits ==> value == digits_value(s@, i as int, j as int) && value <= u32::MAX,
            !fits ==> digits_value(s@, i as int, j as int) > u32::MAX,
        ensures
            j == digits_end(s@, i as int),
        decreases s.len() - j,
    {
        if j >= s.len() {
            break ;
        }
        match digit_of(s[j]) {
            None => {
                break ;
            },
            Some(d) => {
                if fits {
                    value = value * 10 + d;
                    if value > 0xffff_ffff {
                        fits = false;
                    }
                }
                j += 1;
            },
        }
    }
    if fits {
        (j, Some(value as u32))
    } else {
        (j, None)
    }
}

pub fn read_number(s: &Vec<char>, i: usize) -> (r: Option<(u32, usize)>)
    requires
        i <= s.len(),
    ensures
        match r {
            Some((n, j)) => number_at(s@, i as int) == Some((n, j as int)) && i < j <= s.len(),
            None => number_at(s@, i as int) is None,
        },
{
    let (j, value) = scan_digits(s, i);
    match value {
        Some(n) => if j > i {
            Some((n, j))
        } else {
            None
        },
        None => None,
    }
}

pub fn read_char(s: &Vec<char>, i: usize, c: char) -> (r: bool)
    requires
        i <= s.len(),
    ensures
        r == char_at(s@, i as int, c),
{
    i < s.len() && s[i] == c
}

fn read_size(s: &Vec<char>, i: usize) -> (r: Option<(Size, usize)>)
    requires
        i <= s.len(),
    ensures
        match r {
            Some((size, j)) => size_at(s@, i as int) == Some((size, j as int)) && i < j <= s.len(),
            None => size_at(s@, i as int) is None,
        },
{
    match read_number(s, i) {
        Some((width, j)) => {
            if read_char(s, j, 'x') {
                match read_number(s, j + 1) {
                    Some((height, k)) => Some((Size { width, height }, k)),
                    None => None,
                }
            } else {
                None
            }
        },
        None => None,
    }
}

fn read_geom(s: &Vec<char>, i: usize) -> (r: Option<(PaneGeom, usize)>)
    requires
        i <= s.len(),
    ensures
        match r {
            Some((geom, j)) => geom_at(s@, i as int) == Some((geom, j as int)) && i < j <= s.len(),
            None => geom_at(s@, i as int) is None,
        },
{
    match read_size(s, i) {
        Some((size, j)) => {
            if read_char(s, j, ',') {
                match read_number(s, j + 1) {
                    Some((x_offset, k)) => {
                        if read_char(s, k, ',') {
                            match read_number(s, k + 1) {
                                Some((y_offset, l)) => Some(
                                    (PaneGeom { size, x_offset, y_offset }, l),
                                ),
                                None => None,
                            }
                        } else {
                            None
                        }
                    },
                    None => None,
                }
            } else {
                None
            }
        },
        None => None,
    }
}

fn read_split(s: &Vec<char>, i: usize) -> (r: Option<(Layout, usize)>)
    requires
        i <= s.len(),
    ensures
        match r {
            Some((layout, j)) => split_at(s@, i as int) == Some((layout@, j as int)) && i < j
                <= s.len(),
            None => split_at(s@, i as int) is None,
        },
    decreases s.len() - i, 0nat,
{
    match read_geom(s, i) {
        Some((geom, j)) => {
            if read_char(s, j, ',') {
                let (k, _) = scan_digits(s, j + 1);
                if k > j + 1 {
                    Some((Layout::Pane(geom), k))
                } else {
                    None
                }
            } else if read_char(s, j, '{') {
                match read_children(s, j + 1) {
                    Some((children, k)) => {
                        proof {
                            lemma_layout_views(children@);
                        }
                        if children.len() >= 2 && read_char(s, k, '}') {
                            Some((Layout::H(geom, children), k + 1))
                        } else {
                            None
                        }
                    },
                    None => None,
                }
            } else if read_char(s, j, '[') {
                match read_children(s, j + 1) {
                    Some((children, k)) => {
                        proof {
                            lemma_layout_views(children@);
                        }
                        if children.len() >= 2 && read_char(s, k, ']') {
                            Some((Layout::V(geom, children), k + 1))
                        } else {
                            None
                        }
                    },
                    None => None,
                }
            } else {
                None
            }
        },
        None => None,
    }
}

fn read_children(s: &Vec<char>, i: usize) -> (r: Option<(Vec<Layout>, usize)>)
    requires
        i <= s.len(),
    ensures
        match r {
            Some((children, j)) => children_at(s@, i as int) == Some(
                (layout_views(children@), j as int),
            ) && i < j <= s.len(),
            None => children_at(s@, i as int) is None,
        },
    decreases s.len() - i, 1nat,
{
    match read_split(s, i) {
        None => None,
        Some((child, j)) => {
            let ghost first = child@;
            let mut children: Vec<Layout> = Vec::new();
            children.push(child);
            if read_char(s, j, ',') {
                match read_children(s, j + 1) {
                    Some((more, k)) => {
                        let mut more = more;
                        let ghost rest = more@;
                        children.append(&mut more);
                        proof {
                            lemma_layout_views_concat(seq![child], rest);
                            lemma_layout_views(seq![child]);
                            assert(layout_views(seq![child]) =~= seq![first]);
                        }
                        Some((children, k))
                    },
                    None => {
                        proof {
                            lemma_layout_views(children@);
                            assert(layout_views(children@) =~= seq![first]);
                        }
                        Some((children, j))
                    },
                }
            } else {
                proof {
                    lemma_layout_views(children@);
                    assert(layout_views(children@) =~= seq![first]);
                }
                Some((children, j))
            }
        },
    }
}

pub proof fn lemma_layout_views_concat(a: Seq<Layout>, b: Seq<Layout>)
    ensures
        layout_views(a + b) == layout_views(a) + layout_views(b),
{
    lemma_layout_views(a);
    lemma_layout_views(b);
    lemma_layout_views(a + b);
    assert(layout_views(a + b) =~= layout_views(a) + layout_views(b));
}

/// Finds the first `,` at or after `i`.
fn find_comma(s: &Vec<char>, i: usize) -> (r: Option<usize>)
    requires
        i <= s.len(),
    ensures
        match r {
            Some(j) => comma_from(s@, i as int) == Some(j as int) && i <= j < s.len(),
            None => comma_from(s@, i as int) is None,
        },
{
    let mut j: usize = i;
    while j < s.len()
        invariant
            i <= j <= s.len(),
            comma_from(s@, i as int) == comma_from(s@, j as int),
        decreases s.len() - j,
    {
        if s[j] == ',' {
            return Some(j);
        }
        j += 1;
    }
    None
}

impl Layout {
    /// Reads a layout descriptor.
    pub fn parse(input: &str) -> (r: Result<Layout, Error>)
        ensures
            match r {
                Ok(layout) => layout_of(input@) == Some(layout@) && no_empty_group(layout@),
                Err(_) => layout_of(input@) is None,
            },
    {
        proof {
            lemma_layout_of(input@);
        }
        let s = chars_of(input);
        match find_comma(&s, 0) {
            None => Err(Error::ParseError("no checksum before the layout".to_owned())),
            Some(comma) => match read_split(&s, comma + 1) {
                None => Err(Error::ParseError("not a layout".to_owned())),
                Some((layout, end)) => {
                    if end == s.len() {
                        Ok(layout)
                    } else {
                        Err(Error::ParseError("text after the layout".to_owned()))
                    }
                },
            },
        }
    }
}


/// How far a geometry reaches along an axis: its width along the
/// horizontal one, its height along the vertical one.
pub open spec fn extent(layout: LayoutView, axis: Axis) -> int {
    match axis {
        Axis::Horizontal => layout.geom().size.width as int,
        Axis::Vertical => layout.geom().size.height as int,
    }
}

/// How far the members from the `k`-th on reach together. Two
/// neighbours share the line that separates them, which is one cell wide.
pub open spec fn span(members: Seq<LayoutView>, k: int, axis: Axis) -> int
    decreases members.len() - k,
{
    if k < 0 || k >= members.len() {
        0
    } else if k == members.len() - 1 {
        extent(members[k], axis)
    } else {
        extent(members[k], axis) + span(members, k + 1, axis) - 1
    }
}

/// The integer nearest to `p / q`; of two equally near, the one farther
/// from zero.
pub open spec fn rounded_ratio(p: int, q: int) -> int
    recommends
        q != 0,
{
    let a = if p < 0 {
        -p
    } else {
        p
    };
    let b = if q < 0 {
        -q
    } else {
        q
    };
    if (p < 0) == (q < 0) {
        (2 * a + b) / (2 * b)
    } else {
        -((2 * a + b) / (2 * b))
    }
}

/// The size of a part of `part` cells in a whole of `whole` cells, as a
/// percentage. Of a whole of no cells there is no part.
pub open spec fn percent_text(part: int, whole: int) -> Option<Seq<char>> {
    if whole == 0 {
        None
    } else {
        Some(signed_decimal(rounded_ratio(part * 100, whole)) + seq!['%'])
    }
}

/// The layout that asks for a geometry: a pane becomes the plain pane,
/// and a group is split between its first member and all the others,
/// which get their share of the whole as their size.
pub open spec fn split_of(layout: LayoutView) -> SplitView
    decreases layout, 0nat,
{
    match layout {
        LayoutView::Pane(_) => SplitView::Pane(plain_pane()),
        LayoutView::H(_, members) => chain(members, 0, Axis::Horizontal),
        LayoutView::V(_, members) => chain(members, 0, Axis::Vertical),
    }
}

/// The layout of the members from the `k`-th on. Where there is none, it
/// is the plain pane.
pub open spec fn chain(members: Seq<LayoutView>, k: int, axis: Axis) -> SplitView
    decreases members, members.len() - k,
{
    if k < 0 || k >= members.len() {
        SplitView::Pane(plain_pane())
    } else if k == members.len() - 1 {
        split_of(members[k])
    } else {
        let first = SideView { size: None, split: Box::new(split_of(members[k])) };
        let others = SideView {
            size: percent_text(span(members, k + 1, axis), span(members, k, axis)),
            split: Box::new(chain(members, k + 1, axis)),
        };
        match axis {
            Axis::Horizontal => SplitView::H { left: first, right: others },
            Axis::Vertical => SplitView::V { top: first, bottom: others },
        }
    }
}

/// The size of a part in a whole, written as a percentage.
fn percent(part: i128, whole: i128) -> (size: Option<String>)
    requires
        -0x1_0000_0000_0000_0000_0000_0000 <= part <= 0x1_0000_0000_0000_0000_0000_0000,
        -0x1_0000_0000_0000_0000_0000_0000 <= whole <= 0x1_0000_0000_0000_0000_0000_0000,
    ensures
        opt_text(size) == percent_text(part as int, whole as int),
{
    if whole == 0 {
        return None;
    }
    let p = part * 100;
    let a: i128 = if p < 0 {
        -p
    } else {
        p
    };
    let b: i128 = if whole < 0 {
        -whole
    } else {
        whole
    };
    let magnitude = (2 * a + b) / (2 * b);
    let ratio = if (p < 0) == (whole < 0) {
        magnitude
    } else {
        -magnitude
    };
    proof {
        reveal_strlit("%");
    }
    let mut size = signed_decimal_string(ratio);
    vstd::string::StringExecFns::append(&mut size, "%");
    assert(size@ =~= signed_decimal(rounded_ratio(part * 100, whole as int)) + seq!['%']);
    Some(size)
}

fn extent_of(layout: &Layout, axis: Axis) -> (e: i128)
    ensures
        e == extent(layout@, axis),
        0 <= e <= u32::MAX,
{
    match axis {
        Axis::Horizontal => layout.width() as i128,
        Axis::Vertical => layout.height() as i128,
    }
}

proof fn lemma_span_bounds(members: Seq<LayoutView>, k: int, axis: Axis)
    requires
        0 <= k < members.len(),
    ensures
        -(members.len() - k) <= span(members, k, axis) <= (members.len() - k) * 0xffff_ffff,
    decreases members.len() - k,
{
    if k < members.len() - 1 {
        lemma_span_bounds(members, k + 1, axis);
    }
}

impl Split {
    /// The layout that asks for the geometry `layout`.
    pub fn from_layout(layout: &Layout) -> (split: Split)
        ensures
            split@ == split_of(layout@),
            canonical(split@),
        decreases layout, 0nat,
    {
        proof {
            lemma_split_of_canonical(layout@);
        }
        match layout {
            Layout::Pane(_) => Split::default(),
            Layout::H(_, members) => chain_of(members, Axis::Horizontal),
            Layout::V(_, members) => chain_of(members, Axis::Vertical),
        }
    }
}

/// The layout of a group's members: built from the last member back to
/// the first.
fn chain_of(members: &Vec<Layout>, axis: Axis) -> (split: Split)
    ensures
        split@ == chain(layout_views(members@), 0, axis),
    decreases members, 1nat,
{
    let n = members.len();
    if n == 0 {
        return Split::default();
    }
    let ghost views = layout_views(members@);
    proof {
        lemma_layout_views(members@);
    }
    let mut k: usize = n - 1;
    let mut acc = Split::from_layout(&members[k]);
    let mut acc_extent: i128 = extent_of(&members[k], axis);
    while k > 0
        invariant
            0 <= k < n,
            n == members.len(),
            views == layout_views(members@),
            views.len() == n,
            forall|i: int| 0 <= i < n ==> #[trigger] views[i] == layout_view(members@[i]),
            acc@ == chain(views, k as int, axis),
            acc_extent == span(views, k as int, axis),
        decreases k,
    {
        k -= 1;
        let first = &members[k];
        proof {
            lemma_span_bounds(views, k as int, axis);
            lemma_span_bounds(views, k + 1, axis);
        }
        let whole = acc_extent + extent_of(first, axis) - 1;
        let size = percent(acc_extent, whole);
        let first_split = Split::from_layout(first);
        acc = match axis {
            Axis::Horizontal => Split::H {
                left: HSplitPart { width: None, split: Box::new(first_split) },
                right: HSplitPart { width: size, split: Box::new(acc) },
            },
            Axis::Vertical => Split::V {
                top: VSplitPart { height: None, split: Box::new(first_split) },
                bottom: VSplitPart { height: size, split: Box::new(acc) },
            },
        };
        acc_extent = whole;
    }
    acc
}

/// The number of panes in a geometry.
pub open spec fn leaves(layout: LayoutView) -> nat
    decreases layout, 0nat,
{
    match layout {
        LayoutView::Pane(_) => 1,
        LayoutView::H(_, members) => leaves_from(members, 0),
        LayoutView::V(_, members) => leaves_from(members, 0),
    }
}

/// The number of panes in the members from the `k`-th on.
pub open spec fn leaves_from(members: Seq<LayoutView>, k: int) -> nat
    decreases members, members.len() - k,
{
    if k < 0 || k >= members.len() {
        0
    } else {
        leaves(members[k]) + leaves_from(members, k + 1)
    }
}

/// Whether every group in a geometry has a member, as all that are read
/// from a descriptor have.
pub open spec fn no_empty_group(layout: LayoutView) -> bool
    decreases layout, 0nat,
{
    match layout {
        LayoutView::Pane(_) => true,
        LayoutView::H(_, members) => members.len() > 0 && no_empty_group_from(members, 0),
        LayoutView::V(_, members) => members.len() > 0 && no_empty_group_from(members, 0),
    }
}

pub open spec fn no_empty_group_from(members: Seq<LayoutView>, k: int) -> bool
    decreases members, members.len() - k,
{
    if k < 0 || k >= members.len() {
        true
    } else {
        no_empty_group(members[k]) && no_empty_group_from(members, k + 1)
    }
}

/// The layout made for a geometry has as many panes as the geometry,
/// provided that no group in it is empty.
pub proof fn lemma_pane_count_kept(layout: LayoutView)
    requires
        no_empty_group(layout),
    ensures
        panes(split_of(layout)).len() == leaves(layout),
    decreases layout, 0nat,
{
    match layout {
        LayoutView::Pane(_) => {},
        LayoutView::H(_, members) => {
            lemma_pane_count_kept_from(members, 0, Axis::Horizontal);
        },
        LayoutView::V(_, members) => {
            lemma_pane_count_kept_from(members, 0, Axis::Vertical);
        },
    }
}

pub proof fn lemma_pane_count_kept_from(members: Seq<LayoutView>, k: int, axis: Axis)
    requires
        0 <= k < members.len(),
        no_empty_group_from(members, k),
    ensures
        panes(chain(members, k, axis)).len() == leaves_from(members, k),
    decreases members, members.len() - k,
{
    lemma_pane_count_kept(members[k]);
    if k < members.len() - 1 {
        lemma_pane_count_kept_from(members, k + 1, axis);
    } else {
        assert(leaves_from(members, k + 1) == 0);
    }
}


pub proof fn lemma_no_empty_group_from(members: Seq<LayoutView>, k: int)
    requires
        0 <= k,
        forall|i: int| k <= i < members.len() ==> no_empty_group(#[trigger] members[i]),
    ensures
        no_empty_group_from(members, k),
    decreases members.len() - k,
{
    if k < members.len() {
        lemma_no_empty_group_from(members, k + 1);
    }
}

/// What is read at `i` ends behind `i`, and no group in it is empty.
pub proof fn lemma_split_at(s: Seq<char>, i: int)
    ensures
        match split_at(s, i) {
            Some((layout, end)) => i < end <= s.len() && no_empty_group(layout),
            None => true,
        },
    decreases s.len() - i, 0nat,
{
    match geom_at(s, i) {
        Some((geom, j)) => {
            if char_at(s, j, ',') {
                lemma_digits_end(s, j + 1);
            } else if char_at(s, j, '{') || char_at(s, j, '[') {
                lemma_children_at(s, j + 1);
                match children_at(s, j + 1) {
                    Some((children, k)) => {
                        lemma_no_empty_group_from(children, 0);
                    },
                    None => {},
                }
            }
        },
        None => {},
    }
}

/// The members read at `i` end behind `i`; there is at least one, and
/// no group in them is empty.
pub proof fn lemma_children_at(s: Seq<char>, i: int)
    ensures
        match children_at(s, i) {
            Some((children, end)) => i < end <= s.len() && children.len() >= 1 && forall|k: int|
                0 <= k < children.len() ==> no_empty_group(#[trigger] children[k]),
            None => true,
        },
    decreases s.len() - i, 1nat,
{
    lemma_split_at(s, i);
    match split_at(s, i) {
        Some((child, j)) => {
            if char_at(s, j, ',') {
                lemma_children_at(s, j + 1);
            }
        },
        None => {},
    }
}

pub proof fn lemma_digits_end(s: Seq<char>, i: int)
    requires
        0 <= i <= s.len(),
    ensures
        i <= digits_end(s, i) <= s.len(),
        forall|k: int| i <= k < digits_end(s, i) ==> is_digit(#[trigger] s[k]),
        digits_end(s, i) < s.len() ==> !is_digit(s[digits_end(s, i)]),
    decreases s.len() - i,
{
    if i < s.len() && is_digit(s[i]) {
        lemma_digits_end(s, i + 1);
    }
}

/// No group in the geometry that a descriptor writes is empty, and the
/// layout made for it has as many panes as the geometry.
pub proof fn lemma_layout_of(descriptor: Seq<char>)
    ensures
        match layout_of(descriptor) {
            Some(layout) => no_empty_group(layout) && panes(split_of(layout)).len() == leaves(
                layout,
            ),
            None => true,
        },
{
    match comma_from(descriptor, 0) {
        Some(comma) => {
            lemma_split_at(descriptor, comma + 1);
            match split_at(descriptor, comma + 1) {
                Some((layout, end)) => {
                    lemma_pane_count_kept(layout);
                },
                None => {},
            }
        },
        None => {},
    }
}


/// The layout made for a geometry asks for the size of one side of
/// each split at most.
pub proof fn lemma_split_of_canonical(layout: LayoutView)
    ensures
        canonical(split_of(layout)),
    decreases layout, 0nat,
{
    match layout {
        LayoutView::Pane(_) => {},
        LayoutView::H(_, members) => {
            lemma_chain_canonical(members, 0, Axis::Horizontal);
        },
        LayoutView::V(_, members) => {
            lemma_chain_canonical(members, 0, Axis::Vertical);
        },
    }
}

pub proof fn lemma_chain_canonical(members: Seq<LayoutView>, k: int, axis: Axis)
    ensures
        canonical(chain(members, k, axis)),
    decreases members, members.len() - k,
{
    if 0 <= k < members.len() {
        lemma_split_of_canonical(members[k]);
        if k < members.len() - 1 {
            lemma_chain_canonical(members, k + 1, axis);
        }
    }
}

} // verus!
