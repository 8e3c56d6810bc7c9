use vstd::prelude::*;
use crate::text::{decimal, digit_char};
use crate::tmux::layout::{char_at, children_at, comma_from, digit_value, digits_end, digits_value, geom_at, is_digit, layout_of, number_at, size_at, split_at, LayoutView, PaneGeom};

verus! {

/// A geometry as the multiplexer holds it: each pane has its number.
pub enum Described {
    Pane(PaneGeom, nat),
    H(PaneGeom, Seq<Described>),
    V(PaneGeom, Seq<Described>),
}

/// The geometry alone, without the numbers of the panes.
pub open spec fn geometry(described: Described) -> LayoutView
    decreases described, 0nat,
{
    match described {
        Described::Pane(geom, _) => LayoutView::Pane(geom),
        Described::H(geom, members) => LayoutView::H(geom, geometries_from(members, 0)),
        Described::V(geom, members) => LayoutView::V(geom, geometries_from(members, 0)),
    }
}

/// The geometries of the members from the `k`-th on.
pub open spec fn geometries_from(members: Seq<Described>, k: int) -> Seq<LayoutView>
    decreases members, members.len() - k,
{
    if k < 0 || k >= members.len() {
        Seq::empty()
    } else {
        seq![geometry(members[k])] + geometries_from(members, k + 1)
    }
}

/// `<width>x<height>,<x>,<y>`
pub open spec fn written_geom(geom: PaneGeom) -> Seq<char> {
    decimal(geom.size.width as nat) + seq!['x'] + decimal(geom.size.height as nat) + seq![','] + decimal(
        geom.x_offset as nat,
    ) + seq![','] + decimal(geom.y_offset as nat)
}

/// How the multiplexer writes a geometry: a pane as its geometry and
/// its number, a group as its geometry and its members between `{` and
/// `}` or `[` and `]`.
pub open spec fn written(described: Described) -> Seq<char>
    decreases described, 0nat,
{
    match described {
        Described::Pane(geom, number) => written_geom(geom) + seq![','] + decimal(number),
        Described::H(geom, members) => written_geom(geom) + seq!['{'] + written_members(members, 0)
            + seq!['}'],
        Described::V(geom, members) => written_geom(geom) + seq!['['] + written_members(members, 0)
            + seq![']'],
    }
}

/// The members from the `k`-th on, with `,` between them.
pub open spec fn written_members(members: Seq<Described>, k: int) -> Seq<char>
    decreases members, members.len() - k,
{
    if k < 0 || k >= members.len() {
        Seq::empty()
    } else if k == members.len() - 1 {
        written(members[k])
    } else {
        written(members[k]) + seq![','] + written_members(members, k + 1)
    }
}

/// Whether every group has two members or more, as the multiplexer's
/// groups have.
pub open spec fn well_grouped(described: Described) -> bool
    decreases described, 0nat,
{
    match described {
        Described::Pane(_, _) => true,
        Described::H(_, members) => members.len() >= 2 && well_grouped_from(members, 0),
        Described::V(_, members) => members.len() >= 2 && well_grouped_from(members, 0),
    }
}

pub open spec fn well_grouped_from(members: Seq<Described>, k: int) -> bool
    decreases members, members.len() - k,
{
    if k < 0 || k >= members.len() {
        true
    } else {
        well_grouped(members[k]) && well_grouped_from(members, k + 1)
    }
}

/// The descriptor of a geometry: a checksum, `,` and the geometry.
pub open spec fn descriptor(checksum: Seq<char>, described: Described) -> Seq<char> {
    checksum + seq![','] + written(described)
}

/// Whether `w` stands in `s` at `i`.
pub open spec fn occurs(s: Seq<char>, i: int, w: Seq<char>) -> bool {
    &&& 0 <= i
    &&& i + w.len() <= s.len()
    &&& forall|k: int| 0 <= k < w.len() ==> s[i + k] == #[trigger] w[k]
}

/// Whether no digit stands in `s` at `i`.
pub open spec fn no_digit_at(s: Seq<char>, i: int) -> bool {
    i >= s.len() || !is_digit(s[i])
}

proof fn lemma_occurs_parts(s: Seq<char>, i: int, a: Seq<char>, b: Seq<char>)
    requires
        occurs(s, i, a + b),
    ensures
        occurs(s, i, a),
        occurs(s, i + a.len(), b),
{
    assert forall|k: int| 0 <= k < a.len() implies s[i + k] == #[trigger] a[k] by {
        assert((a + b)[k] == a[k]);
    }
    assert forall|k: int| 0 <= k < b.len() implies s[i + a.len() + k] == #[trigger] b[k] by {
        assert((a + b)[a.len() + k] == b[k]);
    }
}

proof fn lemma_digit_char(d: nat)
    requires
        d < 10,
    ensures
        is_digit(digit_char(d)),
        digit_value(digit_char(d)) == d,
{
}

proof fn lemma_decimal_digits(n: nat)
    ensures
        decimal(n).len() >= 1,
        forall|k: int| 0 <= k < decimal(n).len() ==> is_digit(#[trigger] decimal(n)[k]),
    decreases n,
{
    if n < 10 {
        lemma_digit_char(n);
    } else {
        lemma_decimal_digits(n / 10);
        lemma_digit_char(n % 10);
    }
}

proof fn lemma_digits_value_same(s: Seq<char>, i: int, t: Seq<char>, j: int, m: int)
    requires
        0 <= m,
        0 <= i,
        i + m <= s.len(),
        0 <= j,
        j + m <= t.len(),
        s.subrange(i, i + m) == t.subrange(j, j + m),
    ensures
        digits_value(s, i, i + m) == digits_value(t, j, j + m),
    decreases m,
{
    if m > 0 {
        assert(s.subrange(i, i + m - 1) =~= s.subrange(i, i + m).subrange(0, m - 1));
        assert(t.subrange(j, j + m - 1) =~= t.subrange(j, j + m).subrange(0, m - 1));
        lemma_digits_value_same(s, i, t, j, m - 1);
        assert(s[i + m - 1] == s.subrange(i, i + m)[m - 1]);
        assert(t[j + m - 1] == t.subrange(j, j + m)[m - 1]);
    }
}

proof fn lemma_decimal_value(n: nat)
    ensures
        digits_value(decimal(n), 0, decimal(n).len() as int) == n,
    decreases n,
{
    if n < 10 {
        lemma_digit_char(n);
        assert(digits_value(decimal(n), 0, 0) == 0);
    } else {
        let shorter = decimal(n / 10);
        let whole = decimal(n);
        lemma_decimal_value(n / 10);
        lemma_digit_char(n % 10);
        assert(whole == shorter.push(digit_char(n % 10)));
        assert(whole.subrange(0, shorter.len() as int) =~= shorter.subrange(
            0,
            shorter.len() as int,
        ));
        lemma_digits_value_same(whole, 0, shorter, 0, shorter.len() as int);
        assert(whole[whole.len() - 1] == digit_char(n % 10));
    }
}

proof fn lemma_digits_end_run(s: Seq<char>, i: int, e: int)
    requires
        0 <= i <= e <= s.len(),
        forall|k: int| i <= k < e ==> is_digit(#[trigger] s[k]),
        no_digit_at(s, e),
    ensures
        digits_end(s, i) == e,
    decreases e - i,
{
    if i < e {
        lemma_digits_end_run(s, i + 1, e);
    }
}

/// Where the decimal notation of a number stands and no digit follows,
/// the digits that are read are those of the number.
proof fn lemma_digits_of_decimal(s: Seq<char>, i: int, n: nat)
    requires
        occurs(s, i, decimal(n)),
        no_digit_at(s, i + decimal(n).len()),
    ensures
        digits_end(s, i) == i + decimal(n).len(),
        digits_end(s, i) > i,
        digits_value(s, i, i + decimal(n).len()) == n,
{
    let w = decimal(n);
    lemma_decimal_digits(n);
    lemma_decimal_value(n);
    assert forall|k: int| i <= k < i + w.len() implies is_digit(#[trigger] s[k]) by {
        assert(s[i + (k - i)] == w[k - i]);
    }
    lemma_digits_end_run(s, i, i + w.len());
    assert forall|k: int| 0 <= k < w.len() implies s.subrange(i, i + w.len())[k] == w[k] by {
        assert(s[i + k] == w[k]);
    }
    assert(s.subrange(i, i + w.len()) =~= w.subrange(0, w.len() as int));
    lemma_digits_value_same(s, i, w, 0, w.len() as int);
}

proof fn lemma_number_at(s: Seq<char>, i: int, n: u32)
    requires
        occurs(s, i, decimal(n as nat)),
        no_digit_at(s, i + decimal(n as nat).len()),
    ensures
        number_at(s, i) == Some((n, i + decimal(n as nat).len())),
{
    lemma_digits_of_decimal(s, i, n as nat);
}

proof fn lemma_char_at(s: Seq<char>, i: int, c: char)
    requires
        occurs(s, i, seq![c]),
    ensures
        char_at(s, i, c),
        c != ',' ==> !char_at(s, i, ','),
        !is_digit(c) ==> no_digit_at(s, i),
{
    assert(s[i + 0] == seq![c][0]);
}

proof fn lemma_geom_at(s: Seq<char>, i: int, geom: PaneGeom)
    requires
        occurs(s, i, written_geom(geom)),
        no_digit_at(s, i + written_geom(geom).len()),
    ensures
        geom_at(s, i) == Some((geom, i + written_geom(geom).len())),
{
    let w = decimal(geom.size.width as nat);
    let h = decimal(geom.size.height as nat);
    let x = decimal(geom.x_offset as nat);
    let y = decimal(geom.y_offset as nat);
    let part_a = w + seq!['x'];
    let part_b = part_a + h;
    let part_c = part_b + seq![','];
    let part_d = part_c + x;
    let part_e = part_d + seq![','];
    assert(written_geom(geom) == part_e + y);
    lemma_occurs_parts(s, i, part_e, y);
    lemma_occurs_parts(s, i, part_d, seq![',']);
    lemma_occurs_parts(s, i, part_c, x);
    lemma_occurs_parts(s, i, part_b, seq![',']);
    lemma_occurs_parts(s, i, part_a, h);
    lemma_occurs_parts(s, i, w, seq!['x']);
    lemma_char_at(s, i + w.len(), 'x');
    lemma_char_at(s, i + part_b.len(), ',');
    lemma_char_at(s, i + part_d.len(), ',');
    lemma_number_at(s, i, geom.size.width);
    lemma_number_at(s, i + part_a.len(), geom.size.height);
    lemma_number_at(s, i + part_c.len(), geom.x_offset);
    lemma_number_at(s, i + part_e.len(), geom.y_offset);
    assert(size_at(s, i) == Some((geom.size, i + part_b.len())));
}

proof fn lemma_geometries_len(members: Seq<Described>, k: int)
    requires
        0 <= k <= members.len(),
    ensures
        geometries_from(members, k).len() == members.len() - k,
    decreases members.len() - k,
{
    if k < members.len() {
        lemma_geometries_len(members, k + 1);
    }
}

/// Where a geometry is written and no digit follows, it is read.
proof fn lemma_written_is_read(s: Seq<char>, i: int, described: Described)
    requires
        well_grouped(described),
        occurs(s, i, written(described)),
        no_digit_at(s, i + written(described).len()),
    ensures
        split_at(s, i) == Some((geometry(described), i + written(described).len())),
    decreases described, 0nat,
{
    match described {
        Described::Pane(geom, number) => {
            let g = written_geom(geom);
            let part_a = g + seq![','];
            lemma_occurs_parts(s, i, part_a, decimal(number));
            lemma_occurs_parts(s, i, g, seq![',']);
            lemma_char_at(s, i + g.len(), ',');
            lemma_geom_at(s, i, geom);
            lemma_digits_of_decimal(s, i + part_a.len(), number);
        },
        Described::H(geom, members) => {
            let g = written_geom(geom);
            let part_a = g + seq!['{'];
            let m = written_members(members, 0);
            let part_b = part_a + m;
            lemma_occurs_parts(s, i, part_b, seq!['}']);
            lemma_occurs_parts(s, i, part_a, m);
            lemma_occurs_parts(s, i, g, seq!['{']);
            lemma_char_at(s, i + g.len(), '{');
            lemma_char_at(s, i + part_b.len(), '}');
            lemma_geom_at(s, i, geom);
            lemma_members_are_read(s, i + part_a.len(), members, 0);
            lemma_geometries_len(members, 0);
        },
        Described::V(geom, members) => {
            let g = written_geom(geom);
            let part_a = g + seq!['['];
            let m = written_members(members, 0);
            let part_b = part_a + m;
            lemma_occurs_parts(s, i, part_b, seq![']']);
            lemma_occurs_parts(s, i, part_a, m);
            lemma_occurs_parts(s, i, g, seq!['[']);
            lemma_char_at(s, i + g.len(), '[');
            lemma_char_at(s, i + part_b.len(), ']');
            lemma_geom_at(s, i, geom);
            lemma_members_are_read(s, i + part_a.len(), members, 0);
            lemma_geometries_len(members, 0);
        },
    }
}

/// Where the members of a group are written and neither a digit nor `,`
/// follows, they are read.
proof fn lemma_members_are_read(s: Seq<char>, i: int, members: Seq<Described>, k: int)
    requires
        0 <= k < members.len(),
        well_grouped_from(members, k),
        occurs(s, i, written_members(members, k)),
        no_digit_at(s, i + written_members(members, k).len()),
        !char_at(s, i + written_members(members, k).len(), ','),
    ensures
        children_at(s, i) == Some(
            (geometries_from(members, k), i + written_members(members, k).len()),
        ),
    decreases members, members.len() - k,
{
    let first = written(members[k]);
    if k == members.len() - 1 {
        lemma_written_is_read(s, i, members[k]);
        assert(geometries_from(members, k + 1) =~= Seq::<LayoutView>::empty());
        assert(geometries_from(members, k) =~= seq![geometry(members[k])]);
    } else {
        let part_a = first + seq![','];
        let rest = written_members(members, k + 1);
        lemma_occurs_parts(s, i, part_a, rest);
        lemma_occurs_parts(s, i, first, seq![',']);
        lemma_char_at(s, i + first.len(), ',');
        lemma_written_is_read(s, i, members[k]);
        lemma_members_are_read(s, i + part_a.len(), members, k + 1);
    }
}

proof fn lemma_comma_from(s: Seq<char>, i: int, comma: int)
    requires
        0 <= i <= comma < s.len(),
        s[comma] == ',',
        forall|k: int| i <= k < comma ==> s[k] != ',',
    ensures
        comma_from(s, i) == Some(comma),
    decreases comma - i,
{
    if i < comma {
        lemma_comma_from(s, i + 1, comma);
    }
}

/// The descriptor that the multiplexer writes for a geometry is read
/// as that geometry, whose size is therefore the one that the
/// descriptor begins with. The checksum holds no `,`.
pub proof fn lemma_descriptor_is_read(checksum: Seq<char>, described: Described)
    requires
        well_grouped(described),
        forall|k: int| 0 <= k < checksum.len() ==> checksum[k] != ',',
    ensures
        layout_of(descriptor(checksum, described)) == Some(geometry(described)),
        geometry(described).geom() == match described {
            Described::Pane(geom, _) => geom,
            Described::H(geom, _) => geom,
            Described::V(geom, _) => geom,
        },
{
    let s = descriptor(checksum, described);
    let head = checksum + seq![','];
    assert(s == head + written(described));
    assert(occurs(s, 0, head + written(described)));
    lemma_occurs_parts(s, 0, head, written(described));
    assert(s[checksum.len() as int] == ',');
    assert forall|k: int| 0 <= k < checksum.len() implies s[k] != ',' by {
        assert(s[k] == checksum[k]);
    }
    lemma_comma_from(s, 0, checksum.len() as int);
    lemma_written_is_read(s, head.len() as int, described);
}

} // verus!
