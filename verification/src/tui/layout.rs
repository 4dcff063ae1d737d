use ratatui::layout::{Constraint as Share, Direction as Axis, Layout, Rect as Area};
use vstd::prelude::*;
use crate::tree::surface::Rect;

verus! {

/// The axis along which an area is cut.
#[derive(Clone, Copy, Debug, PartialEq, Eq, Structural)]
pub enum Direction {
    Horizontal,
    Vertical,
}

/// How much of an area one piece asks for.
#[derive(Clone, Copy, Debug, PartialEq, Eq, Structural)]
pub enum Constraint {
    /// Exactly this many cells.
    Length(u16),
    /// At least this many cells.
    Min(u16),
    /// This many hundredths of the area.
    Percentage(u16),
}

/// The area that is left inside a margin of `margin` cells on every side;
/// no area where the margin does not fit twice.
pub open spec fn shrunk(area: Rect, margin: u16) -> Rect {
    let doubled = if 2 * margin <= u16::MAX {
        (2 * margin) as u16
    } else {
        u16::MAX
    };
    if area.width < doubled || area.height < doubled {
        Rect { x: 0, y: 0, width: 0, height: 0 }
    } else {
        Rect {
            x: if area.x + margin <= u16::MAX { (area.x + margin) as u16 } else { u16::MAX },
            y: if area.y + margin <= u16::MAX { (area.y + margin) as u16 } else { u16::MAX },
            width: (area.width - doubled) as u16,
            height: (area.height - doubled) as u16,
        }
    }
}

/// The pieces lie side by side across the whole `inner` area when the cut is
/// horizontal, one below the other across its whole width when it is
/// vertical.
pub open spec fn cut_across(pieces: Seq<Rect>, direction: Direction, inner: Rect) -> bool {
    forall|i: int|
        0 <= i < pieces.len() ==> match direction {
            Direction::Horizontal => (#[trigger] pieces[i]).y == inner.y && pieces[i].height
                == inner.height,
            Direction::Vertical => (#[trigger] pieces[i]).x == inner.x && pieces[i].width
                == inner.width,
        }
}

/// Along the cut no piece reaches out of the `inner` area: none starts
/// before it, none ends behind it.
pub open spec fn cut_within(pieces: Seq<Rect>, direction: Direction, inner: Rect) -> bool {
    forall|i: int|
        0 <= i < pieces.len() ==> match direction {
            Direction::Horizontal => inner.x <= (#[trigger] pieces[i]).x && pieces[i].right()
                <= inner.right(),
            Direction::Vertical => inner.y <= (#[trigger] pieces[i]).y && pieces[i].bottom()
                <= inner.bottom(),
        }
}

/// Whether every cell of `piece` is a cell of `area`, edges included: the
/// piece starts and ends within the area in both directions.
pub open spec fn lies_within(piece: Rect, area: Rect) -> bool {
    &&& area.x <= piece.x && piece.right() <= area.right()
    &&& area.y <= piece.y && piece.bottom() <= area.bottom()
}

/// Whether `pieces` is what `ratatui`'s `Layout::split` gives for a layout
/// with this direction, margin and constraints on this area. The solver may
/// have more than one answer for a cut, so this relates a cut to its pieces
/// and does not name them.
pub uninterp spec fn cut_of(
    direction: Direction,
    margin: u16,
    constraints: Seq<Constraint>,
    area: Rect,
    pieces: Seq<Rect>,
) -> bool;

/// Calls `ratatui`'s `Layout::split` on a layout with the given direction,
/// margin and constraints.
///
/// Not proved: that the pieces are a cut of the area as [`cut_of`] has it;
/// that there is one piece for each constraint; that each piece keeps, across
/// the direction of the cut, the place and size of the area inside the
/// margin; and that along the cut each piece starts and ends within that
/// area, which the layout asks of its solver as a required constraint on
/// every edge. How the solver shares the area out among the pieces is its own
/// affair, and nothing is claimed of it.
#[verifier::external_body]
pub(crate) fn split(
    direction: Direction,
    margin: u16,
    constraints: &Vec<Constraint>,
    area: Rect,
) -> (pieces: Vec<Rect>)
    ensures
        cut_of(direction, margin, constraints@, area, pieces@),
        pieces@.len() == constraints@.len(),
        cut_across(pieces@, direction, shrunk(area, margin)),
        cut_within(pieces@, direction, shrunk(area, margin)),
{
    let asked = constraints.iter().map(
        |c| match c {
            Constraint::Length(n) => Share::Length(*n),
            Constraint::Min(n) => Share::Min(*n),
            Constraint::Percentage(n) => Share::Percentage(*n),
        },
    );
    let along = match direction {
        Direction::Horizontal => Axis::Horizontal,
        Direction::Vertical => Axis::Vertical,
    };
    let whole = Area { x: area.x, y: area.y, width: area.width, height: area.height };
    let cut = Layout::default().direction(along).margin(margin).constraints(asked);
    cut.split(whole).iter().map(|r| Rect { x: r.x, y: r.y, width: r.width, height: r.height }).collect()
}

/// The three shares of a cut that centres a piece of `percent` hundredths:
/// the piece, and half of the rest on either side.
pub open spec fn centered_shares(percent: u16) -> Seq<Constraint> {
    seq![
        Constraint::Percentage(((100 - percent) / 2) as u16),
        Constraint::Percentage(percent),
        Constraint::Percentage(((100 - percent) / 2) as u16),
    ]
}

/// The constraints that centre a piece of `percent` hundredths.
pub fn centered_constraints(percent: u16) -> (shares: Vec<Constraint>)
    requires
        percent <= 100,
    ensures
        shares@ == centered_shares(percent),
{
    let side = (100 - percent) / 2;
    let mut shares: Vec<Constraint> = Vec::new();
    shares.push(Constraint::Percentage(side));
    shares.push(Constraint::Percentage(percent));
    shares.push(Constraint::Percentage(side));
    shares
}

/// Whether `middle` is a centred piece of `rect` that takes `x` hundredths
/// of its width and `y` hundredths of its height: the middle one of three
/// columns that are cut, with `x` for the middle share, from the middle one of
/// three rows that are cut from `rect`, with `y` for the middle share.
pub open spec fn centered_in(rect: Rect, x: u16, y: u16, middle: Rect) -> bool {
    exists|rows: Seq<Rect>, columns: Seq<Rect>|
        rows.len() == 3 && columns.len() == 3 && #[trigger] cut_of(
            Direction::Vertical,
            0,
            centered_shares(y),
            rect,
            rows,
        ) && #[trigger] cut_of(Direction::Horizontal, 0, centered_shares(x), rows[1], columns)
            && middle == columns[1]
}

/// The area in the middle of `rect` that takes `x` hundredths of its width
/// and `y` hundredths of its height, as the layout solver cuts it: first the
/// middle of three pieces from top to bottom, then the middle of three pieces
/// of that from left to right.
///
/// The area lies within `rect`. Its exact place and size are the solver's.
pub fn centered_rect(rect: Rect, x: u16, y: u16) -> (middle: Rect)
    requires
        x <= 100,
        y <= 100,
    ensures
        centered_in(rect, x, y, middle),
        lies_within(middle, rect),
{
    let rows = split(Direction::Vertical, 0, &centered_constraints(y), rect);
    let row = rows[1];
    assert(lies_within(row, rect));
    let columns = split(Direction::Horizontal, 0, &centered_constraints(x), row);
    assert(cut_of(Direction::Horizontal, 0, centered_shares(x), rows@[1], columns@));
    columns[1]
}

} // verus!
