use vstd::prelude::*;
use vstd::string::{StrSliceExecFns, StringExecFns};
use crate::pairs::Pairs;
use crate::tree::surface::{Color, Rect, Style};
use crate::tui::app::{App, Screen};
use crate::tui::layout::{
    centered_in, centered_rect, cut_of, lies_within, shrunk, split, Constraint, Direction,
};

verus! {

/// A run of text in one style.
#[derive(Clone, Debug, PartialEq, Eq)]
pub struct Piece {
    pub text: String,
    pub style: Style,
}

/// One thing to draw: a block with its content.
#[derive(Clone, Debug, PartialEq, Eq)]
pub struct Panel {
    /// Where it is drawn.
    pub area: Rect,
    /// The title on the block's top edge.
    pub title: Option<&'static str>,
    /// Whether the block has a border on all four sides.
    pub bordered: bool,
    /// The style of the whole block.
    pub style: Style,
    /// Whether each piece is a line of its own, rather than all of them one
    /// line.
    pub stacked: bool,
    pub pieces: Vec<Piece>,
}

/// A piece with its text as a sequence of characters.
pub struct PieceView {
    pub text: Seq<char>,
    pub style: Style,
}

/// A panel with its texts as sequences of characters.
pub struct PanelView {
    pub area: Rect,
    pub title: Option<Seq<char>>,
    pub bordered: bool,
    pub style: Style,
    pub stacked: bool,
    pub pieces: Seq<PieceView>,
}

impl View for Piece {
    type V = PieceView;

    open spec fn view(&self) -> PieceView {
        PieceView { text: self.text@, style: self.style }
    }
}

/// The views of a sequence of pieces.
pub open spec fn piece_views(pieces: Seq<Piece>) -> Seq<PieceView> {
    Seq::new(pieces.len(), |i: int| pieces[i]@)
}

impl View for Panel {
    type V = PanelView;

    open spec fn view(&self) -> PanelView {
        PanelView {
            area: self.area,
            title: match self.title {
                Some(t) => Some(t@),
                None => None,
            },
            bordered: self.bordered,
            style: self.style,
            stacked: self.stacked,
            pieces: piece_views(self.pieces@),
        }
    }
}

/// The views of a sequence of panels.
pub open spec fn panel_views(panels: Seq<Panel>) -> Seq<PanelView> {
    Seq::new(panels.len(), |i: int| panels[i]@)
}

/// Where the panels go. The three areas of the popup are there while a pair
/// is edited.
#[derive(Clone, Copy, Debug, PartialEq, Eq)]
pub struct Areas {
    pub title: Rect,
    pub list: Rect,
    pub mode: Rect,
    pub hint: Rect,
    pub popup: Option<(Rect, Rect, Rect)>,
}

/// A style that sets the foreground colour alone.
pub open spec fn fg(color: Color) -> Style {
    Style { fg: Some(color), bg: None }
}

/// The style that sets nothing.
pub open spec fn unstyled() -> Style {
    Style { fg: None, bg: None }
}

/// The style of the input that takes the keys.
pub open spec fn active_style() -> Style {
    Style { fg: Some(Color::Black), bg: Some(Color::LightYellow) }
}

/// `n` spaces; none where `n` is not positive.
pub open spec fn spaces(n: int) -> Seq<char> {
    Seq::new(
        if n > 0 {
            n as nat
        } else {
            0
        },
        |i: int| ' ',
    )
}

/// A pair as one line of the list: the key, filled up with spaces to 25
/// characters, a colon between spaces, the value.
pub open spec fn pair_line_text(key: Seq<char>, value: Seq<char>) -> Seq<char> {
    key + spaces(25 - key.len()) + " : "@ + value
}

/// The lines of the list: one yellow line for each pair, in order.
pub open spec fn list_pieces(entries: Seq<(Seq<char>, Seq<char>)>) -> Seq<PieceView> {
    Seq::new(
        entries.len(),
        |i: int|
            PieceView {
                text: pair_line_text(entries[i].0, entries[i].1),
                style: fg(Color::Yellow),
            },
    )
}

/// The line that tells the mode: whether anything is edited, a divider, and
/// what is edited.
pub open spec fn mode_pieces(screen: Screen) -> Seq<PieceView> {
    seq![
        match screen {
            Screen::Main => PieceView { text: "Normal Mode"@, style: fg(Color::Green) },
            _ => PieceView { text: "Editing mode"@, style: fg(Color::Yellow) },
        },
        PieceView { text: " | "@, style: fg(Color::White) },
        match screen {
            Screen::Key => PieceView { text: "Editing JSON Key"@, style: fg(Color::Green) },
            Screen::Main => PieceView {
                text: "Not Editing Anything"@,
                style: fg(Color::DarkGray),
            },
            Screen::Value => PieceView {
                text: "Editing JSON Value"@,
                style: fg(Color::LightGreen),
            },
        },
    ]
}

/// The line that tells the keys to press.
pub open spec fn hint_pieces(screen: Screen) -> Seq<PieceView> {
    seq![
        match screen {
            Screen::Main => PieceView {
                text: "(q) to quit / (e) to make new pair"@,
                style: fg(Color::Red),
            },
            _ => PieceView {
                text: "(ESC) to cancel / (TAB) to switch / (ENTER) to accept"@,
                style: fg(Color::Red),
            },
        },
    ]
}

/// The four panels that are always drawn: title, list, mode and hint.
pub open spec fn base_panels(
    areas: Areas,
    entries: Seq<(Seq<char>, Seq<char>)>,
    screen: Screen,
) -> Seq<PanelView> {
    seq![
        PanelView {
            area: areas.title,
            title: None,
            bordered: true,
            style: unstyled(),
            stacked: false,
            pieces: seq![PieceView { text: "Create New JSON"@, style: fg(Color::Green) }],
        },
        PanelView {
            area: areas.list,
            title: None,
            bordered: false,
            style: unstyled(),
            stacked: true,
            pieces: list_pieces(entries),
        },
        PanelView {
            area: areas.mode,
            title: None,
            bordered: true,
            style: unstyled(),
            stacked: false,
            pieces: mode_pieces(screen),
        },
        PanelView {
            area: areas.hint,
            title: None,
            bordered: true,
            style: unstyled(),
            stacked: false,
            pieces: hint_pieces(screen),
        },
    ]
}

/// The three panels of the popup: its background, the key and the value. The
/// one that takes the keys is shown in the active style.
pub open spec fn popup_panels(
    around: Rect,
    left: Rect,
    right: Rect,
    key: Seq<char>,
    value: Seq<char>,
    screen: Screen,
) -> Seq<PanelView> {
    seq![
        PanelView {
            area: around,
            title: Some("Enter a new key-value pair"@),
            bordered: false,
            style: Style { fg: None, bg: Some(Color::DarkGray) },
            stacked: false,
            pieces: Seq::empty(),
        },
        PanelView {
            area: left,
            title: Some("Key"@),
            bordered: true,
            style: if screen == Screen::Key {
                active_style()
            } else {
                unstyled()
            },
            stacked: false,
            pieces: seq![PieceView { text: key, style: unstyled() }],
        },
        PanelView {
            area: right,
            title: Some("Value"@),
            bordered: true,
            style: if screen == Screen::Key {
                unstyled()
            } else {
                active_style()
            },
            stacked: false,
            pieces: seq![PieceView { text: value, style: unstyled() }],
        },
    ]
}

/// Everything that is drawn, in the order in which it is drawn: the four base
/// panels, and the popup on top of them while a pair is edited and there is a
/// place for it.
pub open spec fn scene(
    areas: Areas,
    key: Seq<char>,
    value: Seq<char>,
    entries: Seq<(Seq<char>, Seq<char>)>,
    screen: Screen,
) -> Seq<PanelView> {
    match areas.popup {
        Some((around, left, right)) => if screen != Screen::Main {
            base_panels(areas, entries, screen) + popup_panels(
                around,
                left,
                right,
                key,
                value,
                screen,
            )
        } else {
            base_panels(areas, entries, screen)
        },
        None => base_panels(areas, entries, screen),
    }
}

/// The shares of the three rows of the screen: three cells for the title,
/// at least one for the list, three for the row of mode and hint.
pub open spec fn row_shares() -> Seq<Constraint> {
    seq![Constraint::Length(3), Constraint::Min(1), Constraint::Length(3)]
}

/// Two equal shares.
pub open spec fn half_shares() -> Seq<Constraint> {
    seq![Constraint::Percentage(50), Constraint::Percentage(50)]
}

/// The popup with the pieces of its inside as a sequence.
pub open spec fn popup_view(popup: Option<(Rect, Vec<Rect>)>) -> Option<(Rect, Seq<Rect>)> {
    match popup {
        Some((around, inputs)) => Some((around, inputs@)),
        None => None,
    }
}

/// The areas that the pieces of the cuts make: the first row is the title,
/// the second the list; the first half of the third row is the mode, the
/// second the hint; the first piece inside the popup is the key, the second
/// the value.
pub open spec fn assembled(
    rows: Seq<Rect>,
    footer: Seq<Rect>,
    popup: Option<(Rect, Seq<Rect>)>,
) -> Areas {
    Areas {
        title: rows[0],
        list: rows[1],
        mode: footer[0],
        hint: footer[1],
        popup: match popup {
            Some((around, inputs)) => Some((around, inputs[0], inputs[1])),
            None => None,
        },
    }
}

/// Whether the pieces are the cuts that the screen of the editor is made of:
/// `rows` is `size` cut from top to bottom by [`row_shares`], `footer` is the
/// third row cut in halves from left to right, and the popup is there exactly
/// while a pair is edited: a centred piece of `size`, 60 hundredths wide and
/// 25 high, with the area inside a margin of one cell cut in halves from left
/// to right.
pub open spec fn cuts_of_screen(
    size: Rect,
    screen: Screen,
    rows: Seq<Rect>,
    footer: Seq<Rect>,
    popup: Option<(Rect, Seq<Rect>)>,
) -> bool {
    &&& rows.len() == 3
    &&& cut_of(Direction::Vertical, 0, row_shares(), size, rows)
    &&& footer.len() == 2
    &&& cut_of(Direction::Horizontal, 0, half_shares(), rows[2], footer)
    &&& match popup {
        Some((around, inputs)) => {
            &&& screen != Screen::Main
            &&& centered_in(size, 60, 25, around)
            &&& inputs.len() == 2
            &&& cut_of(Direction::Horizontal, 1, half_shares(), around, inputs)
        },
        None => screen == Screen::Main,
    }
}

/// What holds of the areas that the layout cuts from `size`.
///
/// They are assembled from the cuts of the screen as [`cuts_of_screen`] and
/// [`assembled`] say. Title, list, mode and hint lie within `size`; title and
/// list span its width; mode and hint share one row. The popup, where there
/// is one, lies within `size`, and its two inputs lie within the area that a
/// margin of one cell leaves of it, side by side in one row.
pub open spec fn laid_out(size: Rect, areas: Areas, screen: Screen) -> bool {
    &&& exists|rows: Seq<Rect>, footer: Seq<Rect>, popup: Option<(Rect, Seq<Rect>)>|
        cuts_of_screen(size, screen, rows, footer, popup) && areas == #[trigger] assembled(
            rows,
            footer,
            popup,
        )
    &&& lies_within(areas.title, size) && lies_within(areas.list, size)
    &&& lies_within(areas.mode, size) && lies_within(areas.hint, size)
    &&& areas.title.x == size.x && areas.title.width == size.width
    &&& areas.list.x == size.x && areas.list.width == size.width
    &&& areas.mode.y == areas.hint.y && areas.mode.height == areas.hint.height
    &&& areas.popup matches Some((around, left, right)) ==> {
        &&& lies_within(around, size)
        &&& lies_within(left, shrunk(around, 1)) && lies_within(right, shrunk(around, 1))
        &&& left.y == right.y && left.height == right.height
    }
}

/// A piece of the given text with the given foreground colour.
fn colored(text: &str, color: Color) -> (piece: Piece)
    ensures
        piece@ == (PieceView { text: text@, style: fg(color) }),
{
    Piece { text: String::from_str(text), style: Style { fg: Some(color), bg: None } }
}

/// A panel without a title that holds the given pieces.
fn plain_panel(area: Rect, bordered: bool, stacked: bool, pieces: Vec<Piece>) -> (panel: Panel)
    ensures
        panel@ == (PanelView {
            area,
            title: None,
            bordered,
            style: unstyled(),
            stacked,
            pieces: piece_views(pieces@),
        }),
{
    Panel { area, title: None, bordered, style: Style { fg: None, bg: None }, stacked, pieces }
}

/// Writes a pair as one line of the list.
pub fn pair_line(key: &str, value: &str) -> (line: String)
    ensures
        line@ == pair_line_text(key@, value@),
{
    let mut line = String::new();
    line.append(key);
    let mut filled: usize = key.unicode_len();
    proof {
        reveal_strlit(" ");
    }
    while filled < 25
        invariant
            key@.len() <= filled,
            filled <= 25 || filled == key@.len(),
            line@ == key@ + spaces(filled - key@.len()),
            " "@ == seq![' '],
        decreases 25 - filled,
    {
        line.append(" ");
        filled = filled + 1;
    }
    line.append(" : ");
    line.append(value);
    line
}

/// The lines of the list.
fn list_of(pairs: &Pairs) -> (pieces: Vec<Piece>)
    ensures
        piece_views(pieces@) == list_pieces(pairs.entries()),
{
    let mut pieces: Vec<Piece> = Vec::new();
    let n = pairs.len();
    let mut i: usize = 0;
    while i < n
        invariant
            n == pairs.entries().len(),
            i <= n,
            pieces@.len() == i,
            forall|j: int| 0 <= j < i ==> (#[trigger] pieces@[j])@ == list_pieces(pairs.entries())[j],
        decreases n - i,
    {
        let text = pair_line(pairs.key_at(i).as_str(), pairs.value_at(i).as_str());
        pieces.push(Piece { text, style: Style { fg: Some(Color::Yellow), bg: None } });
        i = i + 1;
    }
    pieces
}

/// The line that tells the mode.
fn mode_of(screen: Screen) -> (pieces: Vec<Piece>)
    ensures
        piece_views(pieces@) == mode_pieces(screen),
{
    let mut pieces: Vec<Piece> = Vec::new();
    pieces.push(
        match screen {
            Screen::Main => colored("Normal Mode", Color::Green),
            _ => colored("Editing mode", Color::Yellow),
        },
    );
    pieces.push(colored(" | ", Color::White));
    pieces.push(
        match screen {
            Screen::Key => colored("Editing JSON Key", Color::Green),
            Screen::Main => colored("Not Editing Anything", Color::DarkGray),
            Screen::Value => colored("Editing JSON Value", Color::LightGreen),
        },
    );
    pieces
}

/// The line that tells the keys to press.
fn hint_of(screen: Screen) -> (pieces: Vec<Piece>)
    ensures
        piece_views(pieces@) == hint_pieces(screen),
{
    let mut pieces: Vec<Piece> = Vec::new();
    pieces.push(
        match screen {
            Screen::Main => colored("(q) to quit / (e) to make new pair", Color::Red),
            _ => colored("(ESC) to cancel / (TAB) to switch / (ENTER) to accept", Color::Red),
        },
    );
    pieces
}

/// One input of the popup.
fn input_panel(area: Rect, title: &'static str, text: &String, active: bool) -> (panel: Panel)
    ensures
        panel@ == (PanelView {
            area,
            title: Some(title@),
            bordered: true,
            style: if active {
                active_style()
            } else {
                unstyled()
            },
            stacked: false,
            pieces: seq![PieceView { text: text@, style: unstyled() }],
        }),
{
    let mut pieces: Vec<Piece> = Vec::new();
    pieces.push(Piece { text: text.clone(), style: Style { fg: None, bg: None } });
    assert(piece_views(pieces@) =~= seq![PieceView { text: text@, style: unstyled() }]);
    Panel {
        area,
        title: Some(title),
        bordered: true,
        style: if active {
            Style { fg: Some(Color::Black), bg: Some(Color::LightYellow) }
        } else {
            Style { fg: None, bg: None }
        },
        stacked: false,
        pieces,
    }
}

/// Puts the editor's state into panels at the given areas.
pub fn compose(areas: &Areas, app: &App) -> (panels: Vec<Panel>)
    ensures
        panel_views(panels@) == scene(*areas, app.key@, app.value@, app.pairs.entries(), app.screen),
{
    let mut panels: Vec<Panel> = Vec::new();
    let mut heading: Vec<Piece> = Vec::new();
    heading.push(colored("Create New JSON", Color::Green));
    assert(piece_views(heading@) =~= seq![
        PieceView { text: "Create New JSON"@, style: fg(Color::Green) },
    ]);
    panels.push(plain_panel(areas.title, true, false, heading));
    panels.push(plain_panel(areas.list, false, true, list_of(&app.pairs)));
    panels.push(plain_panel(areas.mode, true, false, mode_of(app.screen)));
    panels.push(plain_panel(areas.hint, true, false, hint_of(app.screen)));
    match areas.popup {
        Some((around, left, right)) => {
            if app.screen != Screen::Main {
                let nothing: Vec<Piece> = Vec::new();
                assert(piece_views(nothing@) =~= Seq::<PieceView>::empty());
                panels.push(
                    Panel {
                        area: around,
                        title: Some("Enter a new key-value pair"),
                        bordered: false,
                        style: Style { fg: None, bg: Some(Color::DarkGray) },
                        stacked: false,
                        pieces: nothing,
                    },
                );
                panels.push(input_panel(left, "Key", &app.key, app.screen == Screen::Key));
                panels.push(input_panel(right, "Value", &app.value, app.screen != Screen::Key));
                assert(panel_views(panels@) =~= base_panels(
                    *areas,
                    app.pairs.entries(),
                    app.screen,
                ) + popup_panels(around, left, right, app.key@, app.value@, app.screen));
            }
        },
        None => {},
    }
    panels
}

/// Puts the pieces of the cuts into their places: see [`assembled`].
pub fn assemble(rows: &Vec<Rect>, footer: &Vec<Rect>, popup: Option<(Rect, Vec<Rect>)>) -> (areas:
    Areas)
    requires
        rows@.len() == 3,
        footer@.len() == 2,
        popup matches Some((_, inputs)) ==> inputs@.len() == 2,
    ensures
        areas == assembled(rows@, footer@, popup_view(popup)),
{
    Areas {
        title: rows[0],
        list: rows[1],
        mode: footer[0],
        hint: footer[1],
        popup: match popup {
            Some((around, inputs)) => Some((around, inputs[0], inputs[1])),
            None => None,
        },
    }
}

/// Cuts the screen into the areas of the panels: three rows for the title,
/// the rest for the list, three rows for mode and hint side by side, and the
/// popup in the middle while a pair is edited.
pub fn layout(size: Rect, screen: Screen) -> (areas: Areas)
    ensures
        laid_out(size, areas, screen),
{
    let mut shares: Vec<Constraint> = Vec::new();
    shares.push(Constraint::Length(3));
    shares.push(Constraint::Min(1));
    shares.push(Constraint::Length(3));
    assert(shares@ =~= row_shares());
    let rows = split(Direction::Vertical, 0, &shares, size);
    let mut halves: Vec<Constraint> = Vec::new();
    halves.push(Constraint::Percentage(50));
    halves.push(Constraint::Percentage(50));
    assert(halves@ =~= half_shares());
    let footer = split(Direction::Horizontal, 0, &halves, rows[2]);
    let popup = if screen != Screen::Main {
        let around = centered_rect(size, 60, 25);
        Some((around, split(Direction::Horizontal, 1, &halves, around)))
    } else {
        None
    };
    proof {
        assert(lies_within(rows@[2], size));
        assert(cuts_of_screen(size, screen, rows@, footer@, popup_view(popup)));
    }
    assemble(&rows, &footer, popup)
}

/// Says what to draw for the editor on a screen of the given size: the areas
/// as the layout cuts them, and in them the panels of the scene.
pub fn ui(size: Rect, app: &App) -> (panels: Vec<Panel>)
    ensures
        exists|areas: Areas|
            laid_out(size, areas, app.screen) && #[trigger] panel_views(panels@) == scene(
                areas,
                app.key@,
                app.value@,
                app.pairs.entries(),
                app.screen,
            ),
{
    let areas = layout(size, app.screen);
    compose(&areas, app)
}

} // verus!
