//! The geometry of the process dialog: where its controls go in a window
//! of a given size, and how a text is broken into rows that fit a width.
//!
//! Text is measured by the operating system.  This module decides which
//! piece of text to measure next and what follows from its size.

use crate::util::{hiword, hiword_of, loword, loword_of};
use vstd::prelude::*;

verus! {

/// A width and a height, in pixels.
#[derive(Debug, Clone, Copy, PartialEq, Eq, Structural)]
pub struct Size {
    pub cx: i32,
    pub cy: i32,
}

/// The place of a control in its window: its top left corner and size.
#[derive(Debug, Clone, Copy, PartialEq, Eq, Structural)]
pub struct Placement {
    pub x: i32,
    pub y: i32,
    pub cx: i32,
    pub cy: i32,
}

/// The places of the five controls of the process dialog.
#[derive(Debug, Clone, Copy, PartialEq, Eq, Structural)]
pub struct DialogLayout {
    pub text: Placement,
    pub input: Placement,
    pub listview: Placement,
    pub button_cancel: Placement,
    pub button_ok: Placement,
}

/// The space between the controls and the edge of the window.
pub const BORDER_MARGIN: i32 = 10;

/// The space between two controls.
pub const SPACER: i32 = 6;

/// The height of the input field.
pub const INPUT_HEIGHT: i32 = 24;

/// The width of a button.
pub const BUTTON_WIDTH: i32 = 100;

/// The height of a button.
pub const BUTTON_HEIGHT: i32 = 30;

/// The smallest width to which the dialog can be dragged.
pub const MIN_TRACK_WIDTH: i32 = 270;

/// The smallest height to which the dialog can be dragged.
pub const MIN_TRACK_HEIGHT: i32 = 243;

/// The bound that stands for "no bound".
pub const UNBOUNDED: i32 = -1;

/// The smaller of two numbers.
pub open spec fn min_of(a: int, b: int) -> int {
    if a <= b {
        a
    } else {
        b
    }
}

/// Where the controls go in a window of the given size, with an
/// information text of the given size.  From the top: the text, the
/// input field and the list, which takes what height is left; at the
/// bottom right the two buttons, Ok to the left of Cancel.
pub open spec fn layout_of(window: Size, text: Size) -> DialogLayout {
    DialogLayout {
        text: Placement {
            x: 10,
            y: 10,
            cx: min_of(window.cx - 20, text.cx as int) as i32,
            cy: text.cy,
        },
        input: Placement { x: 10, y: (text.cy + 16) as i32, cx: (window.cx - 20) as i32, cy: 24 },
        listview: Placement {
            x: 10,
            y: (text.cy + 46) as i32,
            cx: (window.cx - 20) as i32,
            cy: (window.cy - text.cy - 92) as i32,
        },
        button_cancel: Placement {
            x: (window.cx - 110) as i32,
            y: (window.cy - 40) as i32,
            cx: 100,
            cy: 30,
        },
        button_ok: Placement {
            x: (window.cx - 216) as i32,
            y: (window.cy - 40) as i32,
            cx: 100,
            cy: 30,
        },
    }
}

/// Whether the places of the controls can be computed in 32 bits.
pub open spec fn layout_fits(window: Size, text: Size) -> bool {
    &&& i32::MIN <= window.cx - 216
    &&& i32::MIN <= window.cy - 40
    &&& text.cy + 46 <= i32::MAX
    &&& window.cy - (text.cy + 46) <= i32::MAX
    &&& i32::MIN <= window.cy - (text.cy + 46) - 46
}

/// Places the controls of the dialog in a window of the given size.
pub fn dialog_layout(window: Size, text: Size) -> (layout: DialogLayout)
    requires
        layout_fits(window, text),
    ensures
        layout == layout_of(window, text),
{
    let inner: i32 = window.cx - 2 * BORDER_MARGIN;
    let y: i32 = BORDER_MARGIN;
    let h: i32 = text.cy;
    let text_place = Placement {
        x: BORDER_MARGIN,
        y,
        cx: if inner <= text.cx {
            inner
        } else {
            text.cx
        },
        cy: h,
    };
    let y: i32 = y + h + SPACER;
    let h: i32 = INPUT_HEIGHT;
    let input = Placement { x: BORDER_MARGIN, y, cx: inner, cy: h };
    let y: i32 = y + h + SPACER;
    let h: i32 = window.cy - y - BORDER_MARGIN - SPACER - BUTTON_HEIGHT;
    let listview = Placement { x: BORDER_MARGIN, y, cx: inner, cy: h };
    let w: i32 = BUTTON_WIDTH;
    let h: i32 = BUTTON_HEIGHT;
    let button_cancel = Placement {
        x: window.cx - w - BORDER_MARGIN,
        y: window.cy - h - BORDER_MARGIN,
        cx: w,
        cy: h,
    };
    let button_ok = Placement {
        x: window.cx - w - BORDER_MARGIN - BUTTON_WIDTH - SPACER,
        y: window.cy - h - BORDER_MARGIN,
        cx: w,
        cy: h,
    };
    DialogLayout { text: text_place, input, listview, button_cancel, button_ok }
}

/// Places the controls of the dialog where their places can be computed
/// in 32 bits, and gives nothing where they cannot.
pub fn try_dialog_layout(window: Size, text: Size) -> (layout: Option<DialogLayout>)
    ensures
        layout_fits(window, text) ==> layout == Some(layout_of(window, text)),
        !layout_fits(window, text) ==> layout is None,
{
    let min: i64 = i32::MIN as i64;
    let max: i64 = i32::MAX as i64;
    let list_top: i64 = text.cy as i64 + 46;
    let list_height: i64 = window.cy as i64 - list_top;
    if min <= window.cx as i64 - 216 && min <= window.cy as i64 - 40 && list_top <= max
        && list_height <= max && min <= list_height - 46 {
        Some(dialog_layout(window, text))
    } else {
        None
    }
}

/// The size of a window's client area as a resize message carries it:
/// the width in the low word and the height in the high word of the
/// parameter's low 32 bits.
pub fn size_from_lparam(lparam: isize) -> (size: Size)
    ensures
        size.cx == loword_of(lparam as u32),
        size.cy == hiword_of(lparam as u32),
{
    let packed: u32 = #[verifier::truncate] (lparam as u32);
    Size { cx: loword(packed) as i32, cy: hiword(packed) as i32 }
}

/// The smallest size to which the dialog can be dragged.
pub fn min_track_size() -> (size: Size)
    ensures
        size == (Size { cx: MIN_TRACK_WIDTH, cy: MIN_TRACK_HEIGHT }),
{
    Size { cx: MIN_TRACK_WIDTH, cy: MIN_TRACK_HEIGHT }
}

/// The right edge of a placed control.
pub open spec fn right_of(place: Placement) -> int {
    place.x + place.cx
}

/// The bottom edge of a placed control.
pub open spec fn bottom_of(place: Placement) -> int {
    place.y + place.cy
}

/// In a window that is wide enough for the two buttons and high enough
/// for the text, the input field and the buttons, no two controls
/// overlap and every control keeps the margin to the window's edge: the
/// text, the input field, the list and the row of buttons follow each
/// other from top to bottom, and Ok ends before Cancel begins.
pub proof fn lemma_layout_keeps_apart(window: Size, text: Size)
    requires
        0 <= text.cx,
        0 <= text.cy,
        226 <= window.cx,
        text.cy + 92 <= window.cy,
    ensures
        layout_fits(window, text),
        ({
            let layout = layout_of(window, text);
            &&& bottom_of(layout.text) <= layout.input.y
            &&& bottom_of(layout.input) <= layout.listview.y
            &&& bottom_of(layout.listview) <= layout.button_ok.y
            &&& layout.button_ok.y == layout.button_cancel.y
            &&& right_of(layout.button_ok) <= layout.button_cancel.x
            &&& 10 <= layout.button_ok.x
            &&& right_of(layout.button_cancel) == window.cx - 10
            &&& bottom_of(layout.button_cancel) == window.cy - 10
            &&& right_of(layout.text) <= window.cx - 10
            &&& right_of(layout.input) == window.cx - 10
            &&& right_of(layout.listview) == window.cx - 10
            &&& 0 <= layout.listview.cy
        }),
{
}

/// Where the last delimiter of a text stands, or `-1` in a text without
/// one.
pub open spec fn last_delimiter(text: Seq<u16>, delimiter: u16) -> int
    decreases text.len(),
{
    if text.len() == 0 {
        -1
    } else if text.last() == delimiter {
        text.len() - 1
    } else {
        last_delimiter(text.drop_last(), delimiter)
    }
}

/// A text without its last segments, where segments are what the
/// delimiter parts.  The delimiter before a segment that goes, goes
/// too.  A text with fewer segments than are to go leaves nothing.
pub open spec fn without_last_segments(text: Seq<u16>, delimiter: u16, count: nat) -> Seq<u16>
    decreases count,
{
    if count == 0 {
        text
    } else if last_delimiter(text, delimiter) < 0 {
        Seq::empty()
    } else {
        without_last_segments(
            text.take(last_delimiter(text, delimiter)),
            delimiter,
            (count - 1) as nat,
        )
    }
}

/// The last delimiter stands where the text holds one, and none follows
/// it.
pub proof fn lemma_last_delimiter(text: Seq<u16>, delimiter: u16)
    ensures
        -1 <= last_delimiter(text, delimiter) < text.len(),
        0 <= last_delimiter(text, delimiter) ==> text[last_delimiter(text, delimiter)]
            == delimiter,
        forall|i: int| last_delimiter(text, delimiter) < i < text.len() ==> text[i] != delimiter,
    decreases text.len(),
{
    if text.len() > 0 && text.last() != delimiter {
        let shorter = text.drop_last();
        lemma_last_delimiter(shorter, delimiter);
        assert forall|i: int| last_delimiter(text, delimiter) < i < text.len() implies text[i]
            != delimiter by {
            if i < shorter.len() {
                assert(text[i] == shorter[i]);
            }
        }
    }
}

/// A place that holds the delimiter, or `-1`, with no delimiter after
/// it, is that of the last delimiter.
proof fn lemma_last_delimiter_is(text: Seq<u16>, delimiter: u16, place: int)
    requires
        -1 <= place < text.len(),
        0 <= place ==> text[place] == delimiter,
        forall|i: int| place < i < text.len() ==> text[i] != delimiter,
    ensures
        last_delimiter(text, delimiter) == place,
{
    lemma_last_delimiter(text, delimiter);
    let found = last_delimiter(text, delimiter);
    if found < place {
        assert(text[place] != delimiter);
    } else if place < found {
        assert(text[found] != delimiter);
    }
}

/// What is left of a text is a piece of its beginning.
pub proof fn lemma_without_last_segments_is_prefix(text: Seq<u16>, delimiter: u16, count: nat)
    ensures
        without_last_segments(text, delimiter, count).len() <= text.len(),
        without_last_segments(text, delimiter, count) == text.take(
            without_last_segments(text, delimiter, count).len() as int,
        ),
        count > 0 && text.len() > 0 ==> without_last_segments(text, delimiter, count).len()
            < text.len(),
    decreases count,
{
    let left = without_last_segments(text, delimiter, count);
    if count == 0 {
        assert(text.take(text.len() as int) =~= text);
    } else if last_delimiter(text, delimiter) < 0 {
        assert(text.take(0) =~= Seq::<u16>::empty());
    } else {
        lemma_last_delimiter(text, delimiter);
        let shorter = text.take(last_delimiter(text, delimiter));
        lemma_without_last_segments_is_prefix(shorter, delimiter, (count - 1) as nat);
        assert(shorter.take(left.len() as int) =~= text.take(left.len() as int));
    }
}

/// The piece of a text that is measured next: the text without its last
/// `dropped` segments.
pub fn candidate_row(text: &[u16], delimiter: u16, dropped: usize) -> (row: Vec<u16>)
    ensures
        row@ == without_last_segments(text@, delimiter, dropped as nat),
        row@.len() <= text@.len(),
        row@ == text@.take(row@.len() as int),
{
    proof {
        lemma_without_last_segments_is_prefix(text@, delimiter, dropped as nat);
    }
    let mut end: usize = text.len();
    let mut left: usize = dropped;
    assert(text@.take(end as int) =~= text@);
    while left > 0 && end > 0
        invariant
            0 <= end <= text@.len(),
            0 <= left <= dropped,
            without_last_segments(text@, delimiter, dropped as nat) == without_last_segments(
                text@.take(end as int),
                delimiter,
                left as nat,
            ),
        decreases end,
    {
        let ghost before = text@.take(end as int);
        let mut place: usize = end;
        while place > 0 && text[place - 1] != delimiter
            invariant
                0 <= place <= end <= text@.len(),
                forall|i: int| place <= i < end ==> text@[i] != delimiter,
            decreases place,
        {
            place -= 1;
        }
        proof {
            lemma_last_delimiter_is(before, delimiter, place as int - 1);
        }
        if place == 0 {
            end = 0;
            left = 0;
            assert(text@.take(0) =~= Seq::<u16>::empty());
            assert(without_last_segments(Seq::<u16>::empty(), delimiter, 0) =~= Seq::<u16>::empty());
        } else {
            end = place - 1;
            left -= 1;
            assert(before.take(end as int) =~= text@.take(end as int));
        }
    }
    proof {
        if left > 0 {
            assert(text@.take(0) =~= Seq::<u16>::empty());
            assert(last_delimiter(Seq::<u16>::empty(), delimiter) == -1);
        }
    }
    let mut row: Vec<u16> = Vec::new();
    let mut i: usize = 0;
    while i < end
        invariant
            0 <= i <= end <= text@.len(),
            row@ == text@.take(i as int),
        decreases end - i,
    {
        row.push(text[i]);
        i += 1;
        assert(row@ =~= text@.take(i as int));
    }
    row
}

/// Whether a row of the measured width fits within the bound.  Every
/// row fits where there is no bound.
pub fn row_fits(width_bound: i32, width: i32) -> (fits: bool)
    ensures
        fits == fits_within(width_bound, width),
{
    width_bound == UNBOUNDED || width <= width_bound
}

/// Takes a row off the beginning of a text and gives what is left.
pub fn after_row(text: &[u16], row_len: usize) -> (rest: Vec<u16>)
    requires
        row_len <= text@.len(),
    ensures
        rest@ == text@.skip(row_len as int),
{
    let mut rest: Vec<u16> = Vec::new();
    let mut i: usize = row_len;
    while i < text.len()
        invariant
            row_len <= i <= text@.len(),
            rest@ == text@.subrange(row_len as int, i as int),
        decreases text@.len() - i,
    {
        rest.push(text[i]);
        i += 1;
        assert(rest@ =~= text@.subrange(row_len as int, i as int));
    }
    assert(rest@ =~= text@.skip(row_len as int));
    rest
}

/// Whether a measure keeps within a bound.  Every measure does where
/// there is no bound.
pub open spec fn fits_within(bound: i32, measure: i32) -> bool {
    bound == UNBOUNDED || measure <= bound
}

/// What follows when the candidate row of a text has been measured.
#[derive(Debug, Clone, PartialEq, Eq)]
pub enum WrapNext {
    /// The candidate fits and uses the text up: it is the last row.
    Last { row: Vec<u16> },
    /// The candidate fits and is a row.  What is left of the text is
    /// broken next, beginning with no segment dropped.
    Row { row: Vec<u16>, rest: Vec<u16> },
    /// The candidate is too wide: the candidate with this many segments
    /// dropped is measured next.
    Retry { dropped: usize },
}

/// Decides how the breaking of a text into rows goes on.
///
/// `text` is what is still to be broken, `dropped` the number of
/// segments that the candidate row leaves out at its end, and `width`
/// the measured width of that candidate, `candidate_row(text, delimiter,
/// dropped)`.  A candidate that fits within the bound becomes a row and
/// is taken off the text; the text is used up when nothing is left
/// after it.  A candidate that is too wide gives way to the one with
/// one more segment dropped.
pub fn wrap_step(text: &[u16], delimiter: u16, dropped: usize, width_bound: i32, width: i32) -> (next:
    WrapNext)
    requires
        !fits_within(width_bound, width) ==> dropped < usize::MAX,
    ensures
        !fits_within(width_bound, width) ==> (next matches WrapNext::Retry { dropped: more }
            && more == dropped + 1),
        fits_within(width_bound, width) ==> ({
            let candidate = without_last_segments(text@, delimiter, dropped as nat);
            if candidate.len() == text@.len() {
                next matches WrapNext::Last { row } && row@ == text@
            } else {
                next matches WrapNext::Row { row, rest } && row@ == candidate && rest@
                    == text@.skip(candidate.len() as int) && row@ + rest@ == text@ && rest@.len()
                    > 0
            }
        }),
{
    if row_fits(width_bound, width) {
        let row = candidate_row(text, delimiter, dropped);
        let rest = after_row(text, row.len());
        assert(text@.take(row@.len() as int) + text@.skip(row@.len() as int) =~= text@);
        if rest.len() == 0 {
            assert(row@ =~= text@);
            WrapNext::Last { row }
        } else {
            WrapNext::Row { row, rest }
        }
    } else {
        WrapNext::Retry { dropped: dropped + 1 }
    }
}

/// The whole text is the candidate while no segment is dropped: a text
/// whose full width fits is one row, and its last.
pub proof fn lemma_whole_text_is_first_candidate(text: Seq<u16>, delimiter: u16)
    ensures
        without_last_segments(text, delimiter, 0) == text,
{
}

/// A row that is not empty leaves less text than there was, so that
/// breaking a text into rows that are not empty comes to an end.
pub proof fn lemma_row_shortens_text(text: Seq<u16>, delimiter: u16, dropped: nat)
    requires
        without_last_segments(text, delimiter, dropped).len() > 0,
    ensures
        text.skip(without_last_segments(text, delimiter, dropped).len() as int).len()
            < text.len(),
{
    lemma_without_last_segments_is_prefix(text, delimiter, dropped);
}

/// The width of the widest of some rows.
pub open spec fn widest(rows: Seq<Size>) -> int
    recommends
        rows.len() > 0,
    decreases rows.len(),
{
    if rows.len() <= 1 {
        rows[0].cx as int
    } else if widest(rows.drop_last()) >= rows.last().cx {
        widest(rows.drop_last())
    } else {
        rows.last().cx as int
    }
}

/// The height of some rows, one below the other.
pub open spec fn stacked_height(rows: Seq<Size>) -> int
    decreases rows.len(),
{
    if rows.len() == 0 {
        0
    } else {
        stacked_height(rows.drop_last()) + rows.last().cy
    }
}

/// Whether the height of the rows can be summed up in 32 bits, row by
/// row from the first.
pub open spec fn rows_fit(rows: Seq<Size>) -> bool {
    forall|count: int|
        0 <= count <= rows.len() ==> i32::MIN <= #[trigger] stacked_height(rows.take(count))
            <= i32::MAX
}

/// The size of a block of rows: as wide as its widest row and as high as
/// all rows together.
pub fn rows_size(rows: &[Size]) -> (size: Size)
    requires
        rows@.len() > 0,
        rows_fit(rows@),
    ensures
        size.cx == widest(rows@),
        size.cy == stacked_height(rows@),
{
    let mut cx: i32 = rows[0].cx;
    let mut cy: i32 = rows[0].cy;
    let mut i: usize = 1;
    proof {
        assert(rows@.take(1).drop_last() =~= Seq::<Size>::empty());
        assert(stacked_height(rows@.take(1)) == rows@[0].cy) by {
            assert(rows@.take(1).last() == rows@[0]);
            assert(stacked_height(Seq::<Size>::empty()) == 0);
        }
        assert(widest(rows@.take(1)) == rows@[0].cx);
    }
    while i < rows.len()
        invariant
            1 <= i <= rows@.len(),
            rows_fit(rows@),
            cx == widest(rows@.take(i as int)),
            cy == stacked_height(rows@.take(i as int)),
        decreases rows@.len() - i,
    {
        proof {
            let next = rows@.take(i as int + 1);
            assert(next.drop_last() =~= rows@.take(i as int));
            assert(next.last() == rows@[i as int]);
            assert(i32::MIN <= stacked_height(next) <= i32::MAX);
        }
        if rows[i].cx > cx {
            cx = rows[i].cx;
        }
        cy = cy + rows[i].cy;
        i += 1;
    }
    assert(rows@.take(rows@.len() as int) =~= rows@);
    Size { cx, cy }
}

/// The size of a block of rows, where there is a row and the height of
/// the rows can be summed up in 32 bits; nothing otherwise.
pub fn try_rows_size(rows: &[Size]) -> (size: Option<Size>)
    ensures
        rows@.len() > 0 && rows_fit(rows@) <==> size is Some,
        size matches Some(block) ==> block.cx == widest(rows@) && block.cy == stacked_height(
            rows@,
        ),
{
    if rows.len() == 0 {
        return None;
    }
    let mut cy: i32 = 0;
    let mut i: usize = 0;
    assert(rows@.take(0) =~= Seq::<Size>::empty());
    while i < rows.len()
        invariant
            0 <= i <= rows@.len(),
            cy == stacked_height(rows@.take(i as int)),
            forall|count: int|
                0 <= count <= i ==> i32::MIN <= #[trigger] stacked_height(rows@.take(count))
                    <= i32::MAX,
        decreases rows@.len() - i,
    {
        proof {
            let next = rows@.take(i as int + 1);
            assert(next.drop_last() =~= rows@.take(i as int));
            assert(next.last() == rows@[i as int]);
        }
        match cy.checked_add(rows[i].cy) {
            Some(sum) => {
                cy = sum;
            },
            None => {
                assert(!(i32::MIN <= stacked_height(rows@.take(i as int + 1)) <= i32::MAX));
                return None;
            },
        }
        i += 1;
    }
    Some(rows_size(rows))
}

/// Whether something of the given height fits within the bound.
/// Everything fits where there is no bound.
pub fn height_fits(height_bound: i32, height: i32) -> (fits: bool)
    ensures
        fits == fits_within(height_bound, height),
{
    !(height_bound != UNBOUNDED && height > height_bound)
}

} // verus!
