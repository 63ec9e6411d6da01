//! Screen arithmetic: how tall the compose box is, how its text wraps and
//! where its cursor stands, which messages fill the messages pane, and how a
//! chat row is cut to fit.

use vstd::prelude::*;
use crate::model::{FocusedPane, LoginFields, MainState, MainView};
use crate::helpers::{char_to_byte, spec_utf8_len};
use crate::text::push_char;
use crate::navigation::{spec_lookup, spec_selected_has_attachments};
use crate::responses::{elapsed, IDLE_AFTER_MS};
use crate::text::{owned, string_of_vec};
use crate::display::{is_image_attachment, spec_is_image_attachment};
use crate::types::{Attachment, Message};

verus! {

/// Rows that one line of `n` characters takes in a box `w` columns wide:
/// an empty line still takes a row.
pub open spec fn line_rows(n: nat, w: nat) -> nat
    recommends
        w > 0,
{
    if n == 0 {
        1
    } else if n % w == 0 {
        n / w
    } else {
        n / w + 1
    }
}

/// Rows taken by the finished lines of `s`, and the length of the line still open.
pub open spec fn rows_state(s: Seq<char>, w: nat) -> (nat, nat)
    decreases s.len(),
{
    if s.len() == 0 {
        (0, 0)
    } else {
        let prev = rows_state(s.drop_last(), w);
        if s.last() == '\n' {
            (prev.0 + line_rows(prev.1, w), 0)
        } else {
            (prev.0, prev.1 + 1)
        }
    }
}

/// Rows that all of `s` takes in a box `w` columns wide.
pub open spec fn visual_rows(s: Seq<char>, w: nat) -> nat {
    rows_state(s, w).0 + line_rows(rows_state(s, w).1, w)
}

proof fn lemma_line_rows_le(n: nat, w: nat)
    requires
        w >= 1,
    ensures
        line_rows(n, w) <= if n == 0 { 1 } else { n },
{
    if n > 0 {
        assert(n / w <= n) by (nonlinear_arith)
            requires
                w >= 1,
        ;
        if n % w != 0 {
            assert(n / w < n) by (nonlinear_arith)
                requires
                    w >= 1,
                    n % w != 0,
                    n > 0,
            ;
        }
    }
}

proof fn lemma_rows_state_bound(s: Seq<char>, w: nat)
    requires
        w >= 1,
    ensures
        rows_state(s, w).0 + rows_state(s, w).1 <= s.len(),
    decreases s.len(),
{
    if s.len() > 0 {
        lemma_rows_state_bound(s.drop_last(), w);
        lemma_line_rows_le(rows_state(s.drop_last(), w).1, w);
    }
}

/// Row and column state after the first `i` characters, computed as the
/// text is read.
fn advance_rows(text: &Vec<char>, i: usize, w: usize, row: usize, col: usize) -> (r: (usize, usize))
    requires
        w >= 1,
        i < text@.len(),
        (row as nat, col as nat) == rows_state(text@.take(i as int), w as nat),
    ensures
        (r.0 as nat, r.1 as nat) == rows_state(text@.take(i + 1), w as nat),
{
    let _len = text.len();
    proof {
        assert(text@.take(i + 1).drop_last() =~= text@.take(i as int));
        assert(text@.take(i as int).len() == i);
        lemma_rows_state_bound(text@.take(i as int), w as nat);
        lemma_line_rows_le(col as nat, w as nat);
    }
    if text[i] == '\n' {
        let used: usize = if col == 0 {
            1
        } else if col % w == 0 {
            col / w
        } else {
            col / w + 1
        };
        (row + used, 0)
    } else {
        (row, col + 1)
    }
}

/// Rows that `text` takes in a box `w` columns wide.
fn count_visual_rows(text: &Vec<char>, w: usize) -> (r: usize)
    requires
        w >= 1,
        text@.len() < usize::MAX,
    ensures
        r == visual_rows(text@, w as nat),
{
    let n = text.len();
    let mut row: usize = 0;
    let mut col: usize = 0;
    let mut i: usize = 0;
    assert(text@.take(0) =~= Seq::<char>::empty());
    while i < n
        invariant
            n == text@.len(),
            n < usize::MAX,
            w >= 1,
            i <= n,
            (row as nat, col as nat) == rows_state(text@.take(i as int), w as nat),
        decreases n - i,
    {
        let (r2, c2) = advance_rows(text, i, w, row, col);
        row = r2;
        col = c2;
        i += 1;
    }
    assert(text@.take(n as int) =~= text@);
    proof {
        lemma_rows_state_bound(text@, w as nat);
        lemma_line_rows_le(col as nat, w as nat);
    }
    let last: usize = if col == 0 {
        1
    } else if col % w == 0 {
        col / w
    } else {
        col / w + 1
    };
    row + last
}

/// Height of the compose box for a right-hand column `right_width` cells wide:
/// three rows out of compose mode, otherwise the wrapped text plus the border,
/// at least three.
pub open spec fn spec_compose_box_height(compose_mode: bool, text: Seq<char>, right_width: u16) -> u16 {
    let inner_w = if right_width >= 2 { right_width - 2 } else { 0 };
    if !compose_mode || inner_w == 0 {
        3
    } else {
        let rows = visual_rows(text, inner_w as nat);
        let rows1 = if rows >= 1 { rows } else { 1 };
        let h = ((rows1 as u16) + 2) as u16;
        if h >= 3 { h } else { 3 }
    }
}

/// Whether the compose box's height fits a `u16` for this text and width.
pub open spec fn compose_height_fits(compose_mode: bool, text: Seq<char>, right_width: u16) -> bool {
    let inner_w = if right_width >= 2 { right_width - 2 } else { 0 };
    !compose_mode || inner_w == 0 || {
        let rows = visual_rows(text, inner_w as nat);
        let rows1 = if rows >= 1 { rows } else { 1 };
        (rows1 as u16) + 2 <= u16::MAX
    }
}

/// Height of the compose box (see `spec_compose_box_height`).
pub fn compose_box_height(compose_mode: bool, text: &Vec<char>, right_width: u16) -> (h: u16)
    requires
        text@.len() < usize::MAX,
        compose_height_fits(compose_mode, text@, right_width),
    ensures
        h == spec_compose_box_height(compose_mode, text@, right_width),
        h >= 3,
{
    if !compose_mode {
        return 3;
    }
    let inner_w: usize = right_width.saturating_sub(2) as usize;
    if inner_w == 0 {
        return 3;
    }
    let rows = count_visual_rows(text, inner_w);
    let rows1: usize = if rows >= 1 { rows } else { 1 };
    let r16: u16 = #[verifier::truncate] (rows1 as u16);
    let h: u16 = r16 + 2;
    if h >= 3 { h } else { 3 }
}

/// The compose text as the box shows it: every line cut into pieces of `w`
/// characters, one piece per row.  Also gives the column reached.
pub open spec fn wrapped_state(s: Seq<char>, w: nat) -> (Seq<char>, nat)
    decreases s.len(),
{
    if s.len() == 0 {
        (Seq::empty(), 0)
    } else {
        let prev = wrapped_state(s.drop_last(), w);
        let c = s.last();
        if c == '\n' {
            (prev.0.push('\n'), 0)
        } else if prev.1 == w {
            (prev.0.push('\n').push(c), 1)
        } else {
            (prev.0.push(c), prev.1 + 1)
        }
    }
}

/// What the compose box shows for `s` at inner width `w` (nothing when `w` is 0).
pub open spec fn spec_wrap_compose(s: Seq<char>, w: nat) -> Seq<char> {
    if w == 0 { Seq::empty() } else { wrapped_state(s, w).0 }
}

proof fn lemma_wrapped_col(s: Seq<char>, w: nat)
    requires
        w >= 1,
    ensures
        wrapped_state(s, w).1 <= w,
        wrapped_state(s, w).1 <= s.len(),
    decreases s.len(),
{
    if s.len() > 0 {
        lemma_wrapped_col(s.drop_last(), w);
    }
}

/// The compose text cut into rows of `w` characters (see `spec_wrap_compose`).
pub fn wrap_compose_text(text: &Vec<char>, w: usize) -> (r: String)
    ensures
        r@ == spec_wrap_compose(text@, w as nat),
{
    if w == 0 {
        return String::new();
    }
    let n = text.len();
    let mut out: Vec<char> = Vec::new();
    let mut col: usize = 0;
    let mut i: usize = 0;
    assert(text@.take(0) =~= Seq::<char>::empty());
    while i < n
        invariant
            n == text@.len(),
            w >= 1,
            i <= n,
            (out@, col as nat) == wrapped_state(text@.take(i as int), w as nat),
        decreases n - i,
    {
        proof {
            assert(text@.take(i + 1).drop_last() =~= text@.take(i as int));
            lemma_wrapped_col(text@.take(i as int), w as nat);
        }
        let c = text[i];
        if c == '\n' {
            out.push('\n');
            col = 0;
        } else if col == w {
            out.push('\n');
            out.push(c);
            col = 1;
        } else {
            out.push(c);
            col = col + 1;
        }
        i += 1;
    }
    assert(text@.take(n as int) =~= text@);
    string_of_vec(&out)
}

/// Row and column of the compose cursor inside the box: the text before the
/// cursor is laid out as the box lays it out.
pub open spec fn spec_cursor_cell(text: Seq<char>, cursor: nat, w: nat) -> (nat, nat) {
    if w == 0 {
        (0, 0)
    } else {
        let k = if cursor <= text.len() { cursor } else { text.len() };
        let st = rows_state(text.take(k as int), w);
        (st.0 + st.1 / w, st.1 % w)
    }
}

/// Where the compose cursor stands in a box `w` columns wide (see `spec_cursor_cell`).
pub fn compose_cursor_cell(text: &Vec<char>, cursor: usize, w: usize) -> (r: (usize, usize))
    ensures
        (r.0 as nat, r.1 as nat) == spec_cursor_cell(text@, cursor as nat, w as nat),
{
    if w == 0 {
        return (0, 0);
    }
    let n = text.len();
    let stop: usize = if cursor <= n { cursor } else { n };
    let mut row: usize = 0;
    let mut col: usize = 0;
    let mut i: usize = 0;
    assert(text@.take(0) =~= Seq::<char>::empty());
    while i < stop
        invariant
            n == text@.len(),
            stop <= n,
            w >= 1,
            i <= stop,
            (row as nat, col as nat) == rows_state(text@.take(i as int), w as nat),
        decreases stop - i,
    {
        let (r2, c2) = advance_rows(text, i, w, row, col);
        row = r2;
        col = c2;
        i += 1;
    }
    proof {
        lemma_rows_state_bound(text@.take(stop as int), w as nat);
    }
    (row + col / w, col % w)
}

/// Rows needed by the items from `b` to the end, each with the blank row after it.
pub open spec fn suffix_cost(h: Seq<usize>, b: int) -> int
    decreases h.len() - b,
{
    if 0 <= b < h.len() {
        h[b] + 1 + suffix_cost(h, b + 1)
    } else {
        0
    }
}

/// First item of the bottom-aligned window: starting below item `i`, step up
/// while the items from there on still fit in `avail` rows.
pub open spec fn bottom_start_from(h: Seq<usize>, i: int, avail: int) -> int
    decreases i,
{
    if i > 0 && suffix_cost(h, i - 1) <= avail {
        bottom_start_from(h, i - 1, avail)
    } else {
        i
    }
}

/// First item of the window that ends with the newest item.
pub open spec fn bottom_start(h: Seq<usize>, avail: int) -> int {
    bottom_start_from(h, h.len() as int, avail)
}

proof fn lemma_suffix_cost_mono(h: Seq<usize>, i: int, j: int)
    requires
        0 <= i <= j <= h.len(),
    ensures
        suffix_cost(h, i) >= suffix_cost(h, j) + (j - i),
    decreases j - i,
{
    if i < j {
        lemma_suffix_cost_mono(h, i + 1, j);
    }
}

proof fn lemma_bottom_start_from(h: Seq<usize>, i: int, avail: int)
    requires
        0 <= i <= h.len(),
    ensures
        0 <= bottom_start_from(h, i, avail) <= i,
        bottom_start_from(h, i, avail) > 0 ==> suffix_cost(h, bottom_start_from(h, i, avail) - 1) > avail,
    decreases i,
{
    if i > 0 && suffix_cost(h, i - 1) <= avail {
        lemma_bottom_start_from(h, i - 1, avail);
    }
}

/// Where the messages pane starts for item heights `h`, the selected item and
/// `avail` rows: the first item shown and the blank rows above it.  When the
/// selection lies above the bottom window the pane starts at the selection,
/// flush with the top; otherwise the newest items sit at the bottom.
pub open spec fn spec_message_window(h: Seq<usize>, selected: Option<usize>, avail: int) -> (int, int) {
    let b = bottom_start(h, avail);
    match selected {
        Some(s) if (s as int) < b => (s as int, 0),
        _ => (b, avail - suffix_cost(h, b)),
    }
}

proof fn lemma_bottom_start_fits(h: Seq<usize>, i: int, avail: int)
    requires
        0 <= i <= h.len(),
        suffix_cost(h, i) <= avail,
    ensures
        suffix_cost(h, bottom_start_from(h, i, avail)) <= avail,
    decreases i,
{
    if i > 0 && suffix_cost(h, i - 1) <= avail {
        lemma_bottom_start_fits(h, i - 1, avail);
    }
}

/// The selected message is never above the window: the window starts at it,
/// or starts earlier with everything from its first item to the newest
/// fitting in the pane.
pub proof fn law_selection_in_window(h: Seq<usize>, s: usize, avail: int)
    requires
        s < h.len(),
        avail >= 0,
    ensures
        spec_message_window(h, Some(s), avail).0 <= s,
        spec_message_window(h, Some(s), avail).0 < s ==> suffix_cost(h, spec_message_window(h, Some(s), avail).0) <= avail,
{
    lemma_bottom_start_from(h, h.len() as int, avail);
    lemma_bottom_start_fits(h, h.len() as int, avail);
}

/// Row, counted from the top of the pane, where item `s` starts when the
/// window starts at item `start` below `blank` empty rows.
pub open spec fn item_row(h: Seq<usize>, start: int, blank: int, s: int) -> int {
    blank + suffix_cost(h, start) - suffix_cost(h, s)
}

/// In a pane at least one row high the selected message is always scrolled
/// into view: the row where it starts lies inside the pane.
pub proof fn law_selection_row_visible(h: Seq<usize>, s: usize, avail: int)
    requires
        s < h.len(),
        avail >= 1,
    ensures
        ({
            let w = spec_message_window(h, Some(s), avail);
            &&& w.0 <= s
            &&& 0 <= item_row(h, w.0, w.1, s as int) < avail
        }),
{
    lemma_bottom_start_from(h, h.len() as int, avail);
    lemma_bottom_start_fits(h, h.len() as int, avail);
    let b = bottom_start(h, avail);
    assert(suffix_cost(h, s as int) == h[s as int] + 1 + suffix_cost(h, s + 1));
    if b <= s {
        lemma_suffix_cost_mono(h, b, s as int);
        lemma_suffix_cost_mono(h, s + 1, h.len() as int);
    }
}

/// The items from `b` on, counted as the window fills from the bottom up.
fn fill_from_bottom(heights: &Vec<usize>, available: usize) -> (r: (usize, usize))
    requires
        forall|k: int| 0 <= k < heights@.len() ==> heights@[k] + available < usize::MAX,
    ensures
        r.0 == bottom_start(heights@, available as int),
        r.1 == suffix_cost(heights@, r.0 as int),
        r.1 <= available,
{
    let ghost h = heights@;
    let mut fit: usize = 0;
    let mut i: usize = heights.len();
    while i > 0
        invariant
            h == heights@,
            i <= h.len(),
            fit == suffix_cost(h, i as int),
            fit <= available,
            bottom_start(h, available as int) == bottom_start_from(h, i as int, available as int),
            forall|k: int| 0 <= k < h.len() ==> h[k] + available < usize::MAX,
        ensures
            bottom_start(h, available as int) == i,
            fit == suffix_cost(h, i as int),
            fit <= available,
        decreases i,
    {
        let needed = heights[i - 1] + 1;
        assert(suffix_cost(h, i - 1) == h[i - 1] + 1 + suffix_cost(h, i as int));
        if fit + needed > available {
            break;
        }
        fit += needed;
        i -= 1;
    }
    (i, fit)
}

/// Where the messages pane starts (see `spec_message_window`): the index of
/// the first item shown and how many blank rows stand above it.
pub fn message_window(heights: &Vec<usize>, selected: Option<usize>, available: usize) -> (r: (usize, usize))
    requires
        forall|k: int| 0 <= k < heights@.len() ==> heights@[k] + available < usize::MAX,
        selected matches Some(s) ==> s < heights@.len(),
    ensures
        (r.0 as int, r.1 as int) == spec_message_window(heights@, selected, available as int),
{
    let ghost h = heights@;
    let (bottom, fit) = fill_from_bottom(heights, available);
    proof {
        lemma_bottom_start_from(h, h.len() as int, available as int);
    }
    match selected {
        Some(sel) => {
            if sel < bottom {
                proof {
                    lemma_suffix_cost_mono(h, sel as int, bottom - 1);
                }
                let n = heights.len();
                let mut below: usize = 0;
                let mut k: usize = sel;
                while k < n
                    invariant_except_break
                        k > sel ==> below < available,
                        below <= available,
                        below == suffix_cost(h, sel as int) - suffix_cost(h, k as int),
                    invariant
                        h == heights@,
                        n == h.len(),
                        sel <= k <= n,
                        sel < n,
                        suffix_cost(h, sel as int) > available,
                        forall|j: int| 0 <= j < h.len() ==> h[j] + available < usize::MAX,
                    ensures
                        below == available,
                    decreases n - k,
                {
                    let needed = heights[k] + 1;
                    assert(suffix_cost(h, k as int) == h[k as int] + 1 + suffix_cost(h, k + 1));
                    below += needed;
                    if below >= available {
                        below = available;
                        break;
                    }
                    k += 1;
                }
                let space_above = available - below;
                let mut s = sel;
                let mut used_above: usize = 0;
                let mut idx = sel;
                while idx > 0
                    invariant
                        h == heights@,
                        idx <= sel < h.len(),
                        space_above == 0,
                        used_above == 0,
                        s == sel,
                        forall|j: int| 0 <= j < h.len() ==> h[j] + available < usize::MAX,
                    decreases idx,
                {
                    let needed = heights[idx - 1] + 1;
                    if used_above + needed > space_above {
                        break;
                    }
                    used_above += needed;
                    s = idx - 1;
                    idx -= 1;
                }
                (s, 0)
            } else {
                (bottom, available - fit)
            }
        },
        None => (bottom, available - fit),
    }
}

/// The display width that unicode-width gives a character (`None` for a
/// control character).
pub uninterp spec fn spec_char_width(c: char) -> Option<usize>;

/// The display width that unicode-width gives a string.
pub uninterp spec fn spec_str_width(s: Seq<char>) -> usize;

/// `UnicodeWidthChar::width` of unicode-width.  Its source gives printable
/// ASCII width 1, the C0 and C1 control characters no width, and every other
/// character a width read from a two-bit table entry or a short list, at most 3.
#[verifier::external_body]
fn char_width(c: char) -> (r: Option<usize>)
    ensures
        r == spec_char_width(c),
        0x20 <= (c as u32) < 0x7f ==> r == Some(1usize),
        ((c as u32) < 0x20 || 0x7f <= (c as u32) < 0xa0) ==> r is None,
        r matches Some(w) ==> w <= 3,
{
    unicode_width::UnicodeWidthChar::width(c)
}

/// `UnicodeWidthStr::width` of unicode-width: the width of a whole string,
/// which also weighs emoji sequences and joiners, so it is named and not
/// derived from the widths of the characters.
#[verifier::external_body]
fn str_width(s: &str) -> (r: usize)
    ensures
        r == spec_str_width(s@),
{
    unicode_width::UnicodeWidthStr::width(s)
}

/// A character's width, control characters counting as zero.
pub open spec fn width_or_zero(c: char) -> nat {
    match spec_char_width(c) {
        Some(w) => w as nat,
        None => 0,
    }
}

/// The characters of `s` kept while they and an ellipsis still fit in `max`
/// columns (`used` columns being taken already), then an ellipsis.
pub open spec fn spec_truncate_name(s: Seq<char>, used: nat, max: nat) -> Seq<char>
    decreases s.len(),
{
    if s.len() == 0 {
        Seq::empty()
    } else if used + width_or_zero(s[0]) + 1 > max {
        seq!['\u{2026}']
    } else {
        seq![s[0]] + spec_truncate_name(s.drop_first(), used + width_or_zero(s[0]), max)
    }
}

/// `a - b`, or zero when `b` is larger.
pub open spec fn sat_sub(a: int, b: int) -> int {
    if a >= b { a - b } else { 0 }
}

/// Columns left for a chat's name in a row `area_width` cells wide whose
/// timestamp is `time_width` columns wide.
pub open spec fn name_room(area_width: u16, time_width: usize) -> int {
    sat_sub(sat_sub(sat_sub(area_width as int, 5), time_width as int), 1)
}

/// The name a chat row shows: cut with an ellipsis when wider than its room.
pub open spec fn spec_row_name(name: Seq<char>, time_width: usize, area_width: u16) -> Seq<char> {
    let room = name_room(area_width, time_width);
    if spec_str_width(name) > room && room > 0 {
        spec_truncate_name(name, 0, room as nat)
    } else {
        name
    }
}

/// Cuts `name` to `max` columns, ending it with an ellipsis (see `spec_truncate_name`).
fn truncate_name(name: &str, max: usize) -> (r: Vec<char>)
    requires
        max < usize::MAX - 4,
    ensures
        r@ == spec_truncate_name(name@, 0, max as nat),
{
    let cs = crate::text::chars_of(name);
    let n = cs.len();
    let mut out: Vec<char> = Vec::new();
    let mut used: usize = 0;
    let mut i: usize = 0;
    assert(cs@.skip(0) =~= cs@);
    while i < n
        invariant
            n == cs@.len(),
            cs@ == name@,
            i <= n,
            used <= max,
            max < usize::MAX - 4,
            out@ + spec_truncate_name(cs@.skip(i as int), used as nat, max as nat)
                == spec_truncate_name(name@, 0, max as nat),
        decreases n - i,
    {
        let c = cs[i];
        let w: usize = match char_width(c) {
            Some(w) => w,
            None => 0,
        };
        assert(cs@.skip(i as int)[0] == c);
        assert(cs@.skip(i as int).drop_first() =~= cs@.skip(i + 1));
        if used + w + 1 > max {
            out.push('\u{2026}');
            assert(out@ =~= spec_truncate_name(name@, 0, max as nat));
            return out;
        }
        out.push(c);
        assert(out@ + spec_truncate_name(cs@.skip(i + 1), (used + w) as nat, max as nat)
            =~= out@.drop_last() + spec_truncate_name(cs@.skip(i as int), used as nat, max as nat));
        used = used + w;
        i += 1;
    }
    assert(out@ =~= spec_truncate_name(name@, 0, max as nat));
    out
}

/// Lays out one row of the chat list `area_width` cells wide: the name as
/// shown and the blank columns between it and the timestamp.
pub fn chat_row_layout(name: &str, timestamp: &str, area_width: u16) -> (r: (String, usize))
    ensures
        r.0@ == spec_row_name(name@, spec_str_width(timestamp@), area_width),
        r.1 == sat_sub(sat_sub(sat_sub(area_width as int, 5), spec_str_width(r.0@) as int), spec_str_width(timestamp@) as int),
{
    let available: usize = (area_width as usize).saturating_sub(5);
    let time_width = str_width(timestamp);
    let max_name_width = available.saturating_sub(time_width).saturating_sub(1);
    let display_name = if str_width(name) > max_name_width && max_name_width > 0 {
        let cut = truncate_name(name, max_name_width);
        string_of_vec(&cut)
    } else {
        owned(name)
    };
    let name_width = str_width(display_name.as_str());
    let padding = available.saturating_sub(name_width).saturating_sub(time_width);
    (display_name, padding)
}

/// What the bar under the messages pane shows.
pub enum StatusBar {
    /// The compose text, while it is being sent.
    Sending,
    /// The compose box: the text cut into rows and the cursor's cell.
    Compose { text: String, cursor_row: usize, cursor_col: usize },
    /// The attachment picker's status line.
    AttachmentStatus(String),
    /// The attachment picker's key help.
    AttachmentHint,
    /// The last send error, with a hint to retry.
    Error(String),
    /// A status line in the messages pane (in yellow while an attachment loads).
    MessageStatus { text: String, loading: bool },
    /// The messages pane's key help, mentioning attachments when the selected message has some.
    MessageHint { has_attachments: bool },
    /// The chat list's key help.
    ChatsHint,
}

/// Abstract view of `StatusBar`.
pub enum StatusBarView {
    Sending,
    Compose { text: Seq<char>, cursor_row: nat, cursor_col: nat },
    AttachmentStatus(Seq<char>),
    AttachmentHint,
    Error(Seq<char>),
    MessageStatus { text: Seq<char>, loading: bool },
    MessageHint { has_attachments: bool },
    ChatsHint,
}

pub open spec fn status_view(b: StatusBar) -> StatusBarView {
    match b {
        StatusBar::Sending => StatusBarView::Sending,
        StatusBar::Compose { text, cursor_row, cursor_col } =>
            StatusBarView::Compose { text: text@, cursor_row: cursor_row as nat, cursor_col: cursor_col as nat },
        StatusBar::AttachmentStatus(s) => StatusBarView::AttachmentStatus(s@),
        StatusBar::AttachmentHint => StatusBarView::AttachmentHint,
        StatusBar::Error(e) => StatusBarView::Error(e@),
        StatusBar::MessageStatus { text, loading } => StatusBarView::MessageStatus { text: text@, loading },
        StatusBar::MessageHint { has_attachments } => StatusBarView::MessageHint { has_attachments },
        StatusBar::ChatsHint => StatusBarView::ChatsHint,
    }
}

/// The status bar for a client state and a bar `width` cells wide: sending
/// first, then compose mode, the attachment picker, a send error, the
/// messages pane, and the chat list's help otherwise.
pub open spec fn spec_status_bar(m: MainView, width: u16) -> StatusBarView {
    let w = sat_sub(width as int, 2) as nat;
    if m.pending_send {
        StatusBarView::Sending
    } else if m.compose_mode {
        let cell = spec_cursor_cell(m.compose_text, m.compose_cursor as nat, w);
        StatusBarView::Compose { text: spec_wrap_compose(m.compose_text, w), cursor_row: cell.0, cursor_col: cell.1 }
    } else if m.focused_pane == FocusedPane::AttachmentPicker {
        match m.attachment_status {
            Some(s) => StatusBarView::AttachmentStatus(s),
            None => StatusBarView::AttachmentHint,
        }
    } else if m.send_error is Some {
        StatusBarView::Error(m.send_error.unwrap())
    } else if m.focused_pane == FocusedPane::Messages {
        match m.attachment_status {
            Some(s) => StatusBarView::MessageStatus { text: s, loading: m.loading_attachment },
            None => StatusBarView::MessageHint { has_attachments: spec_selected_has_attachments(m) },
        }
    } else {
        StatusBarView::ChatsHint
    }
}

/// The label over a message: `Me` for the user's own, the contact name or the
/// address of the sender otherwise, and `Unknown` without a sender.
pub open spec fn spec_sender_label(m: MainView, msg: Message) -> Seq<char> {
    if msg.is_from_me {
        seq!['M', 'e']
    } else {
        match msg.handle {
            Some(h) => match spec_lookup(m.contacts, h.address@) {
                Some(n) => n,
                None => h.address@,
            },
            None => seq!['U', 'n', 'k', 'n', 'o', 'w', 'n'],
        }
    }
}

/// Whether a message is shown as a centred system line: it has no sender and
/// is not the user's own.
pub open spec fn spec_is_system_line(msg: Message) -> bool {
    msg.handle is None && !msg.is_from_me
}

/// The dot in the top-right corner: green while the user is active, red when
/// idle with notifications waiting, yellow when idle otherwise.
#[derive(Debug, Clone, Copy, PartialEq, Eq, Structural)]
pub enum Presence {
    Active,
    Notified,
    Idle,
}

pub open spec fn spec_presence(m: MainView, now: u64) -> Presence {
    if elapsed(now, m.last_activity) <= IDLE_AFTER_MS {
        Presence::Active
    } else if m.tui_notifications.len() > 0 {
        Presence::Notified
    } else {
        Presence::Idle
    }
}

impl MainState {
    /// Height of the compose box for a right-hand column `right_width` cells wide.
    pub fn compose_box_height(&self, right_width: u16) -> (h: u16)
        requires
            self@.compose_text.len() < usize::MAX,
            compose_height_fits(self@.compose_mode, self@.compose_text, right_width),
        ensures
            h == spec_compose_box_height(self@.compose_mode, self@.compose_text, right_width),
    {
        compose_box_height(self.compose_mode, &self.compose_text, right_width)
    }

    /// What the status bar shows (see `spec_status_bar`).
    pub fn status_bar(&self, width: u16) -> (r: StatusBar)
        ensures
            status_view(r) == spec_status_bar(self@, width),
    {
        let w: usize = width.saturating_sub(2) as usize;
        if self.pending_send {
            StatusBar::Sending
        } else if self.compose_mode {
            let text = wrap_compose_text(&self.compose_text, w);
            let (row, col) = compose_cursor_cell(&self.compose_text, self.compose_cursor, w);
            StatusBar::Compose { text, cursor_row: row, cursor_col: col }
        } else if self.focused_pane == FocusedPane::AttachmentPicker {
            match &self.attachment_status {
                Some(s) => StatusBar::AttachmentStatus(owned(s.as_str())),
                None => StatusBar::AttachmentHint,
            }
        } else if self.send_error.is_some() {
            let e = self.send_error.as_ref().unwrap();
            StatusBar::Error(owned(e.as_str()))
        } else if self.focused_pane == FocusedPane::Messages {
            match &self.attachment_status {
                Some(s) => StatusBar::MessageStatus { text: owned(s.as_str()), loading: self.loading_attachment },
                None => StatusBar::MessageHint { has_attachments: self.selected_message_has_attachments() },
            }
        } else {
            StatusBar::ChatsHint
        }
    }

    /// The label over a message (see `spec_sender_label`).
    pub fn sender_label(&self, msg: &Message) -> (r: String)
        ensures
            r@ == spec_sender_label(self@, *msg),
    {
        if msg.is_from_me {
            let r = owned("Me");
            proof {
                reveal_strlit("Me");
            }
            r
        } else {
            match &msg.handle {
                Some(h) => match self.lookup_contact(h.address.as_str()) {
                    Some(n) => owned(n.as_str()),
                    None => owned(h.address.as_str()),
                },
                None => {
                    let r = owned("Unknown");
                    proof {
                        reveal_strlit("Unknown");
                    }
                    r
                },
            }
        }
    }

    /// The colour of the activity dot at time `now` (see `spec_presence`).
    pub fn presence(&self, now: u64) -> (p: Presence)
        ensures
            p == spec_presence(self@, now),
    {
        let idle: u64 = if now >= self.last_activity { now - self.last_activity } else { 0 };
        if idle <= IDLE_AFTER_MS {
            Presence::Active
        } else if self.tui_notifications.len() > 0 {
            Presence::Notified
        } else {
            Presence::Idle
        }
    }
}

/// Whether a message is shown as a centred system line (see `spec_is_system_line`).
pub fn is_system_line(msg: &Message) -> (b: bool)
    ensures
        b == spec_is_system_line(*msg),
{
    msg.handle.is_none() && !msg.is_from_me
}

/// How an attachment appears under its message: an image preview (its guid
/// and a name to show while it is not there), or a one-line label.
pub enum AttachmentRow {
    Image { guid: String, name: String },
    Label(String),
}

/// Abstract view of `AttachmentRow`.
pub enum AttachmentRowView {
    Image(Seq<char>, Seq<char>),
    Label(Seq<char>),
}

pub open spec fn row_view(r: AttachmentRow) -> AttachmentRowView {
    match r {
        AttachmentRow::Image { guid, name } => AttachmentRowView::Image(guid@, name@),
        AttachmentRow::Label(l) => AttachmentRowView::Label(l@),
    }
}

/// The row of one attachment: images by guid, named by their file name or
/// `image`; others as `[file name]`, or `[attachment]` without a name.
pub open spec fn spec_attachment_row(a: Attachment) -> AttachmentRowView {
    if spec_is_image_attachment(a) {
        AttachmentRowView::Image(a.guid@, match a.transfer_name {
            Some(n) => n@,
            None => "image"@,
        })
    } else {
        AttachmentRowView::Label("["@ + match a.transfer_name {
            Some(n) => n@,
            None => "attachment"@,
        } + "]"@)
    }
}

/// The row of one attachment (see `spec_attachment_row`).
pub fn attachment_row(a: &Attachment) -> (r: AttachmentRow)
    ensures
        row_view(r) == spec_attachment_row(*a),
{
    if is_image_attachment(a) {
        let name = match &a.transfer_name {
            Some(n) => owned(n.as_str()),
            None => owned("image"),
        };
        AttachmentRow::Image { guid: owned(a.guid.as_str()), name }
    } else {
        let inner = match &a.transfer_name {
            Some(n) => owned(n.as_str()),
            None => owned("attachment"),
        };
        let open = crate::text::concat("[", inner.as_str());
        AttachmentRow::Label(crate::text::concat(open.as_str(), "]"))
    }
}

/// The rows of a message's attachments, in order.
pub fn attachment_rows(msg: &Message) -> (r: Vec<AttachmentRow>)
    ensures
        r@.len() == match msg.attachments { Some(a) => a@.len(), None => 0 },
        forall|i: int| 0 <= i < r@.len() ==> row_view(#[trigger] r@[i]) == spec_attachment_row(msg.attachments.unwrap()@[i]),
{
    let mut out: Vec<AttachmentRow> = Vec::new();
    match &msg.attachments {
        Some(atts) => {
            let mut i: usize = 0;
            while i < atts.len()
                invariant
                    msg.attachments == Some(*atts),
                    i <= atts@.len(),
                    out@.len() == i,
                    forall|k: int| 0 <= k < i ==> row_view(#[trigger] out@[k]) == spec_attachment_row(atts@[k]),
                decreases atts@.len() - i,
            {
                out.push(attachment_row(&atts[i]));
                i += 1;
            }
        },
        None => {},
    }
    out
}

/// The text that textwrap's `fill` makes of `text` at `width` columns.
pub uninterp spec fn spec_fill(text: Seq<char>, width: usize) -> Seq<char>;

/// `textwrap::fill` of textwrap: the text broken into lines of at most
/// `width` columns, the lines joined by line feeds.  The line breaking is
/// textwrap's own; its result is named by `spec_fill` and nothing more is
/// claimed of it here.
#[verifier::external_body]
fn fill(text: &str, width: usize) -> (r: String)
    requires
        width >= 1,
    ensures
        r@ == spec_fill(text@, width),
{
    textwrap::fill(text, width)
}

/// The finished lines of `s` and the line still open, split as `str::lines`
/// splits: at each line feed, a carriage return right before it dropped.
pub open spec fn split_state(s: Seq<char>) -> (Seq<Seq<char>>, Seq<char>)
    decreases s.len(),
{
    if s.len() == 0 {
        (Seq::empty(), Seq::empty())
    } else {
        let prev = split_state(s.drop_last());
        if s.last() == '\n' {
            let line = if prev.1.len() > 0 && prev.1.last() == '\r' { prev.1.drop_last() } else { prev.1 };
            (prev.0.push(line), Seq::empty())
        } else {
            (prev.0, prev.1.push(s.last()))
        }
    }
}

/// The lines of `s` as `str::lines` gives them: no line after a final line feed.
pub open spec fn spec_lines(s: Seq<char>) -> Seq<Seq<char>> {
    let st = split_state(s);
    if st.1.len() > 0 { st.0.push(st.1) } else { st.0 }
}

/// Splits `s` into its lines (see `spec_lines`).
pub fn split_lines(s: &str) -> (r: Vec<String>)
    ensures
        r@.map_values(|l: String| l@) == spec_lines(s@),
{
    let v = crate::text::chars_of(s);
    let n = v.len();
    let mut done: Vec<String> = Vec::new();
    let mut cur: Vec<char> = Vec::new();
    let mut i: usize = 0;
    assert(v@.take(0) =~= Seq::<char>::empty());
    while i < n
        invariant
            n == v@.len(),
            v@ == s@,
            i <= n,
            (done@.map_values(|l: String| l@), cur@) == split_state(v@.take(i as int)),
        decreases n - i,
    {
        assert(v@.take(i + 1).drop_last() =~= v@.take(i as int));
        let c = v[i];
        if c == '\n' {
            let ghost before = done@.map_values(|l: String| l@);
            let ghost cv = cur@;
            if cur.len() > 0 && cur[cur.len() - 1] == '\r' {
                cur.pop();
            }
            done.push(string_of_vec(&cur));
            assert(done@.map_values(|l: String| l@) =~= before.push(
                if cv.len() > 0 && cv.last() == '\r' { cv.drop_last() } else { cv },
            ));
            cur = Vec::new();
        } else {
            cur.push(c);
        }
        i += 1;
    }
    assert(v@.take(n as int) =~= v@);
    if cur.len() > 0 {
        let ghost before = done@.map_values(|l: String| l@);
        done.push(string_of_vec(&cur));
        assert(done@.map_values(|l: String| l@) =~= before.push(cur@));
    }
    done
}

/// The lines a text is shown in, `width` columns wide.
pub open spec fn spec_wrapped_lines(text: Seq<char>, width: usize) -> Seq<Seq<char>> {
    spec_lines(spec_fill(text, width))
}

/// The lines `text` is shown in, `width` columns wide (see `spec_wrapped_lines`).
pub fn wrapped_lines(text: &str, width: usize) -> (r: Vec<String>)
    requires
        width >= 1,
    ensures
        r@.map_values(|l: String| l@) == spec_wrapped_lines(text@, width),
{
    let filled = fill(text, width);
    split_lines(filled.as_str())
}

/// Rows a message's text takes: none when it is empty, else its wrapped
/// lines, at least one.
pub open spec fn spec_text_rows(text: Seq<char>, width: usize) -> nat {
    if text.len() == 0 {
        0
    } else {
        let n = spec_wrapped_lines(text, width).len();
        if n >= 1 { n } else { 1 }
    }
}

/// Rows a message's text takes in a bubble `width` columns wide, with the
/// lines it is shown in (see `spec_text_rows`).
pub fn message_text(text: &str, width: usize) -> (r: (usize, Vec<String>))
    requires
        width >= 1,
    ensures
        r.0 == spec_text_rows(text@, width),
        r.1@.map_values(|l: String| l@) == spec_wrapped_lines(text@, width),
{
    let lines = wrapped_lines(text, width);
    let rows: usize = if text.is_empty() {
        0
    } else if lines.len() >= 1 {
        lines.len()
    } else {
        1
    };
    (rows, lines)
}

/// Width of an in-terminal notification box, border included.
pub const NOTICE_WIDTH: u16 = 40;

/// All lines of the bodies `bs`, each body wrapped to the box's inner width.
pub open spec fn spec_body_lines(bs: Seq<Seq<char>>) -> Seq<Seq<char>>
    decreases bs.len(),
{
    if bs.len() == 0 {
        Seq::empty()
    } else {
        spec_body_lines(bs.drop_last()) + spec_wrapped_lines(bs.last(), (NOTICE_WIDTH - 4) as usize)
    }
}

/// Where a notification box goes: which notification, its top row and height,
/// and whether its shadow fits below it.
pub struct NoticeBox {
    pub index: usize,
    pub y: u16,
    pub height: u16,
    pub shadow: bool,
}

/// The boxes of notifications whose bodies take `counts[i]` lines, from
/// notification `i` on, the next box starting at row `y`; a box goes only
/// where it fits above row `bottom`, and the first that does not fit ends
/// the stack.
pub open spec fn spec_notice_stack(counts: Seq<usize>, i: int, y: int, bottom: int) -> Seq<(int, int, int, bool)>
    decreases counts.len() - i,
{
    if i < 0 || i >= counts.len() {
        Seq::empty()
    } else {
        let h = counts[i] + 2;
        if y + h > bottom {
            Seq::empty()
        } else {
            seq![(i, y, h, y + 1 + h <= bottom)] + spec_notice_stack(counts, i + 1, y + h + 1, bottom)
        }
    }
}

/// The boxes for an area at column `x`, row `y`, `w` wide and `h` high:
/// none when the area is narrower than a box and a margin or lower than five
/// rows, else the stack from the row below the top.
pub open spec fn spec_notice_boxes(counts: Seq<usize>, y: u16, w: u16, h: u16) -> Seq<(int, int, int, bool)> {
    if w < NOTICE_WIDTH + 4 || h < 5 {
        Seq::empty()
    } else {
        spec_notice_stack(counts, 0, y + 1, y + h)
    }
}

pub open spec fn notice_box_view(b: NoticeBox) -> (int, int, int, bool) {
    (b.index as int, b.y as int, b.height as int, b.shadow)
}

/// Lays out the notification boxes (see `spec_notice_boxes`); `counts[i]`
/// is the number of body lines of notification `i`.
pub fn notice_boxes(counts: &Vec<usize>, y: u16, w: u16, h: u16) -> (r: Vec<NoticeBox>)
    requires
        y + h <= u16::MAX,
        forall|k: int| 0 <= k < counts@.len() ==> counts@[k] + 3 + y + h <= u16::MAX,
    ensures
        r@.map_values(|b: NoticeBox| notice_box_view(b)) == spec_notice_boxes(counts@, y, w, h),
{
    let mut out: Vec<NoticeBox> = Vec::new();
    if w < NOTICE_WIDTH + 4 || h < 5 {
        return out;
    }
    let bottom: u16 = y + h;
    let n = counts.len();
    let mut cur: u16 = y + 1;
    let mut i: usize = 0;
    while i < n
        invariant_except_break
            out@.map_values(|b: NoticeBox| notice_box_view(b)) + spec_notice_stack(counts@, i as int, cur as int, bottom as int)
                == spec_notice_boxes(counts@, y, w, h),
        invariant
            n == counts@.len(),
            i <= n,
            bottom == y + h,
            cur <= bottom + 1,
            w >= NOTICE_WIDTH + 4,
            h >= 5,
            forall|k: int| 0 <= k < counts@.len() ==> counts@[k] + 3 + y + h <= u16::MAX,
        ensures
            out@.map_values(|b: NoticeBox| notice_box_view(b)) == spec_notice_boxes(counts@, y, w, h),
        decreases n - i,
    {
        let ghost before = out@.map_values(|b: NoticeBox| notice_box_view(b));
        let height: u16 = counts[i] as u16 + 2;
        if cur + height > bottom {
            assert(before =~= before + Seq::<(int, int, int, bool)>::empty());
            break;
        }
        let shadow = cur + 1 + height <= bottom;
        out.push(NoticeBox { index: i, y: cur, height, shadow });
        assert(out@.map_values(|b: NoticeBox| notice_box_view(b)) =~= before.push((i as int, cur as int, height as int, shadow)));
        assert(seq![(i as int, cur as int, height as int, shadow)] + spec_notice_stack(counts@, i + 1, cur + height + 1, bottom as int)
            == spec_notice_stack(counts@, i as int, cur as int, bottom as int));
        assert(before.push((i as int, cur as int, height as int, shadow)) + spec_notice_stack(counts@, i + 1, cur + height + 1, bottom as int)
            =~= before + (seq![(i as int, cur as int, height as int, shadow)] + spec_notice_stack(counts@, i + 1, cur + height + 1, bottom as int)));
        cur = cur + height + 1;
        i += 1;
    }
    out
}

impl MainState {
    /// The lines of each in-terminal notification: its bodies wrapped to the
    /// box's inner width, one after the other.
    pub fn notification_lines(&self) -> (r: Vec<Vec<String>>)
        ensures
            r@.len() == self@.tui_notifications.len(),
            forall|i: int| 0 <= i < r@.len() ==> (#[trigger] r@[i])@.map_values(|l: String| l@)
                == spec_body_lines(self@.tui_notifications[i].bodies),
    {
        let ghost nv = self@.tui_notifications;
        let mut out: Vec<Vec<String>> = Vec::new();
        let mut i: usize = 0;
        while i < self.tui_notifications.len()
            invariant
                nv == self@.tui_notifications,
                i <= nv.len(),
                out@.len() == i,
                forall|k: int| 0 <= k < i ==> (#[trigger] out@[k])@.map_values(|l: String| l@) == spec_body_lines(nv[k].bodies),
            decreases nv.len() - i,
        {
            let bodies = &self.tui_notifications[i].1.bodies;
            let ghost bv = nv[i as int].bodies;
            assert(bv == crate::model::sv(bodies@));
            let mut lines: Vec<String> = Vec::new();
            let mut j: usize = 0;
            while j < bodies.len()
                invariant
                    bv == crate::model::sv(bodies@),
                    j <= bodies@.len(),
                    lines@.map_values(|l: String| l@) == spec_body_lines(bv.take(j as int)),
                decreases bodies@.len() - j,
            {
                let ghost before = lines@.map_values(|l: String| l@);
                let mut w = wrapped_lines(bodies[j].as_str(), (NOTICE_WIDTH - 4) as usize);
                let ghost wv = w@.map_values(|l: String| l@);
                lines.append(&mut w);
                assert(bv.take(j + 1).drop_last() =~= bv.take(j as int));
                assert(lines@.map_values(|l: String| l@) =~= before + wv);
                j += 1;
            }
            assert(bv.take(bodies@.len() as int) =~= bv);
            out.push(lines);
            i += 1;
        }
        out
    }
}

/// The pieces of `s` between its line feeds, in order (one more piece than
/// there are line feeds).
pub open spec fn newline_pieces(s: Seq<char>) -> Seq<Seq<char>>
    decreases s.len(),
{
    if s.len() == 0 {
        seq![Seq::empty()]
    } else {
        let p = newline_pieces(s.drop_last());
        if s.last() == '\n' {
            p.push(Seq::empty())
        } else {
            p.update(p.len() - 1, p.last().push(s.last()))
        }
    }
}

/// Rows that the first `k` pieces take in a box `w` columns wide.
pub open spec fn rows_of_pieces(ps: Seq<Seq<char>>, k: int, w: nat) -> nat
    decreases k,
{
    if k <= 0 { 0 } else { rows_of_pieces(ps, k - 1, w) + line_rows(ps[k - 1].len(), w) }
}

proof fn lemma_rows_of_prefix(a: Seq<Seq<char>>, b: Seq<Seq<char>>, k: int, w: nat)
    requires
        0 <= k <= a.len(),
        k <= b.len(),
        forall|i: int| 0 <= i < k ==> a[i] == b[i],
    ensures
        rows_of_pieces(a, k, w) == rows_of_pieces(b, k, w),
    decreases k,
{
    if k > 0 {
        lemma_rows_of_prefix(a, b, k - 1, w);
    }
}

proof fn lemma_rows_state_pieces(s: Seq<char>, w: nat)
    ensures
        newline_pieces(s).len() >= 1,
        rows_state(s, w).0 == rows_of_pieces(newline_pieces(s), newline_pieces(s).len() - 1, w),
        rows_state(s, w).1 == newline_pieces(s).last().len(),
    decreases s.len(),
{
    if s.len() > 0 {
        lemma_rows_state_pieces(s.drop_last(), w);
        let p = newline_pieces(s.drop_last());
        let q = newline_pieces(s);
        if s.last() == '\n' {
            lemma_rows_of_prefix(p, q, p.len() as int, w);
            lemma_rows_of_prefix(p, q, p.len() - 1, w);
        } else {
            lemma_rows_of_prefix(p, q, p.len() - 1, w);
        }
    }
}

/// In compose mode the status bar puts the cursor where the box shows it:
/// with the text before the cursor split at its line feeds into pieces
/// `l_0 .. l_k`, the row is the rows taken by `l_0 .. l_(k-1)` (each at least
/// one, a piece of `n` characters taking `ceil(n / w)`) plus `len(l_k) / w`,
/// and the column is `len(l_k) % w`, `w` being the width inside the border.
pub proof fn law_compose_cursor_cell(m: MainView, width: u16)
    requires
        m.compose_mode,
        !m.pending_send,
        width >= 3,
        m.compose_cursor <= m.compose_text.len(),
    ensures
        ({
            let w = (width - 2) as nat;
            let ps = newline_pieces(m.compose_text.take(m.compose_cursor as int));
            let k = ps.len() - 1;
            spec_status_bar(m, width) == StatusBarView::Compose {
                text: spec_wrap_compose(m.compose_text, w),
                cursor_row: rows_of_pieces(ps, k, w) + ps[k].len() / w,
                cursor_col: ps[k].len() % w,
            }
        }),
{
    lemma_rows_state_pieces(m.compose_text.take(m.compose_cursor as int), (width - 2) as nat);
}

/// Whether chat row `i` is drawn as unread (in bold green): the chat is
/// marked unread and is not the selected chat.
pub open spec fn spec_row_unread(m: MainView, i: int) -> bool {
    0 <= i < m.chats.len() && m.selected_chat_index != Some(i as usize) && m.unread_chats.contains(m.chats[i].guid@)
}

impl MainState {
    /// Whether chat row `i` is drawn as unread (see `spec_row_unread`).
    pub fn chat_row_unread(&self, i: usize) -> (b: bool)
        ensures
            b == spec_row_unread(self@, i as int),
    {
        if i >= self.chats.len() {
            return false;
        }
        let selected = match self.selected_chat_index {
            Some(s) => s == i,
            None => false,
        };
        !selected && self.unread_chats.contains(self.chats[i].guid.as_str())
    }
}

/// A row of the messages pane.
#[derive(Debug, Clone, Copy, PartialEq, Eq, Structural)]
pub enum MessageRow {
    /// A rule between messages of different days.
    DaySeparator,
    /// A mark between messages an hour or more apart on the same day.
    HourGap,
    /// Message `i`.
    Message(usize),
}

/// Whether message `msg` gets a row: every message but a system line without text.
pub open spec fn spec_message_shown(msg: Message) -> bool {
    !spec_is_system_line(msg) || (msg.text matches Some(t) && t@.len() > 0)
}

/// The rows for the first `n` messages, each stamped with its local day and
/// its time in milliseconds, and the row of the selected message if it has
/// one.  Between two messages a day rule goes when their days differ, else
/// an hour mark when the later is an hour or more after the earlier.
pub open spec fn spec_message_rows(m: MainView, stamps: Seq<(i64, i64)>, n: nat) -> (Seq<MessageRow>, Option<usize>)
    decreases n,
{
    if n == 0 {
        (Seq::empty(), None)
    } else {
        let prev = spec_message_rows(m, stamps, (n - 1) as nat);
        let i = n - 1;
        let r1 = if i > 0 && stamps[i - 1].0 != stamps[i].0 {
            prev.0.push(MessageRow::DaySeparator)
        } else if i > 0 && stamps[i].1 - stamps[i - 1].1 >= 3_600_000 {
            prev.0.push(MessageRow::HourGap)
        } else {
            prev.0
        };
        if spec_message_shown(m.messages[i]) {
            (r1.push(MessageRow::Message(i as usize)),
                if m.message_selected == Some(i as usize) { Some(r1.len() as usize) } else { prev.1 })
        } else {
            (r1, prev.1)
        }
    }
}

/// The number of messages that have a stamp.
pub open spec fn stamped(m: MainView, stamps: Seq<(i64, i64)>) -> nat {
    if stamps.len() < m.messages.len() { stamps.len() } else { m.messages.len() }
}

impl MainState {
    /// The rows of the messages pane (see `spec_message_rows`); `stamps[i]`
    /// is message `i`'s local day and its time in milliseconds.  Messages
    /// past the last stamp get no row.
    pub fn message_rows(&self, stamps: &Vec<(i64, i64)>) -> (r: (Vec<MessageRow>, Option<usize>))
        ensures
            (r.0@, r.1) == spec_message_rows(self@, stamps@, stamped(self@, stamps@)),
            r.1 matches Some(k) ==> (k < r.0@.len() && self@.message_selected is Some
                && r.0@[k as int] == MessageRow::Message(self@.message_selected.unwrap())),
    {
        let n: usize = if stamps.len() < self.messages.len() { stamps.len() } else { self.messages.len() };
        let mut rows: Vec<MessageRow> = Vec::new();
        let mut sel: Option<usize> = None;
        let mut i: usize = 0;
        while i < n
            invariant
                n == stamped(self@, stamps@),
                n <= stamps@.len(),
                n <= self@.messages.len(),
                i <= n,
                (rows@, sel) == spec_message_rows(self@, stamps@, i as nat),
                rows@.len() <= 2 * i,
                sel matches Some(k) ==> (k < rows@.len() && self@.message_selected is Some
                    && rows@[k as int] == MessageRow::Message(self@.message_selected.unwrap())),
            decreases n - i,
        {
            if i > 0 && stamps[i - 1].0 != stamps[i].0 {
                rows.push(MessageRow::DaySeparator);
            } else if i > 0 && (stamps[i].1 as i128) - (stamps[i - 1].1 as i128) >= 3_600_000 {
                rows.push(MessageRow::HourGap);
            }
            let msg = &self.messages[i];
            let shown = !is_system_line(msg) || match &msg.text {
                Some(t) => !t.as_str().is_empty(),
                None => false,
            };
            if shown {
                if self.message_selected == Some(i) {
                    sel = Some(rows.len());
                }
                rows.push(MessageRow::Message(i));
            }
            i += 1;
        }
        (rows, sel)
    }
}

/// The password as the login form shows it: one `*` for each byte of its
/// UTF-8 encoding.
pub open spec fn spec_masked_password(p: Seq<char>) -> Seq<char> {
    Seq::new(spec_utf8_len(p), |i: int| '*')
}

/// Where the login form puts the cursor: the box of the active field (0 for
/// the host, 1 for the password) and the display width of what that field
/// holds; no cursor while the checkbox is active.
pub open spec fn spec_login_cursor(f: LoginFields) -> Option<(usize, usize)> {
    if f.active_field == 0 {
        Some((0usize, spec_str_width(f.host@)))
    } else if f.active_field == 1 {
        Some((1usize, spec_str_width(f.password@)))
    } else {
        None
    }
}

impl LoginFields {
    /// The password field's text, masked (see `spec_masked_password`).
    pub fn masked_password(&self) -> (r: String)
        ensures
            r@ == spec_masked_password(self.password@),
    {
        let n = char_to_byte(self.password.as_str(), self.password.as_str().unicode_len());
        let mut r = String::new();
        let mut i: usize = 0;
        while i < n
            invariant
                i <= n,
                r@ == Seq::new(i as nat, |k: int| '*'),
            decreases n - i,
        {
            push_char(&mut r, '*');
            i += 1;
            assert(r@ =~= Seq::new(i as nat, |k: int| '*'));
        }
        r
    }

    /// The mark of the Private API checkbox.
    pub fn private_api_mark(&self) -> (r: &'static str)
        ensures
            r@ == (if self.use_private_api { "[x]"@ } else { "[ ]"@ }),
    {
        if self.use_private_api { "[x]" } else { "[ ]" }
    }

    /// The login form's cursor (see `spec_login_cursor`).
    pub fn login_cursor(&self) -> (r: Option<(usize, usize)>)
        ensures
            r == spec_login_cursor(*self),
    {
        if self.active_field == 0 {
            Some((0, str_width(self.host.as_str())))
        } else if self.active_field == 1 {
            Some((1, str_width(self.password.as_str())))
        } else {
            None
        }
    }
}

/// Among the rows of the first `n` messages, the selected message `i`, shown
/// and among them, has its row, and the selection points at it.
proof fn lemma_selected_row(m: MainView, stamps: Seq<(i64, i64)>, n: nat, i: usize)
    requires
        m.message_selected == Some(i),
        i < n <= m.messages.len(),
        spec_message_shown(m.messages[i as int]),
        spec_message_rows(m, stamps, n).0.len() <= usize::MAX,
    ensures
        ({
            let (rows, sel) = spec_message_rows(m, stamps, n);
            &&& sel matches Some(r)
            &&& (r as int) < rows.len()
            &&& rows[r as int] == MessageRow::Message(i)
        }),
    decreases n,
{
    let prev = spec_message_rows(m, stamps, (n - 1) as nat);
    assert(prev.0.len() <= spec_message_rows(m, stamps, n).0.len());
    if n > i + 1 {
        lemma_selected_row(m, stamps, (n - 1) as nat, i);
        let prev = spec_message_rows(m, stamps, (n - 1) as nat);
        let r = prev.1.unwrap();
        let rows = spec_message_rows(m, stamps, n).0;
        assert(rows.len() >= prev.0.len());
        assert(rows[r as int] == prev.0[r as int]);
    }
}

/// The selected message is always scrolled into view: when it is shown and
/// stamped, the messages pane has a row for it, and whatever the heights of
/// the rows, in a pane at least one row high that row starts inside the pane.
pub proof fn law_selected_message_in_view(m: MainView, stamps: Seq<(i64, i64)>, heights: Vec<usize>, avail: int)
    requires
        m.message_selected matches Some(i) && (i as int) < stamped(m, stamps)
            && spec_message_shown(m.messages[i as int]),
        heights@.len() == spec_message_rows(m, stamps, stamped(m, stamps)).0.len(),
        avail >= 1,
    ensures
        ({
            let (rows, sel) = spec_message_rows(m, stamps, stamped(m, stamps));
            let w = spec_message_window(heights@, sel, avail);
            &&& sel matches Some(r)
            &&& (r as int) < rows.len()
            &&& rows[r as int] == MessageRow::Message(m.message_selected.unwrap())
            &&& w.0 <= r
            &&& 0 <= item_row(heights@, w.0, w.1, r as int) < avail
        }),
{
    assert(heights@.len() == heights.len());
    let i = m.message_selected.unwrap();
    lemma_selected_row(m, stamps, stamped(m, stamps), i);
    let r = spec_message_rows(m, stamps, stamped(m, stamps)).1.unwrap();
    law_selection_row_visible(heights@, r, avail);
}

} // verus!
