//! Text layout helpers for rendering: control characters, tab stops,
//! truncation, and which colors count as muted.

use vstd::prelude::*;
use crate::strings::{chars_of, string_of, push_str, take_chars_vec};

verus! {

/// Max width for path display in sidebar.
pub const SIDEBAR_PATH_WIDTH: usize = 22;

/// Gutter: 4 (line num) + 2 (separator) = 6 chars
pub const GUTTER_WIDTH: usize = 6;

/// Tab stop width for display alignment.
pub const TAB_WIDTH: usize = 8;

/// Control characters are shown as the replacement character.
pub open spec fn sanitized(c: char) -> char {
    if (c as u32) <= 0x1f || (c as u32) == 0x7f {
        '\u{FFFD}'
    } else {
        c
    }
}

/// Sanitize control characters.
pub fn sanitize_char(c: char) -> (r: char)
    ensures
        r == sanitized(c),
{
    if ('\x00' <= c && c <= '\x1f') || c == '\x7f' {
        '\u{FFFD}'
    } else {
        c
    }
}

/// Columns from `col` to the next tab stop (a full stop at a stop).
pub open spec fn tab_width(col: nat) -> nat {
    if col % 8 == 0 {
        8
    } else {
        (8 - col % 8) as nat
    }
}

/// Width of a tab starting at column `col`.
pub fn tab_width_at(col: usize) -> (r: usize)
    ensures
        r == tab_width(col as nat),
        1 <= r <= TAB_WIDTH,
        (col + r) % 8 == 0,
{
    let rem = col % TAB_WIDTH;
    if rem == 0 {
        TAB_WIDTH
    } else {
        TAB_WIDTH - rem
    }
}

/// The spaces of a tab at column `col` that are visible with horizontal
/// scroll `scroll_x` and `remaining` columns left, and the tab's width.
pub open spec fn visible_tab(col: nat, scroll_x: nat, remaining: nat) -> (nat, nat) {
    let width = tab_width(col);
    let skip = if scroll_x > col {
        (scroll_x - col) as nat
    } else {
        0
    };
    if remaining == 0 || skip >= width {
        (0, width)
    } else {
        let available = (width - skip) as nat;
        (if available < remaining {
            available
        } else {
            remaining
        }, width)
    }
}

/// Number of a tab's spaces to draw, and the tab's width.
pub fn visible_tab_spaces(col: usize, scroll_x: usize, remaining: usize) -> (r: (usize, usize))
    ensures
        (r.0 as nat, r.1 as nat) == visible_tab(col as nat, scroll_x as nat, remaining as nat),
        r.0 <= r.1,
        r.0 <= remaining,
{
    let width = tab_width_at(col);
    if remaining == 0 {
        return (0, width);
    }
    let skip = scroll_x.saturating_sub(col);
    if skip >= width {
        return (0, width);
    }
    let available = width - skip;
    let take = if available < remaining {
        available
    } else {
        remaining
    };
    (take, width)
}

/// `s` cut to `max_len` characters, the last of them an ellipsis when cut.
pub open spec fn truncated_display(s: Seq<char>, max_len: nat) -> Seq<char> {
    if s.len() <= max_len {
        s
    } else if max_len == 0 {
        Seq::empty()
    } else {
        s.subrange(0, max_len - 1) + seq!['\u{2026}']
    }
}

/// Truncate `s` to `max_len` characters, ending with an ellipsis when cut.
pub fn truncate_str(s: &str, max_len: usize) -> (r: String)
    ensures
        r@ == truncated_display(s@, max_len as nat),
        r@.len() <= max_len || r@ == s@,
{
    let chars = chars_of(s);
    if chars.len() <= max_len {
        s.to_owned()
    } else if max_len == 0 {
        String::new()
    } else {
        let mut t = take_chars_vec(chars.as_slice(), max_len - 1);
        t.push('\u{2026}');
        string_of(t.as_slice())
    }
}

/// Perceived luminance (0..255) of an RGB color.
pub open spec fn luminance(r: u8, g: u8, b: u8) -> int {
    (r as int * 299 + g as int * 587 + b as int * 114) / 1000
}

/// Saturation (0..100) of an RGB color.
pub open spec fn saturation(r: u8, g: u8, b: u8) -> int {
    let max = if r >= g && r >= b {
        r
    } else if g >= b {
        g
    } else {
        b
    };
    let min = if r <= g && r <= b {
        r
    } else if g <= b {
        g
    } else {
        b
    };
    if max == 0 {
        0
    } else {
        (max - min) * 100 / (max as int)
    }
}

/// An RGB color is muted: dark, or dim and unsaturated.
pub open spec fn muted_rgb(r: u8, g: u8, b: u8) -> bool {
    luminance(r, g, b) < 140 || (luminance(r, g, b) < 180 && saturation(r, g, b) < 30)
}

/// Whether an RGB color is too muted to read as a foreground.
pub fn is_muted_rgb(r: u8, g: u8, b: u8) -> (m: bool)
    ensures
        m == muted_rgb(r, g, b),
{
    let lum: u32 = (r as u32 * 299 + g as u32 * 587 + b as u32 * 114) / 1000;
    let max = if r >= g && r >= b {
        r
    } else if g >= b {
        g
    } else {
        b
    };
    let min = if r <= g && r <= b {
        r
    } else if g <= b {
        g
    } else {
        b
    };
    let sat: u32 = if max == 0 {
        0
    } else {
        (max - min) as u32 * 100 / max as u32
    };
    lum < 140 || (lum < 180 && sat < 30)
}

/// Layout state: (emitted text, column, visible width, stopped).
pub open spec fn plain_layout(
    text: Seq<char>,
    scroll_x: nat,
    max_content: nat,
    col0: nat,
    vis0: nat,
) -> (Seq<char>, nat, nat, bool)
    decreases text.len(),
{
    if text.len() == 0 {
        (Seq::empty(), col0, vis0, false)
    } else {
        let st = plain_layout(text.drop_last(), scroll_x, max_content, col0, vis0);
        let ch = text.last();
        if st.3 || st.2 >= max_content {
            (st.0, st.1, st.2, true)
        } else if ch == '\t' {
            let remaining = (max_content - st.2) as nat;
            let t = visible_tab(st.1, scroll_x, remaining);
            (st.0 + Seq::new(t.0, |i: int| ' '), st.1 + t.1, st.2 + t.0, false)
        } else if st.1 >= scroll_x {
            if st.2 + 1 > max_content {
                (st.0, st.1, st.2, true)
            } else {
                (st.0.push(sanitized(ch)), st.1 + 1, st.2 + 1, false)
            }
        } else {
            (st.0, st.1 + 1, st.2, false)
        }
    }
}

/// Lay out plain text into at most `max_content` visible columns, scrolled
/// by `scroll_x`, from column `col_pos` with `visible_len` already used:
/// tabs expand to the next stop, control characters show as U+FFFD. Returns
/// the visible text, and the new column and visible width.
pub fn render_plain_text(text: &str, scroll_x: usize, max_content: usize, col_pos: usize, visible_len: usize) -> (r: (String, usize, usize))
    requires
        col_pos + text@.len() * 8 <= usize::MAX,
        visible_len <= max_content,
    ensures
        max_content == 0 ==> r.0@.len() == 0 && r.1 == col_pos && r.2 == visible_len,
        max_content > 0 ==> ({
            let st = plain_layout(text@, scroll_x as nat, max_content as nat, col_pos as nat, visible_len as nat);
            r.0@ == st.0 && r.1 == st.1 && r.2 == st.2
        }),
{
    if max_content == 0 {
        return (String::new(), col_pos, visible_len);
    }
    let chars = chars_of(text);
    let mut out: Vec<char> = Vec::new();
    let mut col = col_pos;
    let mut vis = visible_len;
    let mut i: usize = 0;
    assert(text@.subrange(0, 0) =~= Seq::<char>::empty());
    assert(text@.subrange(0, text@.len() as int) =~= text@);
    while i < chars.len()
        invariant
            chars@ == text@,
            text@.subrange(0, chars@.len() as int) == text@,
            i <= chars@.len(),
            col_pos + text@.len() * 8 <= usize::MAX,
            col <= col_pos + i * 8,
            vis <= max_content,
            plain_layout(text@.subrange(0, i as int), scroll_x as nat, max_content as nat, col_pos as nat, visible_len as nat)
                == (out@, col as nat, vis as nat, false),
        ensures
            plain_layout(text@, scroll_x as nat, max_content as nat, col_pos as nat, visible_len as nat).0 == out@,
            plain_layout(text@, scroll_x as nat, max_content as nat, col_pos as nat, visible_len as nat).1 == col,
            plain_layout(text@, scroll_x as nat, max_content as nat, col_pos as nat, visible_len as nat).2 == vis,
        decreases chars@.len() - i,
    {
        proof {
            assert(text@.subrange(0, i + 1).drop_last() =~= text@.subrange(0, i as int));
            assert(text@.subrange(0, i + 1).last() == chars@[i as int]);
            assert(col + 8 <= col_pos + (i + 1) * 8) by (nonlinear_arith)
                requires col <= col_pos + i * 8;
        }
        if vis >= max_content {
            proof {
                lemma_layout_stops(text@, i as int, scroll_x as nat, max_content as nat, col_pos as nat, visible_len as nat);
            }
            break;
        }
        let ch = chars[i];
        if ch == '\t' {
            let remaining = max_content - vis;
            let (emit, advance) = visible_tab_spaces(col, scroll_x, remaining);
            let mut k: usize = 0;
            let ghost o0 = out@;
            while k < emit
                invariant
                    k <= emit,
                    out@ == o0 + Seq::new(k as nat, |j: int| ' '),
                decreases emit - k,
            {
                out.push(' ');
                k = k + 1;
                assert(out@ =~= o0 + Seq::new(k as nat, |j: int| ' '));
            }
            vis = vis + emit;
            col = col + advance;
        } else if col >= scroll_x {
            if vis + 1 > max_content {
                proof {
                    lemma_layout_stops_after(text@, i as int, scroll_x as nat, max_content as nat, col_pos as nat, visible_len as nat);
                }
                break;
            }
            out.push(sanitize_char(ch));
            vis = vis + 1;
            col = col + 1;
        } else {
            col = col + 1;
        }
        i = i + 1;
    }
    proof {
        if i == chars@.len() {
            assert(text@.subrange(0, i as int) =~= text@);
        }
    }
    (string_of(out.as_slice()), col, vis)
}

/// Once the width is used up, the rest of the text changes nothing.
proof fn lemma_layout_stops(text: Seq<char>, i: int, sx: nat, mc: nat, c0: nat, v0: nat)
    requires
        0 <= i < text.len(),
        plain_layout(text.subrange(0, i), sx, mc, c0, v0).2 >= mc,
        !plain_layout(text.subrange(0, i), sx, mc, c0, v0).3,
    ensures
        ({
            let a = plain_layout(text, sx, mc, c0, v0);
            let b = plain_layout(text.subrange(0, i), sx, mc, c0, v0);
            a.0 == b.0 && a.1 == b.1 && a.2 == b.2
        }),
    decreases text.len() - i,
{
    lemma_layout_stopped_rest(text, text.len() as int, sx, mc, c0, v0, i);
    assert(text.subrange(0, text.len() as int) =~= text);
}

/// A character that does not fit stops the layout.
proof fn lemma_layout_stops_after(text: Seq<char>, i: int, sx: nat, mc: nat, c0: nat, v0: nat)
    requires
        0 <= i < text.len(),
        ({
            let b = plain_layout(text.subrange(0, i), sx, mc, c0, v0);
            !b.3 && b.2 < mc && text[i] != '\t' && b.1 >= sx && b.2 + 1 > mc
        }),
    ensures
        ({
            let a = plain_layout(text, sx, mc, c0, v0);
            let b = plain_layout(text.subrange(0, i), sx, mc, c0, v0);
            a.0 == b.0 && a.1 == b.1 && a.2 == b.2
        }),
    decreases text.len() - i,
{
    lemma_layout_stopped_rest(text, text.len() as int, sx, mc, c0, v0, i);
    assert(text.subrange(0, text.len() as int) =~= text);
}

proof fn lemma_layout_stopped_rest(text: Seq<char>, j: int, sx: nat, mc: nat, c0: nat, v0: nat, i: int)
    requires
        0 <= i < j <= text.len(),
        ({
            let b = plain_layout(text.subrange(0, i), sx, mc, c0, v0);
            !b.3 && (b.2 >= mc || (text[i] != '\t' && b.1 >= sx && b.2 + 1 > mc))
        }),
    ensures
        ({
            let a = plain_layout(text.subrange(0, j), sx, mc, c0, v0);
            let b = plain_layout(text.subrange(0, i), sx, mc, c0, v0);
            a.0 == b.0 && a.1 == b.1 && a.2 == b.2 && a.3
        }),
    decreases j - i,
{
    assert(text.subrange(0, j).drop_last() =~= text.subrange(0, j - 1));
    if j - 1 > i {
        lemma_layout_stopped_rest(text, j - 1, sx, mc, c0, v0, i);
    } else {
        assert(text.subrange(0, j).last() == text[i]);
    }
}

} // verus!
