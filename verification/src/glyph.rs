//! The glyph data model, the acceptance filter, and coordinate
//! normalization from the engine's bottom-left origin to a top-left
//! origin.

use vstd::prelude::*;
use vstd::string::StrSliceExecFns;
use crate::COORD_LIMIT;

verus! {

/// One rendered character occurrence on a page, as handed over by the
/// rendering engine: the decoded character (possibly multi-codepoint),
/// its font, its baseline origin in bottom-left-origin page units, and
/// its loose bounding box in the same units.
pub struct Glyph {
    pub text: String,
    pub font_family: String,
    pub origin_x: i64,
    pub origin_y: i64,
    pub left: i64,
    pub right: i64,
    pub width: i64,
    pub height: i64,
}

/// Mathematical model of a glyph.
pub ghost struct GlyphView {
    pub text: Seq<char>,
    pub font: Seq<char>,
    pub x: int,
    pub y: int,
    pub left: int,
    pub right: int,
    pub width: int,
    pub height: int,
}

impl View for Glyph {
    type V = GlyphView;

    open spec fn view(&self) -> GlyphView {
        GlyphView {
            text: self.text@,
            font: self.font_family@,
            x: self.origin_x as int,
            y: self.origin_y as int,
            left: self.left as int,
            right: self.right as int,
            width: self.width as int,
            height: self.height as int,
        }
    }
}

/// Every coordinate of the glyph lies within `COORD_LIMIT`.
pub open spec fn glyph_wf(g: GlyphView) -> bool {
    &&& -(COORD_LIMIT as int) <= g.x <= COORD_LIMIT as int
    &&& -(COORD_LIMIT as int) <= g.y <= COORD_LIMIT as int
    &&& -(COORD_LIMIT as int) <= g.left <= COORD_LIMIT as int
    &&& -(COORD_LIMIT as int) <= g.right <= COORD_LIMIT as int
    &&& -(COORD_LIMIT as int) <= g.width <= COORD_LIMIT as int
    &&& -(COORD_LIMIT as int) <= g.height <= COORD_LIMIT as int
}

/// A character that contributes no visible content: the control ranges
/// U+0000..=U+0008, U+000B..=U+000C, U+000E..=U+001F, U+007F, and the
/// line-break characters.
pub open spec fn is_control_char(c: char) -> bool {
    ||| c as u32 <= 8
    ||| 0xB <= c as u32 <= 0xC
    ||| 0xE <= c as u32 <= 0x1F
    ||| c as u32 == 0x7F
    ||| c == '\r'
    ||| c == '\n'
}

/// Some character of the string is a control or line-break character.
pub open spec fn has_control(s: Seq<char>) -> bool {
    exists|i: int| 0 <= i < s.len() && is_control_char(s[i])
}

/// A glyph survives the filter exactly when its origin is not in the
/// negative-x region, its normalized y coordinate is not above the
/// page, its text holds no control character, and its bounding box has
/// nonzero height.  The y test runs on the normalized value
/// `page_height - y`.
pub open spec fn glyph_accepted(g: GlyphView, page_height: int) -> bool {
    &&& g.x >= 0
    &&& page_height - g.y >= 0
    &&& !has_control(g.text)
    &&& g.height != 0
}

/// The views of a sequence of glyphs.
pub open spec fn glyph_views(gs: Seq<Glyph>) -> Seq<GlyphView> {
    gs.map_values(|g: Glyph| g@)
}

/// The subsequence of glyphs that survive the filter, in arrival order.
pub open spec fn accepted_seq(gs: Seq<GlyphView>, page_height: int) -> Seq<GlyphView>
    decreases gs.len(),
{
    if gs.len() == 0 {
        Seq::empty()
    } else {
        accepted_seq(gs.drop_last(), page_height) + (if glyph_accepted(
            gs.last(),
            page_height,
        ) {
            seq![gs.last()]
        } else {
            Seq::empty()
        })
    }
}

/// Decides whether one character is a control or line-break character.
pub fn is_control_char_exec(c: char) -> (r: bool)
    ensures
        r == is_control_char(c),
{
    let u = c as u32;
    u <= 8 || (0xB <= u && u <= 0xC) || (0xE <= u && u <= 0x1F) || u == 0x7F || c == '\r' || c
        == '\n'
}

/// Decides whether any character of the string is a control or
/// line-break character.
pub fn has_control_exec(s: &str) -> (r: bool)
    ensures
        r == has_control(s@),
{
    let n = s.unicode_len();
    for i in 0..n
        invariant
            n == s@.len(),
            forall|j: int| 0 <= j < i ==> !is_control_char(s@[j]),
    {
        let c = s.get_char(i);
        if is_control_char_exec(c) {
            return true;
        }
    }
    false
}

/// Runs the glyph filter: accept or reject one glyph against the page
/// height, testing the normalized y coordinate.
pub fn glyph_accepted_exec(g: &Glyph, page_height: i64) -> (r: bool)
    requires
        glyph_wf(g@),
        0 <= page_height <= COORD_LIMIT,
    ensures
        r == glyph_accepted(g@, page_height as int),
{
    g.origin_x >= 0 && page_height - g.origin_y >= 0 && !has_control_exec(g.text.as_str())
        && g.height != 0
}

} // verus!
