//! Text blocks and the single-pass clustering engine that groups the
//! filtered, normalized glyph stream into blocks by font identity and
//! horizontal proximity.

use vstd::prelude::*;
use vstd::string::StringExecFns;
use crate::glyph::{Glyph, GlyphView, glyph_wf, glyph_accepted, glyph_accepted_exec, accepted_seq,
    glyph_views};
use crate::{COORD_LIMIT, MERGE_SLACK};

verus! {

/// A maximal run of spatially and stylistically contiguous glyphs: the
/// per-glyph anchor positions (top-left-origin page units), the
/// concatenated text, the shared font, the right bound of the most
/// recently added member, and the running maximum of member heights.
pub struct TextBlock {
    pub x_positions: Vec<i64>,
    pub y_positions: Vec<i64>,
    pub text: String,
    pub font_family: String,
    pub right_edge: i64,
    pub font_size: i64,
}

/// Mathematical model of a text block.
pub ghost struct BlockView {
    pub xs: Seq<int>,
    pub ys: Seq<int>,
    pub text: Seq<char>,
    pub font: Seq<char>,
    pub right: int,
    pub size: int,
}

/// The mathematical integers of a sequence of machine integers.
pub open spec fn int_seq(v: Seq<i64>) -> Seq<int> {
    v.map_values(|x: i64| x as int)
}

impl View for TextBlock {
    type V = BlockView;

    open spec fn view(&self) -> BlockView {
        BlockView {
            xs: int_seq(self.x_positions@),
            ys: int_seq(self.y_positions@),
            text: self.text@,
            font: self.font_family@,
            right: self.right_edge as int,
            size: self.font_size as int,
        }
    }
}

/// The views of a sequence of blocks.
pub open spec fn block_views(bs: Seq<TextBlock>) -> Seq<BlockView> {
    bs.map_values(|b: TextBlock| b@)
}

pub open spec fn abs_int(x: int) -> int {
    if x < 0 {
        -x
    } else {
        x
    }
}

/// The block opened by a glyph that could not join the previous block:
/// position lists of length one, the glyph's text and font, its right
/// bound, and its height as the starting font size.  The anchor y
/// subtracts the glyph's own height from its normalized origin.
pub open spec fn seed_spec(g: GlyphView, page_height: int) -> BlockView {
    BlockView {
        xs: seq![g.x],
        ys: seq![page_height - g.y - g.height],
        text: g.text,
        font: g.font,
        right: g.right,
        size: g.height,
    }
}

/// A glyph extends the open block exactly when it shares the block's
/// font and the gap between its left bound and the block's right edge
/// is at most the glyph's width plus the merge slack.
pub open spec fn can_extend_spec(g: GlyphView, b: BlockView) -> bool {
    &&& g.font == b.font
    &&& abs_int(g.left - b.right) <= g.width + MERGE_SLACK as int
}

/// The open block after a qualifying glyph joins it: the font size
/// grows to the glyph's height if that is larger, the appended anchor y
/// subtracts the grown font size from the glyph's normalized origin,
/// and the right edge moves to the glyph's right bound.
pub open spec fn join_spec(b: BlockView, g: GlyphView, page_height: int) -> BlockView {
    let size = if b.size >= g.height {
        b.size
    } else {
        g.height
    };
    BlockView {
        xs: b.xs.push(g.x),
        ys: b.ys.push(page_height - g.y - size),
        text: b.text + g.text,
        font: b.font,
        right: g.right,
        size: size,
    }
}

/// The accumulator state of the clustering pass over a glyph stream:
/// the closed blocks in order, the open block if any, and for each
/// glyph seen the index its block has in the final block sequence.
pub ghost struct ClusterState {
    pub closed: Seq<BlockView>,
    pub open: Option<BlockView>,
    pub assign: Seq<int>,
}

/// The clustering pass over an already filtered glyph stream.
pub open spec fn cluster_rec(gs: Seq<GlyphView>, page_height: int) -> ClusterState
    decreases gs.len(),
{
    if gs.len() == 0 {
        ClusterState { closed: Seq::empty(), open: None, assign: Seq::empty() }
    } else {
        let st = cluster_rec(gs.drop_last(), page_height);
        let g = gs.last();
        match st.open {
            None => ClusterState {
                closed: st.closed,
                open: Some(seed_spec(g, page_height)),
                assign: st.assign.push(st.closed.len() as int),
            },
            Some(b) => if can_extend_spec(g, b) {
                ClusterState {
                    closed: st.closed,
                    open: Some(join_spec(b, g, page_height)),
                    assign: st.assign.push(st.closed.len() as int),
                }
            } else {
                ClusterState {
                    closed: st.closed.push(b),
                    open: Some(seed_spec(g, page_height)),
                    assign: st.assign.push(st.closed.len() as int + 1),
                }
            },
        }
    }
}

/// The ordered block sequence produced for an already filtered glyph
/// stream: the closed blocks, with the block still open at stream end
/// closed after them.
pub open spec fn cluster_spec(gs: Seq<GlyphView>, page_height: int) -> Seq<BlockView> {
    let st = cluster_rec(gs, page_height);
    match st.open {
        None => st.closed,
        Some(b) => st.closed.push(b),
    }
}

pub open spec fn opt_block_view(o: Option<TextBlock>) -> Option<BlockView> {
    match o {
        None => None,
        Some(b) => Some(b@),
    }
}

/// Opens a new block seeded with one glyph.
pub fn new_block(g: &Glyph, page_height: i64) -> (b: TextBlock)
    requires
        glyph_wf(g@),
        0 <= page_height <= COORD_LIMIT,
    ensures
        b@ == seed_spec(g@, page_height as int),
{
    let anchor_y: i64 = page_height - g.origin_y - g.height;
    let b = TextBlock {
        x_positions: vec![g.origin_x],
        y_positions: vec![anchor_y],
        text: g.text.clone(),
        font_family: g.font_family.clone(),
        right_edge: g.right,
        font_size: g.height,
    };
    proof {
        assert(b@.xs =~= seed_spec(g@, page_height as int).xs);
        assert(b@.ys =~= seed_spec(g@, page_height as int).ys);
    }
    b
}

/// Decides whether a glyph extends the given open block.
pub fn can_extend_exec(g: &Glyph, b: &TextBlock) -> (r: bool)
    requires
        glyph_wf(g@),
        -COORD_LIMIT <= b.right_edge <= COORD_LIMIT,
    ensures
        r == can_extend_spec(g@, b@),
{
    if !(g.font_family == b.font_family) {
        return false;
    }
    let diff = g.left - b.right_edge;
    let gap = if diff < 0 {
        -diff
    } else {
        diff
    };
    gap <= g.width + MERGE_SLACK
}

/// Appends a qualifying glyph to the open block.
pub fn extend_block(b: &mut TextBlock, g: &Glyph, page_height: i64)
    requires
        glyph_wf(g@),
        0 <= page_height <= COORD_LIMIT,
        -COORD_LIMIT <= old(b).font_size <= COORD_LIMIT,
    ensures
        final(b)@ == join_spec(old(b)@, g@, page_height as int),
{
    if g.height > b.font_size {
        b.font_size = g.height;
    }
    b.x_positions.push(g.origin_x);
    b.y_positions.push(page_height - g.origin_y - b.font_size);
    b.text.append(g.text.as_str());
    b.right_edge = g.right;
    proof {
        assert(b@.xs =~= join_spec(old(b)@, g@, page_height as int).xs);
        assert(b@.ys =~= join_spec(old(b)@, g@, page_height as int).ys);
    }
}

/// One filter-then-cluster step: how the accepted subsequence of a
/// stream grows when one more glyph is read.
pub proof fn lemma_accepted_take_step(gs: Seq<GlyphView>, i: int, page_height: int)
    requires
        0 <= i < gs.len(),
    ensures
        glyph_accepted(gs[i], page_height) ==> accepted_seq(gs.take(i + 1), page_height)
            == accepted_seq(gs.take(i), page_height).push(gs[i]),
        !glyph_accepted(gs[i], page_height) ==> accepted_seq(gs.take(i + 1), page_height)
            == accepted_seq(gs.take(i), page_height),
{
    let t = gs.take(i + 1);
    assert(t.drop_last() =~= gs.take(i));
    assert(t.last() == gs[i]);
    if glyph_accepted(gs[i], page_height) {
        assert(accepted_seq(gs.take(i), page_height) + seq![gs[i]] =~= accepted_seq(
            gs.take(i),
            page_height,
        ).push(gs[i]));
    } else {
        assert(accepted_seq(gs.take(i), page_height) + Seq::<GlyphView>::empty() =~= accepted_seq(
            gs.take(i),
            page_height,
        ));
    }
}

/// Unfolds one clustering step on a stream extended by one glyph.
pub proof fn lemma_cluster_rec_step(acc: Seq<GlyphView>, g: GlyphView, page_height: int)
    ensures
        cluster_rec(acc.push(g), page_height) == (match cluster_rec(acc, page_height).open {
            None => ClusterState {
                closed: cluster_rec(acc, page_height).closed,
                open: Some(seed_spec(g, page_height)),
                assign: cluster_rec(acc, page_height).assign.push(
                    cluster_rec(acc, page_height).closed.len() as int,
                ),
            },
            Some(b) => if can_extend_spec(g, b) {
                ClusterState {
                    closed: cluster_rec(acc, page_height).closed,
                    open: Some(join_spec(b, g, page_height)),
                    assign: cluster_rec(acc, page_height).assign.push(
                        cluster_rec(acc, page_height).closed.len() as int,
                    ),
                }
            } else {
                ClusterState {
                    closed: cluster_rec(acc, page_height).closed.push(b),
                    open: Some(seed_spec(g, page_height)),
                    assign: cluster_rec(acc, page_height).assign.push(
                        cluster_rec(acc, page_height).closed.len() as int + 1,
                    ),
                }
            },
        }),
{
    let e = acc.push(g);
    assert(e.drop_last() =~= acc);
    assert(e.last() == g);
}

/// Runs the glyph filter and the clustering engine over one page's
/// glyph stream, in arrival order, and returns the ordered sequence of
/// closed blocks.
pub fn cluster_glyphs(glyphs: &Vec<Glyph>, page_height: i64) -> (blocks: Vec<TextBlock>)
    requires
        forall|k: int| 0 <= k < glyphs@.len() ==> glyph_wf(#[trigger] glyphs@[k]@),
        0 <= page_height <= COORD_LIMIT,
    ensures
        block_views(blocks@) == cluster_spec(
            accepted_seq(glyph_views(glyphs@), page_height as int),
            page_height as int,
        ),
{
    let ghost ph = page_height as int;
    let ghost gv = glyph_views(glyphs@);
    let mut closed: Vec<TextBlock> = Vec::new();
    let mut current: Option<TextBlock> = None;
    let n = glyphs.len();
    for i in 0..n
        invariant
            n == glyphs@.len(),
            gv == glyph_views(glyphs@),
            ph == page_height as int,
            forall|k: int| 0 <= k < glyphs@.len() ==> glyph_wf(#[trigger] glyphs@[k]@),
            0 <= page_height <= COORD_LIMIT,
            block_views(closed@) == cluster_rec(accepted_seq(gv.take(i as int), ph), ph).closed,
            opt_block_view(current) == cluster_rec(accepted_seq(gv.take(i as int), ph), ph).open,
            (match current {
                Some(b) => -COORD_LIMIT <= b.right_edge <= COORD_LIMIT && -COORD_LIMIT
                    <= b.font_size <= COORD_LIMIT,
                None => true,
            }),
    {
        let g = &glyphs[i];
        proof {
            assert(gv[i as int] == g@);
            lemma_accepted_take_step(gv, i as int, ph);
        }
        if glyph_accepted_exec(g, page_height) {
            let ghost acc = accepted_seq(gv.take(i as int), ph);
            proof {
                lemma_cluster_rec_step(acc, g@, ph);
            }
            let cur = current;
            match cur {
                None => {
                    current = Some(new_block(g, page_height));
                },
                Some(mut b) => {
                    if can_extend_exec(g, &b) {
                        extend_block(&mut b, g, page_height);
                        current = Some(b);
                    } else {
                        let ghost old_closed = closed@;
                        let ghost bv = b@;
                        closed.push(b);
                        proof {
                            assert(block_views(closed@) =~= block_views(old_closed).push(bv));
                        }
                        current = Some(new_block(g, page_height));
                    }
                },
            }
        }
    }
    proof {
        assert(gv.take(n as int) =~= gv);
    }
    match current {
        None => closed,
        Some(b) => {
            let ghost old_closed = closed@;
            closed.push(b);
            proof {
                assert(block_views(closed@) =~= block_views(old_closed).push(b@));
            }
            closed
        },
    }
}

} // verus!
