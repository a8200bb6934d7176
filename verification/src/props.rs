//! Properties of the clustering engine: coordinate bounds of the
//! produced blocks, the glyph partition law, and the block-boundary
//! law.

use vstd::prelude::*;
use crate::glyph::{GlyphView, glyph_wf, accepted_seq};
use crate::block::{BlockView, cluster_rec, cluster_spec, seed_spec, join_spec,
    can_extend_spec, abs_int};
use crate::{COORD_LIMIT, MERGE_SLACK};

verus! {

/// Every coordinate the block holds lies within three times the
/// coordinate limit.
pub open spec fn block_bounded(b: BlockView) -> bool {
    &&& forall|k: int|
        0 <= k < b.xs.len() ==> -3 * (COORD_LIMIT as int) <= #[trigger] b.xs[k] <= 3 * (
        COORD_LIMIT as int)
    &&& forall|k: int|
        0 <= k < b.ys.len() ==> -3 * (COORD_LIMIT as int) <= #[trigger] b.ys[k] <= 3 * (
        COORD_LIMIT as int)
    &&& -(COORD_LIMIT as int) <= b.right <= COORD_LIMIT as int
    &&& -(COORD_LIMIT as int) <= b.size <= COORD_LIMIT as int
}

/// Clustering well-formed glyphs on a well-formed page height yields
/// only blocks whose coordinates are bounded.
pub proof fn lemma_cluster_bounded(gs: Seq<GlyphView>, ph: int)
    requires
        forall|i: int| 0 <= i < gs.len() ==> glyph_wf(#[trigger] gs[i]),
        0 <= ph <= COORD_LIMIT as int,
    ensures
        forall|j: int|
            0 <= j < cluster_rec(gs, ph).closed.len() ==> block_bounded(
                #[trigger] cluster_rec(gs, ph).closed[j],
            ),
        (match cluster_rec(gs, ph).open {
            Some(b) => block_bounded(b),
            None => true,
        }),
    decreases gs.len(),
{
    if gs.len() > 0 {
        let dl = gs.drop_last();
        assert forall|i: int| 0 <= i < dl.len() implies glyph_wf(#[trigger] dl[i]) by {
            assert(dl[i] == gs[i]);
        }
        lemma_cluster_bounded(dl, ph);
        let st = cluster_rec(dl, ph);
        let g = gs.last();
        assert(glyph_wf(g));
        assert(block_bounded(seed_spec(g, ph)));
        match st.open {
            None => {},
            Some(b) => {
                if can_extend_spec(g, b) {
                    assert(block_bounded(join_spec(b, g, ph)));
                } else {
                    let c2 = st.closed.push(b);
                    assert forall|j: int| 0 <= j < c2.len() implies block_bounded(
                        #[trigger] c2[j],
                    ) by {
                        if j < st.closed.len() {
                            assert(c2[j] == st.closed[j]);
                        } else {
                            assert(c2[j] == b);
                        }
                    }
                }
            },
        }
    }
}

/// Every block of the final block sequence is bounded.
pub proof fn lemma_cluster_spec_bounded(gs: Seq<GlyphView>, ph: int)
    requires
        forall|i: int| 0 <= i < gs.len() ==> glyph_wf(#[trigger] gs[i]),
        0 <= ph <= COORD_LIMIT as int,
    ensures
        forall|j: int|
            0 <= j < cluster_spec(gs, ph).len() ==> block_bounded(
                #[trigger] cluster_spec(gs, ph)[j],
            ),
{
    lemma_cluster_bounded(gs, ph);
    let st = cluster_rec(gs, ph);
    match st.open {
        None => {},
        Some(b) => {
            let c2 = st.closed.push(b);
            assert forall|j: int| 0 <= j < c2.len() implies block_bounded(#[trigger] c2[j]) by {
                if j < st.closed.len() {
                    assert(c2[j] == st.closed[j]);
                } else {
                    assert(c2[j] == b);
                }
            }
        },
    }
}

/// The concatenation of the x-position lists of a block sequence.
pub open spec fn blocks_xs(bs: Seq<BlockView>) -> Seq<int>
    decreases bs.len(),
{
    if bs.len() == 0 {
        Seq::empty()
    } else {
        blocks_xs(bs.drop_last()) + bs.last().xs
    }
}

/// The concatenation of the texts of a block sequence.
pub open spec fn blocks_text(bs: Seq<BlockView>) -> Seq<char>
    decreases bs.len(),
{
    if bs.len() == 0 {
        Seq::empty()
    } else {
        blocks_text(bs.drop_last()) + bs.last().text
    }
}

/// The x coordinates of a glyph sequence, in order.
pub open spec fn glyphs_xs(gs: Seq<GlyphView>) -> Seq<int>
    decreases gs.len(),
{
    if gs.len() == 0 {
        Seq::empty()
    } else {
        glyphs_xs(gs.drop_last()) + seq![gs.last().x]
    }
}

/// The concatenation of the texts of a glyph sequence, in order.
pub open spec fn glyphs_text(gs: Seq<GlyphView>) -> Seq<char>
    decreases gs.len(),
{
    if gs.len() == 0 {
        Seq::empty()
    } else {
        glyphs_text(gs.drop_last()) + gs.last().text
    }
}

pub open spec fn opt_xs(o: Option<BlockView>) -> Seq<int> {
    match o {
        None => Seq::empty(),
        Some(b) => b.xs,
    }
}

pub open spec fn opt_text(o: Option<BlockView>) -> Seq<char> {
    match o {
        None => Seq::empty(),
        Some(b) => b.text,
    }
}

/// The running partition invariant of the clustering pass: the closed
/// blocks and the open block together hold exactly the glyphs seen so
/// far, in order, and the pass has opened at most one block per glyph.
pub proof fn lemma_cluster_rec_partition(gs: Seq<GlyphView>, ph: int)
    ensures
        gs.len() == 0 ==> cluster_rec(gs, ph).closed == Seq::<BlockView>::empty() && cluster_rec(
            gs,
            ph,
        ).open is None,
        gs.len() > 0 ==> cluster_rec(gs, ph).open is Some && cluster_rec(gs, ph).closed.len() + 1
            <= gs.len(),
        blocks_xs(cluster_rec(gs, ph).closed) + opt_xs(cluster_rec(gs, ph).open) == glyphs_xs(gs),
        blocks_text(cluster_rec(gs, ph).closed) + opt_text(cluster_rec(gs, ph).open)
            == glyphs_text(gs),
        (match cluster_rec(gs, ph).open {
            Some(b) => b.xs.len() == b.ys.len(),
            None => true,
        }),
        forall|j: int|
            0 <= j < cluster_rec(gs, ph).closed.len() ==> (#[trigger] cluster_rec(
                gs,
                ph,
            ).closed[j]).xs.len() == cluster_rec(gs, ph).closed[j].ys.len(),
    decreases gs.len(),
{
    if gs.len() == 0 {
        assert(blocks_xs(Seq::<BlockView>::empty()) + opt_xs(None::<BlockView>) =~= Seq::<
            int,
        >::empty());
        assert(blocks_text(Seq::<BlockView>::empty()) + opt_text(None::<BlockView>) =~= Seq::<
            char,
        >::empty());
    } else {
        let dl = gs.drop_last();
        lemma_cluster_rec_partition(dl, ph);
        let st = cluster_rec(dl, ph);
        let g = gs.last();
        match st.open {
            None => {
                assert(blocks_xs(st.closed) + opt_xs(st.open) =~= blocks_xs(st.closed));
                assert(blocks_xs(st.closed) + seed_spec(g, ph).xs =~= glyphs_xs(dl) + seq![g.x]);
                assert(blocks_text(st.closed) + opt_text(st.open) =~= blocks_text(st.closed));
                assert(blocks_text(st.closed) + seed_spec(g, ph).text =~= glyphs_text(dl)
                    + g.text);
            },
            Some(b) => {
                if can_extend_spec(g, b) {
                    let jb = join_spec(b, g, ph);
                    assert(blocks_xs(st.closed) + jb.xs =~= (blocks_xs(st.closed) + b.xs)
                        + seq![g.x]);
                    assert(blocks_text(st.closed) + jb.text =~= (blocks_text(st.closed) + b.text)
                        + g.text);
                } else {
                    let c2 = st.closed.push(b);
                    assert(c2.drop_last() =~= st.closed);
                    assert(c2.last() == b);
                    assert(blocks_xs(c2) == blocks_xs(st.closed) + b.xs);
                    assert(blocks_xs(c2) + seed_spec(g, ph).xs =~= (blocks_xs(st.closed) + b.xs)
                        + seq![g.x]);
                    assert(blocks_text(c2) == blocks_text(st.closed) + b.text);
                    assert(blocks_text(c2) + seed_spec(g, ph).text =~= (blocks_text(st.closed)
                        + b.text) + g.text);
                    assert forall|j: int| 0 <= j < c2.len() implies (#[trigger] c2[j]).xs.len()
                        == c2[j].ys.len() by {
                        if j < st.closed.len() {
                            assert(c2[j] == st.closed[j]);
                        } else {
                            assert(c2[j] == b);
                        }
                    }
                }
            },
        }
    }
}

/// The glyph partition law: clustering opens at most one block per
/// glyph, and the produced blocks hold exactly the clustered glyphs'
/// x positions and texts, once each, in arrival order; each block
/// holds as many y positions as x positions.
pub proof fn lemma_cluster_partition(gs: Seq<GlyphView>, ph: int)
    ensures
        cluster_spec(gs, ph).len() <= gs.len(),
        blocks_xs(cluster_spec(gs, ph)) == glyphs_xs(gs),
        blocks_text(cluster_spec(gs, ph)) == glyphs_text(gs),
        forall|j: int|
            0 <= j < cluster_spec(gs, ph).len() ==> (#[trigger] cluster_spec(gs, ph)[j]).xs.len()
                == cluster_spec(gs, ph)[j].ys.len(),
{
    lemma_cluster_rec_partition(gs, ph);
    let st = cluster_rec(gs, ph);
    match st.open {
        None => {
            assert(blocks_xs(st.closed) + opt_xs(st.open) =~= blocks_xs(st.closed));
            assert(blocks_text(st.closed) + opt_text(st.open) =~= blocks_text(st.closed));
        },
        Some(b) => {
            let c2 = st.closed.push(b);
            assert(c2.drop_last() =~= st.closed);
            assert(c2.last() == b);
            assert(blocks_xs(c2) == blocks_xs(st.closed) + b.xs);
            assert(blocks_text(c2) == blocks_text(st.closed) + b.text);
            assert forall|j: int| 0 <= j < c2.len() implies (#[trigger] c2[j]).xs.len()
                == c2[j].ys.len() by {
                if j < st.closed.len() {
                    assert(c2[j] == st.closed[j]);
                } else {
                    assert(c2[j] == b);
                }
            }
        },
    }
}

/// The pass records one block index per glyph.
pub proof fn lemma_assign_len(gs: Seq<GlyphView>, ph: int)
    ensures
        cluster_rec(gs, ph).assign.len() == gs.len(),
    decreases gs.len(),
{
    if gs.len() > 0 {
        lemma_assign_len(gs.drop_last(), ph);
    }
}

/// After a nonempty stream the pass holds an open block carrying the
/// last glyph's font and right bound, and the last glyph's block
/// index equals the number of closed blocks.
pub proof fn lemma_cluster_rec_last(gs: Seq<GlyphView>, ph: int)
    requires
        gs.len() > 0,
    ensures
        (match cluster_rec(gs, ph).open {
            Some(b) => b.font == gs.last().font && b.right == gs.last().right,
            None => false,
        }),
        cluster_rec(gs, ph).assign.len() == gs.len(),
        cluster_rec(gs, ph).assign.last() == cluster_rec(gs, ph).closed.len(),
    decreases gs.len(),
{
    lemma_assign_len(gs, ph);
    if gs.len() > 1 {
        lemma_cluster_rec_last(gs.drop_last(), ph);
    }
}

/// A prefix of the stream is assigned the same block indices as the
/// same glyphs in the whole stream.
pub proof fn lemma_assign_prefix(gs: Seq<GlyphView>, ph: int, j: int)
    requires
        0 <= j <= gs.len(),
    ensures
        cluster_rec(gs.take(j), ph).assign == cluster_rec(gs, ph).assign.take(j),
    decreases gs.len(),
{
    lemma_assign_len(gs, ph);
    if j == gs.len() {
        assert(gs.take(j) =~= gs);
        assert(cluster_rec(gs, ph).assign.take(j) =~= cluster_rec(gs, ph).assign);
    } else {
        let dl = gs.drop_last();
        lemma_assign_len(dl, ph);
        assert(gs.take(j) =~= dl.take(j));
        lemma_assign_prefix(dl, ph, j);
        assert(cluster_rec(gs, ph).assign.take(j) =~= cluster_rec(dl, ph).assign.take(j));
    }
}

/// The block-boundary law: two consecutive glyphs of the stream land
/// in the same block exactly when the second shares the first's font
/// and the gap from the first's right bound to the second's left
/// bound is within the second's width plus the merge slack.  In
/// particular a font change always splits, and a gap past the
/// threshold always splits.
pub proof fn lemma_consecutive_glyphs(gs: Seq<GlyphView>, ph: int, i: int)
    requires
        0 <= i,
        i + 1 < gs.len(),
    ensures
        cluster_rec(gs, ph).assign[i + 1] == cluster_rec(gs, ph).assign[i] <==> (gs[i + 1].font
            == gs[i].font && abs_int(gs[i + 1].left - gs[i].right) <= gs[i + 1].width
            + MERGE_SLACK as int),
{
    let pre1 = gs.take(i + 1);
    let pre2 = gs.take(i + 2);
    lemma_cluster_rec_last(pre1, ph);
    lemma_assign_len(gs, ph);
    lemma_assign_len(pre1, ph);
    lemma_assign_len(pre2, ph);
    lemma_assign_prefix(gs, ph, i + 1);
    lemma_assign_prefix(gs, ph, i + 2);
    let st1 = cluster_rec(pre1, ph);
    let st2 = cluster_rec(pre2, ph);
    assert(pre2.drop_last() =~= pre1);
    assert(pre2.last() == gs[i + 1]);
    assert(pre1.last() == gs[i]);
    let b = st1.open->Some_0;
    assert(st2.assign == st1.assign.push(
        if can_extend_spec(gs[i + 1], b) {
            st1.closed.len() as int
        } else {
            st1.closed.len() as int + 1
        },
    ));
    assert(st1.assign.last() == st1.assign[i]);
    assert(cluster_rec(gs, ph).assign[i] == st2.assign[i]);
    assert(cluster_rec(gs, ph).assign[i + 1] == st2.assign[i + 1]);
    assert(can_extend_spec(gs[i + 1], b) <==> (gs[i + 1].font == gs[i].font && abs_int(
        gs[i + 1].left - gs[i].right,
    ) <= gs[i + 1].width + MERGE_SLACK as int));
}

/// Two consecutive glyphs of different fonts are never in the same
/// block, regardless of spatial proximity.
pub proof fn lemma_font_change_splits(gs: Seq<GlyphView>, ph: int, i: int)
    requires
        0 <= i,
        i + 1 < gs.len(),
        gs[i + 1].font != gs[i].font,
    ensures
        cluster_rec(gs, ph).assign[i + 1] != cluster_rec(gs, ph).assign[i],
{
    lemma_consecutive_glyphs(gs, ph, i);
}

/// Two consecutive glyphs of the same font whose gap is within the
/// width-plus-slack threshold are always in the same block.
pub proof fn lemma_proximity_merges(gs: Seq<GlyphView>, ph: int, i: int)
    requires
        0 <= i,
        i + 1 < gs.len(),
        gs[i + 1].font == gs[i].font,
        abs_int(gs[i + 1].left - gs[i].right) <= gs[i + 1].width + MERGE_SLACK as int,
    ensures
        cluster_rec(gs, ph).assign[i + 1] == cluster_rec(gs, ph).assign[i],
{
    lemma_consecutive_glyphs(gs, ph, i);
}

/// A page never produces more blocks than it has accepted glyphs.
pub proof fn lemma_blocks_at_most_accepted(gs: Seq<GlyphView>, ph: int)
    ensures
        cluster_spec(accepted_seq(gs, ph), ph).len() <= accepted_seq(gs, ph).len(),
{
    lemma_cluster_partition(accepted_seq(gs, ph), ph);
}

} // verus!
