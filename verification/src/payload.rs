//! The per-page pipeline and the document-level aggregator: one
//! markup string plus one ordered raster set per page, pages held in
//! document order.

use vstd::prelude::*;
use pdfium_render::prelude::PdfPage;
use crate::glyph::{Glyph, GlyphView, glyph_wf, glyph_views, accepted_seq, glyph_accepted};
use crate::block::{cluster_glyphs, cluster_spec, block_views};
use crate::markup::{serialize_markup, markup_spec, block_vals_ok};
use crate::props::{lemma_cluster_spec_bounded, block_bounded};
use crate::raster::{PageImage, RasterError, rasterize_page, scale_set, target_ok};
use crate::COORD_LIMIT;

verus! {

/// The markup owed for one page: the glyph stream filtered against
/// the page height, clustered, and serialized with the page
/// dimensions.
pub open spec fn page_markup_spec(gs: Seq<GlyphView>, w: int, h: int) -> Seq<char> {
    markup_spec(cluster_spec(accepted_seq(gs, h), h), w, h)
}

/// The filtered glyphs of a well-formed stream are well formed.
pub proof fn lemma_accepted_wf(gs: Seq<GlyphView>, ph: int)
    requires
        forall|i: int| 0 <= i < gs.len() ==> glyph_wf(#[trigger] gs[i]),
    ensures
        forall|i: int|
            0 <= i < accepted_seq(gs, ph).len() ==> glyph_wf(#[trigger] accepted_seq(gs, ph)[i]),
    decreases gs.len(),
{
    if gs.len() > 0 {
        let dl = gs.drop_last();
        assert forall|i: int| 0 <= i < dl.len() implies glyph_wf(#[trigger] dl[i]) by {
            assert(dl[i] == gs[i]);
        }
        lemma_accepted_wf(dl, ph);
        let a = accepted_seq(dl, ph);
        let w = accepted_seq(gs, ph);
        assert forall|i: int| 0 <= i < w.len() implies glyph_wf(#[trigger] w[i]) by {
            if i < a.len() {
                assert(w[i] == a[i]);
            } else {
                assert(glyph_accepted(gs.last(), ph));
                assert(w[i] == gs.last());
                assert(gs.last() == gs[gs.len() - 1]);
            }
        }
    }
}

/// Filters, normalizes, clusters, and serializes one page's glyph
/// stream into the vector-markup overlay string.  A stream with no
/// accepted glyph yields the empty string.
pub fn reconstruct_page(glyphs: &Vec<Glyph>, page_width: i64, page_height: i64) -> (out: String)
    requires
        forall|k: int| 0 <= k < glyphs@.len() ==> glyph_wf(#[trigger] glyphs@[k]@),
        0 <= page_width <= COORD_LIMIT,
        0 <= page_height <= COORD_LIMIT,
    ensures
        out@ == page_markup_spec(glyph_views(glyphs@), page_width as int, page_height as int),
        accepted_seq(glyph_views(glyphs@), page_height as int).len() == 0 ==> out@ == Seq::<
            char,
        >::empty(),
{
    let blocks = cluster_glyphs(glyphs, page_height);
    proof {
        let ph = page_height as int;
        let gv = glyph_views(glyphs@);
        assert forall|i: int| 0 <= i < gv.len() implies glyph_wf(#[trigger] gv[i]) by {
            assert(gv[i] == glyphs@[i]@);
        }
        lemma_accepted_wf(gv, ph);
        lemma_cluster_spec_bounded(accepted_seq(gv, ph), ph);
        assert forall|k: int| 0 <= k < blocks@.len() implies block_vals_ok(
            #[trigger] blocks@[k]@,
        ) by {
            assert(block_views(blocks@)[k] == blocks@[k]@);
            assert(block_bounded(blocks@[k]@));
        }
    }
    serialize_markup(&blocks, page_width, page_height)
}

/// One page's combined output: the serialized markup and the ordered
/// raster outcomes.
pub struct PagePayload {
    pub markup: String,
    pub images: Vec<PageImage>,
}

/// The contract owed for one page payload built from one glyph
/// stream, page dimensions, and the raster outcomes.
pub open spec fn payload_wf(
    payload: PagePayload,
    gs: Seq<GlyphView>,
    w: int,
    h: int,
) -> bool {
    &&& payload.markup@ == page_markup_spec(gs, w, h)
    &&& payload.images@.len() == scale_set().len()
    &&& forall|j: int|
        0 <= j < payload.images@.len() ==> #[trigger] payload.images@[j].scale_hundredths
            == scale_set()[j]
    &&& forall|j: int|
        0 <= j < payload.images@.len() && !target_ok(w, h, scale_set()[j] as int)
            ==> #[trigger] payload.images@[j].buffer == Err::<Vec<u8>, RasterError>(
            RasterError::Engine,
        )
}

/// Runs the whole per-page pipeline: the markup reconstruction and,
/// independently, the multi-scale raster requests, joined into one
/// payload.
pub fn process_page(
    page: &PdfPage<'_>,
    glyphs: &Vec<Glyph>,
    page_width: i64,
    page_height: i64,
    transparent: bool,
) -> (payload: PagePayload)
    requires
        forall|k: int| 0 <= k < glyphs@.len() ==> glyph_wf(#[trigger] glyphs@[k]@),
        0 <= page_width <= COORD_LIMIT,
        0 <= page_height <= COORD_LIMIT,
    ensures
        payload_wf(payload, glyph_views(glyphs@), page_width as int, page_height as int),
{
    let markup = reconstruct_page(glyphs, page_width, page_height);
    let images = rasterize_page(page, page_width, page_height, transparent);
    PagePayload { markup, images }
}

/// One page handed to the document aggregator: the engine's page
/// handle, the extracted glyph stream, and the page dimensions.
pub struct PageInput<'a> {
    pub page: PdfPage<'a>,
    pub glyphs: Vec<Glyph>,
    pub width: i64,
    pub height: i64,
}

/// The page's dimensions and every glyph of its stream are well
/// formed.
pub open spec fn page_input_wf<'a>(p: PageInput<'a>) -> bool {
    &&& 0 <= p.width <= COORD_LIMIT
    &&& 0 <= p.height <= COORD_LIMIT
    &&& forall|k: int| 0 <= k < p.glyphs@.len() ==> glyph_wf(#[trigger] p.glyphs@[k]@)
}

/// Processes the document's pages independently, in document order,
/// and aggregates one payload per page.  No state crosses page
/// boundaries.
pub fn process_document<'a>(pages: &Vec<PageInput<'a>>, transparent: bool) -> (payloads: Vec<
    PagePayload,
>)
    requires
        forall|i: int| 0 <= i < pages@.len() ==> page_input_wf(#[trigger] pages@[i]),
    ensures
        payloads@.len() == pages@.len(),
        forall|i: int|
            0 <= i < pages@.len() ==> payload_wf(
                #[trigger] payloads@[i],
                glyph_views(pages@[i].glyphs@),
                pages@[i].width as int,
                pages@[i].height as int,
            ),
{
    let mut payloads: Vec<PagePayload> = Vec::new();
    let n = pages.len();
    for i in 0..n
        invariant
            n == pages@.len(),
            forall|k: int| 0 <= k < pages@.len() ==> page_input_wf(#[trigger] pages@[k]),
            payloads@.len() == i,
            forall|k: int|
                0 <= k < i as int ==> payload_wf(
                    #[trigger] payloads@[k],
                    glyph_views(pages@[k].glyphs@),
                    pages@[k].width as int,
                    pages@[k].height as int,
                ),
    {
        let p = &pages[i];
        let payload = process_page(&p.page, &p.glyphs, p.width, p.height, transparent);
        payloads.push(payload);
    }
    payloads
}

} // verus!
