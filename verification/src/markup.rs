//! Serialization of an ordered text-block sequence plus the page
//! dimensions into a self-contained vector-markup string.

use vstd::prelude::*;
use vstd::string::{StrSliceExecFns, StringExecFns};
use crate::block::{TextBlock, BlockView, block_views, int_seq};
use crate::numfmt::{int_str, push_int};

verus! {

/// Concatenation of three character sequences associates.
pub proof fn lemma_add_assoc(a: Seq<char>, b: Seq<char>, c: Seq<char>)
    ensures
        (a + b) + c == a + (b + c),
{
    assert((a + b) + c =~= a + (b + c));
}

/// What one character becomes under markup escaping: the reserved
/// characters become entity references, every other character stands
/// as itself.
pub open spec fn esc_char(c: char) -> Seq<char> {
    if c == '&' {
        "&amp;"@
    } else if c == '<' {
        "&lt;"@
    } else if c == '>' {
        "&gt;"@
    } else {
        seq![c]
    }
}

/// A character sequence with every markup-reserved character escaped.
pub open spec fn escaped(s: Seq<char>) -> Seq<char>
    decreases s.len(),
{
    if s.len() == 0 {
        Seq::empty()
    } else {
        escaped(s.drop_last()) + esc_char(s.last())
    }
}

pub proof fn lemma_escaped_take_step(s: Seq<char>, i: int)
    requires
        0 <= i < s.len(),
    ensures
        escaped(s.take(i + 1)) == escaped(s.take(i)) + esc_char(s[i]),
{
    let t = s.take(i + 1);
    assert(t.drop_last() =~= s.take(i));
    assert(t.last() == s[i]);
}

/// Appends the text, with markup-reserved characters escaped, to the
/// output string.
pub fn push_escaped(out: &mut String, s: &str)
    ensures
        final(out)@ == old(out)@ + escaped(s@),
{
    let n = s.unicode_len();
    proof {
        assert(s@.take(0) =~= Seq::<char>::empty());
        assert(old(out)@ + escaped(s@.take(0)) =~= old(out)@);
    }
    for i in 0..n
        invariant
            n == s@.len(),
            out@ == old(out)@ + escaped(s@.take(i as int)),
    {
        let c = s.get_char(i);
        proof {
            lemma_escaped_take_step(s@, i as int);
        }
        let ghost prev = out@;
        if c == '&' {
            out.append("&amp;");
        } else if c == '<' {
            out.append("&lt;");
        } else if c == '>' {
            out.append("&gt;");
        } else {
            out.push(c);
            proof {
                assert(prev.push(c) =~= prev + seq![c]);
            }
        }
        proof {
            lemma_add_assoc(old(out)@, escaped(s@.take(i as int)), esc_char(s@[i as int]));
        }
    }
    proof {
        assert(s@.take(n as int) =~= s@);
    }
}

/// The whitespace-joined decimal rendering of a coordinate list.
pub open spec fn joined(xs: Seq<int>) -> Seq<char>
    decreases xs.len(),
{
    if xs.len() == 0 {
        Seq::empty()
    } else if xs.len() == 1 {
        int_str(xs[0])
    } else {
        joined(xs.drop_last()) + seq![' '] + int_str(xs.last())
    }
}

pub proof fn lemma_joined_take_step(xs: Seq<int>, i: int)
    requires
        0 <= i < xs.len(),
    ensures
        i == 0 ==> joined(xs.take(1)) == int_str(xs[0]),
        i >= 1 ==> joined(xs.take(i + 1)) == joined(xs.take(i)) + seq![' '] + int_str(xs[i]),
{
    let t = xs.take(i + 1);
    assert(t.drop_last() =~= xs.take(i));
    assert(t.last() == xs[i]);
}

/// Appends the whitespace-joined decimal coordinate list to the output
/// string.
pub fn push_joined(out: &mut String, xs: &Vec<i64>)
    requires
        forall|k: int| 0 <= k < xs@.len() ==> #[trigger] xs@[k] > i64::MIN,
    ensures
        final(out)@ == old(out)@ + joined(int_seq(xs@)),
{
    let ghost xv = int_seq(xs@);
    let n = xs.len();
    proof {
        assert(xv.take(0) =~= Seq::<int>::empty());
        assert(old(out)@ + joined(xv.take(0)) =~= old(out)@);
    }
    for i in 0..n
        invariant
            n == xs@.len(),
            xv == int_seq(xs@),
            forall|k: int| 0 <= k < xs@.len() ==> #[trigger] xs@[k] > i64::MIN,
            out@ == old(out)@ + joined(xv.take(i as int)),
    {
        proof {
            lemma_joined_take_step(xv, i as int);
            assert(xv[i as int] == xs@[i as int] as int);
        }
        let ghost prev = out@;
        if i > 0 {
            out.push(' ');
            proof {
                assert(prev.push(' ') =~= prev + seq![' ']);
                lemma_add_assoc(old(out)@, joined(xv.take(i as int)), seq![' ']);
            }
        }
        push_int(out, xs[i]);
        proof {
            if i > 0 {
                lemma_add_assoc(
                    old(out)@,
                    joined(xv.take(i as int)) + seq![' '],
                    int_str(xv[i as int]),
                );
            } else {
                assert(old(out)@ + joined(xv.take(0)) =~= old(out)@);
            }
        }
    }
    proof {
        assert(xv.take(n as int) =~= xv);
    }
}

/// Every number the serializer renders for this block lies strictly
/// above `i64::MIN`, so its magnitude is representable.
pub open spec fn block_vals_ok(b: BlockView) -> bool {
    &&& b.size > i64::MIN as int
    &&& forall|k: int| 0 <= k < b.xs.len() ==> #[trigger] b.xs[k] > i64::MIN as int
    &&& forall|k: int| 0 <= k < b.ys.len() ==> #[trigger] b.ys[k] > i64::MIN as int
}

/// The markup element of one text block: a text element styled with
/// the block's font size, holding one positioned span whose x and y
/// attributes are the block's coordinate lists and whose content is
/// the block's escaped text.
pub open spec fn block_elem(b: BlockView) -> Seq<char> {
    "<text style=\"font-size:"@ + int_str(b.size)
        + "pt; white-space: pre; dominant-baseline: hanging;\"><tspan x=\""@ + joined(b.xs)
        + "\" y=\""@ + joined(b.ys) + "\">"@ + escaped(b.text) + "</tspan></text>"@
}

/// Appends the markup element of one text block to the output string.
pub fn push_block(out: &mut String, b: &TextBlock)
    requires
        block_vals_ok(b@),
    ensures
        final(out)@ == old(out)@ + block_elem(b@),
{
    let ghost o = old(out)@;
    out.append("<text style=\"font-size:");
    push_int(out, b.font_size);
    proof {
        lemma_add_assoc(o, "<text style=\"font-size:"@, int_str(b@.size));
    }
    let ghost acc1 = "<text style=\"font-size:"@ + int_str(b@.size);
    out.append("pt; white-space: pre; dominant-baseline: hanging;\"><tspan x=\"");
    proof {
        lemma_add_assoc(
            o,
            acc1,
            "pt; white-space: pre; dominant-baseline: hanging;\"><tspan x=\""@,
        );
    }
    let ghost acc2 = acc1 + "pt; white-space: pre; dominant-baseline: hanging;\"><tspan x=\""@;
    proof {
        assert(forall|k: int| 0 <= k < b.x_positions@.len() ==> #[trigger] b.x_positions@[k]
            > i64::MIN) by {
            assert(forall|k: int| 0 <= k < b.x_positions@.len() ==> b@.xs[k] == #[trigger] (
            b.x_positions@[k] as int));
        }
        assert(forall|k: int| 0 <= k < b.y_positions@.len() ==> #[trigger] b.y_positions@[k]
            > i64::MIN) by {
            assert(forall|k: int| 0 <= k < b.y_positions@.len() ==> b@.ys[k] == #[trigger] (
            b.y_positions@[k] as int));
        }
    }
    push_joined(out, &b.x_positions);
    proof {
        lemma_add_assoc(o, acc2, joined(b@.xs));
    }
    let ghost acc3 = acc2 + joined(b@.xs);
    out.append("\" y=\"");
    proof {
        lemma_add_assoc(o, acc3, "\" y=\""@);
    }
    let ghost acc4 = acc3 + "\" y=\""@;
    push_joined(out, &b.y_positions);
    proof {
        lemma_add_assoc(o, acc4, joined(b@.ys));
    }
    let ghost acc5 = acc4 + joined(b@.ys);
    out.append("\">");
    proof {
        lemma_add_assoc(o, acc5, "\">"@);
    }
    let ghost acc6 = acc5 + "\">"@;
    push_escaped(out, b.text.as_str());
    proof {
        lemma_add_assoc(o, acc6, escaped(b@.text));
    }
    let ghost acc7 = acc6 + escaped(b@.text);
    out.append("</tspan></text>");
    proof {
        lemma_add_assoc(o, acc7, "</tspan></text>"@);
    }
}

/// The markup container element, sized to the page, that precedes the
/// text elements.
pub open spec fn header(w: int, h: int) -> Seq<char> {
    "<svg xmlns=\"http://www.w3.org/2000/svg\" width=\""@ + int_str(w) + "\" height=\""@ + int_str(
        h,
    ) + "\" viewBox=\"0 0 "@ + int_str(w) + " "@ + int_str(h) + "\"><title>text-layer</title>"@
}

/// The body of the markup output: the elements of the blocks in order.
pub open spec fn markup_body(bs: Seq<BlockView>) -> Seq<char>
    decreases bs.len(),
{
    if bs.len() == 0 {
        Seq::empty()
    } else {
        markup_body(bs.drop_last()) + block_elem(bs.last())
    }
}

/// The whole markup output: empty for an empty block sequence, else
/// the container element, the block elements in order, and the closing
/// tag.
pub open spec fn markup_spec(bs: Seq<BlockView>, w: int, h: int) -> Seq<char> {
    if bs.len() == 0 {
        Seq::empty()
    } else {
        header(w, h) + markup_body(bs) + "</svg>"@
    }
}

pub proof fn lemma_body_take_step(bs: Seq<BlockView>, i: int)
    requires
        0 <= i < bs.len(),
    ensures
        markup_body(bs.take(i + 1)) == markup_body(bs.take(i)) + block_elem(bs[i]),
{
    let t = bs.take(i + 1);
    assert(t.drop_last() =~= bs.take(i));
    assert(t.last() == bs[i]);
}

/// Markup serialization is deterministic: identical block sequences
/// and page dimensions always yield identical output.
pub proof fn lemma_markup_deterministic(
    bs1: Seq<BlockView>,
    bs2: Seq<BlockView>,
    w1: int,
    h1: int,
    w2: int,
    h2: int,
)
    requires
        bs1 == bs2,
        w1 == w2,
        h1 == h2,
    ensures
        markup_spec(bs1, w1, h1) == markup_spec(bs2, w2, h2),
{
}

/// Serializes the ordered block sequence and the page dimensions into
/// the vector-markup string.  An empty block sequence yields the empty
/// string.
pub fn serialize_markup(blocks: &Vec<TextBlock>, page_width: i64, page_height: i64) -> (out:
    String)
    requires
        page_width > i64::MIN,
        page_height > i64::MIN,
        forall|k: int| 0 <= k < blocks@.len() ==> block_vals_ok(#[trigger] blocks@[k]@),
    ensures
        out@ == markup_spec(block_views(blocks@), page_width as int, page_height as int),
{
    let ghost wi = page_width as int;
    let ghost hi = page_height as int;
    let ghost bv = block_views(blocks@);
    if blocks.len() == 0 {
        let out = String::new();
        return out;
    }
    let mut out = String::new();
    let ghost e = Seq::<char>::empty();
    out.append("<svg xmlns=\"http://www.w3.org/2000/svg\" width=\"");
    proof {
        assert(e + "<svg xmlns=\"http://www.w3.org/2000/svg\" width=\""@
            =~= "<svg xmlns=\"http://www.w3.org/2000/svg\" width=\""@);
    }
    push_int(&mut out, page_width);
    out.append("\" height=\"");
    push_int(&mut out, page_height);
    out.append("\" viewBox=\"0 0 ");
    push_int(&mut out, page_width);
    out.append(" ");
    push_int(&mut out, page_height);
    out.append("\"><title>text-layer</title>");
    proof {
        assert(out@ == header(wi, hi));
        assert(bv.take(0) =~= Seq::<BlockView>::empty());
        assert(header(wi, hi) + markup_body(bv.take(0)) =~= header(wi, hi));
    }
    let n = blocks.len();
    for i in 0..n
        invariant
            n == blocks@.len(),
            wi == page_width as int,
            hi == page_height as int,
            bv == block_views(blocks@),
            forall|k: int| 0 <= k < blocks@.len() ==> block_vals_ok(#[trigger] blocks@[k]@),
            out@ == header(wi, hi) + markup_body(bv.take(i as int)),
    {
        proof {
            assert(bv[i as int] == blocks@[i as int]@);
            lemma_body_take_step(bv, i as int);
        }
        push_block(&mut out, &blocks[i]);
        proof {
            lemma_add_assoc(header(wi, hi), markup_body(bv.take(i as int)), block_elem(
                bv[i as int],
            ));
        }
    }
    proof {
        assert(bv.take(n as int) =~= bv);
    }
    out.append("</svg>");
    proof {
        lemma_add_assoc(header(wi, hi), markup_body(bv), "</svg>"@);
        assert(bv.len() > 0);
    }
    out
}

} // verus!
