//! Bulk-format rendering: every hit becomes two consecutive lines, an
//! action-metadata line naming the hit's origin collection and id, and a
//! payload line holding the hit's source document.

use vstd::prelude::*;

use crate::encode::{
    ascii_bytes, bytes_of, json_escape, json_quoted, lemma_json_escaped_no_newline,
};
use crate::lines::{all_lines_wf, line_wf};
use crate::names::append_bytes;

verus! {

/// One document returned by the cluster: its origin collection, its id, and
/// its source serialized onto a single line.
pub struct Hit {
    pub index: Vec<u8>,
    pub id: Vec<u8>,
    pub source: Vec<u8>,
}

impl Hit {
    /// The serialized source must fit on one line of the bulk format.
    pub open spec fn wf(&self) -> bool {
        line_wf(self.source@)
    }

    /// The action-metadata line of this hit.
    pub open spec fn spec_meta_line(&self) -> Seq<u8> {
        spec_meta_line_of(self.index@, self.id@)
    }
}

pub open spec fn all_hits_wf(hits: Seq<Hit>) -> bool {
    forall|i: int| 0 <= i < hits.len() ==> (#[trigger] hits[i]).wf()
}

/// The action-metadata line for a hit of collection `index` with id `id`.
pub open spec fn spec_meta_line_of(index: Seq<u8>, id: Seq<u8>) -> Seq<u8> {
    bytes_of("{\"index\":{\"_index\":"@) + json_quoted(index) + bytes_of(",\"_id\":"@)
        + json_quoted(id) + bytes_of("}}"@)
}

/// The two lines of every hit, in the order the cluster returned the hits.
pub open spec fn spec_hit_lines(hits: Seq<Hit>) -> Seq<Seq<u8>>
    decreases hits.len(),
{
    if hits.len() == 0 {
        Seq::<Seq<u8>>::empty()
    } else {
        seq![hits[0].spec_meta_line(), hits[0].source@] + spec_hit_lines(hits.drop_first())
    }
}

pub proof fn lemma_hit_lines_push(hits: Seq<Hit>, h: Hit)
    ensures
        spec_hit_lines(hits.push(h)) == spec_hit_lines(hits) + seq![h.spec_meta_line(), h.source@],
    decreases hits.len(),
{
    if hits.len() == 0 {
        assert(hits.push(h)[0] == h);
        assert(hits.push(h).drop_first() =~= Seq::<Hit>::empty());
        assert(spec_hit_lines(Seq::<Hit>::empty()) == Seq::<Seq<u8>>::empty());
        assert(spec_hit_lines(hits) == Seq::<Seq<u8>>::empty());
        assert(spec_hit_lines(hits.push(h)) =~~= spec_hit_lines(hits) + seq![
            h.spec_meta_line(),
            h.source@,
        ]);
    } else {
        assert(hits.push(h)[0] == hits[0]);
        assert(hits.push(h).drop_first() =~= hits.drop_first().push(h));
        lemma_hit_lines_push(hits.drop_first(), h);
        assert(spec_hit_lines(hits.push(h)) =~~= spec_hit_lines(hits) + seq![
            h.spec_meta_line(),
            h.source@,
        ]);
    }
}

pub proof fn lemma_hit_lines_len(hits: Seq<Hit>)
    ensures
        spec_hit_lines(hits).len() == 2 * hits.len(),
    decreases hits.len(),
{
    if hits.len() > 0 {
        lemma_hit_lines_len(hits.drop_first());
    }
}

/// The action-metadata line never holds a newline byte, whatever bytes the
/// collection name and id hold: they are escaped into the JSON string.
pub proof fn lemma_meta_line_wf(index: Seq<u8>, id: Seq<u8>)
    ensures
        line_wf(spec_meta_line_of(index, id)),
{
    reveal_strlit("{\"index\":{\"_index\":");
    reveal_strlit(",\"_id\":");
    reveal_strlit("}}");
    lemma_json_escaped_no_newline(index);
    lemma_json_escaped_no_newline(id);
    let l = spec_meta_line_of(index, id);
    assert forall|i: int| 0 <= i < l.len() implies l[i] != 0x0a by {
        let p1 = bytes_of("{\"index\":{\"_index\":"@);
        let p2 = json_quoted(index);
        let p3 = bytes_of(",\"_id\":"@);
        let p4 = json_quoted(id);
        let p5 = bytes_of("}}"@);
        assert(l == p1 + p2 + p3 + p4 + p5);
        assert(forall|k: int| 0 <= k < p1.len() ==> #[trigger] p1[k] != 0x0a);
        assert(forall|k: int| 0 <= k < p2.len() ==> #[trigger] p2[k] != 0x0a);
        assert(forall|k: int| 0 <= k < p3.len() ==> #[trigger] p3[k] != 0x0a);
        assert(forall|k: int| 0 <= k < p4.len() ==> #[trigger] p4[k] != 0x0a);
        assert(forall|k: int| 0 <= k < p5.len() ==> #[trigger] p5[k] != 0x0a);
        if i < p1.len() {
            assert(l[i] == p1[i]);
        } else if i < p1.len() + p2.len() {
            assert(l[i] == p2[i - p1.len()]);
        } else if i < p1.len() + p2.len() + p3.len() {
            assert(l[i] == p3[i - p1.len() - p2.len()]);
        } else if i < p1.len() + p2.len() + p3.len() + p4.len() {
            assert(l[i] == p4[i - p1.len() - p2.len() - p3.len()]);
        } else {
            assert(l[i] == p5[i - p1.len() - p2.len() - p3.len() - p4.len()]);
        }
    }
}

/// Quotes and escapes a byte string as a JSON string token.
pub fn json_quote(s: &Vec<u8>) -> (r: Vec<u8>)
    ensures
        r@ == json_quoted(s@),
{
    let mut out: Vec<u8> = Vec::new();
    out.push(0x22);
    let esc = json_escape(s);
    append_bytes(&mut out, &esc);
    out.push(0x22);
    proof {
        assert(out@ =~= json_quoted(s@));
    }
    out
}

/// Renders the action-metadata line for one hit.
pub fn meta_line(hit: &Hit) -> (r: Vec<u8>)
    ensures
        r@ == hit.spec_meta_line(),
        line_wf(r@),
{
    proof {
        reveal_strlit(("{\"index\":{\"_index\":"));
    }
    let mut out = ascii_bytes(("{\"index\":{\"_index\":"));
    let qi = json_quote(&hit.index);
    append_bytes(&mut out, &qi);
    proof {
        reveal_strlit((",\"_id\":"));
    }
    let mid = ascii_bytes((",\"_id\":"));
    append_bytes(&mut out, &mid);
    let qd = json_quote(&hit.id);
    append_bytes(&mut out, &qd);
    proof {
        reveal_strlit(("}}"));
    }
    let close = ascii_bytes(("}}"));
    append_bytes(&mut out, &close);
    proof {
        assert(out@ =~= hit.spec_meta_line());
        lemma_meta_line_wf(hit.index@, hit.id@);
    }
    out
}

/// Appends the two lines of every hit, in order, to the accumulated lines.
pub fn render_hits(lines: &mut Vec<Vec<u8>>, hits: &Vec<Hit>)
    requires
        all_hits_wf(hits@),
    ensures
        final(lines).deep_view() == old(lines).deep_view() + spec_hit_lines(hits@),
        final(lines)@.len() == old(lines)@.len() + 2 * hits@.len(),
{
    let mut i: usize = 0;
    proof {
        assert(lines.deep_view() =~~= old(lines).deep_view() + spec_hit_lines(hits@.take(0)));
        lemma_hit_lines_len(hits@.take(0));
    }
    while i < hits.len()
        invariant
            all_hits_wf(hits@),
            0 <= i <= hits@.len(),
            lines.deep_view() == old(lines).deep_view() + spec_hit_lines(hits@.take(i as int)),
            lines@.len() == old(lines)@.len() + 2 * i,
        decreases hits@.len() - i,
    {
        let hit = &hits[i];
        let ml = meta_line(hit);
        let ghost before = lines.deep_view();
        lines.push(ml);
        proof {
            assert(lines.deep_view() =~~= before.push(hit.spec_meta_line()));
        }
        let ghost mid = lines.deep_view();
        let mut src: Vec<u8> = Vec::new();
        append_bytes(&mut src, &hit.source);
        proof {
            assert(src@ =~= hit.source@);
        }
        lines.push(src);
        proof {
            assert(hits@[i as int].wf());
            assert(lines.deep_view() =~~= mid.push(hit.source@));
            lemma_hit_lines_push(hits@.take(i as int), hits@[i as int]);
            assert(hits@.take(i as int).push(hits@[i as int]) =~= hits@.take(i as int + 1));
            assert(lines.deep_view() =~~= old(lines).deep_view() + spec_hit_lines(
                hits@.take(i as int + 1),
            ));
            lemma_hit_lines_len(hits@.take(i as int + 1));
        }
        i += 1;
    }
    proof {
        assert(hits@.take(hits@.len() as int) =~= hits@);
    }
}

/// The rendered lines of well-formed hits are themselves well-formed: the
/// metadata line escapes everything, and each source fits on one line.
pub proof fn lemma_hit_lines_all_wf(hits: Seq<Hit>)
    requires
        all_hits_wf(hits),
    ensures
        all_lines_wf(spec_hit_lines(hits)),
    decreases hits.len(),
{
    if hits.len() > 0 {
        assert(hits[0].wf());
        lemma_meta_line_wf(hits[0].index@, hits[0].id@);
        assert(all_hits_wf(hits.drop_first()));
        lemma_hit_lines_all_wf(hits.drop_first());
        let l = spec_hit_lines(hits);
        let rest = spec_hit_lines(hits.drop_first());
        assert forall|i: int| 0 <= i < l.len() implies line_wf(#[trigger] l[i]) by {
            if i == 0 {
                assert(l[0] == hits[0].spec_meta_line());
            } else if i == 1 {
                assert(l[1] == hits[0].source@);
            } else {
                assert(l[i] == rest[i - 2]);
            }
        }
    }
}

} // verus!
