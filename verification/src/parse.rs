//! Reading the cluster's JSON responses. The JSON work is an outside
//! crate's, taken on trust behind two wrappers over the plain response
//! text; what each returns is named over that text, so the page handed to
//! the session is pinned to the response: which total and cursor it
//! carried, and which hits, in order. Assembling the page is verified.

use vstd::prelude::*;

use crate::errors::ExportError;
use crate::lines::line_wf;
use crate::names::append_bytes;
use crate::record::{all_hits_wf, Hit};
use crate::session::Page;

verus! {

/// Whether the response text is one well-formed JSON document, as the
/// parser decides it: a function of the text alone.
pub uninterp spec fn spec_parses(b: Seq<char>) -> bool;

/// The declared total under `hits.total.value` (zero where absent) and the
/// raw cursor token under `_scroll_id`, as the parser reads them from the
/// text: a function of the text alone.
pub uninterp spec fn page_meta_of(b: Seq<char>) -> (u64, Option<Seq<u8>>);

/// The hit documents under `hits.hits`, in response order: for each, its
/// origin collection, its id, and its source serialized onto one line
/// (nothing where the source is absent). A function of the text alone.
pub uninterp spec fn page_hits_of(b: Seq<char>) -> Seq<(Seq<u8>, Seq<u8>, Option<Seq<u8>>)>;

/// Relies on serde_json::from_str, Value::get, Value::as_u64 and
/// Value::as_str: parses the response and reads the declared total and the
/// cursor token's raw content, or reports that the text is not valid JSON.
#[verifier::external_body]
fn read_page_meta(body: &str) -> (r: Option<(u64, Option<Vec<u8>>)>)
    ensures
        r is Some <==> spec_parses(body@),
        r matches Some(m) ==> (m.0, m.1.deep_view()) == page_meta_of(body@),
{
    let v: serde_json::Value = serde_json::from_str(body).ok()?;
    let total =
        v.get("hits").and_then(|h| h.get("total")).and_then(|t| t.get("value")).and_then(
            |x| x.as_u64(),
        ).unwrap_or(0);
    let cursor = v.get("_scroll_id").and_then(|s| s.as_str()).map(|s| s.as_bytes().to_vec());
    Some((total, cursor))
}

/// Relies on serde_json::from_str, Value::get, Value::as_array, Value::as_str
/// and serde_json::to_string: parses the response and reads the hits in
/// order, each as its origin collection, id, and compactly serialized
/// source. serde_json's serializer escapes control characters inside JSON
/// strings and emits no whitespace of its own, so a serialized source holds
/// no raw newline byte.
#[verifier::external_body]
fn read_page_hits(body: &str) -> (r: Option<Vec<(Vec<u8>, Vec<u8>, Option<Vec<u8>>)>>)
    ensures
        r is Some <==> spec_parses(body@),
        r matches Some(hs) ==> hs.deep_view() == page_hits_of(body@),
        r matches Some(hs) ==> forall|i: int|
            0 <= i < hs@.len() ==> ((#[trigger] hs@[i]).2 matches Some(src) ==> line_wf(src@)),
{
    let v: serde_json::Value = serde_json::from_str(body).ok()?;
    let hits = v.get("hits").and_then(|h| h.get("hits")).and_then(|a| a.as_array()).cloned(
    ).unwrap_or_default();
    Some(
        hits.iter().map(
            |h| (
                h.get("_index").and_then(|x| x.as_str()).unwrap_or("").as_bytes().to_vec(),
                h.get("_id").and_then(|x| x.as_str()).unwrap_or("").as_bytes().to_vec(),
                h.get("_source").and_then(|s| serde_json::to_string(s).ok()).map(
                    |s| s.into_bytes(),
                ),
            ),
        ).collect(),
    )
}

/// The fields of assembled hits, for comparing against the parsed ones.
pub open spec fn hits_as_fields(hs: Seq<Hit>) -> Seq<(Seq<u8>, Seq<u8>, Option<Seq<u8>>)> {
    hs.map_values(|h: Hit| (h.index@, h.id@, Some(h.source@)))
}

/// The parsed hits that become records: those whose source was serialized.
/// A hit whose source could not be serialized is skipped, not invented.
pub open spec fn kept_fields(raw: Seq<(Seq<u8>, Seq<u8>, Option<Seq<u8>>)>) -> Seq<
    (Seq<u8>, Seq<u8>, Option<Seq<u8>>),
>
    decreases raw.len(),
{
    if raw.len() == 0 {
        Seq::<(Seq<u8>, Seq<u8>, Option<Seq<u8>>)>::empty()
    } else if raw[0].2 is Some {
        seq![raw[0]] + kept_fields(raw.drop_first())
    } else {
        kept_fields(raw.drop_first())
    }
}

proof fn lemma_kept_fields_push(raw: Seq<(Seq<u8>, Seq<u8>, Option<Seq<u8>>)>, x: (Seq<u8>, Seq<u8>, Option<Seq<u8>>))
    ensures
        x.2 is Some ==> kept_fields(raw.push(x)) == kept_fields(raw).push(x),
        x.2 is None ==> kept_fields(raw.push(x)) == kept_fields(raw),
    decreases raw.len(),
{
    if raw.len() == 0 {
        assert(raw.push(x)[0] == x);
        assert(raw.push(x).drop_first() =~= Seq::<(Seq<u8>, Seq<u8>, Option<Seq<u8>>)>::empty());
        assert(kept_fields(Seq::<(Seq<u8>, Seq<u8>, Option<Seq<u8>>)>::empty()) == Seq::<
            (Seq<u8>, Seq<u8>, Option<Seq<u8>>),
        >::empty());
        assert(kept_fields(raw) == Seq::<(Seq<u8>, Seq<u8>, Option<Seq<u8>>)>::empty());
        assert(kept_fields(raw.push(x).drop_first()) == Seq::<
            (Seq<u8>, Seq<u8>, Option<Seq<u8>>),
        >::empty());
        if x.2 is Some {
            assert(kept_fields(raw.push(x)) == seq![x] + kept_fields(raw.push(x).drop_first()));
            assert(kept_fields(raw.push(x)) =~= kept_fields(raw).push(x));
        } else {
            assert(kept_fields(raw.push(x)) == kept_fields(raw.push(x).drop_first()));
            assert(kept_fields(raw.push(x)) =~= kept_fields(raw));
        }
    } else {
        assert(raw.push(x)[0] == raw[0]);
        assert(raw.push(x).drop_first() =~= raw.drop_first().push(x));
        lemma_kept_fields_push(raw.drop_first(), x);
        if x.2 is Some {
            assert(kept_fields(raw.push(x)) =~= kept_fields(raw).push(x));
        } else {
            assert(kept_fields(raw.push(x)) =~= kept_fields(raw));
        }
    }
}

/// Parses one response body into a page, or reports a protocol error
/// exactly when the text is not valid JSON. On success the page carries
/// the response's declared total and raw cursor token, and one record per
/// parsed hit whose source was serialized, in response order.
pub fn parse_page(body: &str) -> (r: Result<Page, ExportError>)
    ensures
        r is Ok <==> spec_parses(body@),
        r matches Err(e) ==> e is Protocol,
        r matches Ok(p) ==> p.wf() && p.total == page_meta_of(body@).0 && p.cursor.deep_view()
            == page_meta_of(body@).1 && hits_as_fields(p.hits@) == kept_fields(
            page_hits_of(body@),
        ),
{
    let meta = match read_page_meta(body) {
        Some(m) => m,
        None => {
            return Err(ExportError::Protocol);
        },
    };
    let raw = match read_page_hits(body) {
        Some(hs) => hs,
        None => {
            proof {
                assert(false);
            }
            return Err(ExportError::Protocol);
        },
    };
    let ghost rawv = raw.deep_view();
    let mut hits: Vec<Hit> = Vec::new();
    let mut i: usize = 0;
    proof {
        assert(hits_as_fields(hits@) =~= kept_fields(rawv.take(0)));
    }
    while i < raw.len()
        invariant
            rawv == raw.deep_view(),
            rawv == page_hits_of(body@),
            forall|k: int|
                0 <= k < raw@.len() ==> ((#[trigger] raw@[k]).2 matches Some(src) ==> line_wf(
                    src@,
                )),
            0 <= i <= raw@.len(),
            all_hits_wf(hits@),
            hits_as_fields(hits@) == kept_fields(rawv.take(i as int)),
        decreases raw@.len() - i,
    {
        let t = &raw[i];
        proof {
            assert(rawv[i as int] == (t.0@, t.1@, t.2.deep_view()));
            assert(rawv.take(i as int).push(rawv[i as int]) =~= rawv.take(i as int + 1));
            lemma_kept_fields_push(rawv.take(i as int), rawv[i as int]);
        }
        match &t.2 {
            Some(src) => {
                let mut index: Vec<u8> = Vec::new();
                append_bytes(&mut index, &t.0);
                let mut id: Vec<u8> = Vec::new();
                append_bytes(&mut id, &t.1);
                let mut source: Vec<u8> = Vec::new();
                append_bytes(&mut source, src);
                proof {
                    assert(index@ =~= t.0@);
                    assert(id@ =~= t.1@);
                    assert(source@ =~= src@);
                }
                let ghost before = hits@;
                hits.push(Hit { index, id, source });
                proof {
                    assert(rawv[i as int].2 == Some(src@));
                    assert(hits@ =~= before.push(hits@[before.len() as int]));
                    assert(hits_as_fields(hits@) =~= hits_as_fields(before).push(
                        rawv[i as int],
                    ));
                    assert(hits_as_fields(hits@) =~= kept_fields(rawv.take(i as int + 1)));
                    assert(all_hits_wf(hits@));
                }
            },
            None => {
                proof {
                    assert(rawv[i as int].2 is None);
                    assert(hits_as_fields(hits@) =~= kept_fields(rawv.take(i as int + 1)));
                }
            },
        }
        i += 1;
    }
    proof {
        assert(rawv.take(rawv.len() as int) =~= rawv);
    }
    Ok(Page { hits, total: meta.0, cursor: meta.1 })
}

} // verus!
