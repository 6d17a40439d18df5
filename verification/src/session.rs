//! One partition's pagination session. The session is a state machine: the
//! driver performs the network calls and hands every received page back; the
//! session decides whether to keep paging, accumulates the bulk-format lines
//! for the partition's shard file, and tracks the cursor that must be
//! released exactly once when pagination ends.

use vstd::prelude::*;

use crate::encode::{ascii_bytes, bytes_of, dec_digits, dec_u64, json_quoted};
use crate::lines::{all_lines_wf, joined};
use crate::names::append_bytes;
use crate::record::{all_hits_wf, render_hits, json_quote, lemma_hit_lines_all_wf, spec_hit_lines, Hit};

verus! {

/// One partition of the export: its index and the total partition count the
/// cluster is asked to slice the collection into. Every session of a job is
/// created with the same `max_slices`, equal to the number of sessions.
pub struct PartitionTask {
    pub slice_id: u64,
    pub max_slices: u64,
}

/// One page of results, as handed back by the driver after a fetch: the
/// hits, the cluster's declared running total for the partition, and the
/// cursor for the next fetch, when the response carried one.
pub struct Page {
    pub hits: Vec<Hit>,
    pub total: u64,
    pub cursor: Option<Vec<u8>>,
}

impl Page {
    pub open spec fn wf(&self) -> bool {
        all_hits_wf(self.hits@)
    }

    /// A page ends pagination when its declared running total is zero or it
    /// carries no hits at all; either alone suffices, which tolerates a
    /// cluster whose counts and pages disagree.
    pub open spec fn is_final(&self) -> bool {
        self.total == 0 || self.hits@.len() == 0
    }
}

#[derive(Clone, Copy, Debug, PartialEq, Eq, Structural)]
pub enum SessionPhase {
    /// No request issued yet.
    Init,
    /// At least one page absorbed; the cursor is live and the next page is owed.
    Paging,
    /// Pagination ended; the cursor still has to be released.
    Done,
    /// The cursor was released; terminal.
    Cleared,
    /// A transport, protocol or parse failure ended the session; its lines
    /// must not be written out as a shard that looks complete.
    Failed,
}

pub struct ScrollSession {
    pub task: PartitionTask,
    pub phase: SessionPhase,
    pub cursor: Option<Vec<u8>>,
    /// The total hit count the cluster declared on the first page.
    pub declared: u64,
    /// Records accumulated so far.
    pub records: u64,
    /// The bulk-format lines accumulated for the shard file.
    pub lines: Vec<Vec<u8>>,
}

pub open spec fn spec_initial_path(c: Seq<u8>) -> Seq<u8> {
    bytes_of("/"@) + c + bytes_of("/_search?scroll=1m&size=1000"@)
}

pub open spec fn spec_initial_body(id: nat, max: nat) -> Seq<u8> {
    bytes_of("{\"slice\":{\"id\":"@) + dec_digits(id) + bytes_of(",\"max\":"@) + dec_digits(max)
        + bytes_of("},\"sort\":[\"_doc\"]}"@)
}

pub open spec fn spec_scroll_path() -> Seq<u8> {
    bytes_of("/_search/scroll"@)
}

/// The follow-up request body. The cursor's raw bytes are quoted and escaped
/// as a JSON string, never spliced in some other representation.
pub open spec fn spec_scroll_body(cursor: Seq<u8>) -> Seq<u8> {
    bytes_of("{\"scroll\":\"1m\",\"scroll_id\":"@) + json_quoted(cursor) + bytes_of("}"@)
}

pub open spec fn spec_clear_body(cursor: Seq<u8>) -> Seq<u8> {
    bytes_of("{\"scroll_id\":"@) + json_quoted(cursor) + bytes_of("}"@)
}

impl ScrollSession {
    pub open spec fn wf(&self) -> bool {
        &&& all_lines_wf(self.lines.deep_view())
        &&& self.lines@.len() == 2 * self.records
        &&& self.phase is Init ==> self.records == 0 && self.lines@.len() == 0 && self.cursor
            is None
        &&& self.phase is Paging ==> self.cursor is Some
        &&& self.phase is Cleared ==> self.cursor is None
    }

    pub fn new(task: PartitionTask) -> (s: ScrollSession)
        ensures
            s.wf(),
            s.phase is Init,
            s.task.slice_id == task.slice_id,
            s.task.max_slices == task.max_slices,
            s.records == 0,
            s.lines@.len() == 0,
    {
        let s = ScrollSession {
            task,
            phase: SessionPhase::Init,
            cursor: None,
            declared: 0,
            records: 0,
            lines: Vec::new(),
        };
        s
    }

    /// The initial paginated query for this partition: a fixed page size and
    /// lease, and the partition's slice of the collection.
    pub fn initial_request(&self, collection: &Vec<u8>) -> (r: (Vec<u8>, Vec<u8>))
        requires
            self.phase is Init,
        ensures
            r.0@ == spec_initial_path(collection@),
            r.1@ == spec_initial_body(self.task.slice_id as nat, self.task.max_slices as nat),
    {
        proof {
            reveal_strlit("/");
            reveal_strlit("/_search?scroll=1m&size=1000");
            reveal_strlit("{\"slice\":{\"id\":");
            reveal_strlit(",\"max\":");
            reveal_strlit("},\"sort\":[\"_doc\"]}");
        }
        let mut path = ascii_bytes("/");
        append_bytes(&mut path, collection);
        let tail = ascii_bytes("/_search?scroll=1m&size=1000");
        append_bytes(&mut path, &tail);
        let mut body = ascii_bytes("{\"slice\":{\"id\":");
        let id = dec_u64(self.task.slice_id);
        append_bytes(&mut body, &id);
        let mid = ascii_bytes(",\"max\":");
        append_bytes(&mut body, &mid);
        let mx = dec_u64(self.task.max_slices);
        append_bytes(&mut body, &mx);
        let close = ascii_bytes("},\"sort\":[\"_doc\"]}");
        append_bytes(&mut body, &close);
        proof {
            assert(path@ =~= spec_initial_path(collection@));
            assert(body@ =~= spec_initial_body(
                self.task.slice_id as nat,
                self.task.max_slices as nat,
            ));
        }
        (path, body)
    }

    /// Absorbs one received page: renders its hits into the accumulated
    /// lines in the order the cluster returned them, and decides whether
    /// pagination goes on. A final page — zero declared total or no hits —
    /// ends pagination even when an earlier declared total was nonzero, so
    /// no further page is ever requested after one.
    pub fn absorb_page(&mut self, page: &Page)
        requires
            old(self).wf(),
            old(self).phase is Init || old(self).phase is Paging,
            page.wf(),
            old(self).records + page.hits@.len() <= u64::MAX,
        ensures
            final(self).wf(),
            final(self).records == old(self).records + page.hits@.len(),
            final(self).lines.deep_view() == old(self).lines.deep_view() + spec_hit_lines(
                page.hits@,
            ),
            final(self).task == old(self).task,
            old(self).phase is Init ==> final(self).declared == page.total,
            old(self).phase is Paging ==> final(self).declared == old(self).declared,
            page.is_final() ==> final(self).phase is Done && final(self).cursor == old(
                self,
            ).cursor,
            !page.is_final() && page.cursor is Some ==> final(self).phase is Paging
                && final(self).cursor is Some && final(self).cursor->0@ == page.cursor->0@,
            !page.is_final() && page.cursor is None ==> final(self).phase is Failed,
    {
        proof {
            lemma_hit_lines_all_wf(page.hits@);
        }
        render_hits(&mut self.lines, &page.hits);
        self.records = self.records + (page.hits.len() as u64);
        match self.phase {
            SessionPhase::Init => {
                self.declared = page.total;
            },
            _ => {},
        }
        let ends = page.total == 0 || page.hits.len() == 0;
        if ends {
            self.phase = SessionPhase::Done;
        } else {
            match &page.cursor {
                Some(c) => {
                    let mut cur: Vec<u8> = Vec::new();
                    append_bytes(&mut cur, c);
                    proof {
                        assert(cur@ =~= c@);
                    }
                    self.cursor = Some(cur);
                    self.phase = SessionPhase::Paging;
                },
                None => {
                    self.phase = SessionPhase::Failed;
                },
            }
        }
    }

    /// The request for the next page, from the live cursor.
    pub fn next_request(&self) -> (r: (Vec<u8>, Vec<u8>))
        requires
            self.wf(),
            self.phase is Paging,
        ensures
            r.0@ == spec_scroll_path(),
            r.1@ == spec_scroll_body(self.cursor->0@),
    {
        proof {
            reveal_strlit("/_search/scroll");
            reveal_strlit("{\"scroll\":\"1m\",\"scroll_id\":");
            reveal_strlit("}");
        }
        let path = ascii_bytes("/_search/scroll");
        let mut body = ascii_bytes("{\"scroll\":\"1m\",\"scroll_id\":");
        let q = match &self.cursor {
            Some(c) => json_quote(c),
            None => Vec::new(),
        };
        append_bytes(&mut body, &q);
        let close = ascii_bytes("}");
        append_bytes(&mut body, &close);
        proof {
            assert(body@ =~= spec_scroll_body(self.cursor->0@));
        }
        (path, body)
    }

    /// The release call for the cursor, owed once pagination is done.
    pub fn release_request(&self) -> (r: (Vec<u8>, Vec<u8>))
        requires
            self.phase is Done,
            self.cursor is Some,
        ensures
            r.0@ == spec_scroll_path(),
            r.1@ == spec_clear_body(self.cursor->0@),
    {
        proof {
            reveal_strlit("/_search/scroll");
            reveal_strlit("{\"scroll_id\":");
            reveal_strlit("}");
        }
        let path = ascii_bytes("/_search/scroll");
        let mut body = ascii_bytes("{\"scroll_id\":");
        let q = match &self.cursor {
            Some(c) => json_quote(c),
            None => Vec::new(),
        };
        append_bytes(&mut body, &q);
        let close = ascii_bytes("}");
        append_bytes(&mut body, &close);
        proof {
            assert(body@ =~= spec_clear_body(self.cursor->0@));
        }
        (path, body)
    }

    /// Marks the cursor released. The cursor is dropped so it can never be
    /// used again, whatever the release call reported: a failed release is
    /// logged by the driver, never fatal to the export.
    pub fn on_released(&mut self)
        requires
            old(self).wf(),
            old(self).phase is Done,
        ensures
            final(self).wf(),
            final(self).phase is Cleared,
            final(self).cursor is None,
            final(self).records == old(self).records,
            final(self).lines == old(self).lines,
            final(self).task == old(self).task,
            final(self).declared == old(self).declared,
    {
        self.cursor = None;
        self.phase = SessionPhase::Cleared;
    }

    /// Marks the session failed after a transport, protocol or parse error.
    pub fn fail(&mut self)
        requires
            old(self).wf(),
        ensures
            final(self).wf(),
            final(self).phase is Failed,
            final(self).records == old(self).records,
            final(self).task == old(self).task,
    {
        self.phase = SessionPhase::Failed;
    }

    /// The shard file's bytes: every accumulated line, newline-terminated,
    /// written only once pagination completed — a failed session writes no
    /// shard that looks complete.
    pub fn shard_bytes(&self) -> (r: Vec<u8>)
        requires
            self.wf(),
            self.phase is Done || self.phase is Cleared,
        ensures
            r@ == joined(self.lines.deep_view()),
    {
        crate::lines::join_lines(&self.lines)
    }
}

/// The shard lines of each session, session by session.
pub open spec fn session_shards(sessions: Seq<ScrollSession>) -> Seq<Seq<Seq<u8>>> {
    sessions.map_values(|s: ScrollSession| s.lines.deep_view())
}

/// The records of all sessions together.
pub open spec fn total_session_records(sessions: Seq<ScrollSession>) -> nat
    decreases sessions.len(),
{
    if sessions.len() == 0 {
        0
    } else {
        (sessions[0].records + total_session_records(sessions.drop_first())) as nat
    }
}

/// However a collection is split into partitions, the combined artifact
/// holds exactly two lines for every record the partitions returned: one
/// action-metadata line and one payload line. Merging the sessions' shard
/// lines yields twice the sessions' total record count, whatever the
/// number of sessions.
pub proof fn lemma_export_line_count(sessions: Seq<ScrollSession>)
    requires
        forall|i: int| 0 <= i < sessions.len() ==> (#[trigger] sessions[i]).wf(),
    ensures
        crate::lines::concat_all(session_shards(sessions)).len() == 2 * total_session_records(
            sessions,
        ),
    decreases sessions.len(),
{
    let shards = session_shards(sessions);
    if sessions.len() == 0 {
        assert(shards =~~= Seq::<Seq<Seq<u8>>>::empty());
        assert(crate::lines::concat_all(shards).len() == 0);
    } else {
        assert(sessions[0].wf());
        assert(shards[0] == sessions[0].lines.deep_view());
        assert(shards[0].len() == sessions[0].lines@.len());
        assert(forall|i: int|
            0 <= i < sessions.drop_first().len() ==> (#[trigger] sessions.drop_first()[i]).wf());
        lemma_export_line_count(sessions.drop_first());
        assert(shards.drop_first() =~~= session_shards(sessions.drop_first()));
        assert(crate::lines::concat_all(shards) == shards[0] + crate::lines::concat_all(
            shards.drop_first(),
        ));
    }
}

} // verus!
