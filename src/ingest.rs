//! The ingestion loop: every envelope read from a session's broadcast
//! channel becomes one append-only ledger record, in arrival order.
use crate::message::json_str_member_of;
use crate::session::RuntimeError;
use crate::wire::{EnvelopeModel, MessageEnvelope};
use vstd::prelude::*;

verus! {

/// One row of the ledger. Absent JSON members are `None`.
pub struct LedgerRecord {
    pub row_id: u64,
    pub msg_id: Option<String>,
    pub msg_type: Option<String>,
    pub content: Vec<u8>,
    pub metadata: Vec<u8>,
    pub runtime_id: String,
    pub parent_msg_id: Option<String>,
    pub parent_msg_type: Option<String>,
    pub created_at: String,
}

pub ghost struct RecordModel {
    pub row_id: nat,
    pub msg_id: Option<Seq<char>>,
    pub msg_type: Option<Seq<char>>,
    pub content: Seq<u8>,
    pub metadata: Seq<u8>,
    pub runtime_id: Seq<char>,
    pub parent_msg_id: Option<Seq<char>>,
    pub parent_msg_type: Option<Seq<char>>,
    pub created_at: Seq<char>,
}

pub open spec fn opt_view(s: Option<String>) -> Option<Seq<char>> {
    match s {
        Some(x) => Some(x@),
        None => None,
    }
}

impl View for LedgerRecord {
    type V = RecordModel;

    open spec fn view(&self) -> RecordModel {
        RecordModel {
            row_id: self.row_id as nat,
            msg_id: opt_view(self.msg_id),
            msg_type: opt_view(self.msg_type),
            content: self.content@,
            metadata: self.metadata@,
            runtime_id: self.runtime_id@,
            parent_msg_id: opt_view(self.parent_msg_id),
            parent_msg_type: opt_view(self.parent_msg_type),
            created_at: self.created_at@,
        }
    }
}

/// The record of envelope `e` of runtime `runtime_id`, given row id and arrival time.
pub open spec fn record_of(e: EnvelopeModel, runtime_id: Seq<char>, row_id: nat, created_at: Seq<char>) -> RecordModel {
    RecordModel {
        row_id,
        msg_id: json_str_member_of(e.header, "msg_id"@),
        msg_type: json_str_member_of(e.header, "msg_type"@),
        content: e.content,
        metadata: e.metadata,
        runtime_id,
        parent_msg_id: json_str_member_of(e.parent_header, "msg_id"@),
        parent_msg_type: json_str_member_of(e.parent_header, "msg_type"@),
        created_at,
    }
}

/// The state of one runtime's ingestion loop.
pub struct IngestLoop {
    pub runtime_id: String,
    pub next_row: u64,
    pub appended: u64,
    pub failed: u64,
    pub lost: Option<RuntimeError>,
}

pub ghost struct IngestModel {
    pub runtime_id: Seq<char>,
    pub next_row: nat,
    pub appended: nat,
    pub failed: nat,
    pub lost: Option<RuntimeError>,
}

impl View for IngestLoop {
    type V = IngestModel;

    open spec fn view(&self) -> IngestModel {
        IngestModel {
            runtime_id: self.runtime_id@,
            next_row: self.next_row as nat,
            appended: self.appended as nat,
            failed: self.failed as nat,
            lost: self.lost,
        }
    }
}

/// What the host does after one read.
pub enum IngestStep {
    /// Append this record, then report the outcome.
    Append(LedgerRecord),
    /// The runtime is lost: the loop has ended.
    Stop(RuntimeError),
}

/// The loop after reading envelope `e`: the next row id is taken.
pub open spec fn receive_step(m: IngestModel) -> IngestModel {
    IngestModel { next_row: m.next_row + 1, ..m }
}

/// The loop after the host reports an append: a failure is counted, never retried.
pub open spec fn append_step(m: IngestModel, ok: bool) -> IngestModel {
    if ok {
        IngestModel { appended: m.appended + 1, ..m }
    } else {
        IngestModel { failed: m.failed + 1, ..m }
    }
}

/// The loop after envelopes `envs` arrive and their appends end as `oks` say,
/// with the records handed out on the way.
pub open spec fn ingest_run(
    m: IngestModel,
    envs: Seq<EnvelopeModel>,
    dates: Seq<Seq<char>>,
    oks: Seq<bool>,
) -> (IngestModel, Seq<RecordModel>)
    decreases envs.len(),
{
    if envs.len() == 0 || dates.len() == 0 || oks.len() == 0 {
        (m, Seq::empty())
    } else {
        let rec = record_of(envs[0], m.runtime_id, m.next_row, dates[0]);
        let after = append_step(receive_step(m), oks[0]);
        let rest = ingest_run(after, envs.drop_first(), dates.drop_first(), oks.drop_first());
        (rest.0, seq![rec] + rest.1)
    }
}

pub open spec fn count_false(oks: Seq<bool>) -> nat
    decreases oks.len(),
{
    if oks.len() == 0 {
        0
    } else {
        (if oks[0] { 0nat } else { 1nat }) + count_false(oks.drop_first())
    }
}

impl IngestLoop {
    /// A loop for runtime `runtime_id` whose first record gets row id `first_row`.
    pub fn new(runtime_id: String, first_row: u64) -> (r: IngestLoop)
        ensures
            r@ == (IngestModel { runtime_id: runtime_id@, next_row: first_row as nat, appended: 0, failed: 0, lost: None }),
    {
        IngestLoop { runtime_id, next_row: first_row, appended: 0, failed: 0, lost: None }
    }

    /// Handles one read from the broadcast channel. An envelope becomes the
    /// record to append, under the next row id; a read failure ends the loop
    /// for good, and so does every read after it.
    pub fn on_receive(&mut self, received: Result<MessageEnvelope, RuntimeError>, arrived_at: String) -> (r:
        IngestStep)
        requires
            old(self).next_row < u64::MAX,
        ensures
            match old(self).lost {
                Some(e) => r == IngestStep::Stop(e) && *final(self) == *old(self),
                None => match received {
                    Ok(x) => final(self)@ == receive_step(old(self)@) && (r matches IngestStep::Append(rec)
                        && rec@ == record_of(x@, old(self)@.runtime_id, old(self)@.next_row, arrived_at@)),
                    Err(e) => r == IngestStep::Stop(e) && final(self)@ == (IngestModel {
                        lost: Some(e),
                        ..old(self)@
                    }),
                },
            },
    {
        if let Some(e) = self.lost {
            return IngestStep::Stop(e);
        }
        match received {
            Ok(x) => {
                let msg_id = x.header_str("msg_id");
                let msg_type = x.header_str("msg_type");
                let parent_msg_id = x.parent_str("msg_id");
                let parent_msg_type = x.parent_str("msg_type");
                let rec = LedgerRecord {
                    row_id: self.next_row,
                    msg_id,
                    msg_type,
                    content: x.content,
                    metadata: x.metadata,
                    runtime_id: self.runtime_id.clone(),
                    parent_msg_id,
                    parent_msg_type,
                    created_at: arrived_at,
                };
                self.next_row = self.next_row + 1;
                IngestStep::Append(rec)
            },
            Err(e) => {
                self.lost = Some(e);
                IngestStep::Stop(e)
            },
        }
    }

    /// Records the outcome of an append. A failed append is counted and the
    /// loop goes on; the record is not retried.
    pub fn on_append_result(&mut self, outcome: Result<(), RuntimeError>)
        requires
            old(self).appended < u64::MAX,
            old(self).failed < u64::MAX,
        ensures
            final(self)@ == append_step(old(self)@, outcome is Ok),
    {
        match outcome {
            Ok(()) => self.appended = self.appended + 1,
            Err(_) => self.failed = self.failed + 1,
        }
    }
}

/// Ingestion continuity: for N envelopes delivered, exactly N records are
/// handed out, with consecutive (so distinct) row ids, the loop's runtime id,
/// each envelope's own and parent ids; failed appends are counted and never
/// stop the loop.
pub proof fn lemma_ingestion_continuity(
    m: IngestModel,
    envs: Seq<EnvelopeModel>,
    dates: Seq<Seq<char>>,
    oks: Seq<bool>,
)
    requires
        dates.len() == envs.len(),
        oks.len() == envs.len(),
    ensures
        ({
            let (end, recs) = ingest_run(m, envs, dates, oks);
            &&& recs.len() == envs.len()
            &&& forall|i: int| 0 <= i < envs.len() ==> #[trigger] recs[i] == record_of(
                envs[i],
                m.runtime_id,
                m.next_row + i as nat,
                dates[i],
            )
            &&& forall|i: int, j: int| 0 <= i < j < recs.len() ==> #[trigger] recs[i].row_id != #[trigger] recs[j].row_id
            &&& end.next_row == m.next_row + envs.len()
            &&& end.appended + end.failed == m.appended + m.failed + envs.len()
            &&& end.failed == m.failed + count_false(oks)
            &&& end.lost == m.lost
            &&& end.runtime_id == m.runtime_id
        }),
    decreases envs.len(),
{
    if envs.len() > 0 {
        let after = append_step(receive_step(m), oks[0]);
        lemma_ingestion_continuity(after, envs.drop_first(), dates.drop_first(), oks.drop_first());
        let (end, recs) = ingest_run(m, envs, dates, oks);
        let rest = ingest_run(after, envs.drop_first(), dates.drop_first(), oks.drop_first()).1;
        assert forall|i: int| 0 <= i < envs.len() implies #[trigger] recs[i] == record_of(
            envs[i],
            m.runtime_id,
            m.next_row + i as nat,
            dates[i],
        ) by {
            if i > 0 {
                assert(recs[i] == rest[i - 1]);
            }
        }
    }
}

} // verus!
