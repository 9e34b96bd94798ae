//! The batch ingestor: a single pass over the input stream that skips the
//! records the resume cursor accounts for, decodes every later record,
//! resolves its user, and accumulates pixel events into bounded batches.
//! The surrounding binary reads the stream and performs the flushes; every
//! decision is made and proved here.

use vstd::prelude::*;

use crate::codec::{color_ok, color_value, coords_ok, coords_value, decode_color,
    decode_coordinates};
use crate::errors::IngestError;
use crate::models::{Pixel, RawRecord, User};
use crate::registry::{resolved_id, snapshot_map, snapshot_ok, stepped_map, stepped_next,
    Registry};
use crate::timestamp::{decode_timestamp, timestamp_ok, timestamp_value};

verus! {

/// The number of pixel events a batch holds before it should be flushed.
pub const BATCH_SIZE: usize = 10000;

/// Every field of the record decodes.
pub open spec fn record_decodes(rec: RawRecord) -> bool {
    &&& timestamp_ok(rec.timestamp@)
    &&& color_ok(rec.pixel_color@)
    &&& coords_ok(rec.coordinate@)
}

/// One flush: the new users buffered since the last flush, then the pending
/// pixel events. The user insert must reach the store before the pixel
/// insert, because the pixels carry foreign keys into the user table.
pub struct FlushBatch {
    pub users: Vec<User>,
    pub pixels: Vec<Pixel>,
}

/// The ingestion state machine.
pub struct Ingestor {
    registry: Registry,
    pending: Vec<Pixel>,
    consumed: usize,
    skip_count: usize,
    batch_size: usize,
    log: Ghost<Seq<Pixel>>,
}

impl Ingestor {
    /// The user registry.
    pub closed spec fn reg(self) -> Registry {
        self.registry
    }

    /// The pixel events awaiting the next flush.
    pub closed spec fn pending_pixels(self) -> Seq<Pixel> {
        self.pending@
    }

    /// How many input records have been consumed, skipped ones included.
    pub closed spec fn consumed_count(self) -> int {
        self.consumed as int
    }

    /// How many leading records the resume cursor asks to discard.
    pub closed spec fn skip_target(self) -> int {
        self.skip_count as int
    }

    /// The flush threshold.
    pub closed spec fn batch_limit(self) -> int {
        self.batch_size as int
    }

    /// Every pixel event ingested in this run, flushed or pending, in
    /// stream order.
    pub closed spec fn pixel_log(self) -> Seq<Pixel> {
        self.log@
    }

    pub open spec fn wf(self) -> bool {
        &&& self.reg().wf()
        &&& self.batch_limit() >= 1
        &&& (self.consumed_count() >= self.skip_target() ==> self.consumed_count()
            == self.skip_target() + self.pixel_log().len())
        &&& (self.consumed_count() < self.skip_target() ==> self.pixel_log().len() == 0)
        &&& self.pending_pixels().len() <= self.pixel_log().len()
        &&& self.pending_pixels() =~= self.pixel_log().subrange(
            self.pixel_log().len() - self.pending_pixels().len(),
            self.pixel_log().len() as int,
        )
        &&& forall|k: int|
            0 <= k < self.pixel_log().len() ==> (#[trigger] self.pixel_log()[k]).pixel_id as int
                == self.skip_target() + k
        &&& forall|k: int|
            0 <= k < self.pixel_log().len() ==> 0 <= (#[trigger] self.pixel_log()[k]).user_id
                && (self.pixel_log()[k].user_id as int) < self.reg().next_id()
        &&& forall|k: int|
            0 <= k < self.pixel_log().len() ==> ((#[trigger] self.pixel_log()[k]).x2 is Some
                <==> self.pixel_log()[k].y2 is Some)
    }

    /// Start a run: seed the registry from the store's user snapshot and set
    /// the resume cursor to the store's committed pixel count. In no-store
    /// mode both are empty and ingestion starts from the beginning.
    pub fn new(existing_users: Vec<User>, pixels_in_db: usize, batch_size: usize) -> (r: Result<
        Ingestor,
        IngestError,
    >)
        requires
            batch_size >= 1,
        ensures
            r is Ok <==> snapshot_ok(existing_users@),
            r is Ok ==> {
                let ing = r->Ok_0;
                &&& ing.wf()
                &&& ing.consumed_count() == 0
                &&& ing.skip_target() == pixels_in_db
                &&& ing.batch_limit() == batch_size
                &&& ing.pixel_log().len() == 0
                &&& ing.pending_pixels().len() == 0
                &&& ing.reg().id_map() == snapshot_map(existing_users@)
                &&& ing.reg().next_id() == existing_users@.len()
                &&& ing.reg().pending_users().len() == 0
            },
            r is Err ==> r->Err_0 matches IngestError::ConstraintViolation { .. },
    {
        let registry = match Registry::initialize(existing_users) {
            Ok(r) => r,
            Err(e) => {
                return Err(e);
            },
        };
        Ok(
            Ingestor {
                registry,
                pending: Vec::new(),
                consumed: 0,
                skip_count: pixels_in_db,
                batch_size,
                log: Ghost(Seq::empty()),
            },
        )
    }

    /// Does the resume cursor still ask for the next record to be discarded?
    pub fn should_skip(&self) -> (r: bool)
        ensures
            r == (self.consumed_count() < self.skip_target()),
    {
        self.consumed < self.skip_count
    }

    /// Account for one leading record discarded without decoding.
    pub fn note_skipped(&mut self)
        requires
            old(self).wf(),
            old(self).consumed_count() < old(self).skip_target(),
        ensures
            final(self).wf(),
            final(self).consumed_count() == old(self).consumed_count() + 1,
            final(self).skip_target() == old(self).skip_target(),
            final(self).batch_limit() == old(self).batch_limit(),
            final(self).pixel_log() == old(self).pixel_log(),
            final(self).pending_pixels() == old(self).pending_pixels(),
            final(self).reg() == old(self).reg(),
    {
        self.consumed = self.consumed + 1;
    }

    /// Decode one record, resolve its user, and append the pixel event to
    /// the pending batch. The event's `pixel_id` is the record's zero-based
    /// position in the full input stream. Any decode failure is fatal and
    /// leaves the ingestor untouched.
    pub fn ingest(&mut self, rec: &RawRecord) -> (r: Result<(), IngestError>)
        requires
            old(self).wf(),
            old(self).consumed_count() >= old(self).skip_target(),
            old(self).consumed_count() < i32::MAX,
            old(self).reg().id_map().contains_key(rec.user_hash@) || old(self).reg().next_id()
                < i32::MAX,
        ensures
            final(self).wf(),
            r is Ok <==> record_decodes(*rec),
            r is Err ==> *final(self) == *old(self),
            r is Err ==> {
                let e = r->Err_0;
                &&& !timestamp_ok(rec.timestamp@) ==> (e matches IngestError::MalformedTimestamp {
                    position,
                    raw,
                } && position as int == old(self).consumed_count() && raw@ == rec.timestamp@)
                &&& timestamp_ok(rec.timestamp@) && !color_ok(rec.pixel_color@) ==> (e matches
                    IngestError::MalformedColor { position, raw } && position as int == old(
                    self,
                ).consumed_count() && raw@ == rec.pixel_color@)
                &&& timestamp_ok(rec.timestamp@) && color_ok(rec.pixel_color@) && !coords_ok(
                    rec.coordinate@,
                ) ==> (e matches IngestError::MalformedCoordinates { position, raw } && position
                    as int == old(self).consumed_count() && raw@ == rec.coordinate@)
            },
            r is Ok ==> {
                let p = final(self).pixel_log().last();
                &&& final(self).consumed_count() == old(self).consumed_count() + 1
                &&& final(self).skip_target() == old(self).skip_target()
                &&& final(self).batch_limit() == old(self).batch_limit()
                &&& final(self).pixel_log().len() == old(self).pixel_log().len() + 1
                &&& final(self).pixel_log().drop_last() =~= old(self).pixel_log()
                &&& p.pixel_id as int == old(self).consumed_count()
                &&& p.ts == timestamp_value(rec.timestamp@)
                &&& p.user_id as int == resolved_id(
                    old(self).reg().id_map(),
                    old(self).reg().next_id(),
                    rec.user_hash@,
                )
                &&& p.color as int == color_value(rec.pixel_color@)
                &&& p.x1 == coords_value(rec.coordinate@).x1
                &&& p.y1 == coords_value(rec.coordinate@).y1
                &&& p.x2 == coords_value(rec.coordinate@).x2
                &&& p.y2 == coords_value(rec.coordinate@).y2
                &&& final(self).pending_pixels() =~= old(self).pending_pixels().push(p)
                &&& final(self).reg().id_map() == stepped_map(
                    old(self).reg().id_map(),
                    old(self).reg().next_id(),
                    rec.user_hash@,
                )
                &&& final(self).reg().next_id() == stepped_next(
                    old(self).reg().id_map(),
                    old(self).reg().next_id(),
                    rec.user_hash@,
                )
                &&& final(self).reg().committed_count() == old(self).reg().committed_count()
            },
    {
        let position = self.consumed;
        let ts = match decode_timestamp(rec.timestamp.as_str(), position) {
            Ok(t) => t,
            Err(e) => {
                return Err(e);
            },
        };
        let color = match decode_color(rec.pixel_color.as_str(), position) {
            Ok(c) => c,
            Err(e) => {
                return Err(e);
            },
        };
        let coords = match decode_coordinates(rec.coordinate.as_str(), position) {
            Ok(c) => c,
            Err(e) => {
                return Err(e);
            },
        };
        let user_id = self.registry.resolve(rec.user_hash.as_str());
        let pixel_id = self.consumed as i32;
        let p = Pixel {
            pixel_id,
            ts,
            user_id,
            color,
            x1: coords.x1,
            y1: coords.y1,
            x2: coords.x2,
            y2: coords.y2,
        };
        self.log = Ghost(self.log@.push(p));
        self.pending.push(p);
        self.consumed = self.consumed + 1;
        proof {
            assert(self.pending@ =~= self.log@.subrange(
                self.log@.len() - self.pending@.len(),
                self.log@.len() as int,
            ));
        }
        Ok(())
    }

    /// Has the pending batch reached the flush threshold?
    pub fn needs_flush(&self) -> (r: bool)
        ensures
            r == (self.pending_pixels().len() >= self.batch_limit()),
    {
        self.pending.len() >= self.batch_size
    }

    /// How many pixel events await the next flush.
    pub fn pending_count(&self) -> (n: usize)
        ensures
            n == self.pending_pixels().len(),
    {
        self.pending.len()
    }

    /// How many input records have been consumed so far, skipped included.
    pub fn records_consumed(&self) -> (n: usize)
        ensures
            n == self.consumed_count(),
    {
        self.consumed
    }

    /// How many hashes hold an id in the registry.
    pub fn user_count(&self) -> (n: i32)
        ensures
            n as int == self.reg().next_id(),
    {
        self.registry.user_count()
    }

    /// Hand out the batch to flush: the users buffered since the last flush,
    /// then the pending pixel events; both buffers are cleared. Inserting
    /// the users before the pixels keeps every foreign key satisfied: each
    /// pixel of the batch references a user that is already committed or is
    /// carried by this very batch.
    pub fn take_flush(&mut self) -> (batch: FlushBatch)
        requires
            old(self).wf(),
        ensures
            final(self).wf(),
            batch.users@ == old(self).reg().pending_users(),
            batch.pixels@ == old(self).pending_pixels(),
            final(self).pending_pixels().len() == 0,
            final(self).pixel_log() == old(self).pixel_log(),
            final(self).consumed_count() == old(self).consumed_count(),
            final(self).skip_target() == old(self).skip_target(),
            final(self).batch_limit() == old(self).batch_limit(),
            final(self).reg().id_map() == old(self).reg().id_map(),
            final(self).reg().next_id() == old(self).reg().next_id(),
            final(self).reg().pending_users().len() == 0,
            final(self).reg().committed_count() == old(self).reg().next_id(),
            forall|j: int|
                0 <= j < batch.users@.len() ==> (#[trigger] batch.users@[j]).user_id as int == old(
                    self,
                ).reg().committed_count() + j,
            forall|j: int|
                0 <= j < batch.users@.len() ==> old(self).reg().id_map().contains_key(
                    (#[trigger] batch.users@[j]).hash@,
                ) && old(self).reg().id_map()[batch.users@[j].hash@] == batch.users@[j].user_id,
            forall|i: int|
                0 <= i < batch.pixels@.len() ==> 0 <= (#[trigger] batch.pixels@[i]).user_id
                    && (batch.pixels@[i].user_id as int) < old(self).reg().next_id(),
            forall|i: int|
                0 <= i < batch.pixels@.len() && (#[trigger] batch.pixels@[i]).user_id as int >= old(
                    self,
                ).reg().committed_count() ==> exists|j: int|
                    0 <= j < batch.users@.len() && (#[trigger] batch.users@[j]).user_id
                        == batch.pixels@[i].user_id,
    {
        let users = self.registry.drain_pending();
        let mut pixels: Vec<Pixel> = Vec::new();
        core::mem::swap(&mut pixels, &mut self.pending);
        proof {
            assert(self.pending@ =~= self.log@.subrange(
                self.log@.len() - self.pending@.len(),
                self.log@.len() as int,
            ));
        }
        let batch = FlushBatch { users, pixels };
        proof {
            assert forall|i: int|
                0 <= i < batch.pixels@.len() && (#[trigger] batch.pixels@[i]).user_id as int >= old(
                    self,
                ).reg().committed_count() implies exists|j: int|
                0 <= j < batch.users@.len() && (#[trigger] batch.users@[j]).user_id
                    == batch.pixels@[i].user_id by {
                let j = batch.pixels@[i].user_id as int - old(self).reg().committed_count();
                assert(0 <= j < batch.users@.len());
                assert(batch.users@[j].user_id == batch.pixels@[i].user_id);
            }
        }
        batch
    }
}

/// Every pixel event of a run carries the id of its position in the full
/// input stream: the resume cursor's skip target plus its index since
/// resume. Replays over the same input therefore recompute the same ids.
pub proof fn lemma_pixel_id_is_stream_position(ing: Ingestor, k: int)
    requires
        ing.wf(),
        0 <= k < ing.pixel_log().len(),
    ensures
        ing.pixel_log()[k].pixel_id as int == ing.skip_target() + k,
{
}

/// While the resume cursor still asks for records to be discarded — and
/// still at the moment it is exactly satisfied — nothing has been decoded
/// and nothing awaits a flush: a re-run over an already-committed prefix
/// appends no rows.
pub proof fn lemma_skipping_appends_nothing(ing: Ingestor)
    requires
        ing.wf(),
        ing.consumed_count() <= ing.skip_target(),
    ensures
        ing.pixel_log().len() == 0,
        ing.pending_pixels().len() == 0,
{
}

} // verus!
