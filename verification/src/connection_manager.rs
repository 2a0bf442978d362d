//! The registry of live connections: membership, the monotonic
//! closed flag of each member, cleanup of closed members, and the
//! broadcast primitive.
//!
//! The registry identifies each connection by the id it assigned at
//! `add_connection`; the caller performs the byte-stream work and
//! reports failures through `mark_closed`.

use vstd::prelude::*;
use crate::{WebSocketMessage, spec_message_opcode, spec_message_payload};
use crate::frame::{spec_serialize, WebSocketFrame};

verus! {

/// One registry member: its id and its monotonic closed flag.
#[derive(Clone, Copy, Debug, PartialEq, Eq, Structural)]
pub struct ConnectionEntry {
    pub id: u64,
    pub closed: bool,
}

/// Manages the set of active WebSocket connections.
pub struct ConnectionManager {
    connections: Vec<ConnectionEntry>,
    next_id: u64,
}

impl View for ConnectionManager {
    type V = (Seq<ConnectionEntry>, u64);

    closed spec fn view(&self) -> (Seq<ConnectionEntry>, u64) {
        (self.connections@, self.next_id)
    }
}

/// Whether the registry holds an entry with this id that is not
/// closed.
pub open spec fn spec_open_entry(entries: Seq<ConnectionEntry>, id: u64) -> bool {
    exists|j: int| 0 <= j < entries.len() && #[trigger] entries[j].id == id && !entries[j].closed
}

/// The members that are not closed, in order.
pub open spec fn open_entries(entries: Seq<ConnectionEntry>) -> Seq<ConnectionEntry> {
    entries.filter(|e: ConnectionEntry| !e.closed)
}

/// The ids of the members, in order.
pub open spec fn entry_ids(entries: Seq<ConnectionEntry>) -> Seq<u64> {
    entries.map_values(|e: ConnectionEntry| e.id)
}

/// Pairwise-distinct member ids.
pub open spec fn distinct_ids(entries: Seq<ConnectionEntry>) -> bool {
    forall|j: int, k: int|
        0 <= j < k < entries.len() ==> #[trigger] entries[j].id != #[trigger] entries[k].id
}

/// Keeping only the open members preserves membership in the
/// original sequence and keeps pairwise-distinct ids distinct.
proof fn lemma_open_entries_distinct(entries: Seq<ConnectionEntry>)
    requires
        distinct_ids(entries),
    ensures
        forall|j: int|
            0 <= j < open_entries(entries).len() ==> entries.contains(
                #[trigger] open_entries(entries)[j],
            ),
        distinct_ids(open_entries(entries)),
    decreases entries.len(),
{
    reveal(Seq::filter);
    if entries.len() == 0 {
    } else {
        let d = entries.drop_last();
        lemma_open_entries_distinct(d);
        let f = open_entries(entries);
        let fd = open_entries(d);
        assert forall|j: int| 0 <= j < fd.len() implies entries.contains(#[trigger] fd[j]) by {
            assert(d.contains(fd[j]));
            let idx = choose|i: int| 0 <= i < d.len() && d[i] == fd[j];
            assert(entries[idx] == fd[j]);
        }
        if !entries.last().closed {
            assert(f == fd.push(entries.last()));
            assert forall|j: int, k: int| 0 <= j < k < f.len() implies f[j].id != f[k].id by {
                if k == f.len() - 1 {
                    assert(d.contains(f[j]));
                    let idx = choose|i: int| 0 <= i < d.len() && d[i] == f[j];
                    assert(entries[idx].id != entries[entries.len() - 1].id);
                }
            }
        } else {
            assert(f == fd);
        }
    }
}

impl ConnectionManager {
    /// Well-formedness: ids are pairwise distinct and below the next
    /// id to assign.
    pub open spec fn wf(&self) -> bool {
        &&& distinct_ids(self@.0)
        &&& forall|j: int| 0 <= j < self@.0.len() ==> #[trigger] self@.0[j].id < self@.1
    }

    /// Creates an empty registry.
    pub fn new() -> (r: Self)
        ensures
            r@.0 == Seq::<ConnectionEntry>::empty(),
            r@.1 == 0,
            r.wf(),
    {
        ConnectionManager { connections: Vec::new(), next_id: 0 }
    }

    /// How many connections the registry currently holds, closed ones
    /// included.
    pub fn connection_count(&self) -> (r: usize)
        ensures
            r == self@.0.len(),
    {
        self.connections.len()
    }

    /// Whether every id has been handed out, so that no connection
    /// can be added any more.
    pub fn at_capacity(&self) -> (r: bool)
        ensures
            r == (self@.1 == u64::MAX),
    {
        self.next_id == u64::MAX
    }

    /// Registers a new connection, open, under a fresh id, and
    /// returns that id. Membership is append-only: existing entries
    /// are untouched.
    pub fn add_connection(&mut self) -> (id: u64)
        requires
            old(self).wf(),
            old(self)@.1 < u64::MAX,
        ensures
            final(self).wf(),
            id == old(self)@.1,
            final(self)@.0 == old(self)@.0.push(ConnectionEntry { id, closed: false }),
            final(self)@.1 == old(self)@.1 + 1,
            forall|j: int| 0 <= j < old(self)@.0.len() ==> #[trigger] old(self)@.0[j].id != id,
    {
        let id = self.next_id;
        self.connections.push(ConnectionEntry { id, closed: false });
        self.next_id = self.next_id + 1;
        id
    }

    /// Sets the closed flag of the connection with this id. The flag
    /// is monotonic: no call resets one, and other entries keep
    /// theirs.
    pub fn mark_closed(&mut self, id: u64)
        requires
            old(self).wf(),
        ensures
            final(self).wf(),
            final(self)@.1 == old(self)@.1,
            final(self)@.0.len() == old(self)@.0.len(),
            forall|j: int|
                0 <= j < old(self)@.0.len() ==> #[trigger] final(self)@.0[j] == (ConnectionEntry {
                    id: old(self)@.0[j].id,
                    closed: old(self)@.0[j].closed || old(self)@.0[j].id == id,
                }),
    {
        let ghost orig = self.connections@;
        let mut updated: Vec<ConnectionEntry> = Vec::new();
        let mut i: usize = 0;
        while i < self.connections.len()
            invariant
                i <= orig.len(),
                self.connections@ == orig,
                updated@.len() == i,
                forall|j: int|
                    0 <= j < i ==> #[trigger] updated@[j] == (ConnectionEntry {
                        id: orig[j].id,
                        closed: orig[j].closed || orig[j].id == id,
                    }),
            decreases orig.len() - i,
        {
            let e = self.connections[i];
            updated.push(ConnectionEntry { id: e.id, closed: e.closed || e.id == id });
            i += 1;
        }
        self.connections = updated;
    }

    /// Whether the connection with this id is closed; an id the
    /// registry does not hold open counts as closed.
    pub fn is_closed(&self, id: u64) -> (r: bool)
        ensures
            r == !spec_open_entry(self@.0, id),
    {
        let mut i: usize = 0;
        while i < self.connections.len()
            invariant
                i <= self@.0.len(),
                forall|j: int|
                    0 <= j < i ==> !(#[trigger] self@.0[j].id == id && !self@.0[j].closed),
            decreases self@.0.len() - i,
        {
            let e = self.connections[i];
            if e.id == id && !e.closed {
                return false;
            }
            i += 1;
        }
        true
    }

    /// Removes every member whose closed flag is set; open members
    /// stay, in order.
    pub fn cleanup_closed_connections(&mut self)
        requires
            old(self).wf(),
        ensures
            final(self).wf(),
            final(self)@.1 == old(self)@.1,
            final(self)@.0 == open_entries(old(self)@.0),
            forall|j: int| 0 <= j < final(self)@.0.len() ==> !(#[trigger] final(self)@.0[j]).closed,
    {
        let ghost orig = self.connections@;
        let mut kept: Vec<ConnectionEntry> = Vec::new();
        let mut i: usize = 0;
        while i < self.connections.len()
            invariant
                i <= orig.len(),
                self.connections@ == orig,
                kept@ == open_entries(orig.subrange(0, i as int)),
            decreases orig.len() - i,
        {
            let e = self.connections[i];
            proof {
                reveal(Seq::filter);
                assert(orig.subrange(0, i + 1).drop_last() =~= orig.subrange(0, i as int));
                assert(orig.subrange(0, i + 1).last() == orig[i as int]);
            }
            if !e.closed {
                kept.push(e);
            }
            i += 1;
        }
        proof {
            assert(orig.subrange(0, orig.len() as int) =~= orig);
        }
        self.connections = kept;
        proof {
            broadcast use Seq::lemma_filter_pred;

            lemma_open_entries_distinct(orig);
            assert forall|j: int| 0 <= j < self@.0.len() implies #[trigger] self@.0[j].id
                < self@.1 by {
                assert(orig.contains(self@.0[j]));
                let idx = choose|k: int| 0 <= k < orig.len() && orig[k] == self@.0[j];
                assert(orig[idx].id < self@.1);
            }
        }
    }

    /// Broadcast: every current member, closed ones included, is a
    /// recipient exactly once, in registry order, and all receive the
    /// same bytes: the serialized frame of the message.
    pub fn broadcast_message(&self, message: &WebSocketMessage) -> (r: (Vec<u64>, Vec<u8>))
        ensures
            r.0@ == entry_ids(self@.0),
            r.1@ == spec_serialize(spec_message_opcode(message), spec_message_payload(message)),
            self.wf() ==> forall|j: int, k: int|
                0 <= j < k < r.0@.len() ==> r.0@[j] != r.0@[k],
    {
        let mut recipients: Vec<u64> = Vec::new();
        let mut i: usize = 0;
        while i < self.connections.len()
            invariant
                i <= self@.0.len(),
                recipients@ == entry_ids(self@.0.subrange(0, i as int)),
            decreases self@.0.len() - i,
        {
            recipients.push(self.connections[i].id);
            proof {
                assert(entry_ids(self@.0.subrange(0, i + 1)) =~= entry_ids(
                    self@.0.subrange(0, i as int),
                ).push(self@.0[i as int].id));
            }
            i += 1;
        }
        proof {
            assert(self@.0.subrange(0, self@.0.len() as int) =~= self@.0);
        }
        let opcode = crate::message_opcode(message);
        let payload = crate::message_payload_bytes(message);
        let frame = WebSocketFrame { opcode, payload };
        let bytes = crate::frame::construct_frame(&frame);
        (recipients, bytes)
    }
}

/// Broadcast coverage: with pairwise-distinct ids, every registered
/// connection appears exactly once among the recipients, and the
/// broadcast bytes parse back to exactly the message's frame, whose
/// payload for a text message decodes to the characters sent.
pub proof fn lemma_broadcast_coverage(
    entries: Seq<ConnectionEntry>,
    recipients: Seq<u64>,
    bytes: Seq<u8>,
    m: &WebSocketMessage,
)
    requires
        distinct_ids(entries),
        recipients == entry_ids(entries),
        bytes == spec_serialize(spec_message_opcode(m), spec_message_payload(m)),
        spec_message_payload(m).len() <= usize::MAX,
    ensures
        recipients.len() == entries.len(),
        forall|j: int| 0 <= j < entries.len() ==> recipients[j] == #[trigger] entries[j].id,
        forall|j: int, k: int| 0 <= j < k < recipients.len() ==> recipients[j] != recipients[k],
        crate::frame::spec_parse_err(bytes) is None,
        crate::frame::spec_parsed_opcode(bytes) == spec_message_opcode(m),
        crate::frame::spec_parsed_payload(bytes) == spec_message_payload(m),
        m matches WebSocketMessage::Text(s) ==> vstd::utf8::decode_utf8(
            crate::frame::spec_parsed_payload(bytes),
        ) == s@,
{
    crate::lemma_message_round_trip(m);
}

} // verus!
