//! The receiver's session table: one open transfer record per session
//! token, an identifier generator for the next expected chunk, and a queue
//! of completed transfers awaiting external persistence.

use vstd::prelude::*;
use crate::message::{Message, MessageView, MessageResponse, DataResponse, FinishResponse, Id,
    ANNOUNCEMENT_ID, FINISH_ID};

verus! {

/// Why the receiver rejects a message.
#[derive(Debug, Eq, PartialEq, Clone, Copy, Structural)]
pub enum ServerError {
    /// A data message named a chunk identifier no open record expects.
    UnknownId { id: Id },
    /// A finish message named a session token no open record carries.
    UnknownRndNr { rnd_nr: u16 },
}

/// One transfer on the receiver's side: its session token, the chunk
/// identifier it expects next, the announced host and file name, and the
/// payload bytes accumulated in arrival order.
#[derive(Debug, Eq, PartialEq, Clone)]
pub struct TransmissionState {
    pub rdm_nr: u16,
    pub expected_id: Id,
    pub host: String,
    pub name: String,
    pub data: Vec<u8>,
}

impl TransmissionState {
    fn new(rdm_nr: u16, host: String, name: String, expected_id: Id) -> (r: TransmissionState)
        ensures
            r.rdm_nr == rdm_nr,
            r.expected_id == expected_id,
            r.host == host,
            r.name == name,
            r.data@ == Seq::<u8>::empty(),
    {
        TransmissionState { rdm_nr, expected_id, host, name, data: Vec::new() }
    }
}

/// The lowest chunk identifier the generator hands out: the first value
/// above the two reserved message-type tags.
pub const ID_RANGE_START: u16 = 2;

/// Produces the receiver's chunk identifiers: a counter over the 16-bit
/// space restricted to the working range above the reserved tags, wrapping
/// back to the start of that range instead of overflowing into the tags.
#[derive(Debug, Eq, PartialEq, Clone, Structural)]
pub struct IdGenerator {
    pub next_id: Id,
}

impl IdGenerator {
    /// The counter stands inside the working range.
    pub open spec fn wf(&self) -> bool {
        self.next_id >= ID_RANGE_START
    }

    /// The generator as it stands after handing out one identifier.
    pub open spec fn spec_advanced(self) -> IdGenerator {
        IdGenerator {
            next_id: if self.next_id == 0xFFFFu16 {
                ID_RANGE_START
            } else {
                (self.next_id + 1) as u16
            },
        }
    }

    pub fn new() -> (r: IdGenerator)
        ensures
            r.next_id == ID_RANGE_START,
            r.wf(),
    {
        IdGenerator { next_id: ID_RANGE_START }
    }

    /// Hands out the current identifier and advances: after the largest
    /// 16-bit value — itself a legal identifier — the counter wraps back to
    /// the start of the working range, so the reserved tags are never
    /// issued.
    pub fn next_id(&mut self) -> (r: Id)
        ensures
            r == old(self).next_id,
            *final(self) == old(self).spec_advanced(),
            old(self).wf() ==> final(self).wf() && r != ANNOUNCEMENT_ID && r != FINISH_ID,
    {
        let result = self.next_id;
        if self.next_id == u16::MAX {
            self.next_id = ID_RANGE_START;
        } else {
            self.next_id = self.next_id + 1;
        }
        result
    }
}

/// The receiver's session table.
#[derive(Debug)]
pub struct ServerState {
    /// The open transfers, in the order they were announced.
    pub states: Vec<TransmissionState>,
    /// Completed transfers, awaiting external persistence.
    pub finished_states: Vec<TransmissionState>,
    pub id_generator: IdGenerator,
}

impl ServerState {
    /// The generator stands in its working range and no open record expects
    /// a reserved tag as its chunk identifier.
    pub open spec fn wf(&self) -> bool {
        &&& self.id_generator.wf()
        &&& forall|i: int|
            0 <= i < self.states@.len() ==> (#[trigger] self.states@[i].expected_id)
                != ANNOUNCEMENT_ID && self.states@[i].expected_id != FINISH_ID
    }

    pub fn new() -> (r: ServerState)
        ensures
            r.wf(),
            r.states@ == Seq::<TransmissionState>::empty(),
            r.finished_states@ == Seq::<TransmissionState>::empty(),
            r.id_generator.next_id == ID_RANGE_START,
    {
        ServerState {
            states: Vec::new(),
            finished_states: Vec::new(),
            id_generator: IdGenerator::new(),
        }
    }

    /// Consumes one request and produces its response: an announcement opens
    /// a record under a fresh chunk identifier; a data message extends the
    /// record that expects its chunk identifier, or is rejected leaving every
    /// record untouched; a finish moves the session's record to the
    /// completed queue.
    pub fn handle_message(&mut self, message: Message) -> (r: Result<MessageResponse, ServerError>)
        requires
            old(self).wf(),
        ensures
            final(self).wf(),
            match message@ {
                MessageView::Announcement { host, file_name, rnd_nr } => {
                    let next_id = old(self).id_generator.next_id;
                    &&& r == Ok::<MessageResponse, ServerError>(
                        MessageResponse::Announcement { rnd_nr, next_id },
                    )
                    &&& final(self).states@.len() == old(self).states@.len() + 1
                    &&& final(self).states@.subrange(0, old(self).states@.len() as int) == old(self).states@
                    &&& ({
                        let rec = final(self).states@.last();
                        rec.rdm_nr == rnd_nr && rec.expected_id == next_id && rec.host@ == host
                            && rec.name@ == file_name && rec.data@ == Seq::<u8>::empty()
                    })
                    &&& final(self).finished_states == old(self).finished_states
                    &&& final(self).id_generator == old(self).id_generator.spec_advanced()
                },
                MessageView::Data { id, data } => {
                    if forall|k: int|
                        0 <= k < old(self).states@.len() ==> (#[trigger] old(self).states@[k].expected_id) != id {
                        // no open record expects this chunk: rejected, nothing changes
                        &&& r == Err::<MessageResponse, ServerError>(ServerError::UnknownId { id })
                        &&& *final(self) == *old(self)
                    } else {
                        let next_id = old(self).id_generator.next_id;
                        &&& r == Ok::<MessageResponse, ServerError>(
                            MessageResponse::Data {
                                response: DataResponse::Acknowledge { next_id },
                            },
                        )
                        &&& final(self).states@.len() == old(self).states@.len()
                        &&& exists|j: int|
                            #![auto]
                            {
                                &&& 0 <= j < old(self).states@.len()
                                &&& old(self).states@[j].expected_id == id
                                &&& forall|k: int|
                                    0 <= k < j ==> old(self).states@[k].expected_id != id
                                &&& final(self).states@[j].rdm_nr == old(self).states@[j].rdm_nr
                                &&& final(self).states@[j].host == old(self).states@[j].host
                                &&& final(self).states@[j].name == old(self).states@[j].name
                                &&& final(self).states@[j].expected_id == next_id
                                &&& final(self).states@[j].data@ == old(self).states@[j].data@
                                    + data
                                &&& forall|k: int|
                                    0 <= k < old(self).states@.len() && k != j ==> final(self).states@[k] == old(self).states@[k]
                            }
                        &&& final(self).finished_states == old(self).finished_states
                        &&& final(self).id_generator == old(self).id_generator.spec_advanced()
                    }
                },
                MessageView::Finish { rnd_nr } => {
                    if forall|k: int|
                        0 <= k < old(self).states@.len() ==> (#[trigger] old(self).states@[k].rdm_nr) != rnd_nr {
                        &&& r == Err::<MessageResponse, ServerError>(
                            ServerError::UnknownRndNr { rnd_nr },
                        )
                        &&& *final(self) == *old(self)
                    } else {
                        &&& r == Ok::<MessageResponse, ServerError>(
                            MessageResponse::Finish {
                                response: FinishResponse::Acknowledge { rnd_nr },
                            },
                        )
                        &&& exists|j: int|
                            #![auto]
                            {
                                &&& 0 <= j < old(self).states@.len()
                                &&& old(self).states@[j].rdm_nr == rnd_nr
                                &&& forall|k: int|
                                    0 <= k < j ==> old(self).states@[k].rdm_nr != rnd_nr
                                &&& final(self).states@ == old(self).states@.remove(j)
                                &&& final(self).finished_states@ == old(self).finished_states@.push(old(self).states@[j])
                            }
                        &&& final(self).id_generator == old(self).id_generator
                    }
                },
            },
    {
        match message {
            Message::Announcement { host, file_name, rnd_nr } => {
                let next_id = self.id_generator.next_id();
                let state = TransmissionState::new(rnd_nr, host, file_name, next_id);
                self.states.push(state);
                Ok(MessageResponse::Announcement { rnd_nr, next_id })
            },
            Message::Data { id, mut data } => {
                let j = match Self::find_state(&self.states, id) {
                    None => {
                        return Err(ServerError::UnknownId { id });
                    },
                    Some(j) => j,
                };
                let next_id = self.id_generator.next_id();
                let ghost old_rec = self.states@[j as int];
                let ghost arriving = data@;
                let state = &mut self.states[j];
                state.data.append(&mut data);
                state.expected_id = next_id;
                proof {
                    assert(self.states@[j as int].data@ == old_rec.data@ + arriving);
                }
                Ok(MessageResponse::Data { response: DataResponse::Acknowledge { next_id } })
            },
            Message::Finish { rnd_nr } => {
                let state = match self.pop_state(rnd_nr) {
                    Err(e) => {
                        return Err(e);
                    },
                    Ok(s) => s,
                };
                self.finished_states.push(state);
                Ok(MessageResponse::Finish { response: FinishResponse::Acknowledge { rnd_nr } })
            },
        }
    }

    /// The position of the first open record that expects chunk `id`.
    fn find_state(states: &Vec<TransmissionState>, id: Id) -> (r: Option<usize>)
        ensures
            match r {
                Some(j) => 0 <= j < states@.len() && states@[j as int].expected_id == id
                    && forall|k: int| 0 <= k < j ==> states@[k].expected_id != id,
                None => forall|k: int|
                    0 <= k < states@.len() ==> (#[trigger] states@[k].expected_id) != id,
            },
    {
        let mut i: usize = 0;
        while i < states.len()
            invariant
                0 <= i <= states@.len(),
                forall|k: int| 0 <= k < i ==> (#[trigger] states@[k].expected_id) != id,
            decreases states@.len() - i,
        {
            if states[i].expected_id == id {
                return Some(i);
            }
            i = i + 1;
        }
        None
    }

    /// Removes and returns the first open record of session `rnd_nr`.
    fn pop_state(&mut self, rnd_nr: u16) -> (r: Result<TransmissionState, ServerError>)
        ensures
            match r {
                Ok(s) => exists|j: int|
                    #![auto]
                    {
                        &&& 0 <= j < old(self).states@.len()
                        &&& old(self).states@[j].rdm_nr == rnd_nr
                        &&& forall|k: int| 0 <= k < j ==> old(self).states@[k].rdm_nr != rnd_nr
                        &&& s == old(self).states@[j]
                        &&& final(self).states@ == old(self).states@.remove(j)
                    },
                Err(e) => {
                    &&& e == (ServerError::UnknownRndNr { rnd_nr })
                    &&& *final(self) == *old(self)
                    &&& forall|k: int|
                        0 <= k < old(self).states@.len() ==> (#[trigger] old(self).states@[k].rdm_nr) != rnd_nr
                },
            },
            final(self).finished_states == old(self).finished_states,
            final(self).id_generator == old(self).id_generator,
    {
        let mut i: usize = 0;
        while i < self.states.len()
            invariant
                0 <= i <= self.states@.len(),
                *self == *old(self),
                forall|k: int| 0 <= k < i ==> (#[trigger] self.states@[k].rdm_nr) != rnd_nr,
            decreases self.states@.len() - i,
        {
            if self.states[i].rdm_nr == rnd_nr {
                let s = self.states.remove(i);
                return Ok(s);
            }
            i = i + 1;
        }
        Err(ServerError::UnknownRndNr { rnd_nr })
    }

    /// Hands out the completed transfers and clears the queue; external
    /// persistence writes each drained record once.
    pub fn drain_finished(&mut self) -> (r: Vec<TransmissionState>)
        ensures
            r == old(self).finished_states,
            final(self).finished_states@ == Seq::<TransmissionState>::empty(),
            final(self).states == old(self).states,
            final(self).id_generator == old(self).id_generator,
            old(self).wf() ==> final(self).wf(),
    {
        let mut out: Vec<TransmissionState> = Vec::new();
        core::mem::swap(&mut out, &mut self.finished_states);
        out
    }
}

} // verus!
