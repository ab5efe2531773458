//! The sender's state machine: it owns the file bytes and drives the
//! announce, data, finish sequence, reacting to each response of the
//! receiver.

use vstd::prelude::*;
use vstd::arithmetic::div_mod::{lemma_div_plus_one, lemma_basic_div};
use crate::message::{Message, MessageView, MessageResponse, DataResponse, FinishResponse, Id};

verus! {

/// Why the sender cannot continue a transfer.
#[derive(Debug, Eq, PartialEq, Clone, Copy, Structural)]
pub enum TransmissionError {
    /// The receiver asked for the finish message again; recovering that
    /// exchange is not part of the protocol.
    UnsupportedRecovery,
}

/// One running transfer on the sender's side.
#[derive(Debug, Eq, PartialEq, Clone)]
pub struct TransmissionState {
    pub host: String,
    pub file_name: String,
    /// The full file content; never changes during the transfer.
    pub data: Vec<u8>,
    /// Maximum payload bytes per data message; positive.
    pub slice_size: usize,
    /// Read cursor into `data`.
    pub index: usize,
    /// The chunk identifier of the most recently sent data message.
    pub last_id: Id,
    /// The session token, chosen at random once per transfer.
    pub random_nr: u16,
}

/// The bytes of the chunk at `index`: up to `slice` bytes, clamped to the
/// end of the data.
pub open spec fn spec_chunk(data: Seq<u8>, index: int, slice: int) -> Seq<u8> {
    let end = if index + slice <= data.len() {
        index + slice
    } else {
        data.len() as int
    };
    let start = if index <= end {
        index
    } else {
        end
    };
    data.subrange(start, end)
}

/// Where the read cursor stands after advancing by one chunk; the cursor
/// saturates rather than wrap, which only matters past the end of the data.
pub open spec fn spec_advanced_index(index: int, slice: int) -> int {
    if index + slice <= usize::MAX {
        index + slice
    } else {
        usize::MAX as int
    }
}

/// The sender's reaction to one response: the successor state, paired with
/// what it emits — the next message, nothing once the transfer is complete,
/// or the error for the unsupported finish-resend recovery.
pub open spec fn spec_handle_response(st: TransmissionState, response: MessageResponse) -> (
    TransmissionState,
    Result<Option<MessageView>, TransmissionError>,
) {
    match response {
        MessageResponse::Announcement { rnd_nr: _, next_id } => (
            TransmissionState { last_id: next_id, ..st },
            Ok(
                Some(
                    MessageView::Data {
                        id: next_id,
                        data: spec_chunk(st.data@, st.index as int, st.slice_size as int),
                    },
                ),
            ),
        ),
        MessageResponse::Data { response: DataResponse::Resend } => (
            st,
            Ok(
                Some(
                    MessageView::Data {
                        id: st.last_id,
                        data: spec_chunk(st.data@, st.index as int, st.slice_size as int),
                    },
                ),
            ),
        ),
        MessageResponse::Data { response: DataResponse::Acknowledge { next_id } } => {
            let new_index = spec_advanced_index(st.index as int, st.slice_size as int);
            if new_index >= st.data@.len() {
                (
                    TransmissionState { index: new_index as usize, ..st },
                    Ok(Some(MessageView::Finish { rnd_nr: st.random_nr })),
                )
            } else {
                (
                    TransmissionState { index: new_index as usize, last_id: next_id, ..st },
                    Ok(
                        Some(
                            MessageView::Data {
                                id: next_id,
                                data: spec_chunk(st.data@, new_index, st.slice_size as int),
                            },
                        ),
                    ),
                )
            }
        },
        MessageResponse::Finish { response: FinishResponse::Resend } => (
            st,
            Err(TransmissionError::UnsupportedRecovery),
        ),
        MessageResponse::Finish { response: FinishResponse::Acknowledge { rnd_nr: _ } } => (
            st,
            Ok(None),
        ),
    }
}

/// The emissions of `handle_response`, at the level of message values.
pub open spec fn result_view(r: Result<Option<Message>, TransmissionError>) -> Result<
    Option<MessageView>,
    TransmissionError,
> {
    match r {
        Ok(Some(m)) => Ok(Some(m@)),
        Ok(None) => Ok(None),
        Err(e) => Err(e),
    }
}

/// Relies on `rand::random`: an arbitrary 16-bit value; nothing is promised
/// of it.
#[verifier::external_body]
fn random_u16() -> u16 {
    rand::random()
}

impl TransmissionState {
    /// Opens a transfer of `data` under a freshly drawn session token.
    pub fn new(host: String, file_name: String, data: Vec<u8>, slice_size: usize) -> (r:
        TransmissionState)
        requires
            slice_size > 0,
        ensures
            r.host == host,
            r.file_name == file_name,
            r.data == data,
            r.slice_size == slice_size,
            r.index == 0,
            r.last_id == 0,
    {
        let random_nr = random_u16();
        TransmissionState { host, file_name, data, slice_size, index: 0, last_id: 0, random_nr }
    }

    /// The announcement that opens the exchange; does not change the state.
    pub fn initial_message(&self) -> (r: Message)
        ensures
            r@ == (MessageView::Announcement {
                host: self.host@,
                file_name: self.file_name@,
                rnd_nr: self.random_nr,
            }),
    {
        Message::initial(self.host.clone(), self.file_name.clone(), self.random_nr)
    }

    /// The data message for the chunk at the current cursor, tagged
    /// `next_id`.
    fn next_data_message(&self, next_id: Id) -> (r: Message)
        ensures
            r@ == (MessageView::Data {
                id: next_id,
                data: spec_chunk(self.data@, self.index as int, self.slice_size as int),
            }),
    {
        let start_index: usize = self.index;
        let sum: usize = self.index.saturating_add(self.slice_size);
        let end_index: usize = if sum <= self.data.len() {
            sum
        } else {
            self.data.len()
        };
        let start: usize = if start_index <= end_index {
            start_index
        } else {
            end_index
        };
        let chunk = vstd::slice::slice_to_vec(
            vstd::slice::slice_subrange(self.data.as_slice(), start, end_index),
        );
        Message::Data { id: next_id, data: chunk }
    }

    /// Retransmits the chunk at the cursor under the identifier it was last
    /// sent with.
    fn resend_last_message(&self) -> (r: Message)
        ensures
            r@ == (MessageView::Data {
                id: self.last_id,
                data: spec_chunk(self.data@, self.index as int, self.slice_size as int),
            }),
    {
        self.next_data_message(self.last_id)
    }

    /// Advances the cursor past the acknowledged chunk and emits the next
    /// data message, or the finish message once the data is exhausted.
    fn progress_to_next_message(&mut self, next_id: Id) -> (r: Message)
        ensures
            ({
                let new_index = spec_advanced_index(
                    old(self).index as int,
                    old(self).slice_size as int,
                );
                if new_index >= old(self).data@.len() {
                    &&& *final(self) == (TransmissionState {
                        index: new_index as usize,
                        ..*old(self)
                    })
                    &&& r@ == (MessageView::Finish { rnd_nr: old(self).random_nr })
                } else {
                    &&& *final(self) == (TransmissionState {
                        index: new_index as usize,
                        last_id: next_id,
                        ..*old(self)
                    })
                    &&& r@ == (MessageView::Data {
                        id: next_id,
                        data: spec_chunk(old(self).data@, new_index, old(self).slice_size as int),
                    })
                }
            }),
    {
        self.index = self.index.saturating_add(self.slice_size);
        if self.index >= self.data.len() {
            return Message::Finish { rnd_nr: self.random_nr };
        }
        self.last_id = next_id;
        self.next_data_message(next_id)
    }

    /// Consumes one response and produces the next request, nothing once the
    /// receiver has acknowledged the finish, or an error on the unsupported
    /// finish-resend path.
    pub fn handle_response(&mut self, response: MessageResponse) -> (r: Result<
        Option<Message>,
        TransmissionError,
    >)
        ensures
            *final(self) == spec_handle_response(*old(self), response).0,
            result_view(r) == spec_handle_response(*old(self), response).1,
    {
        match response {
            MessageResponse::Announcement { rnd_nr: _, next_id } => {
                self.last_id = next_id;
                Ok(Some(self.next_data_message(next_id)))
            },
            MessageResponse::Data { response } => match response {
                DataResponse::Resend => Ok(Some(self.resend_last_message())),
                DataResponse::Acknowledge { next_id } => Ok(
                    Some(self.progress_to_next_message(next_id)),
                ),
            },
            MessageResponse::Finish { response } => match response {
                FinishResponse::Resend => Err(TransmissionError::UnsupportedRecovery),
                FinishResponse::Acknowledge { rnd_nr: _ } => Ok(None),
            },
        }
    }
}

/// Resend idempotence: a data-resend response leaves the sender's state
/// unchanged, and a second resend (hence any number of them in a row)
/// produces the identical data message — same chunk identifier, same
/// payload, no movement of the cursor.
pub proof fn lemma_resend_idempotent(st: TransmissionState)
    ensures
        ({
            let resend = MessageResponse::Data { response: DataResponse::Resend };
            let once = spec_handle_response(st, resend);
            let twice = spec_handle_response(once.0, resend);
            once.0 == st && twice == once
        }),
{
}

/// The data payloads the sender still emits from cursor `index` on, when
/// every chunk is acknowledged: one chunk per step of `slice`, until the
/// cursor leaves the data.
pub open spec fn remaining_chunks(data: Seq<u8>, index: int, slice: int) -> Seq<Seq<u8>>
    decreases data.len() - index,
    when slice >= 1
{
    if index >= data.len() {
        Seq::empty()
    } else {
        let next = if index + slice <= data.len() {
            index + slice
        } else {
            data.len() as int
        };
        seq![spec_chunk(data, index, slice)] + remaining_chunks(data, next, slice)
    }
}

proof fn lemma_remaining_chunks_from(data: Seq<u8>, index: int, slice: int)
    requires
        slice >= 1,
        0 <= index <= data.len(),
    ensures
        remaining_chunks(data, index, slice).len() == (data.len() - index + slice - 1) / slice,
        remaining_chunks(data, index, slice).flatten() == data.subrange(
            index,
            data.len() as int,
        ),
    decreases data.len() - index,
{
    let chunks = remaining_chunks(data, index, slice);
    if index == data.len() {
        assert(chunks.flatten() =~= data.subrange(index, data.len() as int));
        lemma_basic_div(slice - 1, slice);
    } else {
        let a = data.len() - index;
        let chunk = spec_chunk(data, index, slice);
        let next = if index + slice <= data.len() {
            index + slice
        } else {
            data.len() as int
        };
        let rest = remaining_chunks(data, next, slice);
        assert(chunks == seq![chunk] + rest);
        assert(chunks.first() == chunk);
        assert(chunks.drop_first() =~= rest);
        lemma_div_plus_one(a - 1, slice);
        lemma_remaining_chunks_from(data, next, slice);
        if index + slice >= data.len() {
            // the final chunk: everything that is left
            assert(rest =~= Seq::<Seq<u8>>::empty());
            assert(chunks.len() == 1);
            lemma_basic_div(a - 1, slice);
            assert(chunks.flatten() =~= chunk + rest.flatten());
            assert(chunks.flatten() =~= data.subrange(index, data.len() as int));
        } else {
            assert(chunks.len() == 1 + (a - slice + slice - 1) / slice);
            assert(chunks.flatten() =~= chunk + rest.flatten());
            assert(chunks.flatten() =~= data.subrange(index, data.len() as int));
        }
    }
}

/// Chunking completeness: sending a nonempty file of `N` bytes with chunk
/// size `S` emits exactly `(N + S - 1) / S` data chunks — the ceiling of
/// `N / S` — whose payloads concatenate, in order, to exactly the file's
/// bytes; `handle_response` emits the finish message in place of a chunk
/// exactly when the cursor has left the data.
pub proof fn lemma_chunking_completeness(data: Seq<u8>, slice: int)
    requires
        slice >= 1,
        data.len() >= 1,
    ensures
        remaining_chunks(data, 0, slice).len() == (data.len() + slice - 1) / slice,
        remaining_chunks(data, 0, slice).flatten() == data,
{
    lemma_remaining_chunks_from(data, 0, slice);
    assert(data.subrange(0, data.len() as int) =~= data);
}

/// The accepted announcement opens the transfer at the head of
/// `remaining_chunks`: the first data message carries exactly the first
/// remaining chunk, and the cursor does not move until it is acknowledged.
pub proof fn lemma_announcement_step(st: TransmissionState, rnd_nr: u16, next_id: u16)
    requires
        st.slice_size >= 1,
        st.index < st.data@.len(),
    ensures
        ({
            let step = spec_handle_response(
                st,
                MessageResponse::Announcement { rnd_nr, next_id },
            );
            let chunks = remaining_chunks(st.data@, st.index as int, st.slice_size as int);
            &&& chunks.len() >= 1
            &&& step.1 == Ok::<Option<MessageView>, TransmissionError>(
                Some(MessageView::Data { id: next_id, data: chunks[0] }),
            )
            &&& step.0.index == st.index
        }),
{
    let index = st.index as int;
    let slice = st.slice_size as int;
    let chunks = remaining_chunks(st.data@, index, slice);
    assert(chunks[0] == spec_chunk(st.data@, index, slice));
}

/// Each acknowledged chunk advances the transfer along `remaining_chunks`:
/// from a state with chunks left to send, acknowledging emits the next
/// remaining chunk, or the finish message when the acknowledged chunk was
/// the last.
pub proof fn lemma_acknowledge_step(st: TransmissionState, next_id: u16)
    requires
        st.slice_size >= 1,
        st.index < st.data@.len(),
        st.data@.len() <= usize::MAX,
    ensures
        ({
            let step = spec_handle_response(
                st,
                MessageResponse::Data { response: DataResponse::Acknowledge { next_id } },
            );
            let chunks = remaining_chunks(st.data@, st.index as int, st.slice_size as int);
            &&& chunks.len() >= 1
            &&& (chunks.len() == 1 ==> step.1 == Ok::<Option<MessageView>, TransmissionError>(
                Some(MessageView::Finish { rnd_nr: st.random_nr }),
            ))
            &&& (chunks.len() > 1 ==> step.1 == Ok::<Option<MessageView>, TransmissionError>(
                Some(MessageView::Data { id: next_id, data: chunks[1] }),
            ) && remaining_chunks(st.data@, step.0.index as int, st.slice_size as int)
                == chunks.drop_first())
        }),
{
    let index = st.index as int;
    let slice = st.slice_size as int;
    let data = st.data@;
    let chunks = remaining_chunks(data, index, slice);
    let next = if index + slice <= data.len() {
        index + slice
    } else {
        data.len() as int
    };
    let rest = remaining_chunks(data, next, slice);
    assert(chunks == seq![spec_chunk(data, index, slice)] + rest);
    let new_index = spec_advanced_index(index, slice);
    if new_index >= data.len() {
        assert(index + slice >= data.len());
        assert(rest =~= Seq::<Seq<u8>>::empty());
        assert(chunks.len() == 1);
    } else {
        assert(new_index == index + slice);
        assert(rest.len() >= 1);
        assert(chunks[1] == rest[0]);
        assert(rest[0] == spec_chunk(data, index + slice, slice));
        assert(chunks.drop_first() =~= rest);
    }
}

} // verus!
