//! Retrieval of a codec header (SPS/PPS, VPS/SPS/PPS, or AV1 sequence header).
//!
//! The device writes the header into a buffer. Some implementations misbehave when
//! only asked for its size, so the first query already offers a buffer; if it is
//! too small, a larger one is tried, twice at most.

use crate::error::PixelForgeError;
use crate::vk::{describe_status, status_text, INCOMPLETE, SUCCESS};
use vstd::prelude::*;

verus! {

/// Size of the first buffer.
pub const FIRST_BUFFER_SIZE: usize = 4096;

/// Number of queries at most.
pub const MAX_ATTEMPTS: u32 = 3;

/// Queries for a header.
#[derive(Debug, Clone, Copy)]
pub struct HeaderQuery {
    attempts: u32,
    buffer_size: usize,
}

/// State of the queries for a header.
#[verifier::ext_equal]
pub struct HeaderQueryModel {
    /// Number of queries that have been answered.
    pub attempts: int,
    /// Size of the buffer for the next query.
    pub buffer_size: int,
}

/// What follows a query.
#[derive(Debug)]
pub enum HeaderOutcome {
    /// Query again, with the new buffer size.
    Retry,
    /// The header, or why there is none.
    Done(Result<Vec<u8>, PixelForgeError>),
}

/// Size of the buffer after a query for which it was too small.
pub open spec fn grown(buffer_size: int, needed: int) -> int {
    if needed >= 2 * buffer_size && needed >= 1 {
        needed
    } else if buffer_size >= 1 {
        2 * buffer_size
    } else {
        1
    }
}

/// The first `n` bytes of the buffer, or all if there are no more.
pub open spec fn cut(buffer: Seq<u8>, n: int) -> Seq<u8> {
    if n < buffer.len() {
        buffer.take(n)
    } else {
        buffer
    }
}

/// The answer to a query gives this outcome and state.
pub open spec fn answers(
    m: HeaderQueryModel,
    code: i32,
    buffer: Seq<u8>,
    data_size: int,
    empty: Seq<char>,
    failed: Seq<char>,
    outcome: HeaderOutcome,
    next: HeaderQueryModel,
) -> bool {
    &&& next.attempts == m.attempts + 1
    &&& match outcome {
        HeaderOutcome::Done(Ok(header)) => {
            &&& code == SUCCESS
            &&& data_size > 0
            &&& header@ == cut(buffer, data_size)
            &&& next.buffer_size == m.buffer_size
        },
        HeaderOutcome::Retry => {
            &&& code == INCOMPLETE
            &&& next.attempts < MAX_ATTEMPTS
            &&& next.buffer_size == grown(m.buffer_size, data_size)
        },
        HeaderOutcome::Done(Err(e)) => {
            &&& e matches PixelForgeError::SessionParametersCreation(message)
            &&& if code == SUCCESS {
                data_size == 0 && message@ == empty
            } else {
                &&& code == INCOMPLETE ==> next.attempts == MAX_ATTEMPTS
                &&& message@ == failed + status_text(code)
            }
            &&& next.buffer_size == m.buffer_size
        },
    }
}

impl View for HeaderQuery {
    type V = HeaderQueryModel;

    closed spec fn view(&self) -> HeaderQueryModel {
        HeaderQueryModel { attempts: self.attempts as int, buffer_size: self.buffer_size as int }
    }
}

impl HeaderQuery {
    /// Start to query.
    pub fn new() -> (query: Self)
        ensures
            query@ == (HeaderQueryModel { attempts: 0, buffer_size: FIRST_BUFFER_SIZE as int }),
    {
        HeaderQuery { attempts: 0, buffer_size: FIRST_BUFFER_SIZE }
    }

    /// Size of the buffer for the next query.
    pub fn buffer_size(&self) -> (size: usize)
        ensures
            size == self@.buffer_size,
    {
        self.buffer_size
    }

    /// Go on after a query that gave a status code, filled a buffer of
    /// [`Self::buffer_size`] bytes and reported `data_size`.
    ///
    /// `empty` is the message if the header is empty, and `failed` starts the message
    /// if the query failed.
    pub fn answer(
        &mut self,
        code: i32,
        buffer: Vec<u8>,
        data_size: usize,
        empty: &str,
        failed: &str,
    ) -> (outcome: HeaderOutcome)
        requires
            old(self)@.attempts < MAX_ATTEMPTS,
            2 * old(self)@.buffer_size <= usize::MAX,
        ensures
            answers(
                old(self)@,
                code,
                buffer@,
                data_size as int,
                empty@,
                failed@,
                outcome,
                final(self)@,
            ),
    {
        self.attempts = self.attempts + 1;
        if code == SUCCESS {
            if data_size == 0 {
                return HeaderOutcome::Done(
                    Err(PixelForgeError::SessionParametersCreation(empty.to_string())),
                );
            }
            let mut header: Vec<u8> = buffer;
            if data_size < header.len() {
                header.truncate(data_size);
            }
            return HeaderOutcome::Done(Ok(header));
        }
        if code == INCOMPLETE && self.attempts < MAX_ATTEMPTS {
            let mut size: usize = self.buffer_size * 2;
            if data_size > size {
                size = data_size;
            }
            if size < 1 {
                size = 1;
            }
            self.buffer_size = size;
            return HeaderOutcome::Retry;
        }
        let mut message = failed.to_string();
        message.append(describe_status(code).as_str());
        HeaderOutcome::Done(Err(PixelForgeError::SessionParametersCreation(message)))
    }
}

/// A buffer that was too small grows at least to twice its size, and to the size
/// that was reported.
pub proof fn law_buffer_grows(buffer_size: int, needed: int)
    requires
        buffer_size >= 0,
    ensures
        grown(buffer_size, needed) >= 2 * buffer_size,
        grown(buffer_size, needed) >= needed,
        grown(buffer_size, needed) > buffer_size,
{
}

/// A header is asked for at most three times, and again only if the buffer was too small,
/// with one that has room for what was reported. The header is what the device wrote: as
/// many bytes as it reported, from the start of the buffer. A header without bytes, and
/// any other status code, is an error.
pub proof fn law_header_is_what_was_written(
    m: HeaderQueryModel,
    code: i32,
    buffer: Seq<u8>,
    data_size: int,
    empty: Seq<char>,
    failed: Seq<char>,
    outcome: HeaderOutcome,
    next: HeaderQueryModel,
)
    requires
        0 <= m.attempts < MAX_ATTEMPTS,
        0 <= m.buffer_size,
        0 <= data_size <= buffer.len(),
        answers(m, code, buffer, data_size, empty, failed, outcome, next),
    ensures
        next.attempts == m.attempts + 1,
        next.attempts <= 3,
        outcome is Retry <==> code == INCOMPLETE && next.attempts < 3,
        outcome is Retry ==> next.buffer_size >= data_size && next.buffer_size > m.buffer_size,
        (outcome matches HeaderOutcome::Done(Ok(_))) <==> code == SUCCESS && data_size > 0,
        outcome matches HeaderOutcome::Done(Ok(header)) ==> header@.len() == data_size
            && forall|i: int| 0 <= i < data_size ==> #[trigger] header@[i] == buffer[i],
{
}

/// A buffer that was too small grows no further than it has to.
pub proof fn law_buffer_grows_to_one_bound(buffer_size: int, needed: int)
    requires
        buffer_size >= 0,
    ensures
        grown(buffer_size, needed) == 2 * buffer_size || grown(buffer_size, needed) == needed
            || grown(buffer_size, needed) == 1,
{
}

} // verus!
