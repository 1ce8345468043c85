//! Asking the kernel for its module table.
//!
//! Nobody knows beforehand how long the table is. A request that finds the buffer too short is
//! answered with a length, and repeated with a longer buffer.

use vstd::prelude::*;
use vstd::slice::slice_subrange;

use crate::error::{
    conv_ntstatus, ErrorKind, ErrorOrigin, NtStatus, OsError, STATUS_INFO_LENGTH_MISMATCH,
};
use crate::modules::{parse_module_table, KernelModule, KernelModuleView};
use crate::table::pointer_width;

verus! {

/// The class of system information that holds the module table.
pub const SYSTEM_MODULE_INFORMATION_CLASS: i32 = 11;

/// The length of the first buffer.
pub const MODULE_QUERY_INITIAL_CAPACITY: usize = 0x4_0000;

/// How often the kernel is asked.
pub const MODULE_QUERY_MAX_RETRIES: usize = 6;

/// The requests for the module table: the buffer for the next one, and how many may still be
/// made.
pub struct KernelModuleQuery {
    buffer: Vec<u8>,
    attempts_left: usize,
}

/// The state of a `KernelModuleQuery`.
#[verifier::ext_equal]
pub struct QueryState {
    pub buffer: Seq<u8>,
    pub attempts_left: int,
}

impl View for KernelModuleQuery {
    type V = QueryState;

    closed spec fn view(&self) -> QueryState {
        QueryState { buffer: self.buffer@, attempts_left: self.attempts_left as int }
    }
}

/// What comes after a request.
#[derive(Debug)]
pub enum QueryStep {
    /// Another request.
    Retry,
    /// Nothing more.
    Finish(Result<Vec<KernelModule>, OsError>),
}

/// A `QueryStep` with the views of the modules.
pub enum QueryOutcome {
    Retry,
    Finish(Result<Seq<KernelModuleView>, OsError>),
}

impl View for QueryStep {
    type V = QueryOutcome;

    open spec fn view(&self) -> QueryOutcome {
        match *self {
            QueryStep::Retry => QueryOutcome::Retry,
            QueryStep::Finish(Ok(modules)) => QueryOutcome::Finish(
                Ok(crate::modules::module_views(modules@)),
            ),
            QueryStep::Finish(Err(error)) => QueryOutcome::Finish(Err(error)),
        }
    }
}

/// The state before the first request.
pub open spec fn query_start() -> QueryState {
    QueryState {
        buffer: Seq::new(MODULE_QUERY_INITIAL_CAPACITY as nat, |i: int| 0u8),
        attempts_left: MODULE_QUERY_MAX_RETRIES as int,
    }
}

/// The length of the buffer after one of the length `len` was too short for `return_len` bytes:
/// twice the length, or room for those bytes and the start of the table if that is more.
pub open spec fn longer_len(len: int, return_len: int) -> int {
    let wanted = if 2 * len > return_len + crate::modules::table_offset() {
        2 * len
    } else {
        return_len + crate::modules::table_offset()
    };
    if wanted > usize::MAX {
        usize::MAX as int
    } else {
        wanted
    }
}

/// The part of the buffer that the kernel has filled.
pub open spec fn filled(buffer: Seq<u8>, return_len: int) -> Seq<u8> {
    if return_len > buffer.len() {
        buffer
    } else {
        buffer.take(return_len)
    }
}

/// What a reply of the kernel leads to.
pub open spec fn query_outcome(state: QueryState, status: NtStatus, return_len: u32) -> QueryOutcome {
    if status.0 == STATUS_INFO_LENGTH_MISMATCH {
        if state.attempts_left > 1 {
            QueryOutcome::Retry
        } else {
            QueryOutcome::Finish(Err(crate::error::os_error(ErrorKind::Unknown)))
        }
    } else if status.failed() {
        QueryOutcome::Finish(Err(crate::error::os_error(crate::error::status_kind(status))))
    } else {
        let data = filled(state.buffer, return_len as int);
        match crate::modules::table_fault(data) {
            Some(kind) => QueryOutcome::Finish(Err(crate::error::os_error(kind))),
            None => QueryOutcome::Finish(Ok(crate::modules::table_modules(data))),
        }
    }
}

/// The state after a reply of the kernel.
pub open spec fn query_after(state: QueryState, status: NtStatus, return_len: u32) -> QueryState {
    if query_outcome(state, status, return_len) is Retry {
        let len = state.buffer.len() as int;
        QueryState {
            buffer: state.buffer + Seq::new(
                (longer_len(len, return_len as int) - len) as nat,
                |i: int| 0u8,
            ),
            attempts_left: state.attempts_left - 1,
        }
    } else {
        state
    }
}

impl KernelModuleQuery {
    pub fn new() -> (query: KernelModuleQuery)
        ensures
            query@ == query_start(),
    {
        let query = KernelModuleQuery {
            buffer: vec![0u8; MODULE_QUERY_INITIAL_CAPACITY],
            attempts_left: MODULE_QUERY_MAX_RETRIES,
        };
        proof {
            assert(query@.buffer =~= query_start().buffer);
        }
        query
    }

    /// The buffer that the kernel is to fill.
    pub fn buffer_mut(&mut self) -> (buffer: &mut [u8])
        ensures
            buffer@ == old(self)@.buffer,
            final(self)@ == (QueryState { buffer: final(buffer)@, ..old(self)@ }),
    {
        self.buffer.as_mut_slice()
    }

    /// The length of the buffer as the kernel is told it, which is the length modulo 2^32.
    pub fn request_len(&self) -> (len: u32)
        ensures
            len == self@.buffer.len() % 0x1_0000_0000,
    {
        let len: u64 = self.buffer.len() as u64;
        proof {
            assert(len as u32 == len % 0x1_0000_0000) by (bit_vector);
        }
        len as u32
    }

    /// The length that the buffer gets if it is too short for `return_len` bytes.
    pub fn longer_len(&self, return_len: u32) -> (len: usize)
        ensures
            len == longer_len(self@.buffer.len() as int, return_len as int),
    {
        let len = self.buffer.len();
        let doubled = if len > usize::MAX / 2 {
            usize::MAX
        } else {
            2 * len
        };
        let reported = (return_len as usize).saturating_add(pointer_width());
        if doubled > reported {
            doubled
        } else {
            reported
        }
    }

    /// Takes the kernel's reply to a request: its status, and the length that it reported.
    pub fn step(&mut self, status: NtStatus, return_len: u32) -> (step: QueryStep)
        requires
            status.0 == STATUS_INFO_LENGTH_MISMATCH ==> longer_len(
                old(self)@.buffer.len() as int,
                return_len as int,
            ) <= isize::MAX,
        ensures
            step@ == query_outcome(old(self)@, status, return_len),
            final(self)@ == query_after(old(self)@, status, return_len),
            step matches QueryStep::Finish(Ok(modules)) ==> forall|i: int|
                0 <= i < modules@.len() ==> crate::modules::has_strings_of(
                    #[trigger] modules@[i]@,
                    crate::modules::table_entry(
                        filled(old(self)@.buffer, return_len as int),
                        i,
                    ),
                ),
    {
        if status.0 == STATUS_INFO_LENGTH_MISMATCH {
            if self.attempts_left <= 1 {
                return QueryStep::Finish(Err(OsError(ErrorOrigin::OsLayer, ErrorKind::Unknown)));
            }
            let next_len = self.longer_len(return_len);
            proof {
                crate::table::lemma_pointer_size();
            }
            self.buffer.resize(next_len, 0);
            self.attempts_left = self.attempts_left - 1;
            proof {
                assert(self@.buffer =~= query_after(old(self)@, status, return_len).buffer);
            }
            return QueryStep::Retry;
        }
        if status.is_err() {
            return QueryStep::Finish(Err(conv_ntstatus(status)));
        }
        let valid_len = if return_len as usize > self.buffer.len() {
            self.buffer.len()
        } else {
            return_len as usize
        };
        let data = slice_subrange(self.buffer.as_slice(), 0, valid_len);
        proof {
            assert(data@ =~= filled(self.buffer@, return_len as int));
        }
        QueryStep::Finish(parse_module_table(data))
    }
}

/// A reply of the kernel, with the buffer as it left it.
pub struct QueryReply {
    pub status: NtStatus,
    pub return_len: u32,
    pub buffer: Seq<u8>,
}

/// What a series of requests leads to that are answered by `replies`, as far as they go.
pub open spec fn query_run(state: QueryState, replies: Seq<QueryReply>) -> QueryOutcome
    decreases replies.len(),
{
    if replies.len() == 0 {
        QueryOutcome::Retry
    } else {
        let reply = replies[0];
        let answered = QueryState { buffer: reply.buffer, ..state };
        match query_outcome(answered, reply.status, reply.return_len) {
            QueryOutcome::Retry => query_run(
                query_after(answered, reply.status, reply.return_len),
                replies.skip(1),
            ),
            finish => finish,
        }
    }
}

/// The requests come to an end: no more are made than may be, whatever the kernel replies.
pub proof fn law_query_ends(state: QueryState, replies: Seq<QueryReply>)
    requires
        replies.len() > 0,
        replies.len() >= state.attempts_left,
    ensures
        query_run(state, replies) is Finish,
    decreases replies.len(),
{
    let reply = replies[0];
    let answered = QueryState { buffer: reply.buffer, ..state };
    if query_outcome(answered, reply.status, reply.return_len) is Retry {
        law_query_ends(
            query_after(answered, reply.status, reply.return_len),
            replies.skip(1),
        );
    }
}

/// A kernel that always finds the buffer too short is given up on after the last request, and
/// not before.
pub proof fn law_query_gives_up(replies: Seq<QueryReply>)
    requires
        forall|i: int|
            0 <= i < replies.len() ==> (#[trigger] replies[i]).status.0
                == STATUS_INFO_LENGTH_MISMATCH,
    ensures
        query_run(query_start(), replies) == (if replies.len() < MODULE_QUERY_MAX_RETRIES {
            QueryOutcome::Retry
        } else {
            QueryOutcome::Finish(Err(crate::error::os_error(ErrorKind::Unknown)))
        }),
{
    lemma_query_mismatches(query_start(), replies);
}

proof fn lemma_query_mismatches(state: QueryState, replies: Seq<QueryReply>)
    requires
        state.attempts_left > 0,
        forall|i: int|
            0 <= i < replies.len() ==> (#[trigger] replies[i]).status.0
                == STATUS_INFO_LENGTH_MISMATCH,
    ensures
        query_run(state, replies) == (if replies.len() < state.attempts_left {
            QueryOutcome::Retry
        } else {
            QueryOutcome::Finish(Err(crate::error::os_error(ErrorKind::Unknown)))
        }),
    decreases replies.len(),
{
    if replies.len() > 0 {
        let reply = replies[0];
        let answered = QueryState { buffer: reply.buffer, ..state };
        if state.attempts_left > 1 {
            lemma_query_mismatches(
                query_after(answered, reply.status, reply.return_len),
                replies.skip(1),
            );
        }
    }
}

/// A buffer that was too short is made at least twice as long, and long enough for what the
/// kernel reported, unless no buffer is. It keeps what it holds.
pub proof fn law_retry_grows_buffer(state: QueryState, status: NtStatus, return_len: u32)
    requires
        query_outcome(state, status, return_len) is Retry,
        state.buffer.len() <= usize::MAX,
    ensures
        ({
            let after = query_after(state, status, return_len);
            let len = after.buffer.len();
            &&& state.buffer.is_prefix_of(after.buffer)
            &&& len == usize::MAX || (len >= 2 * state.buffer.len() && len > return_len)
            &&& after.attempts_left == state.attempts_left - 1
        }),
{
    crate::table::lemma_pointer_size();
    let after = query_after(state, status, return_len);
    assert(state.buffer =~= after.buffer.take(state.buffer.len() as int));
}

/// A successful reply whose buffer starts with a table gives the modules of that table, as long
/// as the kernel reports a length that covers it.
pub proof fn law_table_is_read(
    state: QueryState,
    status: NtStatus,
    return_len: u32,
    entries: Seq<crate::table::ModuleEntry>,
    padding: Seq<u8>,
)
    requires
        status.0 < 0x8000_0000,
        forall|j: int|
            0 <= j < entries.len() ==> crate::table::entry_fits(#[trigger] entries[j]),
        entries.len() <= u32::MAX,
        padding.len() == crate::modules::table_offset() - 4,
        crate::modules::entry_offset(entries.len() as int) <= usize::MAX,
        crate::modules::encode_table(entries, padding).is_prefix_of(state.buffer),
        crate::modules::encode_table(entries, padding).len() <= return_len,
    ensures
        query_outcome(state, status, return_len) == QueryOutcome::Finish(
            Ok(
                entries.map_values(
                    |entry: crate::table::ModuleEntry| crate::modules::module_of(entry),
                ),
            ),
        ),
{
    let table = crate::modules::encode_table(entries, padding);
    let data = filled(state.buffer, return_len as int);
    let rest = data.skip(table.len() as int);
    assert(data =~= table + rest) by {
        assert(state.buffer.take(table.len() as int) =~= table);
    }
    crate::modules::law_table_reads_back(entries, padding, rest);
}

} // verus!
