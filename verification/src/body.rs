//! Request bodies, read chunk by chunk up to a limit.

use crate::response::{error_response, Reply, ReplyView, BAD_REQUEST, PAYLOAD_TOO_LARGE};
use vstd::prelude::*;

verus! {

/// The most bytes that the body of a request may have.
pub const MAX_REQUEST_BODY_BYTES: usize = 4 * 1024;

/// What came of reading on in a body: some more of it, or a failure.
#[derive(Debug, Clone, PartialEq, Eq)]
pub enum BodyChunk {
    Data(Vec<u8>),
    Failed,
}

/// A chunk, its data as a sequence.
pub enum ChunkView {
    Data(Seq<u8>),
    Failed,
}

impl View for BodyChunk {
    type V = ChunkView;

    open spec fn view(&self) -> ChunkView {
        match self {
            BodyChunk::Data(data) => ChunkView::Data(data@),
            BodyChunk::Failed => ChunkView::Failed,
        }
    }
}

/// The answer where a body could not be read.
pub open spec fn invalid_body_reply() -> ReplyView {
    crate::response::error_reply(BAD_REQUEST, "invalid_body"@, "failed to read request body"@)
}

/// The answer to a body over the limit.
pub open spec fn body_too_large_reply() -> ReplyView {
    crate::response::error_reply(
        PAYLOAD_TOO_LARGE,
        "body_too_large"@,
        "request body exceeds 4 KiB"@,
    )
}

/// The body so far, with one more chunk; or the answer that reading ends with.
pub open spec fn extended(bytes: Seq<u8>, chunk: ChunkView) -> Result<
    Seq<u8>,
    ReplyView,
> {
    match chunk {
        ChunkView::Failed => Err(invalid_body_reply()),
        ChunkView::Data(data) => if bytes.len() + data.len() > MAX_REQUEST_BODY_BYTES {
            Err(body_too_large_reply())
        } else {
            Ok(bytes + data)
        },
    }
}

/// What reading a body of these chunks comes to: the first chunk that is refused
/// ends it.
pub open spec fn limited_body(chunks: Seq<ChunkView>) -> Result<
    Seq<u8>,
    ReplyView,
>
    decreases chunks.len(),
{
    if chunks.len() == 0 {
        Ok(Seq::empty())
    } else {
        match limited_body(chunks.drop_last()) {
            Ok(bytes) => extended(bytes, chunks.last()),
            Err(reply) => Err(reply),
        }
    }
}

/// All data of the chunks, one after the other.
pub open spec fn whole_data(chunks: Seq<ChunkView>) -> Seq<u8>
    decreases chunks.len(),
{
    if chunks.len() == 0 {
        Seq::empty()
    } else {
        match chunks.last() {
            ChunkView::Data(data) => whole_data(chunks.drop_last()) + data,
            ChunkView::Failed => whole_data(chunks.drop_last()),
        }
    }
}

/// Whether no chunk is a failure.
pub open spec fn all_data(chunks: Seq<ChunkView>) -> bool {
    forall|i: int| 0 <= i < chunks.len() ==> #[trigger] chunks[i] is Data
}

/// The body of a request, as far as it was read: the bytes so far, or the answer
/// that reading ended with.
pub struct LimitedBody {
    outcome: Result<Vec<u8>, Reply>,
    chunks: Ghost<Seq<ChunkView>>,
}

impl View for LimitedBody {
    type V = Seq<ChunkView>;

    /// The chunks that came.
    closed spec fn view(&self) -> Seq<ChunkView> {
        self.chunks@
    }
}

impl LimitedBody {
    #[verifier::type_invariant]
    spec fn well_formed(self) -> bool {
        &&& crate::text::result_view(self.outcome) == limited_body(self.chunks@)
        &&& self.outcome matches Ok(bytes) ==> bytes@.len() <= MAX_REQUEST_BODY_BYTES
    }

    /// A body of which nothing was read yet.
    pub fn new() -> (body: LimitedBody)
        ensures
            body@ == Seq::<ChunkView>::empty(),
    {
        let outcome: Result<Vec<u8>, Reply> = Ok(Vec::new());
        assert(outcome->Ok_0@ =~= Seq::<u8>::empty());
        LimitedBody { outcome, chunks: Ghost(Seq::empty()) }
    }

    /// Takes what came next, and tells whether to read on.
    pub fn read_chunk(&mut self, chunk: BodyChunk) -> (read_on: bool)
        ensures
            final(self)@ == old(self)@.push(chunk@),
            read_on == (limited_body(final(self)@) is Ok),
            chunk is Failed ==> !read_on,
    {
        let mut current = LimitedBody::new();
        std::mem::swap(&mut current, self);
        proof {
            use_type_invariant(&current);
        }
        let ghost chunks = current.chunks@.push(chunk@);
        assert(chunks.drop_last() =~= current.chunks@);
        let outcome = match current.outcome {
            Ok(bytes) => extend(bytes, chunk),
            Err(reply) => Err(reply),
        };
        let read_on = outcome.is_ok();
        *self = LimitedBody { outcome, chunks: Ghost(chunks) };
        read_on
    }

    /// The whole body, or the answer that reading it ended with.
    pub fn finish(self) -> (result: Result<Vec<u8>, Reply>)
        ensures
            crate::text::result_view(result) == limited_body(self@),
    {
        proof {
            use_type_invariant(&self);
        }
        self.outcome
    }
}

/// The body so far, with one more chunk; or the answer that reading ends with.
fn extend(bytes: Vec<u8>, chunk: BodyChunk) -> (result: Result<Vec<u8>, Reply>)
    requires
        bytes@.len() <= MAX_REQUEST_BODY_BYTES,
    ensures
        crate::text::result_view(result) == extended(bytes@, chunk@),
        result matches Ok(bytes) ==> bytes@.len() <= MAX_REQUEST_BODY_BYTES,
{
    let mut bytes = bytes;
    match chunk {
        BodyChunk::Failed => Err(
            error_response(BAD_REQUEST, "invalid_body", "failed to read request body"),
        ),
        BodyChunk::Data(data) => {
            if data.len() > MAX_REQUEST_BODY_BYTES - bytes.len() {
                Err(
                    error_response(
                        PAYLOAD_TOO_LARGE,
                        "body_too_large",
                        "request body exceeds 4 KiB",
                    ),
                )
            } else {
                let mut data = data;
                bytes.append(&mut data);
                Ok(bytes)
            }
        },
    }
}

/// A body is read whole or not at all: it is what all chunks hold together just
/// where none of them is a failure and together they are within the limit.
pub proof fn law_body_is_read_whole_or_refused(chunks: Seq<ChunkView>)
    ensures
        limited_body(chunks) is Ok <==> all_data(chunks) && whole_data(chunks).len()
            <= MAX_REQUEST_BODY_BYTES,
        limited_body(chunks) matches Ok(bytes) ==> bytes == whole_data(chunks),
    decreases chunks.len(),
{
    if chunks.len() > 0 {
        let front = chunks.drop_last();
        law_body_is_read_whole_or_refused(front);
        assert(all_data(chunks) <==> all_data(front) && chunks.last() is Data) by {
            if all_data(chunks) {
                assert(chunks[chunks.len() - 1] is Data);
                assert forall|i: int| 0 <= i < front.len() implies #[trigger] front[i] is Data by {
                    assert(front[i] == chunks[i]);
                }
            }
            if all_data(front) && chunks.last() is Data {
                assert forall|i: int| 0 <= i < chunks.len() implies #[trigger] chunks[i] is Data by {
                    if i < front.len() {
                        assert(front[i] == chunks[i]);
                    }
                }
            }
        }
    }
}

/// A body that is refused is answered for the first chunk that is a failure or
/// goes over the limit.
pub proof fn law_first_bad_chunk_is_answered(chunks: Seq<ChunkView>)
    requires
        limited_body(chunks) is Err,
    ensures
        exists|k: int|
            {
                &&& 0 <= k < chunks.len()
                &&& #[trigger] all_data(chunks.take(k))
                &&& whole_data(chunks.take(k)).len() <= MAX_REQUEST_BODY_BYTES
                &&& limited_body(chunks) == extended(whole_data(chunks.take(k)), chunks[k])
            },
    decreases chunks.len(),
{
    let front = chunks.drop_last();
    law_body_is_read_whole_or_refused(front);
    if limited_body(front) is Ok {
        let k = chunks.len() - 1;
        assert(chunks.take(k) =~= front);
        assert(all_data(chunks.take(k)));
    } else {
        law_first_bad_chunk_is_answered(front);
        let k = choose|k: int|
            {
                &&& 0 <= k < front.len()
                &&& #[trigger] all_data(front.take(k))
                &&& whole_data(front.take(k)).len() <= MAX_REQUEST_BODY_BYTES
                &&& limited_body(front) == extended(whole_data(front.take(k)), front[k])
            };
        assert(front.take(k) =~= chunks.take(k));
        assert(all_data(chunks.take(k)));
    }
}

/// Once a body is refused, nothing that follows is read: the answer stands.
pub proof fn law_refusal_stands(chunks: Seq<ChunkView>, more: Seq<ChunkView>)
    requires
        limited_body(chunks) is Err,
    ensures
        limited_body(chunks + more) == limited_body(chunks),
    decreases more.len(),
{
    if more.len() == 0 {
        assert(chunks + more =~= chunks);
    } else {
        law_refusal_stands(chunks, more.drop_last());
        assert((chunks + more).drop_last() =~= chunks + more.drop_last());
    }
}

/// The view of a chunk tells its kind and all of its data.
pub proof fn law_chunk_view_keeps_everything(chunk: BodyChunk)
    ensures
        chunk is Data <==> chunk@ is Data,
        chunk is Failed <==> chunk@ is Failed,
        chunk is Data ==> chunk@->Data_0 == chunk->Data_0@,
{
}

/// Chunks with these data, and no failure among them.
pub open spec fn data_chunks(parts: Seq<Seq<u8>>) -> Seq<ChunkView> {
    parts.map_values(|part: Seq<u8>| ChunkView::Data(part))
}

/// Data come through as they are, one after the other, where together they have
/// at most 4096 bytes; with more, the body is answered to be too large, whatever
/// else follows.
pub proof fn law_data_are_read_up_to_the_limit(parts: Seq<Seq<u8>>, more: Seq<ChunkView>)
    ensures
        parts.flatten().len() <= 4096 ==> limited_body(data_chunks(parts)) == Ok::<
            Seq<u8>,
            ReplyView,
        >(parts.flatten()),
        parts.flatten().len() > 4096 ==> limited_body(data_chunks(parts) + more) == Err::<
            Seq<u8>,
            ReplyView,
        >(
            crate::response::error_reply(
                413,
                "body_too_large"@,
                "request body exceeds 4 KiB"@,
            ),
        ),
    decreases parts.len(),
{
    let chunks = data_chunks(parts);
    if parts.len() == 0 {
        assert(parts.flatten() =~= Seq::<u8>::empty());
    } else {
        let front = parts.drop_last();
        let none = Seq::<ChunkView>::empty();
        law_data_are_read_up_to_the_limit(front, none);
        front.lemma_flatten_push(parts.last());
        assert(front.push(parts.last()) =~= parts);
        assert(chunks.drop_last() =~= data_chunks(front));
        assert(data_chunks(front) + none =~= data_chunks(front));
        if parts.flatten().len() > 4096 {
            law_refusal_stands(chunks, more);
        }
    }
}

/// Where reading fails before the limit is passed, the body is answered to be
/// unreadable, whatever follows.
pub proof fn law_failure_to_read_is_answered(parts: Seq<Seq<u8>>, more: Seq<ChunkView>)
    requires
        parts.flatten().len() <= 4096,
    ensures
        limited_body(data_chunks(parts) + seq![ChunkView::Failed] + more) == Err::<
            Seq<u8>,
            ReplyView,
        >(
            crate::response::error_reply(
                400,
                "invalid_body"@,
                "failed to read request body"@,
            ),
        ),
{
    let chunks = data_chunks(parts) + seq![ChunkView::Failed];
    law_data_are_read_up_to_the_limit(parts, more);
    assert(chunks.drop_last() =~= data_chunks(parts));
    law_refusal_stands(chunks, more);
}

/// A body of which nothing was read has no chunks, and a body ends with its bytes
/// or its answer: the bytes of all its data, where there are at most 4096 of them.
pub proof fn law_body_ends_with_all_its_data(body: LimitedBody, parts: Seq<Seq<u8>>)
    ensures
        forall|made: LimitedBody| #[trigger]
            call_ensures(LimitedBody::new, (), made) ==> made@.len() == 0,
        forall|result: Result<Vec<u8>, Reply>| #[trigger]
            call_ensures(LimitedBody::finish, (body,), result) && body@ == data_chunks(parts) ==> {
                &&& result is Ok <==> parts.flatten().len() <= 4096
                &&& result is Ok ==> result->Ok_0@ == parts.flatten()
                &&& result is Err ==> result->Err_0@ == crate::response::error_reply(
                    413,
                    "body_too_large"@,
                    "request body exceeds 4 KiB"@,
                )
            },
        forall|result: Result<Vec<u8>, Reply>|
            (#[trigger] call_ensures(LimitedBody::finish, (body,), result)) && (exists|i: int|
                0 <= i < body@.len() && #[trigger] body@[i] is Failed) ==> result is Err,
{
    let none = Seq::<ChunkView>::empty();
    law_data_are_read_up_to_the_limit(parts, none);
    law_body_is_read_whole_or_refused(body@);
    assert(data_chunks(parts) + none =~= data_chunks(parts));
    assert forall|result: Result<Vec<u8>, Reply>| #[trigger]
        call_ensures(LimitedBody::finish, (body,), result) implies (result is Ok <==> limited_body(
        body@,
    ) is Ok) && (result is Ok ==> result->Ok_0@ == limited_body(body@)->Ok_0) && (result is Err
        ==> result->Err_0@ == limited_body(body@)->Err_0) by {
        crate::text::law_result_view_keeps_the_kind(result);
    }
}

/// Every chunk that comes is taken behind those before it, and reading goes on
/// just where the chunks so far are data of at most 4096 bytes together.
pub proof fn law_chunks_are_taken_in_order(chunk: BodyChunk, parts: Seq<Seq<u8>>)
    ensures
        forall|body: &mut LimitedBody, read_on: bool| #[trigger]
            call_ensures(LimitedBody::read_chunk, (body, chunk), read_on) ==> {
                &&& final(body)@ == body@ + seq![chunk@]
                &&& body@ == data_chunks(parts) && chunk is Data ==> (read_on <==> (parts
                    + seq![chunk->Data_0@]).flatten().len() <= 4096)
                &&& chunk is Failed ==> !read_on
            },
{
    let all = parts + seq![chunk->Data_0@];
    let none = Seq::<ChunkView>::empty();
    law_data_are_read_up_to_the_limit(all, none);
    assert(data_chunks(all) + none =~= data_chunks(all));
    if chunk is Data {
        assert(data_chunks(all) =~= data_chunks(parts).push(chunk@));
    }
}

} // verus!
