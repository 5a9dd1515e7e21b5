//! Bodies and markers shared by the agent's HTTP endpoints.

use vstd::prelude::*;

verus! {

/// Generic `{ "ok": true }` body used by several agent endpoints.
#[derive(Debug, Clone)]
pub struct OkResponse {
    pub ok: bool,
}

/// Default error body returned by agent endpoints.
#[derive(Debug, Clone)]
pub struct ErrorResponse {
    pub version: u8,
    pub error: String,
}

/// An optional JSON request body.
pub struct MaybeJson<T>(pub Option<T>);

/// Marks an SSE (`text/event-stream`) endpoint whose events carry `T`.
pub struct SseStream<T>(pub core::marker::PhantomData<T>);

impl<T> Default for SseStream<T> {
    fn default() -> (r: Self)
        ensures
            r == SseStream::<T>(core::marker::PhantomData),
    {
        SseStream(core::marker::PhantomData)
    }
}

} // verus!
