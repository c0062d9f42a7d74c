//! Handler layout of a channel pipeline and event routing between handlers.
//!
//! Head to tail: `Head, first..., Encoder, FrameDecoder, AppService,
//! last..., Tail`. Inbound events travel towards the tail (index + 1),
//! outbound ones towards the head (index - 1).
use vstd::prelude::*;

verus! {

/// The pipeline's head handler: outbound writes end in the outbound buffer,
/// close lands on the IO handle.
#[derive(Debug, Default, Clone, Copy)]
pub struct HeadHandler;

/// The pipeline's tail handler: drops what nobody consumed.
#[derive(Debug, Default, Clone, Copy)]
pub struct TailHandler;

/// Which handler sits at a pipeline index.
#[derive(Debug, Clone, Copy, PartialEq, Eq)]
pub enum HandlerSlot {
    Head,
    First(usize),
    Encoder,
    Frame,
    App,
    Last(usize),
    Tail,
}

/// Number of handlers: the five built-in ones and the extras.
pub open spec fn handler_len_spec(first_len: int, last_len: int) -> int {
    first_len + last_len + 5
}

/// The handler at index `i` (indices past the last extra are the tail).
pub open spec fn slot_spec(i: int, first_len: int, last_len: int) -> HandlerSlot {
    let idx_encoder = 1 + first_len;
    let idx_last_start = idx_encoder + 3;
    let idx_tail = idx_last_start + last_len;
    if i == 0 {
        HandlerSlot::Head
    } else if 1 <= i <= first_len {
        HandlerSlot::First((i - 1) as usize)
    } else if i == idx_encoder {
        HandlerSlot::Encoder
    } else if i == idx_encoder + 1 {
        HandlerSlot::Frame
    } else if i == idx_encoder + 2 {
        HandlerSlot::App
    } else if i < idx_tail {
        HandlerSlot::Last((i - idx_last_start) as usize)
    } else {
        HandlerSlot::Tail
    }
}

/// Number of handlers in a pipeline with these extras.
pub fn handler_len(first_len: usize, last_len: usize) -> (n: usize)
    requires
        first_len + last_len + 5 <= usize::MAX,
    ensures
        n == handler_len_spec(first_len as int, last_len as int),
{
    first_len + last_len + 5
}

/// The handler an event starting at `start` is delivered to.
pub fn handler_slot(start: usize, first_len: usize, last_len: usize) -> (s: HandlerSlot)
    requires
        first_len + last_len + 5 <= usize::MAX,
    ensures
        s == slot_spec(start as int, first_len as int, last_len as int),
{
    let idx_encoder = 1 + first_len;
    let idx_frame = idx_encoder + 1;
    let idx_app = idx_frame + 1;
    let idx_last_start = idx_app + 1;
    let idx_tail = idx_last_start + last_len;
    if start == 0 {
        HandlerSlot::Head
    } else if start >= 1 && start <= first_len {
        HandlerSlot::First(start - 1)
    } else if start == idx_encoder {
        HandlerSlot::Encoder
    } else if start == idx_frame {
        HandlerSlot::Frame
    } else if start == idx_app {
        HandlerSlot::App
    } else if start < idx_tail {
        HandlerSlot::Last(start - idx_last_start)
    } else {
        HandlerSlot::Tail
    }
}

/// The next handler towards the tail, if any.
pub fn next_inbound(index: usize, len: usize) -> (r: Option<usize>)
    requires
        index < usize::MAX,
    ensures
        r == (if index + 1 >= len { None } else { Some((index + 1) as usize) }),
{
    let next = index + 1;
    if next >= len { None } else { Some(next) }
}

/// The next handler towards the head, if any.
pub fn prev_outbound(index: usize) -> (r: Option<usize>)
    ensures
        r == (if index == 0 { None } else { Some((index - 1) as usize) }),
{
    index.checked_sub(1)
}

/// Every index below the handler count names exactly one handler, and the
/// built-in handlers sit in their fixed order.
pub proof fn lemma_layout(first_len: int, last_len: int)
    requires
        first_len >= 0,
        last_len >= 0,
    ensures
        slot_spec(0, first_len, last_len) == HandlerSlot::Head,
        slot_spec(first_len + 1, first_len, last_len) == HandlerSlot::Encoder,
        slot_spec(first_len + 2, first_len, last_len) == HandlerSlot::Frame,
        slot_spec(first_len + 3, first_len, last_len) == HandlerSlot::App,
        slot_spec(handler_len_spec(first_len, last_len) - 1, first_len, last_len) == HandlerSlot::Tail,
        forall|k: int| 0 <= k < first_len ==> #[trigger] slot_spec(k + 1, first_len, last_len) == HandlerSlot::First(k as usize),
        forall|k: int| 0 <= k < last_len ==> #[trigger] slot_spec(first_len + 4 + k, first_len, last_len) == HandlerSlot::Last(k as usize),
{
}

} // verus!
