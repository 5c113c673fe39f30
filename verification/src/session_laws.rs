//! What holds of every session, whatever the client sends.

use crate::rfb::{
    ascii_text, decode, first_high, line_end, Decoded, FrameView, Stage, UpdateRequest,
};
use crate::session::{
    bounded, clamp_spec, greeting_bytes, step_spec, version_text, ActionView, EventView, Phase,
    SessionState, phase_rank,
};
use vstd::prelude::*;

verus! {

/// A clamped request has its corner inside the framebuffer and is no wider
/// and no higher than it.
pub proof fn lemma_clamp_is_bounded(request: UpdateRequest, width: usize, height: usize)
    requires
        width > 0,
        height > 0,
    ensures
        clamp_spec(request, width, height).xpos < width,
        clamp_spec(request, width, height).ypos < height,
        clamp_spec(request, width, height).width <= width,
        clamp_spec(request, width, height).height <= height,
        clamp_spec(request, width, height).incremental == request.incremental,
{
}

/// Clamping a request that is already within bounds changes nothing, so
/// clamping twice is clamping once.
pub proof fn lemma_clamp_is_idempotent(request: UpdateRequest, width: usize, height: usize)
    requires
        width > 0,
        height > 0,
    ensures
        bounded(request, width, height) ==> clamp_spec(request, width, height) == request,
        clamp_spec(clamp_spec(request, width, height), width, height) == clamp_spec(
            request,
            width,
            height,
        ),
{
}

/// Every step keeps a session well formed: the request that waits, if any,
/// is clamped, and none waits outside the serving phase.
pub proof fn lemma_step_keeps_wf(s: SessionState, event: EventView)
    requires
        s.wf(),
    ensures
        step_spec(s, event).0.wf(),
        step_spec(s, event).0.width == s.width,
        step_spec(s, event).0.height == s.height,
{
}

/// The phases follow one another in order: a step stays in its phase, goes
/// to the next one, or closes the session. No phase is entered again.
pub proof fn lemma_phases_only_advance(s: SessionState, event: EventView)
    ensures
        ({
            let next = step_spec(s, event).0.phase;
            ||| next == s.phase
            ||| phase_rank(next) == phase_rank(s.phase) + 1
            ||| next == Phase::Closed
        }),
        phase_rank(step_spec(s, event).0.phase) >= phase_rank(s.phase),
{
}

/// A closed session stays closed and asks for nothing.
pub proof fn lemma_closed_is_final(s: SessionState, event: EventView)
    requires
        s.phase == Phase::Closed,
    ensures
        step_spec(s, event) == (s, ActionView::Nothing),
{
}

/// A session sends bytes only in answer to a frame, and asks for a redraw
/// only when the timer fires.
pub proof fn lemma_actions_answer_events(s: SessionState, event: EventView)
    ensures
        step_spec(s, event).1 is Send ==> event is Frame,
        step_spec(s, event).1 is Redraw ==> event is Tick && s.pending is Some,
        step_spec(s, event).1 is SetColourMode ==> event is Frame && s.phase == Phase::Message,
{
}

/// Of two update requests that arrive before the timer fires, the later
/// one wins: the timer then releases that one, clamped, and nothing waits
/// any more.
pub proof fn lemma_latest_request_wins(s: SessionState, first: UpdateRequest, second: UpdateRequest)
    requires
        s.phase == Phase::Message,
    ensures
        ({
            let s1 = step_spec(s, EventView::Frame(FrameView::FramebufferUpdateRequest(first))).0;
            let s2 = step_spec(s1, EventView::Frame(FrameView::FramebufferUpdateRequest(second))).0;
            let (s3, action) = step_spec(s2, EventView::Tick);
            &&& action == ActionView::Redraw(clamp_spec(second, s.width, s.height))
            &&& s3.pending is None
            &&& step_spec(s3, EventView::Tick).1 == ActionView::Nothing
        }),
{
}

/// The server's own greeting is a version line that the parser accepts,
/// and the version it names is the one the session expects.
pub proof fn lemma_greeting_is_accepted()
    ensures
        decode(Stage::Version, greeting_bytes()) == (Decoded::Complete {
            frame: FrameView::ProtocolVersion(version_text()),
            used: 12,
            next: Stage::SecuritySelection,
        }),
{
    reveal_with_fuel(line_end, 13);
    reveal_with_fuel(first_high, 13);
    reveal_strlit("RFB 003.008");
    assert(ascii_text(greeting_bytes(), 11) =~= version_text());
}

} // verus!
