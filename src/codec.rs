use vstd::prelude::*;
use vstd::string::*;

verus! {

#[verifier::external_type_specification]
#[verifier::external_body]
pub struct ExJsonValue(serde_json::Value);

/// The family of domain event that an event-kind name decodes to.
#[derive(PartialEq, Eq, Structural, Clone, Copy, Debug)]
pub enum EventClass {
    Mouse,
    Clipboard,
    Composition,
    Keyboard,
    Focus,
    Form,
    Drag,
    Selection,
    Touch,
    Scroll,
    Wheel,
    Media,
    Animation,
    Transition,
    Toggle,
    Pointer,
}

/// The class of each recognised event-kind name; `None` for any other name.
pub open spec fn class_of(n: Seq<char>) -> Option<EventClass> {
    if n == "click"@ || n == "contextmenu"@ || n == "dblclick"@ || n == "doubleclick"@
        || n == "mousedown"@ || n == "mouseenter"@ || n == "mouseleave"@ || n == "mousemove"@
        || n == "mouseout"@ || n == "mouseover"@ || n == "mouseup"@ {
        Some(EventClass::Mouse)
    } else if n == "copy"@ || n == "cut"@ || n == "paste"@ {
        Some(EventClass::Clipboard)
    } else if n == "compositionend"@ || n == "compositionstart"@ || n == "compositionupdate"@ {
        Some(EventClass::Composition)
    } else if n == "keydown"@ || n == "keypress"@ || n == "keyup"@ {
        Some(EventClass::Keyboard)
    } else if n == "blur"@ || n == "focus"@ || n == "focusin"@ || n == "focusout"@ {
        Some(EventClass::Focus)
    } else if n == "change"@ || n == "input"@ || n == "invalid"@ || n == "reset"@
        || n == "submit"@ {
        Some(EventClass::Form)
    } else if n == "drag"@ || n == "dragend"@ || n == "dragenter"@ || n == "dragexit"@
        || n == "dragleave"@ || n == "dragover"@ || n == "dragstart"@ || n == "drop"@ {
        Some(EventClass::Drag)
    } else if n == "pointerlockchange"@ || n == "pointerlockerror"@ || n == "pointerdown"@
        || n == "pointermove"@ || n == "pointerup"@ || n == "pointerover"@
        || n == "pointerout"@ || n == "pointerenter"@ || n == "pointerleave"@
        || n == "gotpointercapture"@ || n == "lostpointercapture"@ {
        Some(EventClass::Pointer)
    } else if n == "selectstart"@ || n == "selectionchange"@ || n == "select"@ {
        Some(EventClass::Selection)
    } else if n == "touchcancel"@ || n == "touchend"@ || n == "touchmove"@
        || n == "touchstart"@ {
        Some(EventClass::Touch)
    } else if n == "scroll"@ {
        Some(EventClass::Scroll)
    } else if n == "wheel"@ {
        Some(EventClass::Wheel)
    } else if n == "abort"@ || n == "canplay"@ || n == "canplaythrough"@
        || n == "durationchange"@ || n == "emptied"@ || n == "encrypted"@ || n == "ended"@
        || n == "interruptbegin"@ || n == "interruptend"@ || n == "loadeddata"@
        || n == "loadedmetadata"@ || n == "loadstart"@ || n == "pause"@ || n == "play"@
        || n == "playing"@ || n == "progress"@ || n == "ratechange"@ || n == "seeked"@
        || n == "seeking"@ || n == "stalled"@ || n == "suspend"@ || n == "timeupdate"@
        || n == "volumechange"@ || n == "waiting"@ || n == "error"@ || n == "load"@
        || n == "loadend"@ || n == "timeout"@ {
        Some(EventClass::Media)
    } else if n == "animationstart"@ || n == "animationend"@ || n == "animationiteration"@ {
        Some(EventClass::Animation)
    } else if n == "transitionend"@ {
        Some(EventClass::Transition)
    } else if n == "toggle"@ {
        Some(EventClass::Toggle)
    } else {
        None
    }
}

/// Character-by-character equality of two strings.
pub fn str_eq(a: &str, b: &str) -> (r: bool)
    ensures
        r == (a@ == b@),
{
    let n = a.unicode_len();
    let m = b.unicode_len();
    if n != m {
        return false;
    }
    let mut i: usize = 0;
    while i < n
        invariant
            n == a@.len(),
            m == b@.len(),
            n == m,
            i <= n,
            forall|j: int| 0 <= j < i ==> a@[j] == b@[j],
        decreases n - i,
    {
        if a.get_char(i) != b.get_char(i) {
            return false;
        }
        i = i + 1;
    }
    assert(a@ =~= b@);
    true
}

/// Decodes an event-kind name to its class; `None` for an unrecognised name.
pub fn event_class(n: &str) -> (r: Option<EventClass>)
    ensures
        r == class_of(n@),
{
    if str_eq(n, "click") || str_eq(n, "contextmenu") || str_eq(n, "dblclick")
        || str_eq(n, "doubleclick") || str_eq(n, "mousedown") || str_eq(n, "mouseenter")
        || str_eq(n, "mouseleave") || str_eq(n, "mousemove") || str_eq(n, "mouseout")
        || str_eq(n, "mouseover") || str_eq(n, "mouseup") {
        Some(EventClass::Mouse)
    } else if str_eq(n, "copy") || str_eq(n, "cut") || str_eq(n, "paste") {
        Some(EventClass::Clipboard)
    } else if str_eq(n, "compositionend") || str_eq(n, "compositionstart")
        || str_eq(n, "compositionupdate") {
        Some(EventClass::Composition)
    } else if str_eq(n, "keydown") || str_eq(n, "keypress") || str_eq(n, "keyup") {
        Some(EventClass::Keyboard)
    } else if str_eq(n, "blur") || str_eq(n, "focus") || str_eq(n, "focusin")
        || str_eq(n, "focusout") {
        Some(EventClass::Focus)
    } else if str_eq(n, "change") || str_eq(n, "input") || str_eq(n, "invalid")
        || str_eq(n, "reset") || str_eq(n, "submit") {
        Some(EventClass::Form)
    } else if str_eq(n, "drag") || str_eq(n, "dragend") || str_eq(n, "dragenter")
        || str_eq(n, "dragexit") || str_eq(n, "dragleave") || str_eq(n, "dragover")
        || str_eq(n, "dragstart") || str_eq(n, "drop") {
        Some(EventClass::Drag)
    } else if str_eq(n, "pointerlockchange") || str_eq(n, "pointerlockerror")
        || str_eq(n, "pointerdown") || str_eq(n, "pointermove") || str_eq(n, "pointerup")
        || str_eq(n, "pointerover") || str_eq(n, "pointerout") || str_eq(n, "pointerenter")
        || str_eq(n, "pointerleave") || str_eq(n, "gotpointercapture")
        || str_eq(n, "lostpointercapture") {
        Some(EventClass::Pointer)
    } else if str_eq(n, "selectstart") || str_eq(n, "selectionchange") || str_eq(n, "select") {
        Some(EventClass::Selection)
    } else if str_eq(n, "touchcancel") || str_eq(n, "touchend") || str_eq(n, "touchmove")
        || str_eq(n, "touchstart") {
        Some(EventClass::Touch)
    } else if str_eq(n, "scroll") {
        Some(EventClass::Scroll)
    } else if str_eq(n, "wheel") {
        Some(EventClass::Wheel)
    } else if str_eq(n, "abort") || str_eq(n, "canplay") || str_eq(n, "canplaythrough")
        || str_eq(n, "durationchange") || str_eq(n, "emptied") || str_eq(n, "encrypted")
        || str_eq(n, "ended") || str_eq(n, "interruptbegin") || str_eq(n, "interruptend")
        || str_eq(n, "loadeddata") || str_eq(n, "loadedmetadata") || str_eq(n, "loadstart")
        || str_eq(n, "pause") || str_eq(n, "play") || str_eq(n, "playing")
        || str_eq(n, "progress") || str_eq(n, "ratechange") || str_eq(n, "seeked")
        || str_eq(n, "seeking") || str_eq(n, "stalled") || str_eq(n, "suspend")
        || str_eq(n, "timeupdate") || str_eq(n, "volumechange") || str_eq(n, "waiting")
        || str_eq(n, "error") || str_eq(n, "load") || str_eq(n, "loadend")
        || str_eq(n, "timeout") {
        Some(EventClass::Media)
    } else if str_eq(n, "animationstart") || str_eq(n, "animationend")
        || str_eq(n, "animationiteration") {
        Some(EventClass::Animation)
    } else if str_eq(n, "transitionend") {
        Some(EventClass::Transition)
    } else if str_eq(n, "toggle") {
        Some(EventClass::Toggle)
    } else {
        None
    }
}

/// An inbound input event as the display surface sends it: the event-kind
/// name, the identifier of the target element, and an untyped payload.
pub struct EventEnvelope {
    pub event: String,
    pub target: usize,
    pub payload: serde_json::Value,
}

/// A decoded event, ready to be dispatched to the model.
pub struct DecodedEvent {
    pub name: String,
    pub class: EventClass,
    pub target: usize,
    pub payload: serde_json::Value,
}

/// What decoding `env` gives when the payload check answered `payload_ok`.
pub open spec fn decodes(env: EventEnvelope, payload_ok: bool, r: Option<DecodedEvent>) -> bool {
    match r {
        Some(d) => {
            &&& payload_ok
            &&& class_of(env.event@) == Some(d.class)
            &&& d.name@ == env.event@
            &&& d.target == env.target
            &&& d.payload == env.payload
        },
        None => !payload_ok || class_of(env.event@).is_none(),
    }
}

/// Decodes an envelope whose payload has already been judged well formed
/// (`payload_ok`) or not: it decodes exactly when the name is recognised and
/// the payload is well formed, and keeps the target identifier unchanged.
pub fn decode_checked(env: EventEnvelope, payload_ok: bool) -> (r: Option<DecodedEvent>)
    ensures
        decodes(env, payload_ok, r),
        r.is_some() == dispatched(env, payload_ok),
{
    if !payload_ok {
        return None;
    }
    match event_class(env.event.as_str()) {
        Some(class) => {
            let EventEnvelope { event, target, payload } = env;
            Some(DecodedEvent { name: event, class, target, payload })
        },
        None => None,
    }
}

/// Whether decoding `env`, with the payload judged `payload_ok`, dispatches
/// an event to the model.
pub open spec fn dispatched(env: EventEnvelope, payload_ok: bool) -> bool {
    payload_ok && class_of(env.event@).is_some()
}

/// Holds of the inputs (an envelope and the verdict on its payload) that
/// reach the model.
pub open spec fn reaches_model() -> spec_fn((EventEnvelope, bool)) -> bool {
    |x: (EventEnvelope, bool)| dispatched(x.0, x.1)
}

/// The inputs of a stream that reach the model, in stream order; each one
/// decodes to exactly one event (see `decodes`).
pub open spec fn dispatched_inputs(inputs: Seq<(EventEnvelope, bool)>) -> Seq<(EventEnvelope, bool)> {
    inputs.filter(reaches_model())
}

/// An envelope with an unrecognised event-kind name, or with a payload that
/// is not well formed, never reaches the model. So a stream `inputs` and
/// the stream `inputs.filter(keep)` that lacks any number of such
/// envelopes, taken from anywhere, make the same dispatches in the same
/// order.
pub proof fn lemma_dropped_inputs_change_nothing(
    inputs: Seq<(EventEnvelope, bool)>,
    keep: spec_fn((EventEnvelope, bool)) -> bool,
)
    requires
        forall|i: int|
            0 <= i < inputs.len() && !keep(inputs[i]) ==> class_of(inputs[i].0.event@).is_none()
                || !inputs[i].1,
    ensures
        dispatched_inputs(inputs.filter(keep)) == dispatched_inputs(inputs),
    decreases inputs.len(),
{
    reveal(Seq::filter);
    if inputs.len() > 0 {
        let init = inputs.drop_last();
        let x = inputs.last();
        lemma_dropped_inputs_change_nothing(init, keep);
        let kept = init.filter(keep);
        if keep(x) {
            assert(kept.push(x).drop_last() =~= kept);
            assert(kept.push(x).last() == x);
        }
    }
}

/// Decoding an envelope whose event-kind name is unrecognised gives nothing,
/// whatever the verdict on its payload.
pub proof fn lemma_unknown_kind_not_dispatched(env: EventEnvelope, payload_ok: bool)
    requires
        class_of(env.event@).is_none(),
    ensures
        !dispatched(env, payload_ok),
        forall|r: Option<DecodedEvent>| #[trigger] decodes(env, payload_ok, r) ==> r.is_none(),
{
}

} // verus!
