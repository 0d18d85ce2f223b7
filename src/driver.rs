use vstd::prelude::*;
use crate::buffer::{MutationBatch, MutationBuffer};
use crate::codec::{decode_checked, decodes, DecodedEvent, EventEnvelope};

verus! {

/// Longest a render pass may hold mutations back, in milliseconds (one
/// frame at about 60 Hz).
pub const FRAME_BUDGET_MS: u64 = 16;

/// Why the render worker woke: the model has pending work, or an input
/// event arrived, together with whether its payload decoded into the data
/// type of its event kind. Whichever comes first wins.
pub enum Wake {
    Work,
    Event(EventEnvelope, bool),
}

/// What the worker does in one iteration: dispatch the decoded event, if
/// any, to the model, then render within `deadline_ms`, serialize the
/// templates and the edits, append both to the buffer, and notify.
pub struct Iteration {
    pub dispatch: Option<DecodedEvent>,
    pub deadline_ms: u64,
}

/// Decides one iteration of the render loop from what woke the worker. An
/// event that does not decode is dropped; the render pass happens anyway.
pub fn plan_iteration(wake: Wake) -> (r: Iteration)
    ensures
        r.deadline_ms == FRAME_BUDGET_MS,
        match wake {
            Wake::Work => r.dispatch.is_none(),
            Wake::Event(env, payload_ok) => decodes(env, payload_ok, r.dispatch),
        },
{
    let dispatch = match wake {
        Wake::Work => None,
        Wake::Event(env, payload_ok) => decode_checked(env, payload_ok),
    };
    Iteration { dispatch, deadline_ms: FRAME_BUDGET_MS }
}

#[verifier::external_type_specification]
#[verifier::external_body]
pub struct ExMutations<'a>(dioxus_core::Mutations<'a>);

#[verifier::external_type_specification]
#[verifier::external_body]
pub struct ExJsonError(serde_json::Error);

/// The JSON text of one render pass's template definitions and of its
/// edits, or `None` when either cannot be serialized; it depends on the
/// mutations alone.
pub uninterp spec fn json_of_mutations(m: &dioxus_core::Mutations) -> Option<(Seq<char>, Seq<char>)>;

/// How many edits a render pass holds.
pub uninterp spec fn edit_count_of(m: &dioxus_core::Mutations) -> nat;

/// Whether edit `i` of a render pass sets an attribute to an arbitrary
/// (`Any`) value, which has no JSON form.
pub uninterp spec fn sets_any_value_at(m: &dioxus_core::Mutations, i: int) -> bool;

/// Whether some edit of a render pass sets an attribute to an `Any` value.
pub open spec fn has_any_value(m: &dioxus_core::Mutations) -> bool {
    exists|i: int| 0 <= i < edit_count_of(m) && sets_any_value_at(m, i)
}

/// Relies on dioxus_core::Mutations::edits and Vec::len: the number of edits.
#[verifier::external_body]
fn edit_count(m: &dioxus_core::Mutations) -> (r: usize)
    ensures
        r == edit_count_of(m),
{
    m.edits.len()
}

/// Relies on dioxus_core::Mutation::SetAttribute and
/// dioxus_core::BorrowedAttributeValue::Any: whether edit `i` sets an
/// attribute to an `Any` value.
#[verifier::external_body]
fn edit_sets_any_value(m: &dioxus_core::Mutations, i: usize) -> (r: bool)
    requires
        i < edit_count_of(m),
    ensures
        r == sets_any_value_at(m, i as int),
{
    matches!(
        &m.edits[i],
        dioxus_core::Mutation::SetAttribute {
            value: dioxus_core::BorrowedAttributeValue::Any(_),
            ..
        }
    )
}

/// Whether some edit of a render pass sets an attribute to an `Any` value.
pub fn find_any_value(m: &dioxus_core::Mutations) -> (r: bool)
    ensures
        r == has_any_value(m),
{
    let n = edit_count(m);
    let mut i: usize = 0;
    while i < n
        invariant
            n == edit_count_of(m),
            i <= n,
            forall|j: int| 0 <= j < i ==> !sets_any_value_at(m, j),
        decreases n - i,
    {
        if edit_sets_any_value(m, i) {
            return true;
        }
        i = i + 1;
    }
    false
}

/// Relies on serde_json::to_string: serializes the template definitions and
/// then the edits of one render pass, each on its own, or fails. The
/// serializer of an `Any` attribute value panics, so such passes are left
/// out.
#[verifier::external_body]
fn mutations_to_json(m: &dioxus_core::Mutations) -> (r: Result<(String, String), serde_json::Error>)
    requires
        !has_any_value(m),
    ensures
        r matches Ok((t, e)) ==> json_of_mutations(m) == Some((t@, e@)),
        r.is_err() ==> json_of_mutations(m).is_none(),
{
    let templates = serde_json::to_string(&m.templates)?;
    let edits = serde_json::to_string(&m.edits)?;
    Ok((templates, edits))
}

/// A render pass whose output could not be serialized: the model broke an
/// invariant, and the worker cannot go on.
#[derive(PartialEq, Eq, Structural, Clone, Copy, Debug)]
pub enum RenderError {
    /// An edit sets an attribute to an arbitrary value, which has no JSON form.
    AnyValue,
    /// The serializer failed.
    Serialize,
}

/// Serializes one render pass's output and appends it to the buffer as one
/// batch, templates first. A pass that sets an attribute to an `Any` value
/// is refused before serializing. On failure the buffer is left as it was.
pub fn record_render(queue: &mut MutationBuffer, muts: &dioxus_core::Mutations) -> (r: Result<
    (),
    RenderError,
>)
    ensures
        has_any_value(muts) ==> r == Err::<(), RenderError>(RenderError::AnyValue),
        !has_any_value(muts) ==> r.is_ok() == json_of_mutations(muts).is_some(),
        !has_any_value(muts) && r.is_err() ==> r == Err::<(), RenderError>(RenderError::Serialize),
        r.is_err() ==> final(queue)@ == old(queue)@,
        r.is_ok() ==> final(queue)@ == old(queue)@ + seq![
            json_of_mutations(muts).unwrap().0,
            json_of_mutations(muts).unwrap().1,
        ],
{
    if find_any_value(muts) {
        return Err(RenderError::AnyValue);
    }
    match mutations_to_json(muts) {
        Ok((templates, edits)) => {
            let batch = MutationBatch { templates, edits };
            queue.push_batch(batch);
            assert(batch.payloads() =~= seq![
                json_of_mutations(muts).unwrap().0,
                json_of_mutations(muts).unwrap().1,
            ]);
            Ok(())
        },
        Err(_) => Err(RenderError::Serialize),
    }
}

} // verus!
