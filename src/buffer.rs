use vstd::prelude::*;

verus! {

/// Views a vector of strings as the sequence of their characters.
pub open spec fn strings_view(v: Seq<String>) -> Seq<Seq<char>> {
    v.map_values(|s: String| s@)
}

/// What a drain attempt delivers and what it leaves behind: everything and
/// nothing when `ready`, nothing and everything otherwise.
pub open spec fn drained(buf: Seq<Seq<char>>, ready: bool) -> (Seq<Seq<char>>, Seq<Seq<char>>) {
    if ready {
        (buf, Seq::empty())
    } else {
        (Seq::empty(), buf)
    }
}

/// One render pass's output, serialized: the template (structural)
/// definitions and the incremental edits, delivered in that order.
pub struct MutationBatch {
    pub templates: String,
    pub edits: String,
}

impl MutationBatch {
    /// The two payloads of the batch, templates first.
    pub open spec fn payloads(self) -> Seq<Seq<char>> {
        seq![self.templates@, self.edits@]
    }
}

/// The ordered sequence of serialized payloads produced since the last drain.
pub struct MutationBuffer {
    pending: Vec<String>,
}

impl View for MutationBuffer {
    type V = Seq<Seq<char>>;

    closed spec fn view(&self) -> Seq<Seq<char>> {
        strings_view(self.pending@)
    }
}

impl MutationBuffer {
    /// An empty buffer.
    pub fn new() -> (r: MutationBuffer)
        ensures
            r@ == Seq::<Seq<char>>::empty(),
    {
        let r = MutationBuffer { pending: Vec::new() };
        assert(r@ =~= Seq::<Seq<char>>::empty());
        r
    }

    /// Number of payloads waiting for delivery.
    pub fn len(&self) -> (r: usize)
        ensures
            r == self@.len(),
    {
        self.pending.len()
    }

    pub fn is_empty(&self) -> (r: bool)
        ensures
            r == (self@.len() == 0),
    {
        self.pending.len() == 0
    }

    /// The payload at position `i`, oldest first.
    pub fn get(&self, i: usize) -> (r: &String)
        requires
            i < self@.len(),
        ensures
            r@ == self@[i as int],
    {
        &self.pending[i]
    }

    /// Appends one serialized payload after those already buffered.
    pub fn push(&mut self, payload: String)
        ensures
            final(self)@ == old(self)@.push(payload@),
    {
        self.pending.push(payload);
        assert(final(self)@ =~= old(self)@.push(payload@));
    }

    /// Appends a batch: its template definitions, then its edits.
    pub fn push_batch(&mut self, batch: MutationBatch)
        ensures
            final(self)@ == old(self)@ + batch.payloads(),
    {
        let MutationBatch { templates, edits } = batch;
        self.push(templates);
        self.push(edits);
        assert(final(self)@ =~= old(self)@ + batch.payloads());
    }

    /// Takes every buffered payload out at once, in production order, and
    /// leaves the buffer empty.
    pub fn drain(&mut self) -> (r: Vec<String>)
        ensures
            strings_view(r@) == old(self)@,
            final(self)@ == Seq::<Seq<char>>::empty(),
    {
        let mut taken: Vec<String> = Vec::new();
        std::mem::swap(&mut taken, &mut self.pending);
        assert(final(self)@ =~= Seq::<Seq<char>>::empty());
        taken
    }

    /// Drains the buffer when `ready` holds; otherwise takes nothing and
    /// leaves the buffer as it was.
    pub fn drain_if_ready(&mut self, ready: bool) -> (r: Vec<String>)
        ensures
            (strings_view(r@), final(self)@) == drained(old(self)@, ready),
    {
        if ready {
            self.drain()
        } else {
            let r = Vec::new();
            assert(strings_view(r@) =~= Seq::<Seq<char>>::empty());
            r
        }
    }
}

/// The buffer's contents after `batches` are appended one by one to `start`.
pub open spec fn after_pushes(start: Seq<Seq<char>>, batches: Seq<MutationBatch>) -> Seq<Seq<char>>
    decreases batches.len(),
{
    if batches.len() == 0 {
        start
    } else {
        after_pushes(start, batches.drop_last()) + batches.last().payloads()
    }
}

/// The buffer's contents after a run of `steps` from `start`, where
/// `Some(b)` appends batch `b` and `None` is a drain attempt while the
/// display surface is not ready.
pub open spec fn run_unready(start: Seq<Seq<char>>, steps: Seq<Option<MutationBatch>>) -> Seq<
    Seq<char>,
>
    decreases steps.len(),
{
    if steps.len() == 0 {
        start
    } else {
        let prev = run_unready(start, steps.drop_last());
        match steps.last() {
            Some(b) => prev + b.payloads(),
            None => drained(prev, false).1,
        }
    }
}

/// The batches that a run of steps appends, in order.
pub open spec fn pushed_batches(steps: Seq<Option<MutationBatch>>) -> Seq<MutationBatch>
    decreases steps.len(),
{
    if steps.len() == 0 {
        Seq::empty()
    } else {
        let prev = pushed_batches(steps.drop_last());
        match steps.last() {
            Some(b) => prev.push(b),
            None => prev,
        }
    }
}

/// Draining a buffer into which `batches` were appended, starting empty,
/// returns every payload in append order, each batch's templates right
/// before its edits, and leaves the buffer empty.
pub proof fn lemma_drain_in_append_order(batches: Seq<MutationBatch>)
    ensures
        ({
            let (out, left) = drained(after_pushes(Seq::empty(), batches), true);
            &&& out.len() == 2 * batches.len()
            &&& forall|i: int|
                0 <= i < batches.len() ==> out[2 * i] == #[trigger] batches[i].templates@ && out[2
                    * i + 1] == batches[i].edits@
            &&& left.len() == 0
        }),
    decreases batches.len(),
{
    if batches.len() > 0 {
        let prev = batches.drop_last();
        lemma_drain_in_append_order(prev);
        let p = after_pushes(Seq::empty(), prev);
        assert forall|i: int| 0 <= i < prev.len() implies p[2 * i] == #[trigger] batches[i].templates@
            && p[2 * i + 1] == batches[i].edits@ by {
            assert(prev[i] == batches[i]);
        }
    }
}

/// Drain attempts made while the display surface is not ready deliver
/// nothing; the first drain once it is ready delivers every batch appended
/// since the buffer was last emptied, in append order, not only the latest.
pub proof fn lemma_ready_drain_delivers_all(steps: Seq<Option<MutationBatch>>)
    ensures
        run_unready(Seq::empty(), steps) == after_pushes(Seq::empty(), pushed_batches(steps)),
        drained(run_unready(Seq::empty(), steps), true).0 == after_pushes(
            Seq::empty(),
            pushed_batches(steps),
        ),
        forall|b: Seq<Seq<char>>| #[trigger] drained(b, false).0.len() == 0,
    decreases steps.len(),
{
    if steps.len() > 0 {
        lemma_ready_drain_delivers_all(steps.drop_last());
        let prev = pushed_batches(steps.drop_last());
        if let Some(b) = steps.last() {
            assert(prev.push(b).drop_last() =~= prev);
        }
    }
}

} // verus!
