use vstd::prelude::*;
use vstd::string::*;
use crate::buffer::{after_pushes, pushed_batches, run_unready, strings_view, lemma_ready_drain_delivers_all, MutationBatch, MutationBuffer};
use crate::ready::ReadyFlag;

verus! {

/// The window identifiers of a registry, in registration order.
pub open spec fn keys_of<H>(s: Seq<(u64, H)>) -> Seq<u64> {
    s.map_values(|e: (u64, H)| e.0)
}

/// The registry after registering `h` under `id`: an existing entry for `id`
/// is overwritten in place, otherwise the entry goes last.
pub open spec fn registered<H>(s: Seq<(u64, H)>, id: u64, h: H) -> Seq<(u64, H)> {
    if keys_of(s).contains(id) {
        s.map_values(|e: (u64, H)| if e.0 == id { (id, h) } else { e })
    } else {
        s.push((id, h))
    }
}

/// The registry after closing window `id`: every other entry, in order.
pub open spec fn closed<H>(s: Seq<(u64, H)>, id: u64) -> Seq<(u64, H)> {
    s.filter(other_than(id))
}

/// Holds of the registry entries of every window but `id`.
pub open spec fn other_than<H>(id: u64) -> spec_fn((u64, H)) -> bool {
    |e: (u64, H)| e.0 != id
}

/// Whether closing window `id` asks the host event loop to exit.
pub open spec fn close_exits<H>(s: Seq<(u64, H)>, id: u64, quit_on_close: bool) -> bool {
    closed(s, id).len() == 0 && quit_on_close
}

/// The instruction that hands one serialized payload to the display surface.
pub open spec fn script_for(payload: Seq<char>) -> Seq<char> {
    "window.interpreter.handleEdits("@ + payload + ")"@
}

/// What a delivery attempt does when the display surface is `ready` or not,
/// on a registry `s`, taking the buffer from `before` to `after`.
pub open spec fn delivers<H>(
    s: Seq<(u64, H)>,
    ready: bool,
    before: Seq<Seq<char>>,
    after: Seq<Seq<char>>,
    r: Option<Delivery>,
) -> bool {
    &&& (ready && s.len() > 0) <==> r.is_some()
    &&& r.is_none() ==> after == before
    &&& r matches Some(d) ==> {
        &&& d.window == s[0].0
        &&& d.scripts@.len() == before.len()
        &&& strings_view(d.scripts@) == before.map_values(|p: Seq<char>| script_for(p))
        &&& after == Seq::<Seq<char>>::empty()
    }
}

/// What taking the buffered payloads does when the display surface is
/// `ready` or not, on a registry `s`, taking the buffer from `before` to
/// `after`.
pub open spec fn takes<H>(
    s: Seq<(u64, H)>,
    ready: bool,
    before: Seq<Seq<char>>,
    after: Seq<Seq<char>>,
    r: Option<Drained>,
) -> bool {
    &&& (ready && s.len() > 0) <==> r.is_some()
    &&& r.is_none() ==> after == before
    &&& r matches Some(d) ==> {
        &&& d.window == s[0].0
        &&& strings_view(d.payloads@) == before
        &&& after == Seq::<Seq<char>>::empty()
    }
}

/// Payloads taken out of the buffer for the display surface of one window.
pub struct Drained {
    pub window: u64,
    pub payloads: Vec<String>,
}

/// Turns taken payloads into one instruction each, in the same order, for
/// the same window.
pub fn into_delivery(d: Drained) -> (r: Delivery)
    ensures
        r.window == d.window,
        r.scripts@.len() == d.payloads@.len(),
        strings_view(r.scripts@) == strings_view(d.payloads@).map_values(
            |p: Seq<char>| script_for(p),
        ),
{
    let Drained { window, payloads } = d;
    let mut scripts: Vec<String> = Vec::new();
    let mut i: usize = 0;
    while i < payloads.len()
        invariant
            i <= payloads@.len(),
            scripts@.len() == i,
            forall|j: int| 0 <= j < i ==> #[trigger] scripts@[j]@ == script_for(payloads@[j]@),
        decreases payloads@.len() - i,
    {
        let script = handle_edits_script(payloads[i].as_str());
        scripts.push(script);
        i = i + 1;
    }
    assert(strings_view(scripts@) =~= strings_view(payloads@).map_values(
        |p: Seq<char>| script_for(p),
    ));
    Delivery { window, scripts }
}

/// Instructions bound for the display surface of one window.
pub struct Delivery {
    pub window: u64,
    pub scripts: Vec<String>,
}

/// The main thread's registry of open windows, with its close policy and
/// the readiness flag that gates delivery.
pub struct DesktopController<H> {
    webviews: Vec<(u64, H)>,
    quit_app_on_close: bool,
    is_ready: ReadyFlag,
}

proof fn lemma_filter_keeps_all<A>(s: Seq<A>, pred: spec_fn(A) -> bool)
    requires
        forall|i: int| 0 <= i < s.len() ==> pred(s[i]),
    ensures
        s.filter(pred) == s,
    decreases s.len(),
{
    reveal(Seq::filter);
    if s.len() > 0 {
        lemma_filter_keeps_all(s.drop_last(), pred);
        assert(s.drop_last().push(s.last()) =~= s);
    }
}

proof fn lemma_closed_absent<H>(s: Seq<(u64, H)>, id: u64)
    requires
        !keys_of(s).contains(id),
    ensures
        closed(s, id) == s,
{
    assert forall|j: int| 0 <= j < s.len() implies other_than(id)(s[j]) by {
        assert(keys_of(s)[j] != id);
    }
    lemma_filter_keeps_all(s, other_than(id));
}

proof fn lemma_closed_at<H>(s: Seq<(u64, H)>, id: u64, i: int)
    requires
        keys_of(s).no_duplicates(),
        0 <= i < s.len(),
        s[i].0 == id,
    ensures
        closed(s, id) == s.remove(i),
{
    let pred = other_than::<H>(id);
    let a = s.subrange(0, i);
    let b = s.subrange(i + 1, s.len() as int);
    let x = seq![s[i]];
    assert(keys_of(s).len() == s.len());
    assert(s =~= a + x + b);
    assert forall|j: int| 0 <= j < a.len() implies pred(a[j]) by {
        assert(keys_of(s)[j] != keys_of(s)[i]);
    }
    assert forall|j: int| 0 <= j < b.len() implies pred(b[j]) by {
        assert(keys_of(s)[j + i + 1] != keys_of(s)[i]);
    }
    lemma_filter_keeps_all(a, pred);
    lemma_filter_keeps_all(b, pred);
    assert(x.filter(pred) =~= Seq::<(u64, H)>::empty()) by {
        reveal_with_fuel(Seq::filter, 2);
        assert(x.drop_last() =~= Seq::<(u64, H)>::empty());
        assert(!pred(x.last()));
    }
    Seq::filter_distributes_over_add(a + x, b, pred);
    Seq::filter_distributes_over_add(a, x, pred);
    assert(a + Seq::<(u64, H)>::empty() + b =~= s.remove(i));
}

/// Builds the delivery instruction for one payload.
pub fn handle_edits_script(payload: &str) -> (r: String)
    ensures
        r@ == script_for(payload@),
{
    let mut r = String::from_str("window.interpreter.handleEdits(");
    r.append(payload);
    r.append(")");
    r
}

impl<H> DesktopController<H> {
    /// The registered windows, in registration order.
    pub closed spec fn entries(&self) -> Seq<(u64, H)> {
        self.webviews@
    }

    pub closed spec fn quits_on_close(&self) -> bool {
        self.quit_app_on_close
    }

    /// No window identifier is registered twice.
    pub open spec fn wf(&self) -> bool {
        keys_of(self.entries()).no_duplicates()
    }

    /// A controller with no window registered.
    pub fn new(quit_app_on_close: bool) -> (r: Self)
        ensures
            r.wf(),
            r.entries() == Seq::<(u64, H)>::empty(),
            r.quits_on_close() == quit_app_on_close,
    {
        let r = DesktopController { webviews: Vec::new(), quit_app_on_close, is_ready: ReadyFlag::new() };
        assert(keys_of(r.entries()) =~= Seq::<u64>::empty());
        r
    }

    pub fn quit_app_on_close(&self) -> (r: bool)
        ensures
            r == self.quits_on_close(),
    {
        self.quit_app_on_close
    }

    /// A handle on the controller's readiness flag, for the display surface
    /// to set once it can run scripts.
    pub fn readiness(&self) -> ReadyFlag {
        self.is_ready.share()
    }

    /// Number of registered windows.
    pub fn window_count(&self) -> (r: usize)
        ensures
            r == self.entries().len(),
    {
        self.webviews.len()
    }

    /// Position of `id` in the registry, if it is registered.
    fn position(&self, id: u64) -> (r: Option<usize>)
        requires
            self.wf(),
        ensures
            r.is_none() ==> !keys_of(self.entries()).contains(id),
            r matches Some(i) ==> i < self.entries().len() && self.entries()[i as int].0 == id,
    {
        let mut i: usize = 0;
        while i < self.webviews.len()
            invariant
                i <= self.webviews@.len(),
                forall|j: int| 0 <= j < i ==> self.webviews@[j].0 != id,
            decreases self.webviews@.len() - i,
        {
            if self.webviews[i].0 == id {
                return Some(i);
            }
            i = i + 1;
        }
        assert forall|j: int| 0 <= j < keys_of(self.entries()).len() implies keys_of(
            self.entries(),
        )[j] != id by {}
        None
    }

    /// The display-surface handle registered under `id`.
    pub fn handle(&self, id: u64) -> (r: Option<&H>)
        requires
            self.wf(),
        ensures
            r.is_none() == !keys_of(self.entries()).contains(id),
            r matches Some(h) ==> exists|i: int|
                0 <= i < self.entries().len() && self.entries()[i] == (id, *h),
    {
        match self.position(id) {
            Some(i) => {
                assert(keys_of(self.entries())[i as int] == id);
                Some(&self.webviews[i].1)
            },
            None => None,
        }
    }
    /// Registers the display-surface handle of a window; a handle already
    /// registered under `id` is replaced.
    pub fn register_window(&mut self, id: u64, handle: H)
        requires
            old(self).wf(),
        ensures
            final(self).wf(),
            final(self).entries() == registered(old(self).entries(), id, handle),
            final(self).quits_on_close() == old(self).quits_on_close(),
            final(self).entries().len() == old(self).entries().len() + if keys_of(
                old(self).entries(),
            ).contains(id) {
                0int
            } else {
                1int
            },
    {
        let ghost s = self.webviews@;
        match self.position(id) {
            Some(i) => {
                assert(keys_of(s)[i as int] == id);
                self.webviews.set(i, (id, handle));
                let ghost t = registered(s, id, handle);
                assert forall|j: int| 0 <= j < s.len() implies #[trigger] t[j] == self.webviews@[j] by {
                    if j != i {
                        assert(keys_of(s)[j] != keys_of(s)[i as int]);
                    }
                }
                assert(self.webviews@ =~= t);
                assert(keys_of(self.entries()) =~= keys_of(s));
            },
            None => {
                self.webviews.push((id, handle));
                assert(self.webviews@ =~= registered(s, id, handle));
                assert(keys_of(self.entries()) =~= keys_of(s).push(id));
            },
        }
    }

    /// Removes the window `id` from the registry. Returns whether the host
    /// event loop is to exit: exactly when no window is left and the
    /// controller quits on close.
    pub fn close_window(&mut self, id: u64) -> (exit: bool)
        requires
            old(self).wf(),
        ensures
            final(self).wf(),
            final(self).entries() == closed(old(self).entries(), id),
            final(self).quits_on_close() == old(self).quits_on_close(),
            exit == close_exits(old(self).entries(), id, old(self).quits_on_close()),
            exit == (final(self).entries().len() == 0 && old(self).quits_on_close()),
            keys_of(old(self).entries()).contains(id) ==> final(self).entries().len()
                == old(self).entries().len() - 1,
            !keys_of(old(self).entries()).contains(id) ==> final(self).entries()
                == old(self).entries(),
    {
        let ghost s = self.webviews@;
        match self.position(id) {
            Some(i) => {
                assert(keys_of(s)[i as int] == id);
                self.webviews.remove(i);
                proof {
                    lemma_closed_at(s, id, i as int);
                }
                assert(keys_of(self.entries()) =~= keys_of(s).remove(i as int));
            },
            None => {
                proof {
                    lemma_closed_absent(s, id);
                }
            },
        }
        self.webviews.len() == 0 && self.quit_app_on_close
    }

    /// Reads the readiness flag and takes the buffered payloads as
    /// `take_if_ready` does. Only the swap happens here, so a caller that
    /// holds the buffer's lock holds it for that alone.
    pub fn try_load_ready_webviews(&self, queue: &mut MutationBuffer) -> (r: Option<Drained>)
        ensures
            exists|ready: bool| takes(self.entries(), ready, old(queue)@, final(queue)@, r),
    {
        let ready = self.is_ready.is_ready();
        self.take_if_ready(ready, queue)
    }

    /// When the display surface is `ready` and a window is registered, takes
    /// every buffered payload, in production order, for the first registered
    /// window, and leaves the buffer empty. Otherwise nothing is taken and
    /// `None` comes back.
    pub fn take_if_ready(&self, ready: bool, queue: &mut MutationBuffer) -> (r: Option<Drained>)
        ensures
            takes(self.entries(), ready, old(queue)@, final(queue)@, r),
    {
        if !ready || self.webviews.len() == 0 {
            return None;
        }
        let payloads = queue.drain();
        Some(Drained { window: self.webviews[0].0, payloads })
    }

    /// Takes the buffered payloads as `take_if_ready` does and turns them
    /// into instructions for the display surface.
    pub fn deliver_if_ready(&self, ready: bool, queue: &mut MutationBuffer) -> (r: Option<
        Delivery,
    >)
        ensures
            delivers(self.entries(), ready, old(queue)@, final(queue)@, r),
    {
        match self.take_if_ready(ready, queue) {
            Some(d) => Some(into_delivery(d)),
            None => None,
        }
    }
}

/// Closing the only registered window of a controller that quits on close
/// asks the event loop to exit, and that call is the one request; closing a
/// window while another window stays registered asks for nothing, and a
/// controller that does not quit on close never asks.
pub proof fn lemma_close_policy<H>(s: Seq<(u64, H)>, id: u64, quit_on_close: bool)
    ensures
        (keys_of(s) == seq![id] && quit_on_close) ==> close_exits(s, id, quit_on_close),
        (exists|j: int| 0 <= j < s.len() && s[j].0 != id) ==> !close_exits(s, id, quit_on_close),
        !quit_on_close ==> !close_exits(s, id, quit_on_close),
{
    if keys_of(s) == seq![id] {
        assert(keys_of(s).len() == 1);
        assert(s[0].0 == keys_of(s)[0]);
        assert(s.drop_last() =~= Seq::<(u64, H)>::empty());
        reveal_with_fuel(Seq::filter, 2);
    }
    if exists|j: int| 0 <= j < s.len() && s[j].0 != id {
        let j = choose|j: int| 0 <= j < s.len() && s[j].0 != id;
        s.lemma_filter_contains(other_than(id), j);
    }
}

/// The registry after closing the windows `ids`, in turn.
pub open spec fn after_closes<H>(s: Seq<(u64, H)>, ids: Seq<u64>) -> Seq<(u64, H)>
    decreases ids.len(),
{
    if ids.len() == 0 {
        s
    } else {
        closed(after_closes(s, ids.drop_last()), ids.last())
    }
}

/// Holds of the registry entries of windows not among `ids`.
pub open spec fn none_of<H>(ids: Seq<u64>) -> spec_fn((u64, H)) -> bool {
    |e: (u64, H)| !ids.contains(e.0)
}

proof fn lemma_filter_twice<A>(
    s: Seq<A>,
    p: spec_fn(A) -> bool,
    q: spec_fn(A) -> bool,
    both: spec_fn(A) -> bool,
)
    requires
        forall|x: A| #[trigger] both(x) == (p(x) && q(x)),
    ensures
        s.filter(p).filter(q) == s.filter(both),
    decreases s.len(),
{
    reveal(Seq::filter);
    if s.len() > 0 {
        lemma_filter_twice(s.drop_last(), p, q, both);
        let t = s.drop_last().filter(p);
        assert(t.push(s.last()).drop_last() =~= t);
    }
}

proof fn lemma_filter_none<A>(s: Seq<A>, pred: spec_fn(A) -> bool)
    requires
        forall|i: int| 0 <= i < s.len() ==> !pred(s[i]),
    ensures
        s.filter(pred).len() == 0,
    decreases s.len(),
{
    reveal(Seq::filter);
    if s.len() > 0 {
        lemma_filter_none(s.drop_last(), pred);
    }
}

proof fn lemma_after_closes<H>(s: Seq<(u64, H)>, ids: Seq<u64>)
    ensures
        after_closes(s, ids) == s.filter(none_of(ids)),
    decreases ids.len(),
{
    if ids.len() == 0 {
        assert forall|j: int| 0 <= j < s.len() implies none_of::<H>(ids)(s[j]) by {}
        lemma_filter_keeps_all(s, none_of(ids));
    } else {
        let init = ids.drop_last();
        lemma_after_closes(s, init);
        assert forall|e: (u64, H)| #[trigger] none_of(ids)(e) == (none_of(init)(e) && other_than(
            ids.last(),
        )(e)) by {
            assert(ids =~= init.push(ids.last()));
            if init.contains(e.0) {
                let j = choose|j: int| 0 <= j < init.len() && init[j] == e.0;
                assert(ids[j] == e.0);
            }
            if ids.contains(e.0) {
                let j = choose|j: int| 0 <= j < ids.len() && ids[j] == e.0;
                if j < init.len() {
                    assert(init[j] == e.0);
                }
            }
        }
        lemma_filter_twice(s, none_of(init), other_than(ids.last()), none_of(ids));
    }
}

/// Closing every registered window in turn, in any order, with the
/// quit-on-close policy on: the close of the last one asks the event loop
/// to exit, and no earlier close asks, so exactly one request is made.
pub proof fn lemma_closing_every_window<H>(s: Seq<(u64, H)>, ids: Seq<u64>, k: int)
    requires
        ids.no_duplicates(),
        forall|i: int| 0 <= i < ids.len() ==> keys_of(s).contains(#[trigger] ids[i]),
        forall|j: int| 0 <= j < s.len() ==> ids.contains(#[trigger] s[j].0),
        0 <= k < ids.len(),
    ensures
        after_closes(s, ids.take(k + 1)) == closed(after_closes(s, ids.take(k)), ids[k]),
        close_exits(after_closes(s, ids.take(k)), ids[k], true) <==> k == ids.len() - 1,
{
    let done = ids.take(k + 1);
    assert(done.drop_last() =~= ids.take(k));
    lemma_after_closes(s, done);
    if k == ids.len() - 1 {
        assert(done =~= ids);
        lemma_filter_none(s, none_of(done));
    } else {
        let last = ids[ids.len() - 1];
        assert(keys_of(s).contains(last));
        let j = choose|j: int| 0 <= j < keys_of(s).len() && keys_of(s)[j] == last;
        assert(s[j].0 == last);
        assert(!done.contains(last));
        s.lemma_filter_contains(none_of(done), j);
    }
}

/// Not-ready delivery attempts change nothing; once the display surface is
/// ready, with a window registered, the next attempt delivers an instruction
/// for every payload appended since the buffer was last emptied, in append
/// order, and empties the buffer.
pub proof fn lemma_ready_delivery_delivers_all<H>(
    s: Seq<(u64, H)>,
    steps: Seq<Option<MutationBatch>>,
    after: Seq<Seq<char>>,
    r: Option<Delivery>,
)
    requires
        s.len() > 0,
        delivers(s, true, run_unready(Seq::empty(), steps), after, r),
    ensures
        forall|b: Seq<Seq<char>>, a: Seq<Seq<char>>, d: Option<Delivery>| #[trigger]
            delivers(s, false, b, a, d) ==> d.is_none() && a == b,
        r matches Some(d) && strings_view(d.scripts@) == after_pushes(
            Seq::empty(),
            pushed_batches(steps),
        ).map_values(|p: Seq<char>| script_for(p)),
        after.len() == 0,
{
    lemma_ready_drain_delivers_all(steps);
}

} // verus!
