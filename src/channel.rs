use vstd::prelude::*;
use vstd::string::*;
use crate::reply::{Reply, ReplyData};
use crate::request::same_text;

verus! {

/// The write end of one live stream.
#[derive(Clone, Copy, Debug, PartialEq, Eq, Structural)]
pub struct Sender {
    pub id: u64,
}

/// One live stream: the items published to it that its reader has not yet
/// taken, and the kind it listens to, once it is subscribed.
#[derive(Clone, Debug)]
pub struct Stream {
    pub id: u64,
    pub kind: Option<String>,
    pub items: Vec<String>,
    /// Its sender is gone: nothing more will be published to it.
    pub ended: bool,
}

/// The in-process broadcast point: every live stream, and the next fresh id.
pub struct Channel {
    pub streams: Vec<Stream>,
    pub next_id: u64,
}

/// The stream listens to `kind`, and its sender is not gone.
pub open spec fn listens(s: Stream, kind: Seq<char>) -> bool {
    &&& !s.ended
    &&& s.kind matches Some(k) && k@ == kind
}

/// `after` is `before` once `v` is published under `kind`: each stream that
/// listens to `kind` has `v` once more at its end, the others are as they were.
pub open spec fn published(before: Seq<Stream>, after: Seq<Stream>, kind: Seq<char>, v: String) -> bool {
    &&& after.len() == before.len()
    &&& forall|i: int| 0 <= i < before.len() ==> {
        let o = before[i];
        let s = #[trigger] after[i];
        &&& s.id == o.id
        &&& s.kind == o.kind
        &&& s.ended == o.ended
        &&& s.items@ == if listens(o, kind) { o.items@.push(v) } else { o.items@ }
    }
}

/// Values published one after another under one kind reach every stream
/// that listens to it, each exactly once and in the order they were
/// published; a stream that listens to another kind gets none of them.
/// `states[j + 1]` is the channel's streams after the `j`-th publish.
pub proof fn publishes_keep_order(states: Seq<Seq<Stream>>, kind: Seq<char>, vs: Seq<String>)
    requires
        states.len() == vs.len() + 1,
        forall|j: int| 0 <= j < vs.len() ==> published(#[trigger] states[j], states[j + 1], kind, vs[j]),
    ensures
        states.last().len() == states[0].len(),
        forall|i: int| 0 <= i < states[0].len() && listens(states[0][i], kind) ==>
            #[trigger] states.last()[i].items@ == states[0][i].items@ + vs,
        forall|i: int| 0 <= i < states[0].len() && !listens(states[0][i], kind) ==>
            #[trigger] states.last()[i].items@ == states[0][i].items@,
        forall|i: int| 0 <= i < states[0].len() ==> #[trigger] states.last()[i].kind == states[0][i].kind
            && states.last()[i].ended == states[0][i].ended,
    decreases vs.len(),
{
    if vs.len() == 0 {
        assert forall|i: int| 0 <= i < states[0].len() && listens(states[0][i], kind) implies
            #[trigger] states.last()[i].items@ == states[0][i].items@ + vs by {
            assert(states[0][i].items@ + vs =~= states[0][i].items@);
        }
    } else {
        let m = vs.len() - 1;
        let ps = states.drop_last();
        let pv = vs.drop_last();
        assert forall|j: int| 0 <= j < pv.len() implies published(#[trigger] ps[j], ps[j + 1], kind, pv[j]) by {
            assert(published(states[j], states[j + 1], kind, vs[j]));
        }
        publishes_keep_order(ps, kind, pv);
        assert(ps.last() == states[m]);
        assert(published(states[m], states[m + 1], kind, vs[m]));
        assert forall|i: int| 0 <= i < states[0].len() && listens(states[0][i], kind) implies
            #[trigger] states.last()[i].items@ == states[0][i].items@ + vs by {
            assert(ps.last()[i].kind == states[0][i].kind && ps.last()[i].ended == states[0][i].ended);
            assert(states[0][i].items@ + vs =~= (states[0][i].items@ + pv).push(vs[m]));
        }
        assert forall|i: int| 0 <= i < states[0].len() && !listens(states[0][i], kind) implies
            #[trigger] states.last()[i].items@ == states[0][i].items@ by {
            assert(ps.last()[i].kind == states[0][i].kind && ps.last()[i].ended == states[0][i].ended);
        }
        assert forall|i: int| 0 <= i < states[0].len() implies #[trigger] states.last()[i].kind == states[0][i].kind
            && states.last()[i].ended == states[0][i].ended by {
            assert(ps.last()[i].kind == states[0][i].kind && ps.last()[i].ended == states[0][i].ended);
        }
    }
}

impl Channel {
    /// Ids are fresh and no two streams share one.
    pub open spec fn wf(&self) -> bool {
        &&& forall|i: int| 0 <= i < self.streams@.len() ==> #[trigger] self.streams@[i].id < self.next_id
        &&& forall|i: int, j: int|
            0 <= i < j < self.streams@.len() ==> self.streams@[i].id != self.streams@[j].id
    }

    /// The place of the stream with id `id`, if it is live.
    pub open spec fn place(&self, id: u64) -> Option<int> {
        if exists|i: int| 0 <= i < self.streams@.len() && self.streams@[i].id == id {
            Some(choose|i: int| 0 <= i < self.streams@.len() && self.streams@[i].id == id)
        } else {
            None
        }
    }

    pub fn new() -> (r: Channel)
        ensures
            r.wf(),
            r.next_id == 0,
            r.streams@.len() == 0,
    {
        Channel { streams: Vec::new(), next_id: 0 }
    }

    fn find(&self, id: u64) -> (r: Option<usize>)
        requires
            self.wf(),
        ensures
            r is Some <==> self.place(id) is Some,
            r is Some ==> r->Some_0 == self.place(id)->Some_0 && r->Some_0 < self.streams@.len(),
    {
        let n = self.streams.len();
        let mut i: usize = 0;
        while i < n
            invariant
                n == self.streams@.len(),
                i <= n,
                self.wf(),
                forall|j: int| 0 <= j < i ==> self.streams@[j].id != id,
            decreases n - i,
        {
            if self.streams[i].id == id {
                proof {
                    let c = choose|c: int| 0 <= c < self.streams@.len() && self.streams@[c].id == id;
                    assert(self.streams@[c].id == id);
                }
                return Some(i);
            }
            i = i + 1;
        }
        None
    }

    /// Opens a fresh stream with no kind and no items.
    pub fn open(&mut self) -> (r: Sender)
        requires
            old(self).wf(),
            old(self).next_id < u64::MAX,
        ensures
            final(self).wf(),
            r.id == old(self).next_id,
            final(self).next_id == old(self).next_id + 1,
            final(self).streams@.len() == old(self).streams@.len() + 1,
            final(self).streams@.drop_last() == old(self).streams@,
            final(self).streams@.last().id == r.id,
            final(self).streams@.last().kind is None,
            !final(self).streams@.last().ended,
            final(self).streams@.last().items@.len() == 0,
    {
        let id = self.next_id;
        self.streams.push(Stream { id, kind: None, items: Vec::new(), ended: false });
        self.next_id = id + 1;
        proof {
            assert forall|i: int| 0 <= i < self.streams@.len() implies #[trigger] self.streams@[i].id < self.next_id by {
                if i < old(self).streams@.len() {
                    assert(self.streams@[i] == old(self).streams@[i]);
                }
            }
        }
        Sender { id }
    }

    /// Registers the stream of `sender` under `kind`; a stream that is no
    /// longer live stays unregistered.
    pub fn subscribe(&mut self, kind: String, sender: &Sender)
        requires
            old(self).wf(),
        ensures
            final(self).wf(),
            final(self).next_id == old(self).next_id,
            final(self).streams@.len() == old(self).streams@.len(),
            forall|i: int|
                0 <= i < old(self).streams@.len() ==> #[trigger] final(self).streams@[i] == if old(
                    self,
                ).place(sender.id) == Some(i) {
                    Stream { kind: Some(kind), ..old(self).streams@[i] }
                } else {
                    old(self).streams@[i]
                },
    {
        match self.find(sender.id) {
            Some(i) => {
                let mut s = self.streams.remove(i);
                s.kind = Some(kind);
                self.streams.insert(i, s);
                assert(self.streams@ =~= old(self).streams@.update(i as int, s));
                proof {
                    assert forall|j: int| 0 <= j < self.streams@.len() implies #[trigger] self.streams@[j].id < self.next_id by {
                        assert(self.streams@[j].id == old(self).streams@[j].id);
                    }
                    assert forall|a: int, b: int| 0 <= a < b < self.streams@.len() implies self.streams@[a].id != self.streams@[b].id by {
                        assert(self.streams@[a].id == old(self).streams@[a].id);
                        assert(self.streams@[b].id == old(self).streams@[b].id);
                    }
                }
            },
            None => {},
        }
    }

    /// Publishes `v` under `kind`: every stream that listens to `kind` gets it
    /// once, after what it already holds; a kind with no listener is a no-op.
    pub fn publish(&mut self, kind: &str, v: &String)
        requires
            old(self).wf(),
        ensures
            final(self).wf(),
            final(self).next_id == old(self).next_id,
            final(self).streams@.len() == old(self).streams@.len(),
            published(old(self).streams@, final(self).streams@, kind@, *v),
    {
        let n = self.streams.len();
        let mut i: usize = 0;
        while i < n
            invariant
                n == self.streams@.len(),
                n == old(self).streams@.len(),
                i <= n,
                self.next_id == old(self).next_id,
                old(self).wf(),
                forall|j: int| i <= j < n ==> #[trigger] self.streams@[j] == old(self).streams@[j],
                forall|j: int| 0 <= j < i ==> {
                    let o = old(self).streams@[j];
                    let s = #[trigger] self.streams@[j];
                    &&& s.id == o.id
                    &&& s.kind == o.kind
                    &&& s.ended == o.ended
                    &&& s.items@ == if listens(o, kind@) { o.items@.push(*v) } else { o.items@ }
                },
            decreases n - i,
        {
            let hit = !self.streams[i].ended && match &self.streams[i].kind {
                Some(k) => same_text(k.as_str(), kind),
                None => false,
            };
            if hit {
                let ghost before = self.streams@;
                let mut s = self.streams.remove(i);
                s.items.push(v.clone());
                self.streams.insert(i, s);
                assert(self.streams@ =~= before.update(i as int, s));
            }
            i = i + 1;
        }
        proof {
            assert forall|j: int| 0 <= j < self.streams@.len() implies #[trigger] self.streams@[j].id < self.next_id by {
                assert(self.streams@[j].id == old(self).streams@[j].id);
            }
            assert forall|a: int, b: int| 0 <= a < b < self.streams@.len() implies self.streams@[a].id != self.streams@[b].id by {
                assert(self.streams@[a].id == old(self).streams@[a].id);
                assert(self.streams@[b].id == old(self).streams@[b].id);
            }
        }
    }

    /// Takes the items that the stream of `id` holds, in the order they were
    /// published; the stream stays live and empty.
    pub fn take(&mut self, id: u64) -> (r: Vec<String>)
        requires
            old(self).wf(),
        ensures
            final(self).wf(),
            final(self).next_id == old(self).next_id,
            final(self).streams@.len() == old(self).streams@.len(),
            match old(self).place(id) {
                Some(p) => {
                    &&& r@ == old(self).streams@[p].items@
                    &&& final(self).streams@[p].id == id
                    &&& final(self).streams@[p].kind == old(self).streams@[p].kind
                    &&& final(self).streams@[p].ended == old(self).streams@[p].ended
                    &&& final(self).streams@[p].items@.len() == 0
                    &&& forall|j: int| 0 <= j < old(self).streams@.len() && j != p ==>
                        #[trigger] final(self).streams@[j] == old(self).streams@[j]
                },
                None => r@.len() == 0 && final(self).streams@ == old(self).streams@,
            },
    {
        match self.find(id) {
            Some(i) => {
                let mut s = self.streams.remove(i);
                let items = s.items;
                s.items = Vec::new();
                self.streams.insert(i, s);
                proof {
                    assert(self.streams@ =~= old(self).streams@.update(i as int, s));
                    assert forall|j: int| 0 <= j < self.streams@.len() implies #[trigger] self.streams@[j].id < self.next_id by {
                        assert(self.streams@[j].id == old(self).streams@[j].id);
                    }
                    assert forall|a: int, b: int| 0 <= a < b < self.streams@.len() implies self.streams@[a].id != self.streams@[b].id by {
                        assert(self.streams@[a].id == old(self).streams@[a].id);
                        assert(self.streams@[b].id == old(self).streams@[b].id);
                    }
                }
                items
            },
            None => Vec::new(),
        }
    }

    /// Ends the stream of `sender` from the producer's side, as when the sender
    /// is dropped: later publishes no longer reach it, and what it holds stays
    /// for its reader to take.
    pub fn end(&mut self, sender: Sender)
        requires
            old(self).wf(),
        ensures
            final(self).wf(),
            final(self).next_id == old(self).next_id,
            final(self).streams@.len() == old(self).streams@.len(),
            forall|i: int|
                0 <= i < old(self).streams@.len() ==> #[trigger] final(self).streams@[i] == if old(
                    self,
                ).place(sender.id) == Some(i) {
                    Stream { ended: true, ..old(self).streams@[i] }
                } else {
                    old(self).streams@[i]
                },
    {
        match self.find(sender.id) {
            Some(i) => {
                let mut s = self.streams.remove(i);
                s.ended = true;
                self.streams.insert(i, s);
                assert(self.streams@ =~= old(self).streams@.update(i as int, s));
                proof {
                    assert forall|j: int| 0 <= j < self.streams@.len() implies #[trigger] self.streams@[j].id < self.next_id by {
                        assert(self.streams@[j].id == old(self).streams@[j].id);
                    }
                    assert forall|a: int, b: int| 0 <= a < b < self.streams@.len() implies self.streams@[a].id != self.streams@[b].id by {
                        assert(self.streams@[a].id == old(self).streams@[a].id);
                        assert(self.streams@[b].id == old(self).streams@[b].id);
                    }
                }
            },
            None => {},
        }
    }

    /// Whether the stream of `id` is over: its sender is gone and its reader
    /// has taken all it held, or it is no longer live.
    pub fn finished(&self, id: u64) -> (r: bool)
        requires
            self.wf(),
        ensures
            r == match self.place(id) {
                Some(p) => self.streams@[p].ended && self.streams@[p].items@.len() == 0,
                None => true,
            },
    {
        match self.find(id) {
            Some(i) => self.streams[i].ended && self.streams[i].items.len() == 0,
            None => true,
        }
    }

    /// Ends the stream of `id`, as when its reader is gone: later publishes
    /// no longer reach it.
    pub fn close(&mut self, id: u64)
        requires
            old(self).wf(),
        ensures
            final(self).wf(),
            final(self).next_id == old(self).next_id,
            final(self).place(id) is None,
            match old(self).place(id) {
                Some(p) => final(self).streams@ == old(self).streams@.remove(p),
                None => final(self).streams@ == old(self).streams@,
            },
    {
        match self.find(id) {
            Some(i) => {
                self.streams.remove(i);
                proof {
                    assert forall|j: int| 0 <= j < self.streams@.len() implies #[trigger] self.streams@[j].id < self.next_id by {
                        if j >= i { assert(self.streams@[j] == old(self).streams@[j + 1]); }
                    }
                    assert forall|a: int, b: int| 0 <= a < b < self.streams@.len() implies self.streams@[a].id != self.streams@[b].id by {
                        let a2 = if a >= i { a + 1 } else { a };
                        let b2 = if b >= i { b + 1 } else { b };
                        assert(self.streams@[a] == old(self).streams@[a2]);
                        assert(self.streams@[b] == old(self).streams@[b2]);
                    }
                    if exists|j: int| 0 <= j < self.streams@.len() && self.streams@[j].id == id {
                        let j = choose|j: int| 0 <= j < self.streams@.len() && self.streams@[j].id == id;
                        let j2 = if j >= i { j + 1 } else { j };
                        assert(self.streams@[j] == old(self).streams@[j2]);
                        assert(old(self).streams@[i as int].id == id);
                    }
                }
            },
            None => {},
        }
    }
}

/// The frame that carries one item of a stream: `data:` and the item's JSON
/// text, then a blank line.
pub open spec fn frame_text(v: Seq<char>) -> Seq<char> {
    "data:"@ + v + "\n\n"@
}

/// Frames one item of a stream.
pub fn sse_frame(v: &str) -> (r: String)
    ensures
        r@ == frame_text(v@),
{
    let mut r = String::from_str("data:");
    r.append(v);
    r.append("\n\n");
    r
}

/// What the filters' answer on an item lets through: the value of a
/// successful single-value reply; nothing for a stream or a failure.
pub open spec fn passed(outcome: Result<Reply, Reply>) -> Option<String> {
    match outcome {
        Ok(rep) => match rep.data {
            ReplyData::Value(v) => Some(v),
            ReplyData::Stream(_) => None,
        },
        Err(_) => None,
    }
}

/// The frame that a filter's answer on an item leaves, if any.
pub open spec fn frame_of(outcome: Result<Reply, Reply>) -> Option<Seq<char>> {
    match passed(outcome) {
        Some(v) => Some(frame_text(v@)),
        None => None,
    }
}

/// The frame for an item after a filter's answer: none where the answer drops it.
pub fn frame_outcome(outcome: Result<Reply, Reply>) -> (r: Option<String>)
    ensures
        match frame_of(outcome) {
            Some(f) => r matches Some(t) && t@ == f,
            None => r is None,
        },
{
    match outcome {
        Ok(rep) => match rep.data {
            ReplyData::Value(v) => Some(sse_frame(v.as_str())),
            ReplyData::Stream(_) => None,
        },
        Err(_) => None,
    }
}

/// The reply that a filter receives for one item of a stream.
pub open spec fn filter_input(v: String) -> Reply {
    Reply { code: 200, req: None, data: ReplyData::Value(v) }
}

/// Wraps one item of a stream for a filter.
pub fn filter_item(v: String) -> (r: Reply)
    ensures
        r == filter_input(v),
{
    Reply { code: 200, req: None, data: ReplyData::Value(v) }
}

/// What a filter's answer lets through.
pub fn pass_answer(answer: Result<Reply, Reply>) -> (r: Option<String>)
    ensures
        r == passed(answer),
{
    match answer {
        Ok(rep) => match rep.data {
            ReplyData::Value(v) => Some(v),
            ReplyData::Stream(_) => None,
        },
        Err(_) => None,
    }
}

/// A transform of the items of a stream: passes an item on, changes it, or
/// drops it (a failure, or a reply that is not a single value).
pub trait Filter {
    /// The answer of the filter to an item.
    spec fn answer(&self, item: Reply) -> Result<Reply, Reply>;

    fn handle(&self, item: Reply) -> (r: Result<Reply, Reply>)
        ensures
            r == self.answer(item);
}

/// A filter that passes every item on as it is.
pub struct PassAll;

impl Filter for PassAll {
    open spec fn answer(&self, item: Reply) -> Result<Reply, Reply> {
        Ok(item)
    }

    fn handle(&self, item: Reply) -> (r: Result<Reply, Reply>) {
        Ok(item)
    }
}

/// What an item becomes after the filters, in order: each filter receives
/// what the one before it let through; `None` where one of them drops it,
/// else the last filter's value.
pub open spec fn chain<F: Filter>(fs: Seq<F>, v: String) -> Option<String>
    decreases fs.len(),
{
    if fs.len() == 0 {
        Some(v)
    } else {
        match passed(fs[0].answer(filter_input(v))) {
            Some(w) => chain(fs.drop_first(), w),
            None => None,
        }
    }
}

/// The frames that items leave after the filters, in the order of the items.
pub open spec fn framed<F: Filter>(fs: Seq<F>, items: Seq<String>) -> Seq<Seq<char>>
    decreases items.len(),
{
    if items.len() == 0 {
        Seq::empty()
    } else {
        let rest = framed(fs, items.drop_last());
        match chain(fs, items.last()) {
            Some(w) => rest.push(frame_text(w@)),
            None => rest,
        }
    }
}

/// An item that the first filter drops (by failing, or by answering with
/// anything but a single value) passes no later filter and leaves no frame:
/// the frames of the items before it stand as they were.
pub proof fn dropped_item_leaves_no_frame<F: Filter>(fs: Seq<F>, items: Seq<String>, v: String)
    requires
        fs.len() > 0,
        passed(fs[0].answer(filter_input(v))) is None,
    ensures
        chain(fs, v) is None,
        framed(fs, items.push(v)) == framed(fs, items),
{
    assert(items.push(v).drop_last() =~= items);
}

/// An item that the filters let through with value `w` adds exactly the frame
/// of `w`, after the frames of the items before it.
pub proof fn passed_item_adds_its_frame<F: Filter>(fs: Seq<F>, items: Seq<String>, v: String, w: String)
    requires
        chain(fs, v) == Some(w),
    ensures
        framed(fs, items.push(v)) == framed(fs, items).push(frame_text(w@)),
{
    assert(items.push(v).drop_last() =~= items);
}

/// Runs an item through the filters in order, each on what the one before let
/// through; `None` where one of them drops it.
pub fn run_filters<F: Filter>(filters: &Vec<F>, item: String) -> (r: Option<String>)
    ensures
        r == chain(filters@, item),
{
    let ghost fs = filters@;
    let mut cur = item;
    let n = filters.len();
    let mut i: usize = 0;
    assert(fs.subrange(0, n as int) =~= fs);
    while i < n
        invariant
            fs == filters@,
            n == fs.len(),
            i <= n,
            chain(fs, item) == chain(fs.subrange(i as int, n as int), cur),
        decreases n - i,
    {
        let ghost tail = fs.subrange(i as int, n as int);
        assert(tail[0] == fs[i as int]);
        assert(tail.drop_first() =~= fs.subrange(i + 1, n as int));
        let answer = filters[i].handle(filter_item(cur));
        match pass_answer(answer) {
            Some(v) => {
                cur = v;
            },
            None => {
                return None;
            },
        }
        i = i + 1;
    }
    Some(cur)
}

/// Takes the items that the stream of `id` holds and frames those that the
/// filters let through, in order; the stream stays live and is left empty.
pub fn take_frames<F: Filter>(channel: &mut Channel, id: u64, filters: &Vec<F>) -> (r: Vec<String>)
    requires
        old(channel).wf(),
    ensures
        final(channel).wf(),
        final(channel).next_id == old(channel).next_id,
        final(channel).place(id) == old(channel).place(id),
        final(channel).streams@.len() == old(channel).streams@.len(),
        match old(channel).place(id) {
            Some(p) => {
                &&& r@.map_values(|f: String| f@) == framed(filters@, old(channel).streams@[p].items@)
                &&& final(channel).streams@[p].id == id
                &&& final(channel).streams@[p].kind == old(channel).streams@[p].kind
                &&& final(channel).streams@[p].ended == old(channel).streams@[p].ended
                &&& final(channel).streams@[p].items@.len() == 0
                &&& forall|j: int| 0 <= j < old(channel).streams@.len() && j != p ==>
                    #[trigger] final(channel).streams@[j] == old(channel).streams@[j]
            },
            None => r@.len() == 0 && final(channel).streams@ == old(channel).streams@,
        },
{
    let items = channel.take(id);
    proof {
        assert(channel.place(id) == old(channel).place(id)) by {
            if old(channel).place(id) is Some {
                let p = old(channel).place(id)->Some_0;
                assert(channel.streams@[p].id == id);
            }
            if exists|j: int| 0 <= j < channel.streams@.len() && channel.streams@[j].id == id {
                let j = choose|j: int| 0 <= j < channel.streams@.len() && channel.streams@[j].id == id;
                if old(channel).place(id) is None {
                    assert(channel.streams@[j] == old(channel).streams@[j]);
                }
            }
        }
    }
    let mut r: Vec<String> = Vec::new();
    let n = items.len();
    let mut i: usize = 0;
    assert(items@.subrange(0, 0) =~= Seq::<String>::empty());
    assert(r@.map_values(|f: String| f@) =~= Seq::<Seq<char>>::empty());
    while i < n
        invariant
            n == items@.len(),
            i <= n,
            r@.map_values(|f: String| f@) == framed(filters@, items@.subrange(0, i as int)),
        decreases n - i,
    {
        let ghost before = r@;
        assert(items@.subrange(0, i + 1).drop_last() =~= items@.subrange(0, i as int));
        assert(items@.subrange(0, i + 1).last() == items@[i as int]);
        match run_filters(filters, items[i].clone()) {
            Some(v) => {
                let f = sse_frame(v.as_str());
                r.push(f);
                assert(r@.map_values(|f: String| f@) =~= before.map_values(|f: String| f@).push(f@));
            },
            None => {},
        }
        i = i + 1;
    }
    assert(items@.subrange(0, n as int) =~= items@);
    r
}

} // verus!
