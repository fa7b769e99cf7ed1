use vstd::prelude::*;
use crate::key::{key_spec, sse_url_spec, subscription_key, trim_trailing_slashes};
use crate::worker::{SubscriptionWorker, WorkerPhase};

verus! {

/// One active subscription: its key and the handle that cancels its worker.
pub struct Subscription<H> {
    pub key: String,
    pub handle: H,
}

/// The registry of active subscriptions, at most one per key. `H` is the handle
/// by which a running worker is cancelled.
pub struct NtfyState<H> {
    pub subscriptions: Vec<Subscription<H>>,
}

/// What `subscribe` did.
pub enum SubscribeOutcome<H> {
    /// A worker already runs for the key; the handle that was offered is given back.
    AlreadyActive(H),
    /// The key was registered: run this worker, cancellable by the stored handle.
    Started(SubscriptionWorker),
}

/// The entries of a registry as (key, handle) pairs, in order of subscription.
pub open spec fn entries_of<H>(v: Seq<Subscription<H>>) -> Seq<(Seq<char>, H)> {
    v.map_values(|s: Subscription<H>| (s.key@, s.handle))
}

/// No key occurs twice.
pub open spec fn keys_unique<H>(v: Seq<(Seq<char>, H)>) -> bool {
    forall|i: int, j: int| 0 <= i < j < v.len() ==> v[i].0 != v[j].0
}

/// Some entry has key `k`.
pub open spec fn has_key<H>(v: Seq<(Seq<char>, H)>, k: Seq<char>) -> bool {
    exists|i: int| 0 <= i < v.len() && v[i].0 == k
}

/// Exactly one entry has key `k`: one worker runs for it.
pub open spec fn single_entry<H>(v: Seq<(Seq<char>, H)>, k: Seq<char>) -> bool {
    exists|i: int|
        0 <= i < v.len() && v[i].0 == k && forall|j: int|
            0 <= j < v.len() && v[j].0 == k ==> j == i
}

/// The first index at or after `i` whose key is `k`, or -1.
pub open spec fn find_key<H>(v: Seq<(Seq<char>, H)>, k: Seq<char>, i: int) -> int
    decreases v.len() - i,
{
    if i < 0 || i >= v.len() {
        -1
    } else if v[i].0 == k {
        i
    } else {
        find_key(v, k, i + 1)
    }
}

/// The index of the entry with key `k`, or -1.
pub open spec fn index_of_key<H>(v: Seq<(Seq<char>, H)>, k: Seq<char>) -> int {
    find_key(v, k, 0)
}

/// The entries after subscribing to key `k` with handle `h`.
pub open spec fn after_subscribe<H>(v: Seq<(Seq<char>, H)>, k: Seq<char>, h: H) -> Seq<(Seq<char>, H)> {
    if has_key(v, k) {
        v
    } else {
        v.push((k, h))
    }
}

/// The entries after unsubscribing from key `k`.
pub open spec fn after_unsubscribe<H>(v: Seq<(Seq<char>, H)>, k: Seq<char>) -> Seq<(Seq<char>, H)> {
    if has_key(v, k) {
        v.remove(index_of_key(v, k))
    } else {
        v
    }
}

proof fn lemma_find_key<H>(v: Seq<(Seq<char>, H)>, k: Seq<char>, i: int)
    requires
        0 <= i,
    ensures
        find_key(v, k, i) == -1 ==> forall|j: int| i <= j < v.len() ==> v[j].0 != k,
        find_key(v, k, i) != -1 ==> i <= find_key(v, k, i) < v.len() && v[find_key(v, k, i)].0
            == k,
    decreases v.len() - i,
{
    if i < v.len() && v[i].0 != k {
        lemma_find_key(v, k, i + 1);
    }
}

proof fn lemma_index_of_key<H>(v: Seq<(Seq<char>, H)>, k: Seq<char>)
    ensures
        has_key(v, k) <==> index_of_key(v, k) != -1,
        has_key(v, k) ==> 0 <= index_of_key(v, k) < v.len() && v[index_of_key(v, k)].0 == k,
{
    lemma_find_key(v, k, 0);
}

/// Subscribing keeps keys unique and leaves the key registered.
pub proof fn lemma_subscribe_registers<H>(v: Seq<(Seq<char>, H)>, k: Seq<char>, h: H)
    requires
        keys_unique(v),
    ensures
        keys_unique(after_subscribe(v, k, h)),
        single_entry(after_subscribe(v, k, h), k),
        forall|k2: Seq<char>| k2 != k ==> has_key(after_subscribe(v, k, h), k2) == has_key(v, k2),
{
    let w = after_subscribe(v, k, h);
    if has_key(v, k) {
        let i = choose|i: int| 0 <= i < v.len() && v[i].0 == k;
        assert(forall|j: int| 0 <= j < v.len() && v[j].0 == k ==> j == i);
    } else {
        assert(w[v.len() as int].0 == k);
        assert forall|k2: Seq<char>| k2 != k && has_key(w, k2) implies has_key(v, k2) by {
            let i = choose|i: int| 0 <= i < w.len() && w[i].0 == k2;
            assert(v[i].0 == k2);
        }
        assert forall|k2: Seq<char>| k2 != k && has_key(v, k2) implies has_key(w, k2) by {
            let i = choose|i: int| 0 <= i < v.len() && v[i].0 == k2;
            assert(w[i].0 == k2);
        }
    }
}

/// Unsubscribing keeps keys unique, drops the key and keeps every other key.
pub proof fn lemma_unsubscribe_drops<H>(v: Seq<(Seq<char>, H)>, k: Seq<char>)
    requires
        keys_unique(v),
    ensures
        keys_unique(after_unsubscribe(v, k)),
        !has_key(after_unsubscribe(v, k), k),
        forall|k2: Seq<char>| k2 != k ==> has_key(after_unsubscribe(v, k), k2) == has_key(v, k2),
        !has_key(v, k) ==> after_unsubscribe(v, k) == v,
{
    lemma_index_of_key(v, k);
    if has_key(v, k) {
        let i = index_of_key(v, k);
        let w = after_unsubscribe(v, k);
        assert(forall|j: int| 0 <= j < w.len() ==> w[j] == v[if j < i { j } else { j + 1 }]);
        assert forall|k2: Seq<char>| k2 != k && has_key(v, k2) implies has_key(w, k2) by {
            let j = choose|j: int| 0 <= j < v.len() && v[j].0 == k2;
            assert(w[if j < i { j } else { j - 1 }].0 == k2);
        }
    }
}

/// Two successive subscriptions to one topic on one server, written with or
/// without trailing slashes, leave exactly one worker for the key.
pub proof fn lemma_one_worker_per_key<H>(
    v: Seq<(Seq<char>, H)>,
    server1: Seq<char>,
    server2: Seq<char>,
    topic: Seq<char>,
    h1: H,
    h2: H,
)
    requires
        keys_unique(v),
        trim_trailing_slashes(server1) == trim_trailing_slashes(server2),
    ensures
        single_entry(
            after_subscribe(after_subscribe(v, key_spec(server1, topic), h1), key_spec(server2, topic), h2),
            key_spec(server1, topic),
        ),
{
    let k = key_spec(server1, topic);
    assert(key_spec(server2, topic) == k);
    lemma_subscribe_registers(v, k, h1);
    let w = after_subscribe(v, k, h1);
    let i = choose|i: int| 0 <= i < w.len() && w[i].0 == k && forall|j: int| 0 <= j < w.len() && w[j].0 == k ==> j == i;
    assert(has_key(w, k));
}

impl<H> View for NtfyState<H> {
    type V = Seq<(Seq<char>, H)>;

    open spec fn view(&self) -> Seq<(Seq<char>, H)> {
        entries_of(self.subscriptions@)
    }
}

impl<H> NtfyState<H> {
    /// At most one subscription per key.
    pub open spec fn wf(&self) -> bool {
        keys_unique(self@)
    }

    /// An empty registry.
    pub fn new() -> (r: NtfyState<H>)
        ensures
            r@ == Seq::<(Seq<char>, H)>::empty(),
            r.wf(),
    {
        let r = NtfyState { subscriptions: Vec::new() };
        assert(r@ =~= Seq::<(Seq<char>, H)>::empty());
        r
    }

    /// The index of the subscription with this key, if there is one.
    fn find(&self, key: &String) -> (r: Option<usize>)
        ensures
            r is Some <==> has_key(self@, key@),
            r matches Some(i) ==> i == index_of_key(self@, key@),
    {
        proof {
            lemma_index_of_key(self@, key@);
        }
        let mut i: usize = 0;
        while i < self.subscriptions.len()
            invariant
                i <= self.subscriptions@.len(),
                index_of_key(self@, key@) == find_key(self@, key@, i as int),
            decreases self.subscriptions@.len() - i,
        {
            if self.subscriptions[i].key == *key {
                return Some(i);
            }
            i = i + 1;
        }
        None
    }

    /// Whether a worker runs for `topic` on `server_url`.
    pub fn is_subscribed(&self, server_url: &str, topic: &str) -> (r: bool)
        ensures
            r == has_key(self@, key_spec(server_url@, topic@)),
    {
        let key = subscription_key(server_url, topic);
        self.find(&key).is_some()
    }

    /// Registers a subscription to `topic` on `server_url` with the cancel handle
    /// `handle`, unless one is active for the same key; then nothing changes and
    /// the handle is given back. A new subscription comes with the worker to run.
    pub fn subscribe(&mut self, server_url: &str, topic: &str, handle: H) -> (r: SubscribeOutcome<H>)
        requires
            old(self).wf(),
        ensures
            final(self).wf(),
            final(self)@ == after_subscribe(old(self)@, key_spec(server_url@, topic@), handle),
            single_entry(final(self)@, key_spec(server_url@, topic@)),
            has_key(old(self)@, key_spec(server_url@, topic@)) ==> r == SubscribeOutcome::<H>::AlreadyActive(handle),
            !has_key(old(self)@, key_spec(server_url@, topic@)) ==> (r matches SubscribeOutcome::Started(w)
                && w.phase == WorkerPhase::Connecting
                && w.base_url@ == trim_trailing_slashes(server_url@)
                && w.sse_url@ == sse_url_spec(key_spec(server_url@, topic@))),
    {
        let key = subscription_key(server_url, topic);
        proof {
            lemma_subscribe_registers(self@, key@, handle);
        }
        if self.find(&key).is_some() {
            return SubscribeOutcome::AlreadyActive(handle);
        }
        let ghost before = self.subscriptions@;
        self.subscriptions.push(Subscription { key, handle });
        assert(self@ =~= entries_of(before).push((key_spec(server_url@, topic@), handle)));
        SubscribeOutcome::Started(SubscriptionWorker::new(server_url, topic))
    }

    /// Removes the subscription to `topic` on `server_url` and returns its handle,
    /// for the caller to cancel the worker; without one, nothing changes.
    pub fn unsubscribe(&mut self, server_url: &str, topic: &str) -> (r: Option<H>)
        requires
            old(self).wf(),
        ensures
            final(self).wf(),
            final(self)@ == after_unsubscribe(old(self)@, key_spec(server_url@, topic@)),
            !has_key(final(self)@, key_spec(server_url@, topic@)),
            r is Some <==> has_key(old(self)@, key_spec(server_url@, topic@)),
            r matches Some(h) ==> h == old(self)@[index_of_key(old(self)@, key_spec(server_url@, topic@))].1,
            r is None ==> final(self)@ == old(self)@,
    {
        let key = subscription_key(server_url, topic);
        proof {
            lemma_unsubscribe_drops(self@, key@);
            lemma_index_of_key(self@, key@);
        }
        match self.find(&key) {
            Some(i) => {
                let ghost before = self.subscriptions@;
                let s = self.subscriptions.remove(i);
                assert(self@ =~= entries_of(before).remove(i as int));
                Some(s.handle)
            },
            None => None,
        }
    }
}

impl<H> Default for NtfyState<H> {
    fn default() -> (r: Self)
        ensures
            r@ == Seq::<(Seq<char>, H)>::empty(),
    {
        NtfyState::new()
    }
}

} // verus!
