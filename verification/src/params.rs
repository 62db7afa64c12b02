//! Parameter exchange between the main thread and the audio thread.
//!
//! Each side of a plugin owns reducing queues: single-producer,
//! single-consumer streams keyed by parameter id, where a newer write to a
//! key overwrites the older pending write.  The unverified edge of the host
//! provides the transport between threads; here a queue is one value that
//! the producing call and the consuming call both take by `&mut`.

use vstd::prelude::*;

use crate::events::EventParamMod;
use crate::events::EventParamValue;
use crate::proc_events::ProcEvent;
use crate::proc_events::ProcEventQueue;

verus! {

/// Whether a parameter gesture is beginning (`true`) or ending (`false`).
#[derive(Debug, Clone, Copy, PartialEq, Eq, Structural)]
pub struct ParamGestureInfo {
    pub is_begin: bool,
}

/// A pending value travelling from the UI to the audio thread.  The real
/// `f64` value travels as its bit pattern; the engine never does arithmetic
/// on it.
#[derive(Debug, Clone, Copy, PartialEq, Eq, Structural)]
pub struct MainToAudioParamValue {
    pub value_bits: u64,
}

/// A pending update travelling from the audio thread to the UI: a new
/// value, a gesture edge, or both folded together.
#[derive(Debug, Clone, Copy, PartialEq, Eq, Structural)]
pub struct AudioToMainParamValue {
    pub value_bits: Option<u64>,
    pub gesture: Option<ParamGestureInfo>,
}

/// A value that can sit pending in a reducing queue: a newer write to the
/// same key folds into the older pending one.
pub trait ReducingValue: Sized + Copy {
    /// The value left pending after `new_value` arrives on top of `self`.
    spec fn updated_spec(self, new_value: Self) -> Self;

    /// Folds `new_value` into this pending value.
    fn update(&mut self, new_value: &Self)
        ensures
            *final(self) == old(self).updated_spec(*new_value),
    ;
}

impl ReducingValue for MainToAudioParamValue {
    /// A newer UI value simply replaces the older pending one.
    open spec fn updated_spec(self, new_value: Self) -> Self {
        new_value
    }

    fn update(&mut self, new_value: &Self) {
        *self = *new_value;
    }
}

impl ReducingValue for AudioToMainParamValue {
    /// Each part that the newer update carries replaces the older one;
    /// parts it does not carry stay pending.
    open spec fn updated_spec(self, new_value: Self) -> Self {
        AudioToMainParamValue {
            value_bits: if new_value.value_bits is Some {
                new_value.value_bits
            } else {
                self.value_bits
            },
            gesture: if new_value.gesture is Some {
                new_value.gesture
            } else {
                self.gesture
            },
        }
    }

    fn update(&mut self, new_value: &Self) {
        if new_value.value_bits.is_some() {
            self.value_bits = new_value.value_bits;
        }
        if new_value.gesture.is_some() {
            self.gesture = new_value.gesture;
        }
    }
}

/// No two pending entries share a key.
pub open spec fn unique_keys<V>(s: Seq<(u32, V)>) -> bool {
    forall|i: int, j: int| 0 <= i < j < s.len() ==> (#[trigger] s[i]).0 != (#[trigger] s[j]).0
}

/// Whether some pending entry has key `k`.
pub open spec fn has_key<V>(s: Seq<(u32, V)>, k: u32) -> bool {
    exists|i: int| 0 <= i < s.len() && (#[trigger] s[i]).0 == k
}

/// The pending value for key `k`, if any (first occurrence).
pub open spec fn lookup<V>(s: Seq<(u32, V)>, k: u32) -> Option<V>
    decreases s.len(),
{
    if s.len() == 0 {
        None
    } else if s[0].0 == k {
        Some(s[0].1)
    } else {
        lookup(s.drop_first(), k)
    }
}

/// How many pending entries have key `k`.
pub open spec fn count_key<V>(s: Seq<(u32, V)>, k: u32) -> nat
    decreases s.len(),
{
    if s.len() == 0 {
        0
    } else {
        (if s[0].0 == k {
            1nat
        } else {
            0nat
        }) + count_key(s.drop_first(), k)
    }
}

/// The queue contents after writing `v` for key `k`: the first pending
/// entry for `k` is replaced in place, or the entry is appended.
pub open spec fn set_model<V>(s: Seq<(u32, V)>, k: u32, v: V) -> Seq<(u32, V)>
    decreases s.len(),
{
    if s.len() == 0 {
        seq![(k, v)]
    } else if s[0].0 == k {
        seq![(k, v)] + s.drop_first()
    } else {
        seq![s[0]] + set_model(s.drop_first(), k, v)
    }
}

/// The queue contents after folding `v` into the pending entry for `k`
/// with [`ReducingValue::updated_spec`], or appending it.
pub open spec fn upsert_model<V: ReducingValue>(s: Seq<(u32, V)>, k: u32, v: V) -> Seq<(u32, V)>
    decreases s.len(),
{
    if s.len() == 0 {
        seq![(k, v)]
    } else if s[0].0 == k {
        seq![(k, s[0].1.updated_spec(v))] + s.drop_first()
    } else {
        seq![s[0]] + upsert_model(s.drop_first(), k, v)
    }
}

pub proof fn lemma_set_model_at_first_pub<V>(s: Seq<(u32, V)>, k: u32, v: V, i: int)
    requires
        0 <= i < s.len(),
        s[i].0 == k,
        forall|j: int| 0 <= j < i ==> (#[trigger] s[j]).0 != k,
    ensures
        set_model(s, k, v) == s.update(i, (k, v)),
    decreases i,
{
    if i == 0 {
        assert(set_model(s, k, v) =~= s.update(0, (k, v)));
    } else {
        let t = s.drop_first();
        assert(forall|j: int| 0 <= j < i - 1 ==> (#[trigger] t[j]).0 != k);
        lemma_set_model_at_first_pub(t, k, v, i - 1);
        assert(set_model(s, k, v) =~= s.update(i, (k, v)));
    }
}

pub proof fn lemma_set_model_absent_pub<V>(s: Seq<(u32, V)>, k: u32, v: V)
    requires
        !has_key(s, k),
    ensures
        set_model(s, k, v) == s.push((k, v)),
    decreases s.len(),
{
    if s.len() == 0 {
        assert(set_model(s, k, v) =~= s.push((k, v)));
    } else {
        assert(s[0].0 != k);
        assert(!has_key(s.drop_first(), k)) by {
            assert(forall|j: int|
                0 <= j < s.drop_first().len() ==> (#[trigger] s.drop_first()[j]) == s[j + 1]);
        }
        lemma_set_model_absent_pub(s.drop_first(), k, v);
        assert(set_model(s, k, v) =~= s.push((k, v)));
    }
}

proof fn lemma_upsert_model_at_first<V: ReducingValue>(s: Seq<(u32, V)>, k: u32, v: V, i: int)
    requires
        0 <= i < s.len(),
        s[i].0 == k,
        forall|j: int| 0 <= j < i ==> (#[trigger] s[j]).0 != k,
    ensures
        upsert_model(s, k, v) == s.update(i, (k, s[i].1.updated_spec(v))),
    decreases i,
{
    if i == 0 {
        assert(upsert_model(s, k, v) =~= s.update(0, (k, s[0].1.updated_spec(v))));
    } else {
        let t = s.drop_first();
        assert(forall|j: int| 0 <= j < i - 1 ==> (#[trigger] t[j]).0 != k);
        lemma_upsert_model_at_first(t, k, v, i - 1);
        assert(upsert_model(s, k, v) =~= s.update(i, (k, s[i].1.updated_spec(v))));
    }
}

proof fn lemma_upsert_model_absent<V: ReducingValue>(s: Seq<(u32, V)>, k: u32, v: V)
    requires
        !has_key(s, k),
    ensures
        upsert_model(s, k, v) == s.push((k, v)),
    decreases s.len(),
{
    if s.len() == 0 {
        assert(upsert_model(s, k, v) =~= s.push((k, v)));
    } else {
        assert(s[0].0 != k);
        assert(!has_key(s.drop_first(), k)) by {
            assert(forall|j: int|
                0 <= j < s.drop_first().len() ==> (#[trigger] s.drop_first()[j]) == s[j + 1]);
        }
        lemma_upsert_model_absent(s.drop_first(), k, v);
        assert(upsert_model(s, k, v) =~= s.push((k, v)));
    }
}

/// Law: writing the same parameter twice before the consumer runs leaves
/// only the latest value pending — the two writes coalesce.
pub proof fn lemma_reduce_latest_wins<V>(s: Seq<(u32, V)>, k: u32, v1: V, v2: V)
    ensures
        set_model(set_model(s, k, v1), k, v2) == set_model(s, k, v2),
    decreases s.len(),
{
    if s.len() == 0 {
        assert(set_model(set_model(s, k, v1), k, v2) =~= set_model(s, k, v2));
    } else if s[0].0 == k {
        assert((seq![(k, v1)] + s.drop_first())[0].0 == k);
        assert((seq![(k, v1)] + s.drop_first()).drop_first() =~= s.drop_first());
        assert(set_model(set_model(s, k, v1), k, v2) =~= set_model(s, k, v2));
    } else {
        let t = s.drop_first();
        lemma_reduce_latest_wins(t, k, v1, v2);
        assert((seq![s[0]] + set_model(t, k, v1))[0] == s[0]);
        assert((seq![s[0]] + set_model(t, k, v1)).drop_first() =~= set_model(t, k, v1));
        assert(set_model(set_model(s, k, v1), k, v2) =~= set_model(s, k, v2));
    }
}

/// Law: after writing `v` for key `k`, the pending value for `k` is `v`.
pub proof fn lemma_set_then_lookup<V>(s: Seq<(u32, V)>, k: u32, v: V)
    ensures
        lookup(set_model(s, k, v), k) == Some(v),
    decreases s.len(),
{
    if s.len() == 0 {
    } else if s[0].0 == k {
        assert((seq![(k, v)] + s.drop_first())[0].0 == k);
    } else {
        lemma_set_then_lookup(s.drop_first(), k, v);
        assert((seq![s[0]] + set_model(s.drop_first(), k, v)).drop_first() =~= set_model(
            s.drop_first(),
            k,
            v,
        ));
    }
}

proof fn lemma_count_key_zero<V>(s: Seq<(u32, V)>, k: u32)
    requires
        !has_key(s, k),
    ensures
        count_key(s, k) == 0,
    decreases s.len(),
{
    if s.len() > 0 {
        assert(!has_key(s.drop_first(), k)) by {
            assert(forall|j: int|
                0 <= j < s.drop_first().len() ==> (#[trigger] s.drop_first()[j]) == s[j + 1]);
        }
        lemma_count_key_zero(s.drop_first(), k);
    }
}

/// Law: after writing `v` for key `k` into a queue with unique keys, there
/// is exactly one pending entry for `k` — the consumer delivers it once.
pub proof fn lemma_set_unique_delivery<V>(s: Seq<(u32, V)>, k: u32, v: V)
    requires
        unique_keys(s),
    ensures
        count_key(set_model(s, k, v), k) == 1,
        unique_keys(set_model(s, k, v)),
    decreases s.len(),
{
    if s.len() == 0 {
        let r = seq![(k, v)];
        assert(r.drop_first() =~= Seq::<(u32, V)>::empty());
        assert(count_key(Seq::<(u32, V)>::empty(), k) == 0);
        assert(r[0].0 == k);
        assert(count_key(r, k) == 1);
    } else if s[0].0 == k {
        let r = seq![(k, v)] + s.drop_first();
        assert(r.drop_first() =~= s.drop_first());
        assert(r[0].0 == k);
        assert(!has_key(s.drop_first(), k)) by {
            assert(forall|j: int|
                0 <= j < s.drop_first().len() ==> (#[trigger] s.drop_first()[j]) == s[j + 1]);
        }
        lemma_count_key_zero(s.drop_first(), k);
        assert(unique_keys(r)) by {
            assert(forall|j: int| 0 <= j < r.len() ==> (#[trigger] r[j]) == s.update(0, (k, v))[j]);
        }
    } else {
        let t = s.drop_first();
        assert(unique_keys(t)) by {
            assert(forall|j: int| 0 <= j < t.len() ==> (#[trigger] t[j]) == s[j + 1]);
        }
        lemma_set_unique_delivery(t, k, v);
        let r = seq![s[0]] + set_model(t, k, v);
        assert(r.drop_first() =~= set_model(t, k, v));
        assert(r[0] == s[0]);
        assert(count_key(r, k) == count_key(set_model(t, k, v), k));
        assert(unique_keys(r)) by {
            lemma_set_model_keys(t, k, v);
            assert(forall|i2: int, j2: int|
                0 <= i2 < j2 < r.len() ==> (#[trigger] r[i2]).0 != (#[trigger] r[j2]).0) by {
                assert(forall|j2: int|
                    1 <= j2 < r.len() ==> (#[trigger] r[j2]) == set_model(t, k, v)[j2 - 1]);
                assert(forall|j2: int|
                    0 <= j2 < set_model(t, k, v).len() && set_model(t, k, v)[j2].0 == s[0].0
                        ==> has_key(set_model(t, k, v), s[0].0));
                assert(!has_key(t, s[0].0));
                assert(s[0].0 != k);
                assert(!has_key(set_model(t, k, v), s[0].0));
            }
        }
    }
}

/// The keys pending after a write are the old keys plus `k`.
proof fn lemma_set_model_keys<V>(s: Seq<(u32, V)>, k: u32, v: V)
    ensures
        forall|k2: u32|
            #[trigger] has_key(set_model(s, k, v), k2) <==> (has_key(s, k2) || k2 == k),
    decreases s.len(),
{
    if s.len() == 0 {
        assert forall|k2: u32| #[trigger] has_key(seq![(k, v)], k2) implies k2 == k by {
            let i = choose|i: int| 0 <= i < seq![(k, v)].len() && (#[trigger] seq![(k, v)][i]).0
                == k2;
            assert(seq![(k, v)][i].0 == k);
        }
        assert(has_key(seq![(k, v)], k)) by {
            assert(seq![(k, v)][0].0 == k);
        }
    } else if s[0].0 == k {
        let r = seq![(k, v)] + s.drop_first();
        assert(forall|j: int| 1 <= j < r.len() ==> (#[trigger] r[j]) == s[j]);
        assert forall|k2: u32| #[trigger] has_key(r, k2) implies (has_key(s, k2) || k2 == k) by {
            let i = choose|i: int| 0 <= i < r.len() && (#[trigger] r[i]).0 == k2;
            if i != 0 {
                assert(s[i].0 == k2);
            }
        }
        assert forall|k2: u32| has_key(s, k2) || k2 == k implies #[trigger] has_key(r, k2) by {
            if k2 == k {
                assert(r[0].0 == k2);
            } else {
                let i = choose|i: int| 0 <= i < s.len() && (#[trigger] s[i]).0 == k2;
                assert(i != 0);
                assert(r[i].0 == k2);
            }
        }
    } else {
        let t = s.drop_first();
        lemma_set_model_keys(t, k, v);
        let m = set_model(t, k, v);
        let r = seq![s[0]] + m;
        assert(forall|j: int| 0 <= j < t.len() ==> (#[trigger] t[j]) == s[j + 1]);
        assert(forall|j: int| 1 <= j < r.len() ==> (#[trigger] r[j]) == m[j - 1]);
        assert forall|k2: u32| #[trigger] has_key(r, k2) implies (has_key(s, k2) || k2 == k) by {
            let i = choose|i: int| 0 <= i < r.len() && (#[trigger] r[i]).0 == k2;
            if i == 0 {
                assert(s[0].0 == k2);
            } else {
                assert(m[i - 1].0 == k2);
                assert(has_key(m, k2));
                if has_key(t, k2) {
                    let j = choose|j: int| 0 <= j < t.len() && (#[trigger] t[j]).0 == k2;
                    assert(s[j + 1].0 == k2);
                }
            }
        }
        assert forall|k2: u32| has_key(s, k2) || k2 == k implies #[trigger] has_key(r, k2) by {
            if k2 == k {
                assert(has_key(m, k2));
                let j = choose|j: int| 0 <= j < m.len() && (#[trigger] m[j]).0 == k2;
                assert(r[j + 1].0 == k2);
            } else {
                let i = choose|i: int| 0 <= i < s.len() && (#[trigger] s[i]).0 == k2;
                if i == 0 {
                    assert(r[0].0 == k2);
                } else {
                    assert(t[i - 1].0 == k2);
                    assert(has_key(t, k2));
                    assert(has_key(m, k2));
                    let j = choose|j: int| 0 <= j < m.len() && (#[trigger] m[j]).0 == k2;
                    assert(r[j + 1].0 == k2);
                }
            }
        }
    }
}

/// A reducing queue: pending writes keyed by a 32-bit parameter id, in the
/// order the keys first arrived, with a newer write to a key folding into
/// the older pending one.
pub struct ReducingQueue<V> {
    entries: Vec<(u32, V)>,
}

impl<V: ReducingValue> ReducingQueue<V> {
    /// The pending entries, in the order the keys first arrived.
    pub closed spec fn view_spec(self) -> Seq<(u32, V)> {
        self.entries@
    }

    /// No key appears twice.
    pub open spec fn wf(self) -> bool {
        unique_keys(self.view_spec())
    }

    /// An empty queue.
    pub fn new() -> (q: Self)
        ensures
            q.view_spec() == Seq::<(u32, V)>::empty(),
            q.wf(),
    {
        let q = ReducingQueue { entries: Vec::new() };
        proof {
            assert(q.view_spec() =~= Seq::<(u32, V)>::empty());
        }
        q
    }

    fn find_index(&self, key: u32) -> (r: Option<usize>)
        ensures
            match r {
                Some(i) => {
                    &&& i < self.view_spec().len()
                    &&& self.view_spec()[i as int].0 == key
                    &&& forall|j: int| 0 <= j < i ==> (#[trigger] self.view_spec()[j]).0 != key
                },
                None => !has_key(self.view_spec(), key),
            },
    {
        let n = self.entries.len();
        let mut i: usize = 0;
        while i < n
            invariant
                n == self.view_spec().len(),
                i <= n,
                forall|j: int| 0 <= j < i ==> (#[trigger] self.view_spec()[j]).0 != key,
            decreases n - i,
        {
            if self.entries[i].0 == key {
                return Some(i);
            }
            i = i + 1;
        }
        None
    }

    /// Writes `value` for `key`, replacing any pending write for that key.
    pub fn set(&mut self, key: u32, value: V)
        requires
            old(self).wf(),
        ensures
            final(self).view_spec() == set_model(old(self).view_spec(), key, value),
            final(self).wf(),
    {
        match self.find_index(key) {
            Some(i) => {
                self.entries[i] = (key, value);
                proof {
                    lemma_set_model_at_first_pub(old(self).view_spec(), key, value, i as int);
                    lemma_set_unique_delivery(old(self).view_spec(), key, value);
                }
            },
            None => {
                self.entries.push((key, value));
                proof {
                    lemma_set_model_absent_pub(old(self).view_spec(), key, value);
                    lemma_set_unique_delivery(old(self).view_spec(), key, value);
                }
            },
        }
    }

    /// Folds `value` into the pending write for `key`, or starts one.
    pub fn set_or_update(&mut self, key: u32, value: V)
        requires
            old(self).wf(),
        ensures
            final(self).view_spec() == upsert_model(old(self).view_spec(), key, value),
            final(self).wf(),
    {
        match self.find_index(key) {
            Some(i) => {
                let mut cur = self.entries[i].1;
                cur.update(&value);
                self.entries[i] = (key, cur);
                proof {
                    lemma_upsert_model_at_first(old(self).view_spec(), key, value, i as int);
                    assert(unique_keys(self.view_spec())) by {
                        assert(forall|j: int|
                            0 <= j < self.view_spec().len() ==> (#[trigger] self.view_spec()[j]).0
                                == old(self).view_spec()[j].0);
                    }
                }
            },
            None => {
                self.entries.push((key, value));
                proof {
                    lemma_upsert_model_absent(old(self).view_spec(), key, value);
                    lemma_set_model_absent_pub(old(self).view_spec(), key, value);
                    lemma_set_unique_delivery(old(self).view_spec(), key, value);
                }
            },
        }
    }

    /// Takes every pending entry, oldest key first, leaving the queue
    /// empty.  Each key is delivered at most once.
    pub fn consume(&mut self) -> (r: Vec<(u32, V)>)
        ensures
            r@ == old(self).view_spec(),
            final(self).view_spec() == Seq::<(u32, V)>::empty(),
            final(self).wf(),
    {
        let mut taken: Vec<(u32, V)> = Vec::new();
        core::mem::swap(&mut taken, &mut self.entries);
        proof {
            assert(self.view_spec() =~= Seq::<(u32, V)>::empty());
        }
        taken
    }

    /// How many entries are pending.
    pub fn len(&self) -> (r: usize)
        ensures
            r == self.view_spec().len(),
    {
        self.entries.len()
    }

    /// Whether nothing is pending.
    pub fn is_empty(&self) -> (r: bool)
        ensures
            r == (self.view_spec().len() == 0),
    {
        self.entries.len() == 0
    }
}

/// Parameters with this flag set cannot be written from the UI.
pub const PARAM_FLAG_READONLY: u32 = 8;

/// What the host knows about one parameter of an active plugin.
#[derive(Debug, Clone, Copy, PartialEq, Eq, Structural)]
pub struct ParamInfo {
    /// The stable id the plugin gave this parameter.
    pub stable_id: u32,
    /// Behaviour flags, [`PARAM_FLAG_READONLY`] among them.
    pub flags: u32,
}

/// The first parameter with the given stable id, if any.
pub open spec fn find_param(s: Seq<ParamInfo>, id: u32) -> Option<ParamInfo>
    decreases s.len(),
{
    if s.len() == 0 {
        None
    } else if s[0].stable_id == id {
        Some(s[0])
    } else {
        find_param(s.drop_first(), id)
    }
}

/// The outcome of a UI write to a parameter.  Invalid writes are reported
/// and ignored, never fatal.
#[derive(Debug, Clone, Copy, PartialEq, Eq, Structural)]
pub enum SetParamResult {
    /// The write is pending for the audio thread.
    Queued,
    /// The parameter is read-only; nothing was written.
    ReadOnly,
    /// The plugin has no parameter with that id; nothing was written.
    UnknownParam,
}

/// The parameter surface a plugin handle exposes to the UI.
#[derive(Debug, Clone, PartialEq, Eq)]
pub struct PluginParamsExt {
    /// The plugin's parameters, in the order it enumerated them.
    pub params: Vec<ParamInfo>,
}

impl PluginParamsExt {
    fn find_param_index(&self, id: u32) -> (r: Option<usize>)
        ensures
            match r {
                Some(i) => i < self.params@.len() && find_param(self.params@, id) == Some(
                    self.params@[i as int],
                ),
                None => find_param(self.params@, id) is None,
            },
    {
        let n = self.params.len();
        let mut i: usize = 0;
        proof {
            assert(self.params@.skip(0) =~= self.params@);
        }
        while i < n
            invariant
                n == self.params@.len(),
                i <= n,
                find_param(self.params@, id) == find_param(self.params@.skip(i as int), id),
                forall|j: int| 0 <= j < i ==> (#[trigger] self.params@[j]).stable_id != id,
            decreases n - i,
        {
            proof {
                let tail = self.params@.skip(i as int);
                assert(tail[0] == self.params@[i as int]);
                assert(tail.drop_first() =~= self.params@.skip(i as int + 1));
            }
            if self.params[i].stable_id == id {
                return Some(i);
            }
            i = i + 1;
        }
        proof {
            assert(self.params@.skip(n as int) =~= Seq::<ParamInfo>::empty());
        }
        None
    }

    /// A UI write of a plain parameter value.  The write coalesces with any
    /// older pending write for the same parameter; read-only and unknown
    /// parameters are reported and ignored.
    pub fn set_value(
        &self,
        param_id: u32,
        value_bits: u64,
        queue: &mut ReducingQueue<MainToAudioParamValue>,
    ) -> (r: SetParamResult)
        requires
            old(queue).wf(),
        ensures
            final(queue).wf(),
            match find_param(self.params@, param_id) {
                Option::None => {
                    &&& r == SetParamResult::UnknownParam
                    &&& final(queue).view_spec() == old(queue).view_spec()
                },
                Option::Some(info) => {
                    if info.flags & PARAM_FLAG_READONLY != 0 {
                        &&& r == SetParamResult::ReadOnly
                        &&& final(queue).view_spec() == old(queue).view_spec()
                    } else {
                        &&& r == SetParamResult::Queued
                        &&& final(queue).view_spec() == set_model(
                            old(queue).view_spec(),
                            param_id,
                            MainToAudioParamValue { value_bits },
                        )
                    }
                },
            },
    {
        match self.find_param_index(param_id) {
            Some(i) => {
                if self.params[i].flags & PARAM_FLAG_READONLY != 0 {
                    SetParamResult::ReadOnly
                } else {
                    queue.set(param_id, MainToAudioParamValue { value_bits });
                    SetParamResult::Queued
                }
            },
            None => SetParamResult::UnknownParam,
        }
    }

    /// A UI write of a modulation amount.  Unknown parameters are reported
    /// and ignored; modulation is allowed on read-only parameters.
    pub fn set_mod_amount(
        &self,
        param_id: u32,
        amount_bits: u64,
        queue: &mut ReducingQueue<MainToAudioParamValue>,
    ) -> (r: SetParamResult)
        requires
            old(queue).wf(),
        ensures
            final(queue).wf(),
            match find_param(self.params@, param_id) {
                Option::None => {
                    &&& r == SetParamResult::UnknownParam
                    &&& final(queue).view_spec() == old(queue).view_spec()
                },
                Option::Some(info) => {
                    &&& r == SetParamResult::Queued
                    &&& final(queue).view_spec() == set_model(
                        old(queue).view_spec(),
                        param_id,
                        MainToAudioParamValue { value_bits: amount_bits },
                    )
                },
            },
    {
        match self.find_param_index(param_id) {
            Some(_) => {
                queue.set(param_id, MainToAudioParamValue { value_bits: amount_bits });
                SetParamResult::Queued
            },
            None => SetParamResult::UnknownParam,
        }
    }
}

/// One observed change of a parameter, reported from the audio thread to
/// the UI on a main-thread idle tick.
#[derive(Debug, Clone, Copy, PartialEq, Eq, Structural)]
pub struct ParamModifiedInfo {
    pub param_id: u32,
    pub new_value: Option<u64>,
    pub is_gesturing: bool,
}

/// The event a pending UI parameter value becomes in the plugin's input
/// event buffer: delivered at frame 0, with no note targeting.
pub open spec fn param_value_event_spec(k: u32, v: MainToAudioParamValue) -> ProcEvent {
    ProcEvent::ParamValue(
        EventParamValue {
            time: 0,
            param_id: k,
            note_id: -1i32,
            port_index: -1i16,
            channel: -1i16,
            key: -1i16,
            value_bits: v.value_bits,
        },
        None,
    )
}

/// The event a pending UI modulation amount becomes in the plugin's input
/// event buffer.
pub open spec fn param_mod_event_spec(k: u32, v: MainToAudioParamValue) -> ProcEvent {
    ProcEvent::ParamMod(
        EventParamMod {
            time: 0,
            param_id: k,
            note_id: -1i32,
            port_index: -1i16,
            channel: -1i16,
            key: -1i16,
            amount_bits: v.value_bits,
        },
        None,
    )
}

/// The events a drained value queue contributes, in queue order.
pub open spec fn param_value_events(s: Seq<(u32, MainToAudioParamValue)>) -> Seq<ProcEvent> {
    s.map_values(|e: (u32, MainToAudioParamValue)| param_value_event_spec(e.0, e.1))
}

/// The events a drained modulation queue contributes, in queue order.
pub open spec fn param_mod_events(s: Seq<(u32, MainToAudioParamValue)>) -> Seq<ProcEvent> {
    s.map_values(|e: (u32, MainToAudioParamValue)| param_mod_event_spec(e.0, e.1))
}

/// The audio-thread ends of one plugin's parameter queues.
pub struct ParamQueuesAudioThread {
    /// Observed values and gestures on the way to the UI.
    pub audio_to_main_param_value_tx: ReducingQueue<AudioToMainParamValue>,
    /// Pending plain values from the UI.
    pub ui_to_audio_param_value_rx: ReducingQueue<MainToAudioParamValue>,
    /// Pending modulation amounts from the UI.
    pub ui_to_audio_param_mod_rx: ReducingQueue<MainToAudioParamValue>,
}

impl ParamQueuesAudioThread {
    /// All three queues hold at most one pending entry per parameter.
    pub open spec fn wf(self) -> bool {
        &&& self.audio_to_main_param_value_tx.wf()
        &&& self.ui_to_audio_param_value_rx.wf()
        &&& self.ui_to_audio_param_mod_rx.wf()
    }

    /// Empty queues for a freshly activated plugin.
    pub fn new() -> (q: Self)
        ensures
            q.wf(),
            q.audio_to_main_param_value_tx.view_spec().len() == 0,
            q.ui_to_audio_param_value_rx.view_spec().len() == 0,
            q.ui_to_audio_param_mod_rx.view_spec().len() == 0,
    {
        ParamQueuesAudioThread {
            audio_to_main_param_value_tx: ReducingQueue::new(),
            ui_to_audio_param_value_rx: ReducingQueue::new(),
            ui_to_audio_param_mod_rx: ReducingQueue::new(),
        }
    }

    /// Drains the pending UI writes into the plugin's input event buffer:
    /// one value event per written parameter, then one modulation event per
    /// modulated parameter, all at frame 0.  Returns whether any event was
    /// delivered.
    pub fn consume_into_event_buffer(&mut self, buffer: &mut ProcEventQueue) -> (has_param_in_event:
        bool)
        ensures
            final(buffer).view_spec() == old(buffer).view_spec() + param_value_events(
                old(self).ui_to_audio_param_value_rx.view_spec(),
            ) + param_mod_events(old(self).ui_to_audio_param_mod_rx.view_spec()),
            final(buffer).capacity_spec() == old(buffer).capacity_spec(),
            has_param_in_event == (old(self).ui_to_audio_param_value_rx.view_spec().len() > 0 || old(self).ui_to_audio_param_mod_rx.view_spec().len() > 0),
            final(self).ui_to_audio_param_value_rx.view_spec().len() == 0,
            final(self).ui_to_audio_param_mod_rx.view_spec().len() == 0,
            final(self).audio_to_main_param_value_tx == old(self).audio_to_main_param_value_tx,
            old(self).wf() ==> final(self).wf(),
    {
        let mut has_param_in_event = false;

        let values = self.ui_to_audio_param_value_rx.consume();
        if values.len() > 0 {
            has_param_in_event = true;
        }
        let n = values.len();
        let mut i: usize = 0;
        while i < n
            invariant
                n == values@.len(),
                i <= n,
                buffer.view_spec() == old(buffer).view_spec() + param_value_events(
                    values@.take(i as int),
                ),
                buffer.capacity_spec() == old(buffer).capacity_spec(),
            decreases n - i,
        {
            let (key, v) = values[i];
            let ev = EventParamValue {
                time: 0,
                param_id: key,
                note_id: -1i32,
                port_index: -1i16,
                channel: -1i16,
                key: -1i16,
                value_bits: v.value_bits,
            };
            buffer.push(ProcEvent::ParamValue(ev, None));
            proof {
                assert(values@.take(i + 1) =~= values@.take(i as int).push(values@[i as int]));
                assert(param_value_events(values@.take(i + 1)) =~= param_value_events(
                    values@.take(i as int),
                ).push(param_value_event_spec(key, v)));
                assert(buffer.view_spec() =~= old(buffer).view_spec() + param_value_events(
                    values@.take(i + 1),
                ));
            }
            i = i + 1;
        }
        proof {
            assert(values@.take(n as int) =~= values@);
        }

        let mods = self.ui_to_audio_param_mod_rx.consume();
        if mods.len() > 0 {
            has_param_in_event = true;
        }
        let m = mods.len();
        let mut j: usize = 0;
        while j < m
            invariant
                m == mods@.len(),
                j <= m,
                buffer.view_spec() == old(buffer).view_spec() + param_value_events(values@)
                    + param_mod_events(mods@.take(j as int)),
                buffer.capacity_spec() == old(buffer).capacity_spec(),
            decreases m - j,
        {
            let (key, v) = mods[j];
            let ev = EventParamMod {
                time: 0,
                param_id: key,
                note_id: -1i32,
                port_index: -1i16,
                channel: -1i16,
                key: -1i16,
                amount_bits: v.value_bits,
            };
            buffer.push(ProcEvent::ParamMod(ev, None));
            proof {
                assert(mods@.take(j + 1) =~= mods@.take(j as int).push(mods@[j as int]));
                assert(param_mod_events(mods@.take(j + 1)) =~= param_mod_events(
                    mods@.take(j as int),
                ).push(param_mod_event_spec(key, v)));
                assert(buffer.view_spec() =~= old(buffer).view_spec() + param_value_events(values@)
                    + param_mod_events(mods@.take(j + 1)));
            }
            j = j + 1;
        }
        proof {
            assert(mods@.take(m as int) =~= mods@);
        }

        has_param_in_event
    }
}

} // verus!
