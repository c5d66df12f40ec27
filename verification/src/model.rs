//! Data model of the bridge: a typed change-feed update event and the
//! channel payload it is reshaped into.
//!
//! The change feed is schemaless, so an update is modelled as a typed
//! envelope: a namespace, a document id, and an ordered mapping from
//! dotted field path to tagged scalar value.

use vstd::pervasive::VecAdditionalExecFns;
use vstd::prelude::*;
use vstd::string::*;

use crate::text::{push_char, spec_has_prefix, str_eq, str_strip_prefix};

verus! {

/// One scalar value carried by a changed field.
#[derive(Debug)]
pub enum FieldValue {
    Null,
    Bool(bool),
    Int32(i32),
    Int64(i64),
    Str(String),
    /// A timestamp, as milliseconds since the Unix epoch.
    DateTime(i64),
}

/// Mathematical model of a [`FieldValue`].
pub enum FieldValueView {
    Null,
    Bool(bool),
    Int32(i32),
    Int64(i64),
    Str(Seq<char>),
    DateTime(i64),
}

impl View for FieldValue {
    type V = FieldValueView;

    open spec fn view(&self) -> FieldValueView {
        match self {
            FieldValue::Null => FieldValueView::Null,
            FieldValue::Bool(b) => FieldValueView::Bool(*b),
            FieldValue::Int32(n) => FieldValueView::Int32(*n),
            FieldValue::Int64(n) => FieldValueView::Int64(*n),
            FieldValue::Str(s) => FieldValueView::Str(s@),
            FieldValue::DateTime(ms) => FieldValueView::DateTime(*ms),
        }
    }
}

impl FieldValue {
    /// Value equality, characterised over the views.
    pub fn same_as(&self, other: &FieldValue) -> (r: bool)
        ensures
            r == (self@ == other@),
    {
        match (self, other) {
            (FieldValue::Null, FieldValue::Null) => true,
            (FieldValue::Bool(a), FieldValue::Bool(b)) => a == b,
            (FieldValue::Int32(a), FieldValue::Int32(b)) => a == b,
            (FieldValue::Int64(a), FieldValue::Int64(b)) => a == b,
            (FieldValue::Str(a), FieldValue::Str(b)) => str_eq(a.as_str(), b.as_str()),
            (FieldValue::DateTime(a), FieldValue::DateTime(b)) => a == b,
            _ => false,
        }
    }
}

/// The keys of an ordered key/value sequence are pairwise distinct.
pub open spec fn distinct_keys<V>(s: Seq<(Seq<char>, V)>) -> bool {
    forall|i: int, j: int| 0 <= i < j < s.len() ==> s[i].0 != s[j].0
}

/// The value at key `k`, or `None` when the key is absent.
pub open spec fn kv_get<V>(s: Seq<(Seq<char>, V)>, k: Seq<char>) -> Option<V>
    decreases s.len(),
{
    if s.len() == 0 {
        None
    } else if s[0].0 == k {
        Some(s[0].1)
    } else {
        kv_get(s.skip(1), k)
    }
}

/// The index of key `k`, or the length of the sequence when absent.
pub open spec fn kv_index<V>(s: Seq<(Seq<char>, V)>, k: Seq<char>) -> int
    decreases s.len(),
{
    if s.len() == 0 {
        0
    } else if s[0].0 == k {
        0
    } else {
        1 + kv_index(s.skip(1), k)
    }
}

proof fn lemma_kv_index_bounds<V>(s: Seq<(Seq<char>, V)>, k: Seq<char>)
    ensures
        0 <= kv_index(s, k) <= s.len(),
        kv_index(s, k) < s.len() ==> s[kv_index(s, k)].0 == k && kv_get(s, k) == Some(
            s[kv_index(s, k)].1,
        ),
        kv_index(s, k) == s.len() ==> kv_get(s, k) is None,
        forall|j: int| 0 <= j < kv_index(s, k) ==> s[j].0 != k,
    decreases s.len(),
{
    if s.len() > 0 && s[0].0 != k {
        lemma_kv_index_bounds(s.skip(1), k);
        let i = kv_index(s, k);
        assert(i == 1 + kv_index(s.skip(1), k));
        if i < s.len() {
            assert(s.skip(1)[i - 1] == s[i]);
        }
        assert forall|j: int| 0 <= j < i implies s[j].0 != k by {
            if j > 0 {
                assert(s.skip(1)[j - 1] == s[j]);
            }
        }
    }
}

/// The channel payload produced from one update event: the changed
/// values keyed by their tag name, and the changed timestamps keyed by
/// theirs.
#[derive(Debug)]
pub struct MongoDBData {
    val: Vec<(String, FieldValue)>,
    ts: Vec<(String, i64)>,
}

/// Mathematical model of a [`MongoDBData`].
#[verifier::ext_equal]
pub struct MongoDBDataView {
    pub val: Seq<(Seq<char>, FieldValueView)>,
    pub ts: Seq<(Seq<char>, i64)>,
}

impl View for MongoDBData {
    type V = MongoDBDataView;

    closed spec fn view(&self) -> MongoDBDataView {
        MongoDBDataView {
            val: self.val@.map_values(|p: (String, FieldValue)| (p.0@, p.1@)),
            ts: self.ts@.map_values(|p: (String, i64)| (p.0@, p.1)),
        }
    }
}

impl MongoDBData {
    /// Both mappings hold each key at most once.
    pub open spec fn wf(&self) -> bool {
        distinct_keys(self@.val) && distinct_keys(self@.ts)
    }

    /// An empty payload.  The capacity is only a sizing hint.
    pub fn with_capacity(capacity: usize) -> (r: Self)
        ensures
            r@.val == Seq::<(Seq<char>, FieldValueView)>::empty(),
            r@.ts == Seq::<(Seq<char>, i64)>::empty(),
            r.wf(),
    {
        let r = Self { val: Vec::with_capacity(capacity), ts: Vec::with_capacity(capacity) };
        proof {
            assert(r@.val =~= Seq::<(Seq<char>, FieldValueView)>::empty());
            assert(r@.ts =~= Seq::<(Seq<char>, i64)>::empty());
        }
        r
    }

    /// Number of value entries.
    pub fn val_len(&self) -> (n: usize)
        ensures
            n == self@.val.len(),
    {
        self.val.len()
    }

    /// Number of timestamp entries.
    pub fn ts_len(&self) -> (n: usize)
        ensures
            n == self@.ts.len(),
    {
        self.ts.len()
    }

    /// The value entry at position `i`.
    pub fn val_entry(&self, i: usize) -> (r: &(String, FieldValue))
        requires
            i < self@.val.len(),
        ensures
            r.0@ == self@.val[i as int].0,
            r.1@ == self@.val[i as int].1,
    {
        &self.val[i]
    }

    /// The timestamp entry at position `i`.
    pub fn ts_entry(&self, i: usize) -> (r: &(String, i64))
        requires
            i < self@.ts.len(),
        ensures
            r.0@ == self@.ts[i as int].0,
            r.1 == self@.ts[i as int].1,
    {
        &self.ts[i]
    }

    /// The value stored under tag `k`, if any.
    pub fn get_value(&self, k: &str) -> (r: Option<&FieldValue>)
        ensures
            match r {
                Some(v) => kv_get(self@.val, k@) == Some(v@),
                None => kv_get(self@.val, k@) is None,
            },
    {
        let n = self.val.len();
        let mut i: usize = 0;
        proof {
            assert(self@.val.skip(0) =~= self@.val);
        }
        while i < n
            invariant
                n == self.val.len(),
                i <= n,
                kv_get(self@.val, k@) == kv_get(self@.val.skip(i as int), k@),
            decreases n - i,
        {
            proof {
                assert(self@.val.skip(i as int).skip(1) =~= self@.val.skip(i as int + 1));
                assert(self@.val.skip(i as int)[0] == self@.val[i as int]);
            }
            if str_eq(self.val[i].0.as_str(), k) {
                return Some(&self.val[i].1);
            }
            i += 1;
        }
        proof {
            assert(self@.val.skip(n as int) =~= Seq::<(Seq<char>, FieldValueView)>::empty());
        }
        None
    }

    /// The timestamp stored under tag `k`, if any.
    pub fn get_timestamp(&self, k: &str) -> (r: Option<i64>)
        ensures
            match r {
                Some(ms) => kv_get(self@.ts, k@) == Some(ms),
                None => kv_get(self@.ts, k@) is None,
            },
    {
        let n = self.ts.len();
        let mut i: usize = 0;
        proof {
            assert(self@.ts.skip(0) =~= self@.ts);
        }
        while i < n
            invariant
                n == self.ts.len(),
                i <= n,
                kv_get(self@.ts, k@) == kv_get(self@.ts.skip(i as int), k@),
            decreases n - i,
        {
            proof {
                assert(self@.ts.skip(i as int).skip(1) =~= self@.ts.skip(i as int + 1));
                assert(self@.ts.skip(i as int)[0] == self@.ts[i as int]);
            }
            if str_eq(self.ts[i].0.as_str(), k) {
                return Some(self.ts[i].1);
            }
            i += 1;
        }
        proof {
            assert(self@.ts.skip(n as int) =~= Seq::<(Seq<char>, i64)>::empty());
        }
        None
    }

    /// Inserts a value under tag `k`, replacing and returning any value
    /// already stored there.
    pub fn insert_value(&mut self, k: String, v: FieldValue) -> (r: Option<FieldValue>)
        ensures
            ({
                let i = kv_index(old(self)@.val, k@);
                &&& (i < old(self)@.val.len() ==> final(self)@.val == old(self)@.val.update(
                    i,
                    (k@, v@),
                ) && (r matches Some(w) && w@ == old(self)@.val[i].1))
                &&& (i == old(self)@.val.len() ==> final(self)@.val == old(self)@.val.push((k@, v@))
                    && r is None)
            }),
            final(self)@.ts == old(self)@.ts,
            old(self).wf() ==> final(self).wf(),
    {
        proof {
            lemma_kv_index_bounds(self@.val, k@);
        }
        let ghost gi = kv_index(self@.val, k@);
        let n = self.val.len();
        let mut i: usize = 0;
        while i < n
            invariant
                self == old(self),
                n == self.val.len(),
                i <= n,
                gi == kv_index(self@.val, k@),
                0 <= gi <= n,
                forall|j: int| 0 <= j < gi ==> self@.val[j].0 != k@,
                gi < n ==> self@.val[gi].0 == k@,
                i <= gi,
            decreases n - i,
        {
            let eq = str_eq(self.val[i].0.as_str(), k.as_str());
            proof {
                assert(self@.val[i as int].0 == self.val@[i as int].0@);
            }
            if eq {
                proof {
                    assert(self@.val[i as int].0 == k@);
                    assert(i == gi);
                }
                let mut pair = (k, v);
                self.val.set_and_swap(i, &mut pair);
                proof {
                    assert(self@.val =~= old(self)@.val.update(gi, (k@, v@)));
                    assert(self@.ts =~= old(self)@.ts);
                    if old(self).wf() {
                        assert forall|a: int, b: int|
                            0 <= a < b < self@.val.len() implies self@.val[a].0 != self@.val[b].0
                        by {
                            assert(self@.val[a].0 == old(self)@.val[a].0);
                            assert(self@.val[b].0 == old(self)@.val[b].0);
                        }
                    }
                }
                return Some(pair.1);
            }
            proof {
                assert(self@.val[i as int].0 != k@);
            }
            i += 1;
        }
        self.val.push((k, v));
        proof {
            assert(self@.val =~= old(self)@.val.push((k@, v@)));
            assert(self@.ts =~= old(self)@.ts);
            if old(self).wf() {
                assert forall|a: int, b: int|
                    0 <= a < b < self@.val.len() implies self@.val[a].0 != self@.val[b].0 by {
                    if b == self@.val.len() - 1 {
                        assert(self@.val[a].0 == old(self)@.val[a].0);
                    }
                }
            }
        }
        None
    }

    /// Inserts a timestamp under tag `k`, replacing and returning any
    /// timestamp already stored there.
    pub fn insert_timestamp(&mut self, k: String, ms: i64) -> (r: Option<i64>)
        ensures
            ({
                let i = kv_index(old(self)@.ts, k@);
                &&& (i < old(self)@.ts.len() ==> final(self)@.ts == old(self)@.ts.update(
                    i,
                    (k@, ms),
                ) && r == Some(old(self)@.ts[i].1))
                &&& (i == old(self)@.ts.len() ==> final(self)@.ts == old(self)@.ts.push((k@, ms))
                    && r is None)
            }),
            final(self)@.val == old(self)@.val,
            old(self).wf() ==> final(self).wf(),
    {
        proof {
            lemma_kv_index_bounds(self@.ts, k@);
        }
        let ghost gi = kv_index(self@.ts, k@);
        let n = self.ts.len();
        let mut i: usize = 0;
        while i < n
            invariant
                self == old(self),
                n == self.ts.len(),
                i <= n,
                gi == kv_index(self@.ts, k@),
                0 <= gi <= n,
                forall|j: int| 0 <= j < gi ==> self@.ts[j].0 != k@,
                gi < n ==> self@.ts[gi].0 == k@,
                i <= gi,
            decreases n - i,
        {
            let eq = str_eq(self.ts[i].0.as_str(), k.as_str());
            proof {
                assert(self@.ts[i as int].0 == self.ts@[i as int].0@);
            }
            if eq {
                proof {
                    assert(self@.ts[i as int].0 == k@);
                    assert(i == gi);
                }
                let mut pair = (k, ms);
                self.ts.set_and_swap(i, &mut pair);
                proof {
                    assert(self@.ts =~= old(self)@.ts.update(gi, (k@, ms)));
                    assert(self@.val =~= old(self)@.val);
                    if old(self).wf() {
                        assert forall|a: int, b: int|
                            0 <= a < b < self@.ts.len() implies self@.ts[a].0 != self@.ts[b].0
                        by {
                            assert(self@.ts[a].0 == old(self)@.ts[a].0);
                            assert(self@.ts[b].0 == old(self)@.ts[b].0);
                        }
                    }
                }
                return Some(pair.1);
            }
            proof {
                assert(self@.ts[i as int].0 != k@);
            }
            i += 1;
        }
        self.ts.push((k, ms));
        proof {
            assert(self@.ts =~= old(self)@.ts.push((k@, ms)));
            assert(self@.val =~= old(self)@.val);
            if old(self).wf() {
                assert forall|a: int, b: int|
                    0 <= a < b < self@.ts.len() implies self@.ts[a].0 != self@.ts[b].0 by {
                    if b == self@.ts.len() - 1 {
                        assert(self@.ts[a].0 == old(self)@.ts[a].0);
                    }
                }
            }
        }
        None
    }
}

/// One observed update of a document: the namespace it lives in, its
/// id, and the mapping from changed-field path to new value.
#[derive(Debug)]
pub struct UpdateEvent {
    pub ns_db: String,
    pub ns_coll: String,
    pub document_id: String,
    pub updated_fields: Vec<(String, FieldValue)>,
}

/// Mathematical model of an [`UpdateEvent`].
#[verifier::ext_equal]
pub struct UpdateEventView {
    pub ns_db: Seq<char>,
    pub ns_coll: Seq<char>,
    pub document_id: Seq<char>,
    pub updated_fields: Seq<(Seq<char>, FieldValueView)>,
}

impl View for UpdateEvent {
    type V = UpdateEventView;

    open spec fn view(&self) -> UpdateEventView {
        UpdateEventView {
            ns_db: self.ns_db@,
            ns_coll: self.ns_coll@,
            document_id: self.document_id@,
            updated_fields: self.updated_fields@.map_values(
                |p: (String, FieldValue)| (p.0@, p.1@),
            ),
        }
    }
}

/// The path prefix that marks a changed field as a value.
pub open spec fn spec_val_prefix() -> Seq<char> {
    seq!['v', 'a', 'l', '.']
}

/// The path prefix that marks a changed field as a timestamp.
pub open spec fn spec_ts_prefix() -> Seq<char> {
    seq!['t', 's', '.']
}

/// The value entries of the payload: fields whose path starts with the
/// value prefix, keyed by the path minus that prefix, in field order.
pub open spec fn spec_values_of(fields: Seq<(Seq<char>, FieldValueView)>) -> Seq<
    (Seq<char>, FieldValueView),
>
    decreases fields.len(),
{
    if fields.len() == 0 {
        Seq::empty()
    } else {
        let init = spec_values_of(fields.drop_last());
        let last = fields.last();
        if spec_has_prefix(last.0, spec_val_prefix()) {
            init.push((last.0.skip(spec_val_prefix().len() as int), last.1))
        } else {
            init
        }
    }
}

/// The timestamp entries of the payload: fields whose path starts with
/// the timestamp prefix and whose value is a timestamp, keyed by the
/// path minus that prefix, in field order.  A timestamp-prefixed field
/// holding anything but a timestamp is dropped.
pub open spec fn spec_timestamps_of(fields: Seq<(Seq<char>, FieldValueView)>) -> Seq<
    (Seq<char>, i64),
>
    decreases fields.len(),
{
    if fields.len() == 0 {
        Seq::empty()
    } else {
        let init = spec_timestamps_of(fields.drop_last());
        let last = fields.last();
        if spec_has_prefix(last.0, spec_ts_prefix()) && last.1 is DateTime {
            init.push((last.0.skip(spec_ts_prefix().len() as int), last.1->DateTime_0))
        } else {
            init
        }
    }
}

/// The channel name of an event: `<db>.<coll>:<id>`.  The same
/// rendering keys the lookup path, so channel identity is preserved.
pub open spec fn spec_channel_of(e: UpdateEventView) -> Seq<char> {
    e.ns_db + seq!['.'] + e.ns_coll + seq![':'] + e.document_id
}

/// Some entry of the sequence bears key `k`.
pub open spec fn has_key<V>(s: Seq<(Seq<char>, V)>, k: Seq<char>) -> bool {
    exists|i: int| 0 <= i < s.len() && s[i].0 == k
}

/// With pairwise-distinct field paths, both payload mappings have
/// pairwise-distinct keys, and every payload key is the strip of a
/// correspondingly prefixed field path.
pub proof fn lemma_transform_distinct(fields: Seq<(Seq<char>, FieldValueView)>)
    requires
        distinct_keys(fields),
    ensures
        distinct_keys(spec_values_of(fields)),
        distinct_keys(spec_timestamps_of(fields)),
        forall|k: Seq<char>| #[trigger] has_key(spec_values_of(fields), k) ==> has_key(
            fields,
            spec_val_prefix() + k,
        ),
        forall|k: Seq<char>| #[trigger] has_key(spec_timestamps_of(fields), k) ==> has_key(
            fields,
            spec_ts_prefix() + k,
        ),
    decreases fields.len(),
{
    if fields.len() > 0 {
        let dl = fields.drop_last();
        let last = fields.last();
        assert(distinct_keys(dl)) by {
            assert(forall|i: int| 0 <= i < dl.len() ==> dl[i] == fields[i]);
        }
        lemma_transform_distinct(dl);
        assert(forall|i: int| 0 <= i < dl.len() ==> dl[i] == fields[i]);
        assert forall|x: Seq<char>| has_key(dl, x) implies has_key(fields, x) by {
            let i = choose|i: int| 0 <= i < dl.len() && dl[i].0 == x;
            assert(fields[i].0 == x);
        }
        let vinit = spec_values_of(dl);
        let tinit = spec_timestamps_of(dl);
        if spec_has_prefix(last.0, spec_val_prefix()) {
            let suffix = last.0.skip(spec_val_prefix().len() as int);
            assert(spec_val_prefix() + suffix =~= last.0);
            let out = vinit.push((suffix, last.1));
            assert(spec_values_of(fields) == out);
            assert(!has_key(vinit, suffix)) by {
                if has_key(vinit, suffix) {
                    assert(has_key(dl, spec_val_prefix() + suffix));
                    let i = choose|i: int|
                        0 <= i < dl.len() && dl[i].0 == spec_val_prefix() + suffix;
                    assert(fields[i].0 == last.0);
                    assert(fields[i].0 == fields[fields.len() - 1].0);
                    assert(false);
                }
            }
            assert forall|a: int, b: int| 0 <= a < b < out.len() implies out[a].0 != out[b].0 by {
                if b == out.len() - 1 {
                    if out[a].0 == suffix {
                        assert(vinit[a].0 == suffix);
                        assert(has_key(vinit, suffix));
                    }
                }
            }
            assert forall|k: Seq<char>| #[trigger] has_key(out, k) implies has_key(
                fields,
                spec_val_prefix() + k,
            ) by {
                let j = choose|j: int| 0 <= j < out.len() && out[j].0 == k;
                if j < vinit.len() {
                    assert(vinit[j].0 == k);
                    assert(has_key(vinit, k));
                } else {
                    assert(k == suffix);
                    assert(fields[fields.len() - 1].0 == spec_val_prefix() + k);
                }
            }
        } else {
            assert(spec_values_of(fields) == vinit);
        }
        if spec_has_prefix(last.0, spec_ts_prefix()) && last.1 is DateTime {
            let suffix = last.0.skip(spec_ts_prefix().len() as int);
            assert(spec_ts_prefix() + suffix =~= last.0);
            let out = tinit.push((suffix, last.1->DateTime_0));
            assert(spec_timestamps_of(fields) == out);
            assert(!has_key(tinit, suffix)) by {
                if has_key(tinit, suffix) {
                    assert(has_key(dl, spec_ts_prefix() + suffix));
                    let i = choose|i: int|
                        0 <= i < dl.len() && dl[i].0 == spec_ts_prefix() + suffix;
                    assert(fields[i].0 == last.0);
                    assert(fields[i].0 == fields[fields.len() - 1].0);
                    assert(false);
                }
            }
            assert forall|a: int, b: int| 0 <= a < b < out.len() implies out[a].0 != out[b].0 by {
                if b == out.len() - 1 {
                    if out[a].0 == suffix {
                        assert(tinit[a].0 == suffix);
                        assert(has_key(tinit, suffix));
                    }
                }
            }
            assert forall|k: Seq<char>| #[trigger] has_key(out, k) implies has_key(
                fields,
                spec_ts_prefix() + k,
            ) by {
                let j = choose|j: int| 0 <= j < out.len() && out[j].0 == k;
                if j < tinit.len() {
                    assert(tinit[j].0 == k);
                    assert(has_key(tinit, k));
                } else {
                    assert(k == suffix);
                    assert(fields[fields.len() - 1].0 == spec_ts_prefix() + k);
                }
            }
        } else {
            assert(spec_timestamps_of(fields) == tinit);
        }
    }
}

/// Law: a changed field that contributes nothing -- its path has no
/// value prefix, and it is not a timestamp-prefixed timestamp -- can be
/// removed without changing the payload at all.
pub proof fn lemma_inert_field_removed(fields: Seq<(Seq<char>, FieldValueView)>, i: int)
    requires
        0 <= i < fields.len(),
        !spec_has_prefix(fields[i].0, spec_val_prefix()),
        !(spec_has_prefix(fields[i].0, spec_ts_prefix()) && fields[i].1 is DateTime),
    ensures
        spec_values_of(fields.remove(i)) == spec_values_of(fields),
        spec_timestamps_of(fields.remove(i)) == spec_timestamps_of(fields),
    decreases fields.len(),
{
    let dl = fields.drop_last();
    if i == fields.len() - 1 {
        assert(fields.remove(i) =~= dl);
    } else {
        assert(fields.remove(i).drop_last() =~= dl.remove(i));
        assert(fields.remove(i).last() == fields.last());
        assert(dl[i] == fields[i]);
        lemma_inert_field_removed(dl, i);
        assert(fields.remove(i).len() > 0);
    }
}

/// Law: a changed field whose path has neither the value prefix nor the
/// timestamp prefix never appears in the payload: removing it changes
/// neither mapping.
pub proof fn lemma_unprefixed_field_dropped(fields: Seq<(Seq<char>, FieldValueView)>, i: int)
    requires
        0 <= i < fields.len(),
        !spec_has_prefix(fields[i].0, spec_val_prefix()),
        !spec_has_prefix(fields[i].0, spec_ts_prefix()),
    ensures
        spec_values_of(fields.remove(i)) == spec_values_of(fields),
        spec_timestamps_of(fields.remove(i)) == spec_timestamps_of(fields),
{
    lemma_inert_field_removed(fields, i);
}

/// Law: a timestamp-prefixed field whose value is not a timestamp is
/// dropped on its own: removing it changes neither mapping, so no other
/// field is affected.
pub proof fn lemma_non_timestamp_field_dropped(fields: Seq<(Seq<char>, FieldValueView)>, i: int)
    requires
        0 <= i < fields.len(),
        spec_has_prefix(fields[i].0, spec_ts_prefix()),
        !(fields[i].1 is DateTime),
    ensures
        spec_values_of(fields.remove(i)) == spec_values_of(fields),
        spec_timestamps_of(fields.remove(i)) == spec_timestamps_of(fields),
{
    assert(!spec_has_prefix(fields[i].0, spec_val_prefix())) by {
        if spec_has_prefix(fields[i].0, spec_val_prefix()) {
            assert(fields[i].0.take(spec_val_prefix().len() as int)[0] == 'v');
            assert(fields[i].0.take(spec_ts_prefix().len() as int)[0] == 't');
            assert(fields[i].0[0] == 'v');
            assert(fields[i].0[0] == 't');
        }
    }
    lemma_inert_field_removed(fields, i);
}

/// Law: the transformation is deterministic and side-effect free; it
/// is a pure function of the event's model, so equal events always
/// yield the equal channel and payload.
pub proof fn lemma_transform_deterministic(a: UpdateEventView, b: UpdateEventView)
    requires
        a == b,
    ensures
        spec_channel_of(a) == spec_channel_of(b),
        spec_values_of(a.updated_fields) == spec_values_of(b.updated_fields),
        spec_timestamps_of(a.updated_fields) == spec_timestamps_of(b.updated_fields),
{
}

/// Law: the channel an update is published on and the channel-name
/// prefix the subscribe path strips share one namespace rendering:
/// stripping `<db>.<coll>:` from the published channel yields exactly
/// the document id, so channel identity is preserved across the two
/// paths.
pub proof fn lemma_channel_identity(e: UpdateEventView)
    ensures
        spec_has_prefix(spec_channel_of(e), e.ns_db + seq!['.'] + e.ns_coll + seq![':']),
        spec_channel_of(e).skip((e.ns_db + seq!['.'] + e.ns_coll + seq![':']).len() as int)
            == e.document_id,
{
    let prefix = e.ns_db + seq!['.'] + e.ns_coll + seq![':'];
    let channel = spec_channel_of(e);
    assert(channel.take(prefix.len() as int) =~= prefix);
    assert(channel.skip(prefix.len() as int) =~= e.document_id);
}

fn clone_value(v: &FieldValue) -> (r: FieldValue)
    ensures
        r@ == v@,
{
    match v {
        FieldValue::Null => FieldValue::Null,
        FieldValue::Bool(b) => FieldValue::Bool(*b),
        FieldValue::Int32(n) => FieldValue::Int32(*n),
        FieldValue::Int64(n) => FieldValue::Int64(*n),
        FieldValue::Str(s) => FieldValue::Str(s.clone()),
        FieldValue::DateTime(ms) => FieldValue::DateTime(*ms),
    }
}

impl UpdateEvent {
    /// The changed-field paths are pairwise distinct, as a mapping's
    /// keys are.
    pub open spec fn wf(&self) -> bool {
        distinct_keys(self@.updated_fields)
    }

    /// Reshapes the event into its channel name and channel payload.
    ///
    /// Value-prefixed fields land in the payload's values under their
    /// stripped path; timestamp-prefixed fields holding a timestamp
    /// land in its timestamps; every other field is dropped.
    pub fn into_centrifugo(self) -> (r: (String, MongoDBData))
        ensures
            r.0@ == spec_channel_of(self@),
            r.1@.val == spec_values_of(self@.updated_fields),
            r.1@.ts == spec_timestamps_of(self@.updated_fields),
            self.wf() ==> r.1.wf(),
    {
        let ghost fields = self@.updated_fields;
        let n = self.updated_fields.len();
        let mut data = MongoDBData::with_capacity(n);
        let mut i: usize = 0;
        proof {
            assert(fields.take(0) =~= Seq::<(Seq<char>, FieldValueView)>::empty());
        }
        while i < n
            invariant
                n == self.updated_fields.len(),
                i <= n,
                fields == self@.updated_fields,
                data@.val == spec_values_of(fields.take(i as int)),
                data@.ts == spec_timestamps_of(fields.take(i as int)),
            decreases n - i,
        {
            proof {
                assert(fields.take(i as int + 1).drop_last() =~= fields.take(i as int));
                assert(fields.take(i as int + 1).last() == fields[i as int]);
                reveal_strlit("val.");
                reveal_strlit("ts.");
                assert("val."@ =~= spec_val_prefix());
                assert("ts."@ =~= spec_ts_prefix());
            }
            let key = &self.updated_fields[i].0;
            let value = &self.updated_fields[i].1;
            proof {
                assert(fields[i as int].0 == key@);
                assert(fields[i as int].1 == value@);
            }
            if let Some(data_key) = str_strip_prefix(key.as_str(), "val.") {
                let ghost prev = data@.val;
                data.val.push((data_key, clone_value(value)));
                proof {
                    assert(data@.val =~= prev.push((fields[i as int].0.skip(4), fields[i as int].1)));
                    assert(data@.ts == spec_timestamps_of(fields.take(i as int + 1)));
                }
            } else if let Some(ts_key) = str_strip_prefix(key.as_str(), "ts.") {
                if let FieldValue::DateTime(ms) = value {
                    let ghost prev = data@.ts;
                    data.ts.push((ts_key, *ms));
                    proof {
                        assert(data@.ts =~= prev.push((fields[i as int].0.skip(3), fields[i as int].1->DateTime_0)));
                        assert(data@.val == spec_values_of(fields.take(i as int + 1)));
                    }
                }
            }
            i += 1;
        }
        proof {
            assert(fields.take(n as int) =~= fields);
            if self.wf() {
                lemma_transform_distinct(fields);
            }
        }
        let mut channel = String::new();
        channel.append(self.ns_db.as_str());
        push_char(&mut channel, '.');
        channel.append(self.ns_coll.as_str());
        push_char(&mut channel, ':');
        channel.append(self.document_id.as_str());
        proof {
            assert(channel@ =~= spec_channel_of(self@));
        }
        (channel, data)
    }
}

} // verus!
