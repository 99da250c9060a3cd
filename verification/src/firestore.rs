//! The wire vocabulary: the closed set of value kinds that a document field
//! can hold, and the string-keyed map that documents and map values share.

use crate::serialize::error::{SerializationError, SpecSerializationError};
use crate::text::str_eq;
use prost::Message;
use vstd::prelude::*;
use vstd::std_specs::cmp::PartialEqSpecImpl;

verus! {

/// A point in time as the wire carries it.
#[derive(Clone, Copy, Debug, PartialEq, Eq, Structural)]
pub struct Timestamp {
    /// Whole seconds since the Unix epoch.
    pub seconds: i64,
    /// Fraction of a second, in nanoseconds.
    pub nanos: i32,
}

/// What `prost` reports for bytes that are no message. Opaque here.
#[verifier::external_type_specification]
#[verifier::external_body]
pub struct ExDecodeError(prost::DecodeError);

/// The bytes that `prost` encodes the timestamp message with these two
/// fields to: the canonical binary layout of a timestamp.
pub uninterp spec fn timestamp_encoding(seconds: i64, nanos: i32) -> Seq<u8>;

/// The two fields of the timestamp message that `prost` decodes `bytes` to,
/// or `None` where it reports that they are no such message.
pub uninterp spec fn timestamp_decoding(bytes: Seq<u8>) -> Option<(i64, i32)>;

impl Timestamp {
    /// Wraps `prost::Message::encode_to_vec` on `prost_types::Timestamp`. The
    /// contract names the bytes that come back, and claims that `prost`
    /// decodes them to the two fields they were made from, whatever the
    /// fields hold.
    #[verifier::external_body]
    pub(crate) fn encode_to_vec(&self) -> (bytes: Vec<u8>)
        ensures
            bytes@ == timestamp_encoding(self.seconds, self.nanos),
            timestamp_decoding(bytes@) == Some((self.seconds, self.nanos)),
    {
        prost_types::Timestamp { seconds: self.seconds, nanos: self.nanos }.encode_to_vec()
    }

    /// Wraps `prost::Message::decode` on `prost_types::Timestamp`. The
    /// contract names what comes back: the two fields on success, nothing
    /// where `prost` reports an error.
    #[verifier::external_body]
    pub(crate) fn decode(bytes: &[u8]) -> (decoded: Result<Timestamp, prost::DecodeError>)
        ensures
            decoded matches Ok(t) ==> timestamp_decoding(bytes@) == Some((t.seconds, t.nanos)),
            decoded is Err ==> timestamp_decoding(bytes@) is None,
    {
        match prost_types::Timestamp::decode(bytes) {
            Ok(t) => Ok(Timestamp { seconds: t.seconds, nanos: t.nanos }),
            Err(e) => Err(e),
        }
    }

    /// The canonical binary layout of this timestamp.
    pub fn to_bytes(&self) -> (bytes: Vec<u8>)
        ensures
            bytes@ == timestamp_encoding(self.seconds, self.nanos),
            timestamp_decoding(bytes@) == Some((self.seconds, self.nanos)),
    {
        self.encode_to_vec()
    }

    /// The timestamp that `bytes` are the binary layout of, if they are one.
    pub fn from_bytes(bytes: &[u8]) -> (decoded: Option<Timestamp>)
        ensures
            match timestamp_decoding(bytes@) {
                Some((seconds, nanos)) => decoded == Some(Timestamp { seconds, nanos }),
                None => decoded is None,
            },
    {
        match Timestamp::decode(bytes) {
            Ok(t) => Some(t),
            Err(_) => None,
        }
    }
}

/// One value on the wire. Exactly one kind is populated; `Unset` stands for a
/// value that arrived with no kind populated at all.
#[derive(Debug)]
pub enum WireValue {
    /// No kind is populated. The encoder never produces this.
    Unset,
    NullValue,
    BooleanValue(bool),
    IntegerValue(i64),
    /// A double, held as its IEEE 754 binary64 bit pattern.
    DoubleValue(u64),
    TimestampValue(Timestamp),
    StringValue(String),
    BytesValue(Vec<u8>),
    /// A reference to another document. Passed through; never produced by the encoder.
    ReferenceValue(String),
    /// A point on the globe, as the bit patterns of latitude and longitude.
    /// Passed through; never produced by the encoder.
    GeoPointValue(u64, u64),
    ArrayValue(Vec<WireValue>),
    MapValue(FieldMap),
}

/// A map from field names to values in which no name occurs twice. The
/// entries keep the order in which their names were first inserted.
#[derive(Debug)]
pub struct FieldMap {
    entries: Vec<(String, WireValue)>,
}

/// A document: a named container for the fields of one map.
#[derive(Debug, PartialEq)]
pub struct Document {
    /// The resource name of the document; empty for a document made here.
    pub name: String,
    pub fields: FieldMap,
    pub create_time: Option<Timestamp>,
    pub update_time: Option<Timestamp>,
}

impl Document {
    /// The document that holds `fields` and nothing else.
    pub fn with_fields(fields: FieldMap) -> (document: Document)
        ensures
            document.bare(),
            document.fields@ == fields@,
    {
        Document { name: String::new(), fields, create_time: None, update_time: None }
    }

    /// The document that holds the fields of `value`, which must be a map.
    pub fn from_value(value: WireValue) -> (document: Result<Document, SerializationError>)
        ensures
            match value@ {
                SpecValue::MapValue(fields) => document matches Ok(d) && d.fields@ == fields
                    && d.bare(),
                _ => document matches Err(e) && e@ == SpecSerializationError::NotAMap,
            },
    {
        match value {
            WireValue::MapValue(fields) => Ok(Document::with_fields(fields)),
            _ => Err(SerializationError::NotAMap),
        }
    }

    /// The map value that holds the fields of this document.
    pub fn into_value(self) -> (value: WireValue)
        ensures
            value@ == SpecValue::MapValue(self.fields@),
    {
        WireValue::MapValue(self.fields)
    }

    /// The document has no name and no times.
    pub open spec fn bare(&self) -> bool {
        &&& self.name@ == Seq::<char>::empty()
        &&& self.create_time is None
        &&& self.update_time is None
    }
}

/// The mathematical model of a [`WireValue`].
pub ghost enum SpecValue {
    Unset,
    NullValue,
    BooleanValue(bool),
    IntegerValue(i64),
    DoubleValue(u64),
    TimestampValue(Timestamp),
    StringValue(Seq<char>),
    BytesValue(Seq<u8>),
    ReferenceValue(Seq<char>),
    GeoPointValue(u64, u64),
    ArrayValue(Seq<SpecValue>),
    MapValue(SpecFields),
}

/// The mathematical model of a [`FieldMap`]: its entries in order.
pub type SpecFields = Seq<(Seq<char>, SpecValue)>;

/// No name occurs twice among `fields`.
pub open spec fn distinct_keys(fields: SpecFields) -> bool {
    forall|i: int, j: int|
        0 <= i < j < fields.len() ==> (#[trigger] fields[i]).0 != (#[trigger] fields[j]).0
}

/// Some entry of `fields` is named `key`.
pub open spec fn has_key(fields: SpecFields, key: Seq<char>) -> bool {
    exists|i: int| 0 <= i < fields.len() && (#[trigger] fields[i]).0 == key
}

/// The place of an entry named `key`, where there is one.
pub open spec fn index_of(fields: SpecFields, key: Seq<char>) -> int {
    choose|i: int| 0 <= i < fields.len() && (#[trigger] fields[i]).0 == key
}

/// The value stored under `key`, if any.
pub open spec fn lookup(fields: SpecFields, key: Seq<char>) -> Option<SpecValue> {
    if has_key(fields, key) {
        Some(fields[index_of(fields, key)].1)
    } else {
        None
    }
}

/// `fields` after storing `value` under `key`: an entry of that name is
/// overwritten in place, a new name is appended.
pub open spec fn insert(fields: SpecFields, key: Seq<char>, value: SpecValue) -> SpecFields {
    if has_key(fields, key) {
        fields.update(index_of(fields, key), (key, value))
    } else {
        fields.push((key, value))
    }
}

/// `entries` stored one after the other into an empty map.
pub open spec fn collected(entries: Seq<(Seq<char>, SpecValue)>) -> SpecFields
    decreases entries.len(),
{
    if entries.len() == 0 {
        Seq::empty()
    } else {
        insert(collected(entries.drop_last()), entries.last().0, entries.last().1)
    }
}

/// The models of a run of values, one for one.
pub open spec fn view_values(items: Seq<WireValue>) -> Seq<SpecValue> {
    Seq::new(items.len(), |i: int| items[i]@)
}

/// The model of one value.
pub open spec fn model_of(value: WireValue) -> SpecValue
    decreases value,
{
    match value {
        WireValue::Unset => SpecValue::Unset,
        WireValue::NullValue => SpecValue::NullValue,
        WireValue::BooleanValue(b) => SpecValue::BooleanValue(b),
        WireValue::IntegerValue(v) => SpecValue::IntegerValue(v),
        WireValue::DoubleValue(bits) => SpecValue::DoubleValue(bits),
        WireValue::TimestampValue(t) => SpecValue::TimestampValue(t),
        WireValue::StringValue(s) => SpecValue::StringValue(s@),
        WireValue::BytesValue(b) => SpecValue::BytesValue(b@),
        WireValue::ReferenceValue(s) => SpecValue::ReferenceValue(s@),
        WireValue::GeoPointValue(lat, lng) => SpecValue::GeoPointValue(lat, lng),
        WireValue::ArrayValue(items) => SpecValue::ArrayValue(
            Seq::new(
                items@.len(),
                |i: int|
                    if 0 <= i < items@.len() {
                        model_of(items@[i])
                    } else {
                        SpecValue::Unset
                    },
            ),
        ),
        WireValue::MapValue(m) => SpecValue::MapValue(fields_of(m)),
    }
}

/// The model of one map: its entries in order.
pub closed spec fn fields_of(map: FieldMap) -> SpecFields
    decreases map,
{
    Seq::new(
        map.entries@.len(),
        |i: int|
            if 0 <= i < map.entries@.len() {
                (map.entries@[i].0@, model_of(map.entries@[i].1))
            } else {
                (Seq::empty(), SpecValue::Unset)
            },
    )
}

impl View for WireValue {
    type V = SpecValue;

    open spec fn view(&self) -> SpecValue {
        model_of(*self)
    }
}

impl View for FieldMap {
    type V = SpecFields;

    open spec fn view(&self) -> SpecFields {
        fields_of(*self)
    }
}

/// The model of an array value is the models of its items.
pub proof fn lemma_view_array(items: Vec<WireValue>)
    ensures
        WireValue::ArrayValue(items)@ == SpecValue::ArrayValue(view_values(items@)),
{
    let modelled = WireValue::ArrayValue(items)@->ArrayValue_0;
    assert forall|i: int| 0 <= i < modelled.len() implies modelled[i] == view_values(items@)[i] by {
        assert(modelled[i] == items@[i]@);
    }
    assert(modelled =~= view_values(items@));
}

/// Two values are the same when they are of one kind and hold the same
/// content; for maps, the same names with the same values, in whatever order.
pub open spec fn equivalent(a: SpecValue, b: SpecValue) -> bool
    decreases a,
{
    match a {
        SpecValue::ArrayValue(x) => b matches SpecValue::ArrayValue(y) && x.len() == y.len()
            && forall|i: int| 0 <= i < x.len() ==> equivalent(#[trigger] x[i], y[i]),
        SpecValue::MapValue(x) => b matches SpecValue::MapValue(y) && equivalent_fields(x, y),
        _ => a == b,
    }
}

/// Two maps are the same when they have as many entries and each name of the
/// first stands in the second with the same value.
pub open spec fn equivalent_fields(x: SpecFields, y: SpecFields) -> bool
    decreases x,
{
    x.len() == y.len() && forall|i: int|
        0 <= i < x.len() ==> has_key(y, (#[trigger] x[i]).0) && equivalent(
            x[i].1,
            y[index_of(y, x[i].0)].1,
        )
}

impl WireValue {
    /// A deep copy.
    pub fn duplicate(&self) -> (copy: WireValue)
        ensures
            copy@ == self@,
        decreases self,
    {
        match self {
            WireValue::Unset => WireValue::Unset,
            WireValue::NullValue => WireValue::NullValue,
            WireValue::BooleanValue(b) => WireValue::BooleanValue(*b),
            WireValue::IntegerValue(v) => WireValue::IntegerValue(*v),
            WireValue::DoubleValue(bits) => WireValue::DoubleValue(*bits),
            WireValue::TimestampValue(t) => WireValue::TimestampValue(*t),
            WireValue::StringValue(s) => WireValue::StringValue(s.clone()),
            WireValue::BytesValue(b) => {
                let copy = b.clone();
                assert(copy@ =~= b@);
                WireValue::BytesValue(copy)
            },
            WireValue::ReferenceValue(s) => WireValue::ReferenceValue(s.clone()),
            WireValue::GeoPointValue(lat, lng) => WireValue::GeoPointValue(*lat, *lng),
            WireValue::ArrayValue(items) => {
                let mut copies: Vec<WireValue> = Vec::with_capacity(items.len());
                let mut i: usize = 0;
                while i < items.len()
                    invariant
                        i <= items@.len(),
                        *self == WireValue::ArrayValue(*items),
                        copies@.len() == i,
                        forall|j: int| 0 <= j < i ==> (#[trigger] copies@[j])@ == items@[j]@,
                    decreases items@.len() - i,
                {
                    assert(decreases_to!(self => self->ArrayValue_0@[i as int]));
                    copies.push(items[i].duplicate());
                    i += 1;
                }
                proof {
                    lemma_view_array(*items);
                    lemma_view_array(copies);
                    assert(view_values(copies@) =~= view_values(items@));
                }
                WireValue::ArrayValue(copies)
            },
            WireValue::MapValue(m) => WireValue::MapValue(m.duplicate()),
        }
    }
}

impl WireValue {
    /// Whether two values are the same, maps compared without regard to order.
    pub fn same_value(&self, other: &WireValue) -> (same: bool)
        ensures
            same == equivalent(self@, other@),
        decreases self,
    {
        match (self, other) {
            (WireValue::Unset, WireValue::Unset) => true,
            (WireValue::NullValue, WireValue::NullValue) => true,
            (WireValue::BooleanValue(a), WireValue::BooleanValue(b)) => *a == *b,
            (WireValue::IntegerValue(a), WireValue::IntegerValue(b)) => *a == *b,
            (WireValue::DoubleValue(a), WireValue::DoubleValue(b)) => *a == *b,
            (WireValue::TimestampValue(a), WireValue::TimestampValue(b)) => a.seconds == b.seconds
                && a.nanos == b.nanos,
            (WireValue::StringValue(a), WireValue::StringValue(b)) => str_eq(
                a.as_str(),
                b.as_str(),
            ),
            (WireValue::BytesValue(a), WireValue::BytesValue(b)) => {
                if a.len() != b.len() {
                    return false;
                }
                let mut i: usize = 0;
                while i < a.len()
                    invariant
                        i <= a@.len(),
                        a@.len() == b@.len(),
                        self@ == SpecValue::BytesValue(a@),
                        other@ == SpecValue::BytesValue(b@),
                        forall|j: int| 0 <= j < i ==> a@[j] == b@[j],
                    decreases a@.len() - i,
                {
                    if a[i] != b[i] {
                        return false;
                    }
                    i += 1;
                }
                assert(a@ =~= b@);
                true
            },
            (WireValue::ReferenceValue(a), WireValue::ReferenceValue(b)) => str_eq(
                a.as_str(),
                b.as_str(),
            ),
            (WireValue::GeoPointValue(a, b), WireValue::GeoPointValue(c, d)) => *a == *c && *b
                == *d,
            (WireValue::ArrayValue(a), WireValue::ArrayValue(b)) => {
                proof {
                    lemma_view_array(*a);
                    lemma_view_array(*b);
                }
                if a.len() != b.len() {
                    return false;
                }
                let mut i: usize = 0;
                while i < a.len()
                    invariant
                        i <= a@.len(),
                        a@.len() == b@.len(),
                        *self == WireValue::ArrayValue(*a),
                        self@ == SpecValue::ArrayValue(view_values(a@)),
                        other@ == SpecValue::ArrayValue(view_values(b@)),
                        forall|j: int|
                            0 <= j < i ==> equivalent(
                                #[trigger] view_values(a@)[j],
                                view_values(b@)[j],
                            ),
                    decreases a@.len() - i,
                {
                    assert(decreases_to!(self => self->ArrayValue_0@[i as int]));
                    if !a[i].same_value(&b[i]) {
                        assert(!equivalent(view_values(a@)[i as int], view_values(b@)[i as int]));
                        return false;
                    }
                    i += 1;
                }
                true
            },
            (WireValue::MapValue(a), WireValue::MapValue(b)) => a.same_fields(b),
            _ => false,
        }
    }
}

impl PartialEq for WireValue {
    fn eq(&self, other: &WireValue) -> (same: bool) {
        self.same_value(other)
    }
}

impl PartialEqSpecImpl for WireValue {
    open spec fn obeys_eq_spec() -> bool {
        true
    }

    open spec fn eq_spec(&self, other: &WireValue) -> bool {
        equivalent(self@, other@)
    }
}

impl PartialEq for FieldMap {
    fn eq(&self, other: &FieldMap) -> (same: bool) {
        self.same_fields(other)
    }
}

impl PartialEqSpecImpl for FieldMap {
    open spec fn obeys_eq_spec() -> bool {
        true
    }

    open spec fn eq_spec(&self, other: &FieldMap) -> bool {
        equivalent_fields(self@, other@)
    }
}

impl Clone for WireValue {
    fn clone(&self) -> (copy: WireValue)
        ensures
            copy@ == self@,
    {
        self.duplicate()
    }
}

impl Clone for FieldMap {
    fn clone(&self) -> (copy: FieldMap)
        ensures
            copy@ == self@,
    {
        self.duplicate()
    }
}

impl FieldMap {
    #[verifier::type_invariant]
    spec fn keys_are_distinct(&self) -> bool {
        forall|i: int, j: int|
            0 <= i < j < self.entries@.len() ==> (#[trigger] self.entries@[i]).0@ != (
            #[trigger] self.entries@[j]).0@
    }

    /// The map that holds `entries`, stored one after the other: of two
    /// entries of one name the later one stays.
    pub fn from_entries(entries: Vec<(String, WireValue)>) -> (map: FieldMap)
        ensures
            map@ == collected(Seq::new(entries@.len(), |i: int| (entries@[i].0@, entries@[i].1@))),
    {
        let ghost all = Seq::new(entries@.len(), |i: int| (entries@[i].0@, entries@[i].1@));
        let mut map = FieldMap::with_capacity(entries.len());
        let mut entries = entries;
        let ghost total = entries@.len();
        let mut taken: Vec<(String, WireValue)> = Vec::new();
        // The entries are handed over from the back, so that none is copied.
        while entries.len() > 0
            invariant
                entries@.len() <= total,
                taken@.len() == total - entries@.len(),
                all.len() == total,
                forall|i: int|
                    0 <= i < entries@.len() ==> (#[trigger] entries@[i]).0@ == all[i].0
                        && entries@[i].1@ == all[i].1,
                forall|i: int|
                    0 <= i < taken@.len() ==> (#[trigger] taken@[i]).0@ == all[total - 1 - i].0
                        && taken@[i].1@ == all[total - 1 - i].1,
            decreases entries@.len(),
        {
            let entry = entries.pop().unwrap();
            taken.push(entry);
        }
        let ghost mut done: int = 0;
        while taken.len() > 0
            invariant
                0 <= done <= total,
                all.len() == total,
                taken@.len() == total - done,
                map@ == collected(all.take(done)),
                forall|i: int|
                    0 <= i < taken@.len() ==> (#[trigger] taken@[i]).0@ == all[total - 1 - i].0
                        && taken@[i].1@ == all[total - 1 - i].1,
            decreases taken@.len(),
        {
            let entry = taken.pop().unwrap();
            proof {
                assert(all.take(done + 1).drop_last() =~= all.take(done));
                assert(all.take(done + 1).last() == all[done]);
            }
            map.insert(entry.0, entry.1);
            proof {
                done = done + 1;
            }
        }
        assert(all.take(done) =~= all);
        map
    }

    /// The number of entries. Calling this also brings to the caller that no
    /// name occurs twice.
    pub fn len(&self) -> (n: usize)
        ensures
            n == self@.len(),
            distinct_keys(self@),
    {
        proof {
            use_type_invariant(self);
            assert forall|i: int, j: int| 0 <= i < j < self@.len() implies (#[trigger] self@[i]).0
                != (#[trigger] self@[j]).0 by {
                assert(self.entries@[i].0@ != self.entries@[j].0@);
            }
        }
        self.entries.len()
    }

    /// A deep copy.
    pub fn duplicate(&self) -> (copy: FieldMap)
        ensures
            copy@ == self@,
        decreases self,
    {
        proof {
            use_type_invariant(self);
        }
        let mut copies: Vec<(String, WireValue)> = Vec::with_capacity(self.entries.len());
        let mut i: usize = 0;
        while i < self.entries.len()
            invariant
                i <= self.entries@.len(),
                copies@.len() == i,
                forall|j: int|
                    0 <= j < i ==> (#[trigger] copies@[j]).0@ == self.entries@[j].0@
                        && copies@[j].1@ == self.entries@[j].1@,
            decreases self.entries@.len() - i,
        {
            let key = self.entries[i].0.clone();
            let value = self.entries[i].1.duplicate();
            copies.push((key, value));
            i += 1;
        }
        proof {
            assert forall|i: int, j: int| 0 <= i < j < copies@.len() implies (
            #[trigger] copies@[i]).0@ != (#[trigger] copies@[j]).0@ by {
                assert(self.entries@[i].0@ != self.entries@[j].0@);
            }
        }
        let copy = FieldMap { entries: copies };
        assert(copy@ =~= self@);
        copy
    }

    /// Whether two maps hold the same names with the same values.
    pub fn same_fields(&self, other: &FieldMap) -> (same: bool)
        ensures
            same == equivalent_fields(self@, other@),
        decreases self,
    {
        let n = self.len();
        if n != other.len() {
            return false;
        }
        let mut i: usize = 0;
        while i < n
            invariant
                i <= n,
                n == self@.len(),
                n == self.entries@.len(),
                n == other@.len(),
                forall|j: int|
                    0 <= j < i ==> has_key(other@, (#[trigger] self@[j]).0) && equivalent(
                        self@[j].1,
                        other@[index_of(other@, self@[j].0)].1,
                    ),
            decreases n - i,
        {
            assert(self@[i as int] == (self.entries@[i as int].0@, self.entries@[i as int].1@));
            match other.position(self.entries[i].0.as_str()) {
                None => {
                    return false;
                },
                Some(at) => {
                    if !self.entries[i].1.same_value(other.value_at(at)) {
                        return false;
                    }
                },
            }
            i += 1;
        }
        true
    }

    /// An empty map.
    pub fn new() -> (map: FieldMap)
        ensures
            map@ == Seq::<(Seq<char>, SpecValue)>::empty(),
    {
        let map = FieldMap { entries: Vec::new() };
        assert(map@ =~= Seq::<(Seq<char>, SpecValue)>::empty());
        map
    }

    /// An empty map with room for `capacity` entries.
    pub fn with_capacity(capacity: usize) -> (map: FieldMap)
        ensures
            map@ == Seq::<(Seq<char>, SpecValue)>::empty(),
    {
        let map = FieldMap { entries: Vec::with_capacity(capacity) };
        assert(map@ =~= Seq::<(Seq<char>, SpecValue)>::empty());
        map
    }

    /// The name of the entry at `index`.
    pub fn key_at(&self, index: usize) -> (key: &String)
        requires
            index < self@.len(),
        ensures
            key@ == self@[index as int].0,
    {
        &self.entries[index].0
    }

    /// The value of the entry at `index`.
    pub fn value_at(&self, index: usize) -> (value: &WireValue)
        requires
            index < self@.len(),
        ensures
            value@ == self@[index as int].1,
    {
        &self.entries[index].1
    }

    /// Where the entry named `key` stands, if there is one.
    pub fn position(&self, key: &str) -> (found: Option<usize>)
        ensures
            distinct_keys(self@),
            found is Some <==> has_key(self@, key@),
            found matches Some(i) ==> i < self@.len() && self@[i as int].0 == key@ && i == index_of(
                self@,
                key@,
            ),
    {
        let n = self.len();
        let mut i: usize = 0;
        while i < n
            invariant
                i <= n,
                n == self@.len(),
                n == self.entries@.len(),
                distinct_keys(self@),
                forall|j: int| 0 <= j < i ==> (#[trigger] self@[j]).0 != key@,
            decreases n - i,
        {
            if str_eq(self.entries[i].0.as_str(), key) {
                assert(self@[i as int].0 == key@);
                return Some(i);
            }
            i += 1;
        }
        None
    }

    /// The value stored under `key`, if any.
    pub fn get(&self, key: &str) -> (found: Option<&WireValue>)
        ensures
            distinct_keys(self@),
            found is Some <==> has_key(self@, key@),
            found matches Some(value) ==> lookup(self@, key@) == Some(value@),
    {
        match self.position(key) {
            Some(i) => Some(&self.entries[i].1),
            None => None,
        }
    }

    /// Stores `value` under `key`. An entry of that name is overwritten
    /// where it stands; a new name goes to the end.
    pub fn insert(&mut self, key: String, value: WireValue)
        ensures
            final(self)@ == insert(old(self)@, key@, value@),
    {
        let found = self.position(key.as_str());
        let ghost before = self.entries@;
        let mut entries: Vec<(String, WireValue)> = Vec::new();
        core::mem::swap(&mut self.entries, &mut entries);
        match found {
            Some(i) => {
                entries.set(i, (key, value));
            },
            None => {
                entries.push((key, value));
            },
        }
        proof {
            assert forall|i: int, j: int| 0 <= i < j < entries@.len() implies (
            #[trigger] entries@[i]).0@ != (#[trigger] entries@[j]).0@ by {
                if i < before.len() {
                    assert(old(self)@[i].0 == before[i].0@);
                }
                if j < before.len() {
                    assert(old(self)@[j].0 == before[j].0@);
                }
            }
        }
        core::mem::swap(&mut self.entries, &mut entries);
        assert(self@ =~= insert(old(self)@, key@, value@));
    }
}

} // verus!
