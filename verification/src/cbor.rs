//! CBOR values as the CTAP logic reads and writes them.
//!
//! Bytes are turned into values, and values into bytes, by `serde_cbor`. The logic
//! works on [`CborValue`], which lays open what it looks at (booleans, integers, strings,
//! arrays, and maps by integer and text key) and carries everything else through.

use vstd::prelude::*;

use crate::error::FidoError;
use crate::text::same_text;

verus! {

/// A CBOR value, as a mathematical value. What the logic never looks into (null and
/// floating point) stands as its encoding.
pub enum Cbor {
    Bool(bool),
    Integer(i128),
    Bytes(Seq<u8>),
    Text(Seq<char>),
    Array(Seq<Cbor>),
    Table(Map<CborKey, Cbor>),
    Other(Seq<u8>),
}

/// A key of a CBOR map, as a mathematical value. A key that is neither an integer
/// nor text stands as its encoding.
pub enum CborKey {
    Integer(i128),
    Text(Seq<char>),
    Other(Seq<u8>),
}

/// `serde_cbor::Value`, opaque.
#[verifier::external_type_specification]
#[verifier::external_body]
pub struct ExValue(serde_cbor::Value);

/// `serde_cbor::Error`, opaque.
#[verifier::external_type_specification]
#[verifier::external_body]
pub struct ExError(serde_cbor::Error);

/// What a `serde_cbor::Value` holds.
pub uninterp spec fn contents(value: serde_cbor::Value) -> Cbor;

/// The value that `serde_cbor::from_slice` reads out of the bytes, if it accepts them.
pub uninterp spec fn decoded(bytes: Seq<u8>) -> Option<Cbor>;

/// The bytes that `serde_cbor::to_vec` writes for a value, if it can. A tagged value, which
/// `serde_cbor::from_slice` never gives, counts as one that it cannot write.
pub uninterp spec fn encoded(value: Cbor) -> Option<Seq<u8>>;

/// `serde_cbor::to_vec` has an encoding for the value.
pub open spec fn encodable(value: serde_cbor::Value) -> bool {
    encoded(contents(value)) is Some
}

/// The map key that a `serde_cbor::Value` stands for. The order of
/// `serde_cbor::Value` takes two keys for the same exactly when these agree.
pub open spec fn outside_key(value: serde_cbor::Value) -> CborKey {
    match contents(value) {
        Cbor::Integer(value) => CborKey::Integer(value),
        Cbor::Text(text) => CborKey::Text(text),
        other => CborKey::Other(encoded(other)->0),
    }
}

/// An integer that CBOR can hold.
pub open spec fn integer_in_range(value: i128) -> bool {
    -0x1_0000_0000_0000_0000 <= value < 0x1_0000_0000_0000_0000
}

/// Every integer inside the value is one that CBOR can hold.
pub open spec fn in_range(value: Cbor) -> bool
    decreases value,
{
    match value {
        Cbor::Integer(value) => integer_in_range(value),
        Cbor::Array(items) => forall|i: int| 0 <= i < items.len() ==> in_range(#[trigger] items[i]),
        Cbor::Table(entries) => forall|key: CborKey| #[trigger]
            entries.dom().contains(key) ==> (key matches CborKey::Integer(value)
                ==> integer_in_range(value)) && in_range(entries[key]),
        _ => true,
    }
}

/// The value is at most `depth` arrays and maps deep, those inside map keys counted.
pub open spec fn shallow(value: Cbor, depth: nat) -> bool
    decreases depth,
{
    match value {
        Cbor::Array(items) => depth > 0 && forall|i: int|
            0 <= i < items.len() ==> shallow(#[trigger] items[i], (depth - 1) as nat),
        Cbor::Table(entries) => depth > 0 && forall|key: CborKey| #[trigger]
            entries.dom().contains(key) ==> (key matches CborKey::Other(bytes) ==> decoded(bytes)
                is Some && shallow(decoded(bytes)->0, (depth - 1) as nat)) && shallow(
                entries[key],
                (depth - 1) as nat,
            ),
        _ => true,
    }
}

/// A map that `serde_cbor::from_slice` reads: its integers are in range, and it is at most
/// as deep as is read.
pub open spec fn readable(entries: Map<CborKey, Cbor>) -> bool {
    in_range(Cbor::Table(entries)) && shallow(Cbor::Table(entries), 127)
}

/// One layer of a `serde_cbor::Value`.
enum Node {
    Bool(bool),
    Integer(i128),
    Bytes(Vec<u8>),
    Text(String),
    Array(Vec<serde_cbor::Value>),
    Table(Vec<(serde_cbor::Value, serde_cbor::Value)>),
    Other(serde_cbor::Value),
}

/// A `serde_cbor::Value` in the place of a map key.
enum KeyNode {
    Integer(i128),
    Text(String),
    Other(serde_cbor::Value),
}

/// The layer shows the value: the same scalar, or the same parts.
spec fn shows(node: Node, value: Cbor) -> bool {
    match node {
        Node::Bool(flag) => value == Cbor::Bool(flag),
        Node::Integer(number) => value == Cbor::Integer(number),
        Node::Bytes(bytes) => value == Cbor::Bytes(bytes@),
        Node::Text(text) => value == Cbor::Text(text@),
        Node::Array(items) => value matches Cbor::Array(parts) && parts == items@.map_values(
            |item: serde_cbor::Value| contents(item),
        ),
        Node::Table(entries) => {
            &&& value matches Cbor::Table(parts)
            &&& parts.dom().finite()
            &&& forall|i: int|
                0 <= i < entries@.len() ==> parts.dom().contains(
                    outside_key((#[trigger] entries@[i]).0),
                ) && parts[outside_key(entries@[i].0)] == contents(entries@[i].1)
            &&& forall|key: CborKey| #[trigger]
                parts.dom().contains(key) ==> exists|i: int|
                    0 <= i < entries@.len() && outside_key((#[trigger] entries@[i]).0) == key
            &&& forall|i: int, j: int|
                0 <= i < j < entries@.len() ==> outside_key((#[trigger] entries@[i]).0)
                    != outside_key((#[trigger] entries@[j]).0)
        },
        Node::Other(other) => value is Other && value == contents(other),
    }
}

/// The parts that a layer lays open can all be encoded.
spec fn parts_encodable(node: Node) -> bool {
    match node {
        Node::Array(items) => forall|i: int| 0 <= i < items@.len() ==> encodable(#[trigger] items@[i]),
        Node::Table(entries) => forall|i: int|
            0 <= i < entries@.len() ==> encodable((#[trigger] entries@[i]).0) && encodable(
                entries@[i].1,
            ),
        Node::Other(other) => encodable(other),
        _ => true,
    }
}

/// `serde_cbor::from_slice`: reads the value that the bytes encode, with nothing left
/// over. A value that was read can be written again, its integers are in range, and it is
/// at most 127 arrays and maps deep.
#[verifier::external_body]
fn parse(bytes: &[u8]) -> (result: Result<serde_cbor::Value, serde_cbor::Error>)
    ensures
        match result {
            Ok(value) => decoded(bytes@) == Some(contents(value)) && encodable(value) && in_range(
                contents(value),
            ) && shallow(contents(value), 127),
            Err(_) => decoded(bytes@) is None,
        },
{
    serde_cbor::from_slice(bytes)
}

/// `serde_cbor::to_vec`: writes the encoding of a value that has one. What was written
/// reads back as the value, unless it is deeper than the 127 arrays and maps that
/// `from_slice` accepts.
#[verifier::external_body]
fn write(value: &serde_cbor::Value) -> (result: Result<Vec<u8>, serde_cbor::Error>)
    requires
        encodable(*value),
    ensures
        match result {
            Ok(bytes) => encoded(contents(*value)) == Some(bytes@) && (shallow(
                contents(*value),
                127,
            ) ==> decoded(bytes@) == Some(contents(*value))),
            Err(_) => encoded(contents(*value)) is None,
        },
{
    serde_cbor::to_vec(value)
}

/// Tells the variants of `serde_cbor::Value` apart and hands out what one holds. The
/// parts of a value that can be encoded can be encoded.
#[verifier::external_body]
fn unfold(value: serde_cbor::Value) -> (node: Node)
    requires
        encodable(value),
    ensures
        shows(node, contents(value)),
        parts_encodable(node),
{
    match value {
        serde_cbor::Value::Bool(flag) => Node::Bool(flag),
        serde_cbor::Value::Integer(number) => Node::Integer(number),
        serde_cbor::Value::Bytes(bytes) => Node::Bytes(bytes),
        serde_cbor::Value::Text(text) => Node::Text(text),
        serde_cbor::Value::Array(items) => Node::Array(items),
        serde_cbor::Value::Map(entries) => Node::Table(entries.into_iter().collect()),
        other => Node::Other(other),
    }
}

/// Tells apart the variants of `serde_cbor::Value` that matter in a key.
#[verifier::external_body]
fn unfold_key(value: serde_cbor::Value) -> (node: KeyNode)
    ensures
        match node {
            KeyNode::Integer(number) => contents(value) == Cbor::Integer(number),
            KeyNode::Text(text) => contents(value) == Cbor::Text(text@),
            KeyNode::Other(other) => other == value && !(contents(value) is Integer) && !(contents(
                value,
            ) is Text),
        },
{
    match value {
        serde_cbor::Value::Integer(number) => KeyNode::Integer(number),
        serde_cbor::Value::Text(text) => KeyNode::Text(text),
        other => KeyNode::Other(other),
    }
}

/// Makes the `serde_cbor::Value` of a layer other than a map. It can be encoded when
/// its parts can and an integer is in range.
#[verifier::external_body]
fn fold(node: Node) -> (value: serde_cbor::Value)
    requires
        !(node is Table),
        node matches Node::Integer(number) ==> integer_in_range(number),
        node matches Node::Other(other) ==> contents(other) is Other,
        parts_encodable(node),
    ensures
        shows(node, contents(value)),
        encodable(value),
{
    match node {
        Node::Bool(flag) => serde_cbor::Value::Bool(flag),
        Node::Integer(number) => serde_cbor::Value::Integer(number),
        Node::Bytes(bytes) => serde_cbor::Value::Bytes(bytes),
        Node::Text(text) => serde_cbor::Value::Text(text),
        Node::Array(items) => serde_cbor::Value::Array(items),
        Node::Table(entries) => serde_cbor::Value::Map(entries.into_iter().collect()),
        Node::Other(other) => other,
    }
}

/// The empty `serde_cbor::Value::Map`.
#[verifier::external_body]
fn empty_table() -> (value: serde_cbor::Value)
    ensures
        contents(value) == Cbor::Table(Map::empty()),
        encodable(value),
{
    serde_cbor::Value::Map(std::collections::BTreeMap::new())
}

/// `BTreeMap::insert` on the map inside a `serde_cbor::Value::Map`: the key now leads
/// to the value, and every other key to what it led to.
#[verifier::external_body]
fn put(table: &mut serde_cbor::Value, key: serde_cbor::Value, value: serde_cbor::Value)
    requires
        contents(*old(table)) is Table,
        encodable(*old(table)),
        encodable(key),
        encodable(value),
    ensures
        contents(*final(table)) == Cbor::Table(
            contents(*old(table))->Table_0.insert(outside_key(key), contents(value)),
        ),
        encodable(*final(table)),
{
    if let serde_cbor::Value::Map(entries) = table {
        entries.insert(key, value);
    }
}

/// A CBOR value that the logic does not look into, kept as it was read.
#[derive(Debug)]
pub struct Foreign {
    value: serde_cbor::Value,
}

impl Foreign {
    #[verifier::type_invariant]
    spec fn valid(&self) -> bool {
        encodable(self.value) && contents(self.value) is Other
    }

    /// What the value stands for.
    pub closed spec fn model(&self) -> Cbor {
        contents(self.value)
    }
}

/// A map key that is neither an integer nor text, kept as it was read.
#[derive(Debug)]
pub struct ForeignKey {
    value: serde_cbor::Value,
}

impl ForeignKey {
    #[verifier::type_invariant]
    spec fn valid(&self) -> bool {
        encodable(self.value) && outside_key(self.value) is Other
    }
}

/// A key of a CBOR map.
#[derive(Debug)]
pub enum Key {
    Integer(i128),
    Text(String),
    Other(ForeignKey),
}

impl View for Key {
    type V = CborKey;

    closed spec fn view(&self) -> CborKey {
        match self {
            Key::Integer(number) => CborKey::Integer(*number),
            Key::Text(text) => CborKey::Text(text@),
            Key::Other(foreign) => CborKey::Other(encoded(contents(foreign.value))->0),
        }
    }
}

/// A CBOR value.
#[derive(Debug)]
pub enum CborValue {
    Bool(bool),
    Integer(i128),
    Bytes(Vec<u8>),
    Text(String),
    Array(Vec<CborValue>),
    Table(CborMap),
    Other(Foreign),
}

/// A CBOR map.
#[derive(Debug)]
pub struct CborMap {
    entries: Vec<(Key, CborValue)>,
}

impl CborValue {
    /// What the value stands for.
    pub open spec fn model(&self) -> Cbor
        decreases self,
    {
        match self {
            CborValue::Bool(flag) => Cbor::Bool(*flag),
            CborValue::Integer(number) => Cbor::Integer(*number),
            CborValue::Bytes(bytes) => Cbor::Bytes(bytes@),
            CborValue::Text(text) => Cbor::Text(text@),
            CborValue::Array(items) => Cbor::Array(array_model(items@)),
            CborValue::Table(map) => Cbor::Table(map.model()),
            CborValue::Other(foreign) => foreign.model(),
        }
    }
}

/// No two entries have the same key.
spec fn distinct(entries: Seq<(Key, CborValue)>) -> bool {
    forall|i: int, j: int|
        0 <= i < j < entries.len() ==> (#[trigger] entries[i]).0@ != (#[trigger] entries[j]).0@
}

impl CborMap {
    #[verifier::type_invariant]
    spec fn valid(&self) -> bool {
        distinct(self.entries@)
    }

    /// What the map leads each key to.
    pub closed spec fn model(&self) -> Map<CborKey, Cbor>
        decreases self,
    {
        table_model(self.entries@)
    }
}

/// The values that a list of items stands for.
pub open spec fn array_model(items: Seq<CborValue>) -> Seq<Cbor>
    decreases items,
{
    if items.len() == 0 {
        seq![]
    } else {
        array_model(items.drop_last()).push(items.last().model())
    }
}

/// What a list of entries leads each key to.
spec fn table_model(entries: Seq<(Key, CborValue)>) -> Map<CborKey, Cbor>
    decreases entries,
{
    if entries.len() == 0 {
        Map::empty()
    } else {
        table_model(entries.drop_last()).insert(entries.last().0@, entries.last().1.model())
    }
}

impl View for CborValue {
    type V = Cbor;

    open spec fn view(&self) -> Cbor {
        self.model()
    }
}

impl View for CborMap {
    type V = Map<CborKey, Cbor>;

    open spec fn view(&self) -> Map<CborKey, Cbor> {
        self.model()
    }
}

impl CborValue {
    /// The integer, if the value is one.
    pub fn as_integer(&self) -> (found: Option<i128>)
        ensures
            match found {
                Some(number) => self@ == Cbor::Integer(number),
                None => !(self@ is Integer),
            },
    {
        self.use_foreign();
        match self {
            CborValue::Integer(number) => Some(*number),
            _ => None,
        }
    }

    /// The truth value, if the value is one.
    pub fn as_bool(&self) -> (found: Option<bool>)
        ensures
            match found {
                Some(flag) => self@ == Cbor::Bool(flag),
                None => !(self@ is Bool),
            },
    {
        self.use_foreign();
        match self {
            CborValue::Bool(flag) => Some(*flag),
            _ => None,
        }
    }

    /// The byte string, if the value is one.
    pub fn as_bytes(&self) -> (found: Option<&[u8]>)
        ensures
            match found {
                Some(bytes) => self@ == Cbor::Bytes(bytes@),
                None => !(self@ is Bytes),
            },
    {
        self.use_foreign();
        match self {
            CborValue::Bytes(bytes) => Some(bytes.as_slice()),
            _ => None,
        }
    }

    /// The text, if the value is one.
    pub fn as_text(&self) -> (found: Option<&str>)
        ensures
            match found {
                Some(text) => self@ == Cbor::Text(text@),
                None => !(self@ is Text),
            },
    {
        self.use_foreign();
        match self {
            CborValue::Text(text) => Some(text.as_str()),
            _ => None,
        }
    }

    /// The map, if the value is one.
    pub fn as_map(&self) -> (found: Option<&CborMap>)
        ensures
            match found {
                Some(map) => self@ == Cbor::Table(map@),
                None => !(self@ is Table),
            },
    {
        self.use_foreign();
        match self {
            CborValue::Table(map) => Some(map),
            _ => None,
        }
    }

    /// A foreign value is of none of the kinds that are laid open.
    fn use_foreign(&self)
        ensures
            self is Other ==> self@ is Other,
    {
        if let CborValue::Other(foreign) = self {
            proof {
                use_type_invariant(foreign);
            }
        }
    }
}

/// A key to look for.
enum Wanted<'a> {
    Integer(i128),
    Text(&'a str),
}

impl<'a> View for Wanted<'a> {
    type V = CborKey;

    closed spec fn view(&self) -> CborKey {
        match self {
            Wanted::Integer(number) => CborKey::Integer(*number),
            Wanted::Text(text) => CborKey::Text(text@),
        }
    }
}

impl Key {
    fn is(&self, wanted: &Wanted) -> (same: bool)
        ensures
            same == (self@ == wanted@),
    {
        match (self, wanted) {
            (Key::Integer(a), Wanted::Integer(b)) => *a == *b,
            (Key::Text(a), Wanted::Text(b)) => same_text(a.as_str(), b),
            _ => {
                assert(self@ != wanted@);
                false
            }
        }
    }
}

/// No entry has the key: the map does not lead it anywhere.
proof fn lemma_absent(entries: Seq<(Key, CborValue)>, key: CborKey)
    requires
        forall|i: int| 0 <= i < entries.len() ==> (#[trigger] entries[i]).0@ != key,
    ensures
        !table_model(entries).dom().contains(key),
    decreases entries.len(),
{
    if entries.len() > 0 {
        assert forall|i: int| 0 <= i < entries.drop_last().len() implies (
        #[trigger] entries.drop_last()[i]).0@ != key by {
            assert(entries.drop_last()[i] == entries[i]);
        }
        lemma_absent(entries.drop_last(), key);
    }
}

/// An entry with a key of its own decides what the map leads that key to.
proof fn lemma_entry(entries: Seq<(Key, CborValue)>, at: int)
    requires
        0 <= at < entries.len(),
        distinct(entries),
    ensures
        table_model(entries).dom().contains(entries[at].0@),
        table_model(entries)[entries[at].0@] == entries[at].1.model(),
    decreases entries.len(),
{
    if at < entries.len() - 1 {
        lemma_entry(entries.drop_last(), at);
        assert(entries.drop_last()[at] == entries[at]);
    }
}

/// Every key of the map comes from an entry.
proof fn lemma_key(entries: Seq<(Key, CborValue)>, key: CborKey)
    requires
        table_model(entries).dom().contains(key),
    ensures
        exists|i: int| 0 <= i < entries.len() && (#[trigger] entries[i]).0@ == key,
{
    if forall|i: int| 0 <= i < entries.len() ==> (#[trigger] entries[i]).0@ != key {
        lemma_absent(entries, key);
    }
}

/// Taking an entry out takes its key out of the map.
proof fn lemma_remove_entry(entries: Seq<(Key, CborValue)>, at: int)
    requires
        0 <= at < entries.len(),
        distinct(entries),
    ensures
        distinct(entries.remove(at)),
        table_model(entries.remove(at)) == table_model(entries).remove(entries[at].0@),
    decreases entries.len(),
{
    let key = entries[at].0@;
    let rest = entries.remove(at);
    if at == entries.len() - 1 {
        assert(rest =~= entries.drop_last());
        lemma_absent(rest, key);
        assert(table_model(rest) =~= table_model(entries).remove(key));
    } else {
        assert(rest.last() == entries.last());
        assert(rest.drop_last() =~= entries.drop_last().remove(at));
        assert(entries.drop_last()[at] == entries[at]);
        lemma_remove_entry(entries.drop_last(), at);
        assert(table_model(rest) =~= table_model(entries).remove(key));
    }
}

impl CborMap {
    /// The empty map.
    pub fn new() -> (map: Self)
        ensures
            map@ == Map::<CborKey, Cbor>::empty(),
    {
        CborMap { entries: Vec::new() }
    }

    /// The position of the entry with the key.
    fn find(&self, wanted: &Wanted) -> (found: Option<usize>)
        ensures
            match found {
                Some(at) => at < self.entries@.len() && self.entries@[at as int].0@ == wanted@
                    && self@.dom().contains(wanted@) && self@[wanted@]
                    == self.entries@[at as int].1@,
                None => !self@.dom().contains(wanted@) && forall|i: int|
                    0 <= i < self.entries@.len() ==> (#[trigger] self.entries@[i]).0@ != wanted@,
            },
    {
        proof {
            use_type_invariant(self);
        }
        let mut at: usize = 0;
        while at < self.entries.len()
            invariant
                at <= self.entries@.len(),
                distinct(self.entries@),
                forall|i: int| 0 <= i < at ==> (#[trigger] self.entries@[i]).0@ != wanted@,
            decreases self.entries@.len() - at,
        {
            if self.entries[at].0.is(wanted) {
                proof {
                    lemma_entry(self.entries@, at as int);
                }
                return Some(at);
            }
            at += 1;
        }
        proof {
            lemma_absent(self.entries@, wanted@);
        }
        None
    }

    fn lookup(&self, wanted: &Wanted) -> (found: Option<&CborValue>)
        ensures
            match found {
                Some(value) => self@.dom().contains(wanted@) && self@[wanted@] == value@,
                None => !self@.dom().contains(wanted@),
            },
    {
        match self.find(wanted) {
            Some(at) => Some(&self.entries[at].1),
            None => None,
        }
    }

    fn withdraw(&mut self, wanted: &Wanted) -> (found: Option<CborValue>)
        ensures
            final(self)@ == old(self)@.remove(wanted@),
            match found {
                Some(value) => old(self)@.dom().contains(wanted@) && old(self)@[wanted@] == value@,
                None => !old(self)@.dom().contains(wanted@),
            },
    {
        proof {
            use_type_invariant(&*self);
        }
        match self.find(wanted) {
            None => {
                assert(self@ =~= self@.remove(wanted@));
                None
            },
            Some(at) => {
                proof {
                    lemma_remove_entry(self.entries@, at as int);
                }
                let mut entries: Vec<(Key, CborValue)> = Vec::new();
                core::mem::swap(&mut entries, &mut self.entries);
                let (_, value) = entries.remove(at);
                self.entries = entries;
                Some(value)
            },
        }
    }

    /// Adds an entry whose key the map does not have yet.
    fn enter(&mut self, key: Key, value: CborValue)
        requires
            !old(self)@.dom().contains(key@),
        ensures
            final(self)@ == old(self)@.insert(key@, value@),
    {
        proof {
            use_type_invariant(&*self);
            assert forall|i: int| 0 <= i < self.entries@.len() implies (
            #[trigger] self.entries@[i]).0@ != key@ by {
                lemma_entry(self.entries@, i);
            }
        }
        let mut entries: Vec<(Key, CborValue)> = Vec::new();
        core::mem::swap(&mut entries, &mut self.entries);
        let ghost before = entries@;
        entries.push((key, value));
        assert(entries@.drop_last() =~= before);
        self.entries = entries;
    }

    /// What an integer key leads to.
    pub fn get(&self, key: i128) -> (found: Option<&CborValue>)
        ensures
            match found {
                Some(value) => self@.dom().contains(CborKey::Integer(key))
                    && self@[CborKey::Integer(key)] == value@,
                None => !self@.dom().contains(CborKey::Integer(key)),
            },
    {
        self.lookup(&Wanted::Integer(key))
    }

    /// What a text key leads to.
    pub fn get_text(&self, key: &str) -> (found: Option<&CborValue>)
        ensures
            match found {
                Some(value) => self@.dom().contains(CborKey::Text(key@)) && self@[CborKey::Text(
                    key@,
                )] == value@,
                None => !self@.dom().contains(CborKey::Text(key@)),
            },
    {
        self.lookup(&Wanted::Text(key))
    }

    /// Leads an integer key to a value.
    pub fn insert(&mut self, key: i128, value: CborValue)
        ensures
            final(self)@ == old(self)@.insert(CborKey::Integer(key), value@),
    {
        let _ = self.withdraw(&Wanted::Integer(key));
        self.enter(Key::Integer(key), value);
        assert(self@ =~= old(self)@.insert(CborKey::Integer(key), value@));
    }

    /// Leads a text key to a value.
    pub fn insert_text(&mut self, key: &str, value: CborValue)
        ensures
            final(self)@ == old(self)@.insert(CborKey::Text(key@), value@),
    {
        let _ = self.withdraw(&Wanted::Text(key));
        self.enter(Key::Text(key.to_owned()), value);
        assert(self@ =~= old(self)@.insert(CborKey::Text(key@), value@));
    }

    /// Takes out what an integer key leads to.
    pub fn remove(&mut self, key: i128) -> (found: Option<CborValue>)
        ensures
            final(self)@ == old(self)@.remove(CborKey::Integer(key)),
            match found {
                Some(value) => old(self)@.dom().contains(CborKey::Integer(key))
                    && old(self)@[CborKey::Integer(key)] == value@,
                None => !old(self)@.dom().contains(CborKey::Integer(key)),
            },
    {
        self.withdraw(&Wanted::Integer(key))
    }

    /// Takes out what a text key leads to.
    pub fn remove_text(&mut self, key: &str) -> (found: Option<CborValue>)
        ensures
            final(self)@ == old(self)@.remove(CborKey::Text(key@)),
            match found {
                Some(value) => old(self)@.dom().contains(CborKey::Text(key@))
                    && old(self)@[CborKey::Text(key@)] == value@,
                None => !old(self)@.dom().contains(CborKey::Text(key@)),
            },
    {
        self.withdraw(&Wanted::Text(key))
    }
}

proof fn lemma_array_model(items: Seq<CborValue>)
    ensures
        array_model(items).len() == items.len(),
        forall|i: int| 0 <= i < items.len() ==> #[trigger] array_model(items)[i] == items[i].model(),
    decreases items.len(),
{
    if items.len() > 0 {
        lemma_array_model(items.drop_last());
    }
}

fn import_key(value: serde_cbor::Value) -> (key: Key)
    requires
        encodable(value),
    ensures
        key@ == outside_key(value),
{
    match unfold_key(value) {
        KeyNode::Integer(number) => Key::Integer(number),
        KeyNode::Text(text) => Key::Text(text),
        KeyNode::Other(other) => Key::Other(ForeignKey { value: other }),
    }
}

/// Lays a `serde_cbor::Value` open.
fn import(value: serde_cbor::Value) -> (result: CborValue)
    requires
        encodable(value),
    ensures
        result@ == contents(value),
    decreases contents(value),
{
    let ghost model = contents(value);
    match unfold(value) {
        Node::Bool(flag) => CborValue::Bool(flag),
        Node::Integer(number) => CborValue::Integer(number),
        Node::Bytes(bytes) => CborValue::Bytes(bytes),
        Node::Text(text) => CborValue::Text(text),
        Node::Array(items) => {
            let ghost all = items@;
            let ghost parts = model->Array_0;
            let mut left = items;
            let mut list: Vec<CborValue> = Vec::new();
            while left.len() > 0
                invariant
                    model == Cbor::Array(parts),
                    model == contents(value),
                    parts == all.map_values(|item: serde_cbor::Value| contents(item)),
                    forall|i: int| 0 <= i < all.len() ==> encodable(#[trigger] all[i]),
                    list@.len() + left@.len() == all.len(),
                    left@ == all.skip(list@.len() as int),
                    forall|i: int| 0 <= i < list@.len() ==> (#[trigger] list@[i])@ == parts[i],
                decreases left@.len(),
            {
                let ghost n = list@.len() as int;
                let item = left.remove(0);
                assert(item == all[n]);
                assert(contents(item) == parts[n]);
                assert(decreases_to!(model => model->Array_0));
                assert(decreases_to!(parts => parts[n]));
                let laid_open = import(item);
                list.push(laid_open);
                assert(left@ =~= all.skip(n + 1));
            }
            proof {
                lemma_array_model(list@);
            }
            assert(array_model(list@) =~= parts);
            CborValue::Array(list)
        },
        Node::Table(entries) => {
            let ghost all = entries@;
            let ghost parts = model->Table_0;
            let mut left = entries;
            let mut map = CborMap::new();
            while left.len() > 0
                invariant
                    model == Cbor::Table(parts),
                    model == contents(value),
                    parts.dom().finite(),
                    left@.len() <= all.len(),
                    left@ == all.take(left@.len() as int),
                    forall|i: int|
                        0 <= i < all.len() ==> encodable((#[trigger] all[i]).0) && encodable(
                            all[i].1,
                        ) && parts.dom().contains(outside_key(all[i].0)) && parts[outside_key(
                            all[i].0,
                        )] == contents(all[i].1),
                    forall|i: int, j: int|
                        0 <= i < j < all.len() ==> outside_key((#[trigger] all[i]).0)
                            != outside_key((#[trigger] all[j]).0),
                    forall|i: int|
                        left@.len() <= i < all.len() ==> map@.dom().contains(
                            outside_key((#[trigger] all[i]).0),
                        ),
                    forall|key: CborKey| #[trigger]
                        map@.dom().contains(key) ==> parts.dom().contains(key) && map@[key]
                            == parts[key] && exists|i: int|
                            left@.len() <= i < all.len() && outside_key((#[trigger] all[i]).0)
                                == key,
                decreases left@.len(),
            {
                let ghost n = left@.len() - 1;
                let ghost before = map@;
                match left.pop() {
                    Some((raw_key, raw_value)) => {
                        assert((raw_key, raw_value) == all[n]);
                        let ghost k = outside_key(all[n].0);
                        assert(decreases_to!(model => model->Table_0));
                        assert(decreases_to!(parts => parts[k]));
                        let key = import_key(raw_key);
                        let laid_open = import(raw_value);
                        map.enter(key, laid_open);
                        assert(left@ =~= all.take(n));
                        assert forall|key: CborKey| #[trigger] map@.dom().contains(key) implies
                            parts.dom().contains(key) && map@[key] == parts[key] && exists|i: int|
                            n <= i < all.len() && outside_key((#[trigger] all[i]).0) == key by {
                            if key == k {
                                assert(outside_key(all[n].0) == key);
                            } else {
                                assert(before.dom().contains(key));
                            }
                        }
                    },
                    None => {},
                }
            }
            assert(map@ =~= parts) by {
                assert forall|key: CborKey| parts.dom().contains(key) implies #[trigger]
                    map@.dom().contains(key) by {
                    let i = choose|i: int|
                        0 <= i < all.len() && outside_key((#[trigger] all[i]).0) == key;
                    assert(map@.dom().contains(outside_key(all[i].0)));
                }
            }
            CborValue::Table(map)
        },
        Node::Other(other) => CborValue::Other(Foreign { value: other }),
    }
}

proof fn lemma_out_of_range_item(items: Seq<Cbor>, at: int)
    requires
        0 <= at < items.len(),
        !in_range(items[at]),
    ensures
        !in_range(Cbor::Array(items)),
{
    let value = Cbor::Array(items);
    if in_range(value) {
        assert(in_range(value->Array_0[at]));
    }
}

proof fn lemma_out_of_range_entry(entries: Map<CborKey, Cbor>, key: CborKey)
    requires
        entries.dom().contains(key),
        (key matches CborKey::Integer(number) && !integer_in_range(number)) || !in_range(
            entries[key],
        ),
    ensures
        !in_range(Cbor::Table(entries)),
{
    let value = Cbor::Table(entries);
    if in_range(value) {
        assert(value->Table_0.dom().contains(key));
        assert(in_range(value->Table_0[key]));
    }
}

fn export_key(key: Key) -> (result: Option<serde_cbor::Value>)
    ensures
        match result {
            Some(raw) => encodable(raw) && outside_key(raw) == key@ && (
            key@ matches CborKey::Integer(number) ==> integer_in_range(number)),
            None => key@ matches CborKey::Integer(number) && !integer_in_range(number),
        },
{
    match key {
        Key::Integer(number) => {
            if number < -0x1_0000_0000_0000_0000 || number >= 0x1_0000_0000_0000_0000 {
                None
            } else {
                Some(fold(Node::Integer(number)))
            }
        },
        Key::Text(text) => Some(fold(Node::Text(text))),
        Key::Other(foreign) => {
            proof {
                use_type_invariant(&foreign);
            }
            Some(foreign.value)
        },
    }
}

/// Makes the `serde_cbor::Value` of a value, unless it holds an integer that CBOR
/// cannot.
fn export(value: CborValue) -> (result: Option<serde_cbor::Value>)
    ensures
        match result {
            Some(raw) => in_range(value@) && contents(raw) == value@ && encodable(raw),
            None => !in_range(value@),
        },
    decreases value,
{
    match value {
        CborValue::Bool(flag) => Some(fold(Node::Bool(flag))),
        CborValue::Integer(number) => {
            if number < -0x1_0000_0000_0000_0000 || number >= 0x1_0000_0000_0000_0000 {
                None
            } else {
                Some(fold(Node::Integer(number)))
            }
        },
        CborValue::Bytes(bytes) => Some(fold(Node::Bytes(bytes))),
        CborValue::Text(text) => Some(fold(Node::Text(text))),
        CborValue::Array(items) => {
            let ghost all = items@;
            let mut left = items;
            let mut list: Vec<serde_cbor::Value> = Vec::new();
            proof {
                lemma_array_model(all);
            }
            while left.len() > 0
                invariant
                    value == CborValue::Array(items),
                    all == items@,
                    value@ == Cbor::Array(array_model(all)),
                    array_model(all).len() == all.len(),
                    forall|i: int|
                        0 <= i < all.len() ==> #[trigger] array_model(all)[i] == all[i]@,
                    list@.len() + left@.len() == all.len(),
                    left@ == all.skip(list@.len() as int),
                    forall|i: int|
                        0 <= i < list@.len() ==> encodable(#[trigger] list@[i]) && contents(list@[i])
                            == array_model(all)[i] && in_range(array_model(all)[i]),
                decreases left@.len(),
            {
                let ghost n = list@.len() as int;
                let item = left.remove(0);
                assert(item == all[n]);
                assert(decreases_to!(value => items));
                assert(decreases_to!(items => items@));
                assert(decreases_to!(all => all[n]));
                match export(item) {
                    Some(raw) => {
                        list.push(raw);
                        assert(left@ =~= all.skip(n + 1));
                    },
                    None => {
                        let ghost parts = array_model(all);
                        assert(!in_range(parts[n]));
                        proof {
                            lemma_out_of_range_item(parts, n);
                        }
                        return None;
                    },
                }
            }
            let ghost parts = list@.map_values(|item: serde_cbor::Value| contents(item));
            assert(parts =~= array_model(all));
            Some(fold(Node::Array(list)))
        },
        CborValue::Table(map) => {
            proof {
                use_type_invariant(&map);
            }
            let ghost all = map.entries@;
            let mut left = map.entries;
            let mut table = empty_table();
            while left.len() > 0
                invariant
                    value == CborValue::Table(map),
                    all == map.entries@,
                    distinct(all),
                    value@ == Cbor::Table(map@),
                    map@ == table_model(all),
                    left@.len() <= all.len(),
                    left@ == all.take(left@.len() as int),
                    encodable(table),
                    contents(table) is Table,
                    forall|i: int|
                        left@.len() <= i < all.len() ==> contents(table)->Table_0.dom().contains(
                            (#[trigger] all[i]).0@,
                        ),
                    forall|key: CborKey| #[trigger]
                        contents(table)->Table_0.dom().contains(key) ==> map@.dom().contains(key)
                            && contents(table)->Table_0[key] == map@[key] && in_range(map@[key])
                            && (key matches CborKey::Integer(number) ==> integer_in_range(number)),
                decreases left@.len(),
            {
                let ghost n = left@.len() - 1;
                let ghost before = contents(table)->Table_0;
                match left.pop() {
                    Some((key, item)) => {
                        assert((key, item) == all[n]);
                        proof {
                            lemma_entry(all, n);
                        }
                        assert(decreases_to!(value => map));
                        assert(decreases_to!(map => map.entries));
                        assert(decreases_to!(map.entries => map.entries@));
                        assert(decreases_to!(all => all[n]));
                        assert(decreases_to!(all[n] => all[n].1));
                        match (export_key(key), export(item)) {
                            (Some(raw_key), Some(raw_value)) => {
                                put(&mut table, raw_key, raw_value);
                                assert(left@ =~= all.take(n));
                            },
                            _ => {
                                let ghost parts = map@;
                                assert(parts.dom().contains(all[n].0@));
                                assert(parts[all[n].0@] == item@);
                                proof {
                                    lemma_out_of_range_entry(parts, all[n].0@);
                                }
                                return None;
                            },
                        }
                    },
                    None => {},
                }
            }
            assert(contents(table)->Table_0 =~= map@) by {
                assert forall|key: CborKey| map@.dom().contains(key) implies #[trigger]
                    contents(table)->Table_0.dom().contains(key) by {
                    lemma_key(all, key);
                    let i = choose|i: int| 0 <= i < all.len() && (#[trigger] all[i]).0@ == key;
                    assert(contents(table)->Table_0.dom().contains(all[i].0@));
                }
            }
            Some(table)
        },
        CborValue::Other(foreign) => {
            proof {
                use_type_invariant(&foreign);
            }
            Some(foreign.value)
        },
    }
}

/// The map that the bytes encode, or why they do not encode one.
pub open spec fn decoded_map(bytes: Seq<u8>) -> Result<Map<CborKey, Cbor>, FidoError> {
    match decoded(bytes) {
        Some(Cbor::Table(entries)) => Ok(entries),
        Some(_) => Err(FidoError::NotAMap),
        None => Err(FidoError::InvalidCbor),
    }
}

/// The encoding of a map.
pub open spec fn encoded_map(entries: Map<CborKey, Cbor>) -> Option<Seq<u8>> {
    if in_range(Cbor::Table(entries)) {
        encoded(Cbor::Table(entries))
    } else {
        None
    }
}

/// The map inside a value, if it is one.
pub fn expect_map(value: CborValue) -> (result: Result<CborMap, FidoError>)
    ensures
        match result {
            Ok(map) => value@ == Cbor::Table(map@),
            Err(err) => !(value@ is Table) && err == FidoError::NotAMap,
        },
{
    match value {
        CborValue::Table(map) => Ok(map),
        CborValue::Other(foreign) => {
            proof {
                use_type_invariant(&foreign);
            }
            Err(FidoError::NotAMap)
        },
        _ => Err(FidoError::NotAMap),
    }
}

/// Reads the map that the bytes encode.
pub fn decode_map(bytes: &[u8]) -> (result: Result<CborMap, FidoError>)
    ensures
        match result {
            Ok(map) => decoded_map(bytes@) == Ok::<_, FidoError>(map@) && readable(map@),
            Err(err) => decoded_map(bytes@) == Err::<Map<CborKey, Cbor>, _>(err),
        },
{
    match parse(bytes) {
        Ok(value) => expect_map(import(value)),
        Err(_) => Err(FidoError::InvalidCbor),
    }
}

/// Writes the encoding of a map. It fails exactly when the map holds an integer that
/// CBOR cannot. A map reads back from its encoding, unless it is deeper than is read.
pub fn encode_map(map: CborMap) -> (result: Result<Vec<u8>, FidoError>)
    ensures
        match result {
            Ok(bytes) => encoded_map(map@) == Some(bytes@) && (shallow(Cbor::Table(map@), 127)
                ==> decoded_map(bytes@) == Ok::<_, FidoError>(map@)),
            Err(err) => !in_range(Cbor::Table(map@)) && encoded_map(map@) is None && err
                == FidoError::IntegerOutOfRange,
        },
{
    match export(CborValue::Table(map)) {
        Some(value) => {
            match write(&value) {
                Ok(bytes) => Ok(bytes),
                Err(_) => {
                    assert(false);
                    Err(FidoError::IntegerOutOfRange)
                },
            }
        },
        None => Err(FidoError::IntegerOutOfRange),
    }
}

/// Bytes are read as a map exactly where they encode one: that map. Bytes that encode another
/// value, and bytes that encode none, are refused as such. A map of integers within 64 bits
/// is written as the value that it is.
pub proof fn maps_are_read_and_written_as_values(bytes: Seq<u8>, entries: Map<CborKey, Cbor>)
    ensures
        decoded_map(bytes) == Ok::<_, FidoError>(entries) <==> decoded(bytes) == Some(
            Cbor::Table(entries),
        ),
        decoded(bytes) is None <==> decoded_map(bytes) == Err::<Map<CborKey, Cbor>, _>(
            FidoError::InvalidCbor,
        ),
        decoded(bytes) matches Some(value) ==> !(value is Table) ==> decoded_map(bytes) == Err::<
            Map<CborKey, Cbor>,
            _,
        >(FidoError::NotAMap),
        in_range(Cbor::Table(entries)) ==> encoded_map(entries) == encoded(Cbor::Table(entries)),
        !in_range(Cbor::Table(entries)) ==> encoded_map(entries) is None,
{
}

} // verus!
