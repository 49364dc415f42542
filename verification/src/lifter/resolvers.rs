//! Resolution of object-pool offsets to names and of call targets to VM stubs.

use vstd::prelude::*;
use ahash::AHashMap;
use super::ir::StubCallKind;
use crate::snapshot::{DartObject, ObjectPool, SnapshotAddr, addr_text, addrs_unique};
use crate::text::{decimal_seq, int_decimal_seq, owned, push_decimal, push_signed_decimal, push_str};

verus! {

#[verifier::external_type_specification]
#[verifier::external_body]
#[verifier::reject_recursive_types(K)]
#[verifier::reject_recursive_types(V)]
#[verifier::reject_recursive_types(S)]
pub struct ExAHashMap<K, V, S>(ahash::AHashMap<K, V, S>);

#[verifier::external_type_specification]
#[verifier::external_body]
pub struct ExAHashRandomState(ahash::RandomState);

/// A map from offsets to names.
pub type NameMap = AHashMap<u64, String>;

/// A map from offsets to stubs.
pub type StubMap = AHashMap<u64, StubCallKind>;

/// What an offset-to-name map holds.
pub uninterp spec fn name_map_contents(m: AHashMap<u64, String>) -> Map<u64, Seq<char>>;

/// What an offset-to-stub map holds.
pub uninterp spec fn stub_map_contents(m: AHashMap<u64, StubCallKind>) -> Map<u64, StubCallKind>;

/// `AHashMap::new` for names: an empty map.
#[verifier::external_body]
fn name_map_new() -> (fresh: NameMap)
    ensures
        name_map_contents(fresh).is_empty(),
{
    AHashMap::new()
}

/// `AHashMap::insert` for names: the key now maps to the value, the rest is unchanged.
#[verifier::external_body]
fn name_map_insert(m: &mut AHashMap<u64, String>, k: u64, v: String)
    ensures
        name_map_contents(*final(m)) == name_map_contents(*old(m)).insert(k, v@),
{
    m.insert(k, v);
}

/// `AHashMap::get` for names, with the value copied out.
#[verifier::external_body]
fn name_map_get(m: &AHashMap<u64, String>, k: u64) -> (r: Option<String>)
    ensures
        match r {
            Some(v) => name_map_contents(*m).contains_key(k) && v@ == name_map_contents(*m)[k],
            None => !name_map_contents(*m).contains_key(k),
        },
{
    m.get(&k).cloned()
}

/// `AHashMap::new` for stubs: an empty map.
#[verifier::external_body]
fn stub_map_new() -> (fresh: StubMap)
    ensures
        stub_map_contents(fresh).is_empty(),
{
    AHashMap::new()
}

/// `AHashMap::insert` for stubs: the key now maps to the value, the rest is unchanged.
#[verifier::external_body]
fn stub_map_insert(m: &mut AHashMap<u64, StubCallKind>, k: u64, v: StubCallKind)
    ensures
        stub_map_contents(*final(m)) == stub_map_contents(*old(m)).insert(k, v),
{
    m.insert(k, v);
}

/// `AHashMap::get` for stubs, with the value copied out.
#[verifier::external_body]
fn stub_map_get(m: &AHashMap<u64, StubCallKind>, k: u64) -> (r: Option<StubCallKind>)
    ensures
        match r {
            Some(v) => stub_map_contents(*m).contains_key(k) && v == stub_map_contents(*m)[k],
            None => !stub_map_contents(*m).contains_key(k),
        },
{
    m.get(&k).copied()
}

/// The value a map holds for a key, if any.
pub open spec fn map_lookup<V>(m: Map<u64, V>, k: u64) -> Option<V> {
    if m.contains_key(k) {
        Some(m[k])
    } else {
        None
    }
}

/// Resolves Object Pool references (PP-relative loads) to named objects.
pub struct PoolResolver {
    pool_entries: AHashMap<u64, String>,
}

impl View for PoolResolver {
    type V = Map<u64, Seq<char>>;

    closed spec fn view(&self) -> Map<u64, Seq<char>> {
        name_map_contents(self.pool_entries)
    }
}

impl PoolResolver {
    /// A resolver that knows no offsets.
    pub fn new() -> (r: Self)
        ensures
            r@.is_empty(),
    {
        PoolResolver { pool_entries: name_map_new() }
    }

    /// Resolve a pool offset to a human-readable name.
    pub fn resolve_offset(&self, offset: u64) -> (r: Option<String>)
        ensures
            match r {
                Some(v) => self@.contains_key(offset) && v@ == self@[offset],
                None => !self@.contains_key(offset),
            },
    {
        name_map_get(&self.pool_entries, offset)
    }

    /// Add a manual entry.
    pub fn add_entry(&mut self, offset: u64, name: String)
        ensures
            final(self)@ == old(self)@.insert(offset, name@),
    {
        name_map_insert(&mut self.pool_entries, offset, name);
    }
}

/// The name a pool entry gets, for every object but a double: strings
/// quoted and cut to 64 bytes, classes, functions, fields and types by
/// name, integers and booleans by value, code and closures by address,
/// arrays by length, records by field count, the rest by their own address.
pub open spec fn pool_name(addr: SnapshotAddr, obj: DartObject) -> Seq<char> {
    match obj {
        DartObject::String(s) => "\""@ + crate::scan::truncated(s.value@, 64) + "\""@,
        DartObject::Class(c) => "class:"@ + c.name@,
        DartObject::Function(f) => "func:"@ + f.name@,
        DartObject::Field(f) => "field:"@ + f.name@,
        DartObject::Mint(v) => "int:"@ + int_decimal_seq(v as int),
        DartObject::Bool(b) => "bool:"@ + if b { "true"@ } else { "false"@ },
        DartObject::Null => "null"@,
        DartObject::Type(t) => "type:"@ + t.name@,
        DartObject::Code(c) => "code@"@ + addr_text(c.addr),
        DartObject::Array(a) => "array["@ + decimal_seq(a.elements@.len()) + "]"@,
        DartObject::Closure(c) => "closure@"@ + addr_text(c.function),
        DartObject::Record(r) => "record("@ + decimal_seq(r.num_fields as nat) + ")"@,
        _ => "obj@"@ + addr_text(addr),
    }
}

/// Whether a pool entry's name is right: `double:` and the text the
/// formatter gives for a double, `pool_name` for anything else.
pub open spec fn pool_name_ok<F: Fn(u64) -> String>(addr: SnapshotAddr, obj: DartObject, name: Seq<char>, double_text: F) -> bool {
    match obj {
        DartObject::Double(bits) => exists|t: String| call_ensures(double_text, (bits,), t) && name == "double:"@ + t@,
        _ => name == pool_name(addr, obj),
    }
}

/// Whether every string in the pool can be cut after 64 bytes.
pub open spec fn strings_cuttable(e: Seq<(SnapshotAddr, DartObject)>) -> bool {
    forall|i: int| 0 <= i < e.len() ==> match (#[trigger] e[i]).1 {
        DartObject::String(s) => {
            &&& vstd::utf8::encode_utf8(s.value@).len() <= usize::MAX
            &&& vstd::utf8::encode_utf8(s.value@).len() > 64 ==> vstd::utf8::is_char_boundary(vstd::utf8::encode_utf8(s.value@), 64)
        },
        _ => true,
    }
}

/// The name of one pool entry.
fn entry_name<F: Fn(u64) -> String>(addr: SnapshotAddr, obj: &DartObject, double_text: &F) -> (r: String)
    requires
        match *obj {
            DartObject::String(s) => {
                &&& vstd::utf8::encode_utf8(s.value@).len() <= usize::MAX
                &&& vstd::utf8::encode_utf8(s.value@).len() > 64 ==> vstd::utf8::is_char_boundary(vstd::utf8::encode_utf8(s.value@), 64)
            },
            _ => true,
        },
        forall|b: u64| call_requires(*double_text, (b,)),
    ensures
        pool_name_ok(addr, *obj, r@, *double_text),
{
    let mut n = String::new();
    match obj {
        DartObject::String(s) => {
            push_str(&mut n, "\"");
            let t = truncate_str(s.value.as_str(), 64);
            push_str(&mut n, t.as_str());
            push_str(&mut n, "\"");
        },
        DartObject::Class(c) => {
            push_str(&mut n, "class:");
            push_str(&mut n, c.name.as_str());
        },
        DartObject::Function(f) => {
            push_str(&mut n, "func:");
            push_str(&mut n, f.name.as_str());
        },
        DartObject::Field(f) => {
            push_str(&mut n, "field:");
            push_str(&mut n, f.name.as_str());
        },
        DartObject::Mint(v) => {
            push_str(&mut n, "int:");
            push_signed_decimal(&mut n, *v);
        },
        DartObject::Double(bits) => {
            push_str(&mut n, "double:");
            let t = double_text(*bits);
            push_str(&mut n, t.as_str());
        },
        DartObject::Bool(b) => {
            push_str(&mut n, "bool:");
            push_str(&mut n, if *b { "true" } else { "false" });
        },
        DartObject::Null => {
            push_str(&mut n, "null");
        },
        DartObject::Type(t) => {
            push_str(&mut n, "type:");
            push_str(&mut n, t.name.as_str());
        },
        DartObject::Code(c) => {
            push_str(&mut n, "code@");
            c.addr.write_to(&mut n);
        },
        DartObject::Array(a) => {
            push_str(&mut n, "array[");
            push_decimal(&mut n, a.elements.len() as u64);
            push_str(&mut n, "]");
        },
        DartObject::Closure(c) => {
            push_str(&mut n, "closure@");
            c.function.write_to(&mut n);
        },
        DartObject::Record(r) => {
            push_str(&mut n, "record(");
            push_decimal(&mut n, r.num_fields as u64);
            push_str(&mut n, ")");
        },
        _ => {
            push_str(&mut n, "obj@");
            addr.write_to(&mut n);
        },
    }
    proof {
        reveal_strlit("");
    }
    assert(pool_name_ok(addr, *obj, n@, *double_text)) by {
        match *obj {
            DartObject::Double(bits) => {},
            _ => {
                assert(n@ =~= pool_name(addr, *obj));
            },
        }
    }
    n
}

/// Shortens `s` to its first `max_len` bytes followed by `...` when it is
/// longer; the cut must fall on a character boundary.
pub fn truncate_str(s: &str, max_len: usize) -> (r: String)
    requires
        vstd::utf8::encode_utf8(s@).len() <= usize::MAX,
        vstd::utf8::encode_utf8(s@).len() > max_len ==> vstd::utf8::is_char_boundary(vstd::utf8::encode_utf8(s@), max_len as int),
    ensures
        r@ == crate::scan::truncated(s@, max_len as nat),
{
    crate::scan::truncate(s, max_len)
}

impl PoolResolver {
    /// A resolver that names every object of a snapshot's pool by its
    /// address; `double_text` writes the value of a double given by its bits.
    pub fn from_object_pool<F: Fn(u64) -> String>(pool: &ObjectPool, double_text: F) -> (r: Self)
        requires
            pool.wf(),
            strings_cuttable(pool.entries()),
            forall|b: u64| call_requires(double_text, (b,)),
        ensures
            forall|i: int| 0 <= i < pool.entries().len() ==> (#[trigger] r@.contains_key(pool.entries()[i].0.0)),
            forall|k: u64| r@.contains_key(k) ==> exists|i: int| 0 <= i < pool.entries().len() && pool.entries()[i].0.0 == k,
            forall|i: int| 0 <= i < pool.entries().len() ==> pool_name_ok(
                pool.entries()[i].0,
                pool.entries()[i].1,
                r@[#[trigger] pool.entries()[i].0.0],
                double_text,
            ),
    {
        let entries = pool.iter();
        proof {
            pool.lemma_unique();
        }
        let mut map = name_map_new();
        let mut i: usize = 0;
        while i < entries.len()
            invariant
                entries@ == pool.entries(),
                addrs_unique(entries@),
                strings_cuttable(entries@),
                forall|b: u64| call_requires(double_text, (b,)),
                i <= entries@.len(),
                forall|j: int| 0 <= j < i ==> (#[trigger] name_map_contents(map).contains_key(entries@[j].0.0)),
                forall|k: u64| name_map_contents(map).contains_key(k) ==> exists|j: int| 0 <= j < i && entries@[j].0.0 == k,
                forall|j: int| 0 <= j < i ==> pool_name_ok(
                    entries@[j].0,
                    entries@[j].1,
                    name_map_contents(map)[#[trigger] entries@[j].0.0],
                    double_text,
                ),
            decreases entries@.len() - i,
        {
            let (addr, obj) = &entries[i];
            assert(strings_cuttable(entries@) ==> match entries@[i as int].1 {
                DartObject::String(s) => {
                    &&& vstd::utf8::encode_utf8(s.value@).len() <= usize::MAX
                    &&& vstd::utf8::encode_utf8(s.value@).len() > 64 ==> vstd::utf8::is_char_boundary(vstd::utf8::encode_utf8(s.value@), 64)
                },
                _ => true,
            });
            let name = entry_name(*addr, obj, &double_text);
            let ghost old_map = name_map_contents(map);
            name_map_insert(&mut map, addr.0, name);
            assert forall|j: int| 0 <= j < i + 1 implies pool_name_ok(
                entries@[j].0,
                entries@[j].1,
                name_map_contents(map)[#[trigger] entries@[j].0.0],
                double_text,
            ) by {
                if j < i {
                    assert(entries@[j].0 != entries@[i as int].0);
                    assert(entries@[j].0.0 != entries@[i as int].0.0);
                }
            }
            assert forall|j: int| 0 <= j < i + 1 implies (#[trigger] name_map_contents(map).contains_key(entries@[j].0.0)) by {
                if j < i {
                    assert(old_map.contains_key(entries@[j].0.0));
                }
            }
            assert forall|k: u64| name_map_contents(map).contains_key(k) implies exists|j: int| 0 <= j < i + 1 && entries@[j].0.0 == k by {
                if k != addr.0 {
                    assert(old_map.contains_key(k));
                    let j = choose|j: int| 0 <= j < i && entries@[j].0.0 == k;
                    assert(0 <= j < i + 1 && entries@[j].0.0 == k);
                } else {
                    assert(entries@[i as int].0.0 == k);
                }
            }
            i = i + 1;
        }
        PoolResolver { pool_entries: map }
    }
}

/// Resolves function addresses and pool offsets to known Dart VM stubs.
pub struct StubResolver {
    address_map: AHashMap<u64, StubCallKind>,
    pool_offset_map: AHashMap<u64, StubCallKind>,
}

impl StubResolver {
    /// The stubs known by call address.
    pub closed spec fn addresses(&self) -> Map<u64, StubCallKind> {
        stub_map_contents(self.address_map)
    }

    /// The stubs known by pool offset.
    pub closed spec fn pool_offsets(&self) -> Map<u64, StubCallKind> {
        stub_map_contents(self.pool_offset_map)
    }

    /// A resolver that knows no stubs.
    pub fn new() -> (r: Self)
        ensures
            r.addresses().is_empty(),
            r.pool_offsets().is_empty(),
    {
        StubResolver { address_map: stub_map_new(), pool_offset_map: stub_map_new() }
    }

    /// Register a known stub at a specific address.
    pub fn register_stub(&mut self, address: u64, kind: StubCallKind)
        ensures
            final(self).addresses() == old(self).addresses().insert(address, kind),
            final(self).pool_offsets() == old(self).pool_offsets(),
    {
        stub_map_insert(&mut self.address_map, address, kind);
    }

    /// Register a stub accessible through a pool offset.
    pub fn register_pool_stub(&mut self, offset: u64, kind: StubCallKind)
        ensures
            final(self).pool_offsets() == old(self).pool_offsets().insert(offset, kind),
            final(self).addresses() == old(self).addresses(),
    {
        stub_map_insert(&mut self.pool_offset_map, offset, kind);
    }

    /// Try to resolve a call target address to a known stub.
    pub fn resolve_address(&self, address: u64) -> (r: Option<StubCallKind>)
        ensures
            r == map_lookup(self.addresses(), address),
    {
        stub_map_get(&self.address_map, address)
    }

    /// Try to resolve a pool offset to a known stub.
    pub fn resolve_pool_offset(&self, offset: u64) -> (r: Option<StubCallKind>)
        ensures
            r == map_lookup(self.pool_offsets(), offset),
    {
        stub_map_get(&self.pool_offset_map, offset)
    }
}

/// A resolver answers with the last name registered for an offset, and
/// registering one offset leaves the answers for every other offset alone.
pub proof fn law_pool_resolver_read_after_write(
    before: Map<u64, Seq<char>>,
    offset: u64,
    name: Seq<char>,
    other: u64,
)
    requires
        other != offset,
    ensures
        before.insert(offset, name)[offset] == name,
        before.insert(offset, name).contains_key(other) == before.contains_key(other),
        before.contains_key(other) ==> before.insert(offset, name)[other] == before[other],
{
}


impl Default for PoolResolver {
    /// A resolver that knows no offsets.
    fn default() -> (r: Self)
        ensures
            r@.is_empty(),
    {
        PoolResolver::new()
    }
}

impl Default for StubResolver {
    /// A resolver that knows no stubs.
    fn default() -> (r: Self)
        ensures
            r.addresses().is_empty(),
            r.pool_offsets().is_empty(),
    {
        StubResolver::new()
    }
}
} // verus!
