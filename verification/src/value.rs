//! The host object model and the guest ABI value representation.
//!
//! A host object is fully dynamic and recursive: arrays and dictionaries
//! hold arbitrary objects.  The guest representation is not: a container
//! crossing the boundary holds only primitive values, a permanent
//! limitation of the boundary representation.  Floating-point values are
//! carried as their IEEE-754 bit patterns, which crosses the boundary
//! without loss; strings are carried as their UTF-8 bytes, which may embed
//! NUL bytes.

use vstd::prelude::*;

verus! {

broadcast use {
    vstd::seq::axiom_seq_index_decreases,
    vstd::seq::axiom_seq_subrange_decreases,
    vstd::std_specs::vec::axiom_vec_decreases_to_view,
};

/// View of a host object.
pub enum ObjV {
    Nil,
    Boolean(bool),
    Integer(i64),
    /// IEEE-754 bit pattern of the 64-bit value.
    Float(u64),
    /// UTF-8 bytes, possibly with embedded NUL bytes.
    String(Seq<u8>),
    Array(Seq<ObjV>),
    Dictionary(Seq<(Seq<u8>, ObjV)>),
    Buffer(i64),
    Window(i64),
    Tabpage(i64),
    /// A callback handle: its owning instance and reference number, or
    /// nothing for the absent handle.
    WasmRef(Option<(i32, u32)>),
}

/// Wraps an owned host API string: UTF-8 bytes that may embed NUL bytes.
#[derive(Debug, PartialEq)]
pub struct NvimString {
    bytes: Vec<u8>,
}

impl View for NvimString {
    type V = Seq<u8>;

    closed spec fn view(&self) -> Seq<u8> {
        self.bytes@
    }
}

impl NvimString {
    /// Constructs a string from its bytes.
    pub fn new(bytes: Vec<u8>) -> (r: NvimString)
        ensures
            r@ == bytes@,
    {
        NvimString { bytes }
    }

    /// The bytes of the string.
    pub fn as_bytes(&self) -> (r: &Vec<u8>)
        ensures
            r@ == self@,
    {
        &self.bytes
    }

    /// Converts the string into its bytes.
    pub fn into_bytes(self) -> (r: Vec<u8>)
        ensures
            r@ == self@,
    {
        self.bytes
    }

    /// The byte length of the string.
    pub fn len(&self) -> (r: usize)
        ensures
            r == self@.len(),
    {
        self.bytes.len()
    }

    /// True if the string is empty.
    pub fn is_empty(&self) -> (r: bool)
        ensures
            r == (self@.len() == 0),
    {
        self.bytes.len() == 0
    }
}

impl DeepView for NvimString {
    type V = Seq<u8>;

    open spec fn deep_view(&self) -> Seq<u8> {
        self@
    }
}

impl Clone for NvimString {
    fn clone(&self) -> (r: NvimString)
        ensures
            r@ == self@,
    {
        NvimString { bytes: self.bytes.clone() }
    }
}

/// Represents a handle to a host buffer.
#[derive(Debug, Clone, Copy, PartialEq, Eq, Structural)]
pub struct NvimBuffer {
    handle: i64,
}

impl NvimBuffer {
    pub fn from_handle(handle: i64) -> (r: NvimBuffer)
        ensures
            r.handle() == handle,
    {
        NvimBuffer { handle }
    }

    pub closed spec fn spec_handle(&self) -> i64 {
        self.handle
    }

    #[verifier::when_used_as_spec(spec_handle)]
    pub fn handle(&self) -> (r: i64)
        ensures
            r == self.spec_handle(),
    {
        self.handle
    }
}

/// Represents a handle to a host window.
#[derive(Debug, Clone, Copy, PartialEq, Eq, Structural)]
pub struct NvimWindow {
    handle: i64,
}

impl NvimWindow {
    pub fn from_handle(handle: i64) -> (r: NvimWindow)
        ensures
            r.handle() == handle,
    {
        NvimWindow { handle }
    }

    pub closed spec fn spec_handle(&self) -> i64 {
        self.handle
    }

    #[verifier::when_used_as_spec(spec_handle)]
    pub fn handle(&self) -> (r: i64)
        ensures
            r == self.spec_handle(),
    {
        self.handle
    }
}

/// Represents a handle to a host tabpage.
#[derive(Debug, Clone, Copy, PartialEq, Eq, Structural)]
pub struct NvimTabpage {
    handle: i64,
}

impl NvimTabpage {
    pub fn from_handle(handle: i64) -> (r: NvimTabpage)
        ensures
            r.handle() == handle,
    {
        NvimTabpage { handle }
    }

    pub closed spec fn spec_handle(&self) -> i64 {
        self.handle
    }

    #[verifier::when_used_as_spec(spec_handle)]
    pub fn handle(&self) -> (r: i64)
        ensures
            r == self.spec_handle(),
    {
        self.handle
    }
}

/// The value of a callback handle as it sits inside an object: its owning
/// instance id and reference number, or nothing for the absent handle.
pub open spec fn spec_wasmref_new(instance_id: i32, ref_: u32) -> Option<(i32, u32)> {
    if instance_id < 0 || ref_ == 0 {
        Option::None
    } else {
        Option::Some((instance_id, ref_))
    }
}

/// A callback-handle value: the owning instance id and the reference
/// number handed out by that instance, or the absent handle.
#[derive(Debug, Clone, Copy, PartialEq)]
pub struct NvimWasmRef {
    pair: Option<(i32, u32)>,
}

impl View for NvimWasmRef {
    type V = Option<(i32, u32)>;

    closed spec fn view(&self) -> Option<(i32, u32)> {
        self.pair
    }
}

impl NvimWasmRef {
    /// Builds a handle value.  A negative instance id or a zero reference
    /// gives the absent handle.
    pub fn new(instance_id: i32, ref_: u32) -> (r: NvimWasmRef)
        ensures
            r@ == spec_wasmref_new(instance_id, ref_),
    {
        if instance_id < 0 || ref_ == 0 {
            NvimWasmRef { pair: Option::None }
        } else {
            NvimWasmRef { pair: Option::Some((instance_id, ref_)) }
        }
    }

    /// The absent handle.
    pub fn none() -> (r: NvimWasmRef)
        ensures
            r@ is None,
    {
        NvimWasmRef { pair: Option::None }
    }

    /// The owning instance id and reference number, or nothing for the
    /// absent handle.
    pub fn pair(&self) -> (r: Option<(i32, u32)>)
        ensures
            r == self@,
    {
        self.pair
    }

    /// True for the absent handle.
    pub fn is_none(&self) -> (r: bool)
        ensures
            r == (self@ is None),
    {
        matches!(self.pair, Option::None)
    }
}

/// Structural equality of two handle values: the pairs are equal, or both
/// handles are absent.
pub fn wasmref_eq(r1: &NvimWasmRef, r2: &NvimWasmRef) -> (b: bool)
    ensures
        b == (r1@ == r2@),
{
    match (r1.pair(), r2.pair()) {
        (Option::None, Option::None) => true,
        (Option::Some((i1, f1)), Option::Some((i2, f2))) => i1 == i2 && f1 == f2,
        _ => false,
    }
}

/// An owned host object.
#[derive(Debug, PartialEq)]
pub enum NvimObject {
    Nil,
    Boolean(bool),
    Integer(i64),
    /// IEEE-754 bit pattern of the 64-bit value.
    Float(u64),
    String(NvimString),
    Array(NvimArray),
    Dictionary(NvimDictionary),
    Buffer(NvimBuffer),
    Window(NvimWindow),
    Tabpage(NvimTabpage),
    WasmRef(NvimWasmRef),
}

/// Wraps a host array: an ordered sequence of objects.
#[derive(Debug, PartialEq)]
pub struct NvimArray {
    pub items: Vec<NvimObject>,
}

/// Wraps a host dictionary: an ordered sequence of string-keyed objects.
#[derive(Debug, PartialEq)]
pub struct NvimDictionary {
    pub entries: Vec<(NvimString, NvimObject)>,
}

/// View of a host object.
pub open spec fn obj_view(o: NvimObject) -> ObjV
    decreases o,
{
    match o {
        NvimObject::Nil => ObjV::Nil,
        NvimObject::Boolean(b) => ObjV::Boolean(b),
        NvimObject::Integer(i) => ObjV::Integer(i),
        NvimObject::Float(bits) => ObjV::Float(bits),
        NvimObject::String(s) => ObjV::String(s@),
        NvimObject::Array(NvimArray { items }) => ObjV::Array(objs_view(items@)),
        NvimObject::Dictionary(NvimDictionary { entries }) => ObjV::Dictionary(
            entries_view(entries@),
        ),
        NvimObject::Buffer(b) => ObjV::Buffer(b.handle()),
        NvimObject::Window(w) => ObjV::Window(w.handle()),
        NvimObject::Tabpage(t) => ObjV::Tabpage(t.handle()),
        NvimObject::WasmRef(r) => ObjV::WasmRef(r@),
    }
}

/// Views of a sequence of host objects, elementwise.
pub open spec fn objs_view(s: Seq<NvimObject>) -> Seq<ObjV>
    decreases s,
{
    if s.len() == 0 {
        Seq::empty()
    } else {
        seq![obj_view(s[0])] + objs_view(s.subrange(1, s.len() as int))
    }
}

/// Views of a sequence of dictionary entries, elementwise.
pub open spec fn entries_view(s: Seq<(NvimString, NvimObject)>) -> Seq<(Seq<u8>, ObjV)>
    decreases s,
{
    if s.len() == 0 {
        Seq::empty()
    } else {
        seq![(s[0].0@, obj_view(s[0].1))] + entries_view(s.subrange(1, s.len() as int))
    }
}

/// An object sequence is viewed elementwise.
pub proof fn lemma_objs_view(s: Seq<NvimObject>)
    ensures
        objs_view(s).len() == s.len(),
        forall|i: int| 0 <= i < s.len() ==> objs_view(s)[i] == obj_view(#[trigger] s[i]),
    decreases s.len(),
{
    if s.len() > 0 {
        lemma_objs_view(s.subrange(1, s.len() as int));
        assert forall|i: int| 0 <= i < s.len() implies objs_view(s)[i] == obj_view(
            #[trigger] s[i],
        ) by {
            if i > 0 {
                assert(s.subrange(1, s.len() as int)[i - 1] == s[i]);
            }
        }
    }
}

/// An entry sequence is viewed elementwise.
pub proof fn lemma_entries_view(s: Seq<(NvimString, NvimObject)>)
    ensures
        entries_view(s).len() == s.len(),
        forall|i: int|
            0 <= i < s.len() ==> entries_view(s)[i] == ((#[trigger] s[i]).0@, obj_view(s[i].1)),
    decreases s.len(),
{
    if s.len() > 0 {
        lemma_entries_view(s.subrange(1, s.len() as int));
        assert forall|i: int| 0 <= i < s.len() implies entries_view(s)[i] == (
            (#[trigger] s[i]).0@,
            obj_view(s[i].1),
        ) by {
            if i > 0 {
                assert(s.subrange(1, s.len() as int)[i - 1] == s[i]);
            }
        }
    }
}

impl View for NvimObject {
    type V = ObjV;

    open spec fn view(&self) -> ObjV {
        obj_view(*self)
    }
}

impl DeepView for NvimObject {
    type V = ObjV;

    open spec fn deep_view(&self) -> ObjV {
        obj_view(*self)
    }
}

impl View for NvimArray {
    type V = Seq<ObjV>;

    open spec fn view(&self) -> Seq<ObjV> {
        objs_view(self.items@)
    }
}

impl View for NvimDictionary {
    type V = Seq<(Seq<u8>, ObjV)>;

    open spec fn view(&self) -> Seq<(Seq<u8>, ObjV)> {
        entries_view(self.entries@)
    }
}

impl NvimArray {
    /// Creates a new empty host array.
    pub fn new() -> (r: NvimArray)
        ensures
            r@ =~= Seq::<ObjV>::empty(),
    {
        let r = NvimArray { items: Vec::new() };
        proof {
            lemma_objs_view(r.items@);
        }
        r
    }

    /// Creates an array from a vector of objects.
    pub fn from_vec(vec: Vec<NvimObject>) -> (r: NvimArray)
        ensures
            r@ == vec.deep_view(),
    {
        let r = NvimArray { items: vec };
        proof {
            lemma_objs_view(r.items@);
            assert(r@ =~= r.items.deep_view());
        }
        r
    }

    /// Converts this array into a vector of objects.
    pub fn into_vec(self) -> (r: Vec<NvimObject>)
        ensures
            r.deep_view() == self@,
    {
        proof {
            lemma_objs_view(self.items@);
            assert(self.items.deep_view() =~= self@);
        }
        self.items
    }

    /// The length of the array.
    pub fn len(&self) -> (r: usize)
        ensures
            r == self@.len(),
    {
        proof {
            lemma_objs_view(self.items@);
        }
        self.items.len()
    }

    /// True if the array is empty.
    pub fn is_empty(&self) -> (r: bool)
        ensures
            r == (self@.len() == 0),
    {
        proof {
            lemma_objs_view(self.items@);
        }
        self.items.len() == 0
    }

    /// Appends an object at the end of the array.
    pub fn push(&mut self, obj: NvimObject)
        ensures
            final(self)@ == old(self)@.push(obj@),
    {
        let ghost ov = obj@;
        self.items.push(obj);
        proof {
            lemma_objs_view(old(self).items@);
            lemma_objs_view(self.items@);
            assert forall|i: int| 0 <= i < self@.len() implies self@[i] == old(self)@.push(ov)[i] by {
                assert(objs_view(self.items@)[i] == obj_view(self.items@[i]));
                if i < old(self).items@.len() {
                    assert(objs_view(old(self).items@)[i] == obj_view(old(self).items@[i]));
                }
            }
            assert(self@ =~= old(self)@.push(ov));
        }
    }

    /// A reference to the object at the given index.
    pub fn get(&self, index: usize) -> (r: &NvimObject)
        requires
            index < self@.len(),
        ensures
            r@ == self@[index as int],
    {
        proof {
            lemma_objs_view(self.items@);
        }
        &self.items[index]
    }
}

impl NvimDictionary {
    /// Creates a new empty host dictionary.
    pub fn new() -> (r: NvimDictionary)
        ensures
            r@ =~= Seq::<(Seq<u8>, ObjV)>::empty(),
    {
        let r = NvimDictionary { entries: Vec::new() };
        proof {
            lemma_entries_view(r.entries@);
        }
        r
    }

    /// Creates a dictionary from a vector of key-value pairs.
    pub fn from_vec(vec: Vec<(NvimString, NvimObject)>) -> (r: NvimDictionary)
        ensures
            r@.len() == vec@.len(),
            forall|i: int|
                0 <= i < vec@.len() ==> #[trigger] r@[i] == (vec@[i].0@, obj_view(vec@[i].1)),
    {
        let r = NvimDictionary { entries: vec };
        proof {
            lemma_entries_view(r.entries@);
        }
        r
    }

    /// Converts this dictionary into a vector of key-value pairs.
    pub fn into_vec(self) -> (r: Vec<(NvimString, NvimObject)>)
        ensures
            r@.len() == self@.len(),
            forall|i: int|
                0 <= i < self@.len() ==> #[trigger] self@[i] == (r@[i].0@, obj_view(r@[i].1)),
    {
        proof {
            lemma_entries_view(self.entries@);
        }
        self.entries
    }

    /// The number of entries.
    pub fn len(&self) -> (r: usize)
        ensures
            r == self@.len(),
    {
        proof {
            lemma_entries_view(self.entries@);
        }
        self.entries.len()
    }

    /// A reference to the value under the first entry with the given key,
    /// or nothing when no entry has it.
    pub fn get(&self, key: &Vec<u8>) -> (r: Option<&NvimObject>)
        ensures
            match r {
                Option::Some(v) => spec_dict_lookup(self@, key@) == Option::Some(v@),
                Option::None => spec_dict_lookup(self@, key@) is None,
            },
    {
        proof {
            lemma_entries_view(self.entries@);
            assert(self@.skip(0) =~= self@);
        }
        let mut i: usize = 0;
        while i < self.entries.len()
            invariant
                i <= self.entries@.len(),
                self@.len() == self.entries@.len(),
                forall|t: int|
                    0 <= t < self@.len() ==> #[trigger] self@[t] == (
                        self.entries@[t].0@,
                        obj_view(self.entries@[t].1),
                    ),
                spec_dict_lookup(self@, key@) == spec_dict_lookup(self@.skip(i as int), key@),
            decreases self.entries@.len() - i,
        {
            let ghost rest = self@.skip(i as int);
            proof {
                assert(rest[0] == self@[i as int]);
                assert(rest.drop_first() =~= self@.skip(i + 1));
            }
            if bytes_eq(self.entries[i].0.as_bytes(), key) {
                return Option::Some(&self.entries[i].1);
            }
            i = i + 1;
        }
        proof {
            assert(self@.skip(self@.len() as int) =~= Seq::<(Seq<u8>, ObjV)>::empty());
        }
        Option::None
    }
}

/// The value under the first entry with the given key.
pub open spec fn spec_dict_lookup(entries: Seq<(Seq<u8>, ObjV)>, key: Seq<u8>) -> Option<ObjV>
    decreases entries.len(),
{
    if entries.len() == 0 {
        Option::None
    } else if entries[0].0 == key {
        Option::Some(entries[0].1)
    } else {
        spec_dict_lookup(entries.drop_first(), key)
    }
}

/// True when the two byte vectors hold the same bytes.
pub fn bytes_eq(a: &Vec<u8>, b: &Vec<u8>) -> (r: bool)
    ensures
        r == (a@ == b@),
{
    if a.len() != b.len() {
        proof {
            assert(a@.len() != b@.len());
        }
        return false;
    }
    let mut i: usize = 0;
    while i < a.len()
        invariant
            i <= a@.len(),
            a@.len() == b@.len(),
            forall|t: int| 0 <= t < i ==> a@[t] == b@[t],
        decreases a@.len() - i,
    {
        if a[i] != b[i] {
            return false;
        }
        i = i + 1;
    }
    proof {
        assert(a@ =~= b@);
    }
    true
}

/// Represents the type of a host object.
#[derive(Debug, Clone, Copy, PartialEq, Eq, Structural)]
pub enum NvimApiType {
    Nil,
    Boolean,
    Integer,
    Float,
    String,
    Array,
    Dictionary,
    Buffer,
    Window,
    Tabpage,
    /// The host-side opaque reference type, which callback handles
    /// stand in for.
    LuaRef,
}

/// The type of a host object value.
pub open spec fn spec_obj_type(o: ObjV) -> NvimApiType {
    match o {
        ObjV::Nil => NvimApiType::Nil,
        ObjV::Boolean(_) => NvimApiType::Boolean,
        ObjV::Integer(_) => NvimApiType::Integer,
        ObjV::Float(_) => NvimApiType::Float,
        ObjV::String(_) => NvimApiType::String,
        ObjV::Array(_) => NvimApiType::Array,
        ObjV::Dictionary(_) => NvimApiType::Dictionary,
        ObjV::Buffer(_) => NvimApiType::Buffer,
        ObjV::Window(_) => NvimApiType::Window,
        ObjV::Tabpage(_) => NvimApiType::Tabpage,
        ObjV::WasmRef(_) => NvimApiType::LuaRef,
    }
}

/// The display name of each host object type.
pub open spec fn spec_api_type_name(t: NvimApiType) -> Seq<char> {
    match t {
        NvimApiType::Nil => "nil"@,
        NvimApiType::Boolean => "Boolean"@,
        NvimApiType::Integer => "Integer"@,
        NvimApiType::Float => "Float"@,
        NvimApiType::String => "String"@,
        NvimApiType::Array => "Array"@,
        NvimApiType::Dictionary => "Dict"@,
        NvimApiType::Buffer => "Buffer"@,
        NvimApiType::Window => "Window"@,
        NvimApiType::Tabpage => "Tabpage"@,
        NvimApiType::LuaRef => "LuaRef"@,
    }
}

impl NvimApiType {
    /// Returns the type name.
    pub fn name(self) -> (r: &'static str)
        ensures
            r@ == spec_api_type_name(self),
    {
        match self {
            NvimApiType::Nil => "nil",
            NvimApiType::Boolean => "Boolean",
            NvimApiType::Integer => "Integer",
            NvimApiType::Float => "Float",
            NvimApiType::String => "String",
            NvimApiType::Array => "Array",
            NvimApiType::Dictionary => "Dict",
            NvimApiType::Buffer => "Buffer",
            NvimApiType::Window => "Window",
            NvimApiType::Tabpage => "Tabpage",
            NvimApiType::LuaRef => "LuaRef",
        }
    }
}

/// Error when reading a host object as a variant it does not hold.
#[derive(Debug, Clone, Copy, PartialEq, Eq, Structural)]
pub struct ObjectConversionError {
    pub object_type: NvimApiType,
    pub expected_type: NvimApiType,
}

impl NvimObject {
    /// Returns a nil object.
    pub fn nil() -> (r: NvimObject)
        ensures
            r@ == ObjV::Nil,
    {
        NvimObject::Nil
    }

    /// Returns the type of this object.
    pub fn type_(&self) -> (r: NvimApiType)
        ensures
            r == spec_obj_type(self@),
    {
        match self {
            NvimObject::Nil => NvimApiType::Nil,
            NvimObject::Boolean(_) => NvimApiType::Boolean,
            NvimObject::Integer(_) => NvimApiType::Integer,
            NvimObject::Float(_) => NvimApiType::Float,
            NvimObject::String(_) => NvimApiType::String,
            NvimObject::Array(_) => NvimApiType::Array,
            NvimObject::Dictionary(_) => NvimApiType::Dictionary,
            NvimObject::Buffer(_) => NvimApiType::Buffer,
            NvimObject::Window(_) => NvimApiType::Window,
            NvimObject::Tabpage(_) => NvimApiType::Tabpage,
            NvimObject::WasmRef(_) => NvimApiType::LuaRef,
        }
    }

    /// Returns true if the object is nil.
    pub fn is_nil(&self) -> (r: bool)
        ensures
            r == (self@ is Nil),
    {
        matches!(self, NvimObject::Nil)
    }

    /// Returns `()` exactly when the object is nil, and the conversion
    /// error naming the object's type otherwise.
    pub fn try_into_unit(&self) -> (r: Result<(), ObjectConversionError>)
        ensures
            r is Ok <==> self@ is Nil,
            r matches Err(e) ==> e == (ObjectConversionError {
                object_type: spec_obj_type(self@),
                expected_type: NvimApiType::Nil,
            }),
    {
        if self.is_nil() {
            Ok(())
        } else {
            Err(ObjectConversionError { object_type: self.type_(), expected_type: NvimApiType::Nil })
        }
    }
}

// ---------------------------------------------------------------------------
// The guest ABI representation.
// ---------------------------------------------------------------------------
/// View of a guest primitive value.
pub enum GPrimV {
    Nil,
    Boolean(bool),
    Integer(i64),
    Float(u64),
    String(Seq<u8>),
    Buffer(i32),
    Window(i32),
    Tabpage(i32),
    Wasmref(u32),
}

/// View of a guest object.
pub enum GObjV {
    Nil,
    Boolean(bool),
    Integer(i64),
    Float(u64),
    String(Seq<u8>),
    Array(Seq<GPrimV>),
    Dictionary(Seq<(Seq<u8>, GPrimV)>),
    Buffer(i32),
    Window(i32),
    Tabpage(i32),
    Wasmref(u32),
}

/// A guest value in a primitive slot: the element of an array or the value
/// of a dictionary entry.  Containers cannot nest here.
#[derive(Debug, PartialEq)]
pub enum GuestPrimitive {
    Nil,
    Boolean(bool),
    Integer(i64),
    /// IEEE-754 bit pattern of the 64-bit value.
    Float(u64),
    String(Vec<u8>),
    Buffer(i32),
    Window(i32),
    Tabpage(i32),
    /// A callback reference, scoped to the current instance; `0` is the
    /// absent reference.
    Wasmref(u32),
}

impl View for GuestPrimitive {
    type V = GPrimV;

    open spec fn view(&self) -> GPrimV {
        match self {
            GuestPrimitive::Nil => GPrimV::Nil,
            GuestPrimitive::Boolean(b) => GPrimV::Boolean(*b),
            GuestPrimitive::Integer(i) => GPrimV::Integer(*i),
            GuestPrimitive::Float(bits) => GPrimV::Float(*bits),
            GuestPrimitive::String(s) => GPrimV::String(s@),
            GuestPrimitive::Buffer(h) => GPrimV::Buffer(*h),
            GuestPrimitive::Window(h) => GPrimV::Window(*h),
            GuestPrimitive::Tabpage(h) => GPrimV::Tabpage(*h),
            GuestPrimitive::Wasmref(r) => GPrimV::Wasmref(*r),
        }
    }
}

impl DeepView for GuestPrimitive {
    type V = GPrimV;

    open spec fn deep_view(&self) -> GPrimV {
        self@
    }
}

/// A guest object crossing the boundary.
#[derive(Debug, PartialEq)]
pub enum GuestObject {
    Nil,
    Boolean(bool),
    Integer(i64),
    /// IEEE-754 bit pattern of the 64-bit value.
    Float(u64),
    String(Vec<u8>),
    Array(Vec<GuestPrimitive>),
    Dictionary(Vec<(Vec<u8>, GuestPrimitive)>),
    Buffer(i32),
    Window(i32),
    Tabpage(i32),
    Wasmref(u32),
}

/// View of a guest object.
pub open spec fn gobj_view(g: GuestObject) -> GObjV {
    match g {
        GuestObject::Nil => GObjV::Nil,
        GuestObject::Boolean(b) => GObjV::Boolean(b),
        GuestObject::Integer(i) => GObjV::Integer(i),
        GuestObject::Float(bits) => GObjV::Float(bits),
        GuestObject::String(s) => GObjV::String(s@),
        GuestObject::Array(ps) => GObjV::Array(ps.deep_view()),
        GuestObject::Dictionary(es) => GObjV::Dictionary(
            Seq::new(es@.len(), |i: int| (es@[i].0@, es@[i].1@)),
        ),
        GuestObject::Buffer(h) => GObjV::Buffer(h),
        GuestObject::Window(h) => GObjV::Window(h),
        GuestObject::Tabpage(h) => GObjV::Tabpage(h),
        GuestObject::Wasmref(r) => GObjV::Wasmref(r),
    }
}

impl View for GuestObject {
    type V = GObjV;

    open spec fn view(&self) -> GObjV {
        gobj_view(*self)
    }
}

impl DeepView for GuestObject {
    type V = GObjV;

    open spec fn deep_view(&self) -> GObjV {
        gobj_view(*self)
    }
}

// ---------------------------------------------------------------------------
// Call results of native host functions.
// ---------------------------------------------------------------------------
/// The kind of an error signaled by a native host call.
#[derive(Debug, Clone, Copy, PartialEq, Eq, Structural)]
pub enum NvimErrorKind {
    Exception,
    Validation,
}

/// An error signaled by a native host call: its kind and its message
/// bytes.
#[derive(Debug, PartialEq)]
pub struct NvimError {
    pub kind: NvimErrorKind,
    pub msg: Vec<u8>,
}

/// Represents the result of calling a native host function.
///
/// It wraps the host's error-out state, which has a none state and so
/// resembles a result rather than an error.
#[derive(Debug)]
pub struct NvimResult {
    err: Option<NvimError>,
}

impl View for NvimResult {
    type V = Option<(NvimErrorKind, Seq<u8>)>;

    closed spec fn view(&self) -> Option<(NvimErrorKind, Seq<u8>)> {
        match self.err {
            Option::None => Option::None,
            Option::Some(NvimError { kind, msg }) => Option::Some((kind, msg@)),
        }
    }
}

impl NvimResult {
    /// Creates a new result in the no-error state.
    pub fn new_ok() -> (r: NvimResult)
        ensures
            r@ is None,
    {
        NvimResult { err: Option::None }
    }

    /// Creates a result from an ordinary one.
    pub fn from_result(result: Result<(), NvimError>) -> (r: NvimResult)
        ensures
            match result {
                Result::Ok(_) => r@ is None,
                Result::Err(e) => r@ == Option::Some((e.kind, e.msg@)),
            },
    {
        match result {
            Result::Ok(_) => NvimResult { err: Option::None },
            Result::Err(e) => NvimResult { err: Option::Some(e) },
        }
    }

    /// Converts this result into an ordinary one.
    pub fn into_result(self) -> (r: Result<(), NvimError>)
        ensures
            match r {
                Result::Ok(_) => self@ is None,
                Result::Err(e) => self@ == Option::Some((e.kind, e.msg@)),
            },
    {
        match self.err {
            Option::None => Ok(()),
            Option::Some(e) => Err(e),
        }
    }
}

} // verus!