//! Bidirectional marshaling between host objects and guest ABI values.
//!
//! Primitive values cross the boundary unchanged; each of the three handle
//! kinds is reduced to the boundary's narrower integer width; a container
//! may hold only primitive values in the guest representation, and a
//! nested container is a conversion error naming the offending kind.  A
//! callback handle marshals out as its reference number only while its
//! owning instance is the current conversion context, and as the absent
//! reference otherwise; marshaling in always re-attaches the current
//! instance id.

use vstd::prelude::*;

use crate::value::{
    GObjV, GPrimV, GuestObject, GuestPrimitive, NvimApiType, NvimArray, NvimBuffer,
    NvimDictionary, NvimObject, NvimString, NvimTabpage, NvimWasmRef, NvimWindow,
    ObjectConversionError, ObjV, spec_wasmref_new,
};

verus! {

/// Carries the identity of the instance currently executing.  It is
/// threaded explicitly through every marshaling call, never read from
/// ambient state, so that a callback handle's owning instance can be
/// checked against the caller's instance.
#[derive(Debug, Clone, Copy)]
pub struct Context {
    pub current_instance_id: i32,
}

/// Errors when marshaling a host value into its guest representation.
#[derive(Debug, Clone, Copy, PartialEq, Eq, Structural)]
pub enum TypeConversionError {
    /// A container sat in a primitive-only slot.  The guest representation
    /// permanently excludes containers at that position; the offending
    /// container kind is named.
    NonPrimitiveType(NvimApiType),
    /// An object was read as a variant it does not hold.
    ObjectConversion(ObjectConversionError),
    /// A callback handle was seen under an instance other than its owner.
    InstanceIdMismatch { current: i32, wasmref: i32 },
}

/// The human-readable description of each conversion error: a nested
/// container names the offending container kind.
pub open spec fn spec_describe_conversion_error(e: TypeConversionError) -> Seq<char> {
    match e {
        TypeConversionError::NonPrimitiveType(t) => "a container of kind "@
            + crate::value::spec_api_type_name(t)
            + " cannot sit in a primitive slot of the boundary representation"@,
        TypeConversionError::ObjectConversion(_) => "an object was read as a variant it does not hold"@,
        TypeConversionError::InstanceIdMismatch { .. } => "a callback handle was seen under an instance other than its owner"@,
    }
}

impl TypeConversionError {
    /// A human-readable description of the error.
    pub fn describe(&self) -> (r: String)
        ensures
            r@ == spec_describe_conversion_error(*self),
    {
        match self {
            TypeConversionError::NonPrimitiveType(t) => {
                let mut out = String::from_str("a container of kind ");
                out.append(t.name());
                out.append(" cannot sit in a primitive slot of the boundary representation");
                out
            },
            TypeConversionError::ObjectConversion(_) => String::from_str(
                "an object was read as a variant it does not hold",
            ),
            TypeConversionError::InstanceIdMismatch { .. } => String::from_str(
                "a callback handle was seen under an instance other than its owner",
            ),
        }
    }
}

/// A host value legal in a primitive slot: anything but a container.
pub open spec fn is_primitive_value(o: ObjV) -> bool {
    !(o is Array) && !(o is Dictionary)
}

/// The reference number a callback handle marshals out as: its own
/// reference while its owning instance is current, and the absent
/// reference otherwise.
pub open spec fn spec_wasmref_out(p: Option<(i32, u32)>, ctx: i32) -> u32 {
    match p {
        Option::None => 0,
        Option::Some((instance_id, ref_)) => if instance_id != ctx {
            0
        } else {
            ref_
        },
    }
}

/// A host value marshaled into a primitive slot.
pub open spec fn to_guest_prim_spec(o: ObjV, ctx: i32) -> Result<GPrimV, TypeConversionError> {
    match o {
        ObjV::Nil => Result::Ok(GPrimV::Nil),
        ObjV::Boolean(b) => Result::Ok(GPrimV::Boolean(b)),
        ObjV::Integer(i) => Result::Ok(GPrimV::Integer(i)),
        ObjV::Float(bits) => Result::Ok(GPrimV::Float(bits)),
        ObjV::String(s) => Result::Ok(GPrimV::String(s)),
        ObjV::Array(_) => Result::Err(TypeConversionError::NonPrimitiveType(NvimApiType::Array)),
        ObjV::Dictionary(_) => Result::Err(
            TypeConversionError::NonPrimitiveType(NvimApiType::Dictionary),
        ),
        ObjV::Buffer(h) => Result::Ok(GPrimV::Buffer(h as i32)),
        ObjV::Window(h) => Result::Ok(GPrimV::Window(h as i32)),
        ObjV::Tabpage(h) => Result::Ok(GPrimV::Tabpage(h as i32)),
        ObjV::WasmRef(p) => Result::Ok(GPrimV::Wasmref(spec_wasmref_out(p, ctx))),
    }
}

/// The elements of a host array marshaled into primitive slots; the first
/// offending element decides the error.
pub open spec fn prims_of(elems: Seq<ObjV>, ctx: i32) -> Result<Seq<GPrimV>, TypeConversionError>
    decreases elems.len(),
{
    if elems.len() == 0 {
        Result::Ok(Seq::empty())
    } else {
        match to_guest_prim_spec(elems[0], ctx) {
            Result::Err(e) => Result::Err(e),
            Result::Ok(p) => match prims_of(elems.drop_first(), ctx) {
                Result::Err(e) => Result::Err(e),
                Result::Ok(ps) => Result::Ok(seq![p] + ps),
            },
        }
    }
}

/// The entries of a host dictionary marshaled into primitive slots.
pub open spec fn entry_prims_of(entries: Seq<(Seq<u8>, ObjV)>, ctx: i32) -> Result<
    Seq<(Seq<u8>, GPrimV)>,
    TypeConversionError,
>
    decreases entries.len(),
{
    if entries.len() == 0 {
        Result::Ok(Seq::empty())
    } else {
        match to_guest_prim_spec(entries[0].1, ctx) {
            Result::Err(e) => Result::Err(e),
            Result::Ok(p) => match entry_prims_of(entries.drop_first(), ctx) {
                Result::Err(e) => Result::Err(e),
                Result::Ok(ps) => Result::Ok(seq![(entries[0].0, p)] + ps),
            },
        }
    }
}

/// A host object marshaled into the general guest representation.
pub open spec fn to_guest_spec(o: ObjV, ctx: i32) -> Result<GObjV, TypeConversionError> {
    match o {
        ObjV::Nil => Result::Ok(GObjV::Nil),
        ObjV::Boolean(b) => Result::Ok(GObjV::Boolean(b)),
        ObjV::Integer(i) => Result::Ok(GObjV::Integer(i)),
        ObjV::Float(bits) => Result::Ok(GObjV::Float(bits)),
        ObjV::String(s) => Result::Ok(GObjV::String(s)),
        ObjV::Array(elems) => match prims_of(elems, ctx) {
            Result::Err(e) => Result::Err(e),
            Result::Ok(ps) => Result::Ok(GObjV::Array(ps)),
        },
        ObjV::Dictionary(entries) => match entry_prims_of(entries, ctx) {
            Result::Err(e) => Result::Err(e),
            Result::Ok(ps) => Result::Ok(GObjV::Dictionary(ps)),
        },
        ObjV::Buffer(h) => Result::Ok(GObjV::Buffer(h as i32)),
        ObjV::Window(h) => Result::Ok(GObjV::Window(h as i32)),
        ObjV::Tabpage(h) => Result::Ok(GObjV::Tabpage(h as i32)),
        ObjV::WasmRef(p) => Result::Ok(GObjV::Wasmref(spec_wasmref_out(p, ctx))),
    }
}

/// A guest primitive marshaled back into a host value.  A callback
/// reference re-attaches the current instance id; the zero reference gives
/// the absent handle.
pub open spec fn from_guest_prim_spec(p: GPrimV, ctx: i32) -> ObjV {
    match p {
        GPrimV::Nil => ObjV::Nil,
        GPrimV::Boolean(b) => ObjV::Boolean(b),
        GPrimV::Integer(i) => ObjV::Integer(i),
        GPrimV::Float(bits) => ObjV::Float(bits),
        GPrimV::String(s) => ObjV::String(s),
        GPrimV::Buffer(h) => ObjV::Buffer(h as i64),
        GPrimV::Window(h) => ObjV::Window(h as i64),
        GPrimV::Tabpage(h) => ObjV::Tabpage(h as i64),
        GPrimV::Wasmref(r) => ObjV::WasmRef(spec_wasmref_new(ctx, r)),
    }
}

/// A guest object marshaled back into a host object.
pub open spec fn to_host_spec(g: GObjV, ctx: i32) -> ObjV {
    match g {
        GObjV::Nil => ObjV::Nil,
        GObjV::Boolean(b) => ObjV::Boolean(b),
        GObjV::Integer(i) => ObjV::Integer(i),
        GObjV::Float(bits) => ObjV::Float(bits),
        GObjV::String(s) => ObjV::String(s),
        GObjV::Array(ps) => ObjV::Array(Seq::new(ps.len(), |i: int| from_guest_prim_spec(ps[i], ctx))),
        GObjV::Dictionary(ps) => ObjV::Dictionary(
            Seq::new(ps.len(), |i: int| (ps[i].0, from_guest_prim_spec(ps[i].1, ctx))),
        ),
        GObjV::Buffer(h) => ObjV::Buffer(h as i64),
        GObjV::Window(h) => ObjV::Window(h as i64),
        GObjV::Tabpage(h) => ObjV::Tabpage(h as i64),
        GObjV::Wasmref(r) => ObjV::WasmRef(spec_wasmref_new(ctx, r)),
    }
}

/// Marshals a host value into a primitive slot of the guest
/// representation.  A container here is a conversion error naming the
/// container kind.
pub fn to_guest_primitive(o: NvimObject, context: &Context) -> (r: Result<
    GuestPrimitive,
    TypeConversionError,
>)
    ensures
        match r {
            Result::Ok(p) => to_guest_prim_spec(o@, context.current_instance_id)
                == Result::<GPrimV, TypeConversionError>::Ok(p@),
            Result::Err(e) => to_guest_prim_spec(o@, context.current_instance_id)
                == Result::<GPrimV, TypeConversionError>::Err(e),
        },
{
    match o {
        NvimObject::Nil => Ok(GuestPrimitive::Nil),
        NvimObject::Boolean(b) => Ok(GuestPrimitive::Boolean(b)),
        NvimObject::Integer(i) => Ok(GuestPrimitive::Integer(i)),
        NvimObject::Float(bits) => Ok(GuestPrimitive::Float(bits)),
        NvimObject::String(s) => Ok(GuestPrimitive::String(s.into_bytes())),
        NvimObject::Array(_) => Err(TypeConversionError::NonPrimitiveType(NvimApiType::Array)),
        NvimObject::Dictionary(_) => Err(
            TypeConversionError::NonPrimitiveType(NvimApiType::Dictionary),
        ),
        NvimObject::Buffer(b) => Ok(GuestPrimitive::Buffer(#[verifier::truncate] (b.handle() as i32))),
        NvimObject::Window(w) => Ok(GuestPrimitive::Window(#[verifier::truncate] (w.handle() as i32))),
        NvimObject::Tabpage(t) => Ok(
            GuestPrimitive::Tabpage(#[verifier::truncate] (t.handle() as i32)),
        ),
        NvimObject::WasmRef(wr) => Ok(GuestPrimitive::Wasmref(wasmref_out(&wr, context))),
    }
}

/// The reference a callback handle marshals out as under the given
/// context.
fn wasmref_out(wr: &NvimWasmRef, context: &Context) -> (r: u32)
    ensures
        r == spec_wasmref_out(wr@, context.current_instance_id),
{
    match wr.pair() {
        Option::None => 0,
        Option::Some((instance_id, ref_)) => {
            if instance_id != context.current_instance_id {
                0
            } else {
                ref_
            }
        },
    }
}

/// Marshals a host object into the general guest representation.
pub fn to_guest(o: NvimObject, context: &Context) -> (r: Result<GuestObject, TypeConversionError>)
    ensures
        match r {
            Result::Ok(g) => to_guest_spec(o@, context.current_instance_id)
                == Result::<GObjV, TypeConversionError>::Ok(g@),
            Result::Err(e) => to_guest_spec(o@, context.current_instance_id)
                == Result::<GObjV, TypeConversionError>::Err(e),
        },
{
    match o {
        NvimObject::Nil => Ok(GuestObject::Nil),
        NvimObject::Boolean(b) => Ok(GuestObject::Boolean(b)),
        NvimObject::Integer(i) => Ok(GuestObject::Integer(i)),
        NvimObject::Float(bits) => Ok(GuestObject::Float(bits)),
        NvimObject::String(s) => Ok(GuestObject::String(s.into_bytes())),
        NvimObject::Array(arr) => {
            match guest_prims_of_array(arr, context) {
                Result::Ok(prims) => Ok(GuestObject::Array(prims)),
                Result::Err(e) => Err(e),
            }
        },
        NvimObject::Dictionary(dict) => {
            match guest_prims_of_dictionary(dict, context) {
                Result::Ok(prims) => Ok(GuestObject::Dictionary(prims)),
                Result::Err(e) => Err(e),
            }
        },
        NvimObject::Buffer(b) => Ok(GuestObject::Buffer(#[verifier::truncate] (b.handle() as i32))),
        NvimObject::Window(w) => Ok(GuestObject::Window(#[verifier::truncate] (w.handle() as i32))),
        NvimObject::Tabpage(t) => Ok(GuestObject::Tabpage(#[verifier::truncate] (t.handle() as i32))),
        NvimObject::WasmRef(wr) => Ok(GuestObject::Wasmref(wasmref_out(&wr, context))),
    }
}

/// Marshals a guest primitive back into a host object.
pub fn from_guest_primitive(p: GuestPrimitive, context: &Context) -> (r: NvimObject)
    ensures
        r@ == from_guest_prim_spec(p@, context.current_instance_id),
{
    match p {
        GuestPrimitive::Nil => NvimObject::Nil,
        GuestPrimitive::Boolean(b) => NvimObject::Boolean(b),
        GuestPrimitive::Integer(i) => NvimObject::Integer(i),
        GuestPrimitive::Float(bits) => NvimObject::Float(bits),
        GuestPrimitive::String(s) => NvimObject::String(NvimString::new(s)),
        GuestPrimitive::Buffer(h) => NvimObject::Buffer(NvimBuffer::from_handle(h as i64)),
        GuestPrimitive::Window(h) => NvimObject::Window(NvimWindow::from_handle(h as i64)),
        GuestPrimitive::Tabpage(h) => NvimObject::Tabpage(NvimTabpage::from_handle(h as i64)),
        GuestPrimitive::Wasmref(r) => NvimObject::WasmRef(
            NvimWasmRef::new(context.current_instance_id, r),
        ),
    }
}

/// Marshals a guest object back into a host object.
pub fn to_host(g: GuestObject, context: &Context) -> (r: NvimObject)
    ensures
        r@ == to_host_spec(g@, context.current_instance_id),
{
    let ghost ctx = context.current_instance_id;
    match g {
        GuestObject::Nil => NvimObject::Nil,
        GuestObject::Boolean(b) => NvimObject::Boolean(b),
        GuestObject::Integer(i) => NvimObject::Integer(i),
        GuestObject::Float(bits) => NvimObject::Float(bits),
        GuestObject::String(s) => NvimObject::String(NvimString::new(s)),
        GuestObject::Array(mut ps) => {
            let ghost ps0 = ps.deep_view();
            let mut items: Vec<NvimObject> = Vec::new();
            proof {
                assert(items.deep_view() =~= Seq::<ObjV>::empty());
            }
            while ps.len() > 0
                invariant
                    ctx == context.current_instance_id,
                    items.deep_view() + Seq::new(
                        ps.deep_view().len(),
                        |i: int| from_guest_prim_spec(ps.deep_view()[i], ctx),
                    ) =~= Seq::new(ps0.len(), |i: int| from_guest_prim_spec(ps0[i], ctx)),
                decreases ps.len(),
            {
                let ghost dv = ps.deep_view();
                let ghost idv = items.deep_view();
                let p = ps.remove(0);
                proof {
                    assert(ps.deep_view() =~= dv.drop_first());
                    assert(p.deep_view() == dv[0]);
                }
                let x = from_guest_primitive(p, context);
                items.push(x);
                proof {
                    assert(items.deep_view() =~= idv.push(from_guest_prim_spec(dv[0], ctx)));
                    assert(items.deep_view() + Seq::new(
                        ps.deep_view().len(),
                        |i: int| from_guest_prim_spec(ps.deep_view()[i], ctx),
                    ) =~= idv + Seq::new(dv.len(), |i: int| from_guest_prim_spec(dv[i], ctx)));
                }
            }
            proof {
                assert(ps.deep_view() =~= Seq::<GPrimV>::empty());
                assert(items.deep_view() =~= Seq::new(
                    ps0.len(),
                    |i: int| from_guest_prim_spec(ps0[i], ctx),
                ));
            }
            NvimObject::Array(NvimArray::from_vec(items))
        },
        GuestObject::Dictionary(mut ps) => {
            let ghost ps0 = Seq::new(ps@.len(), |i: int| (ps@[i].0@, ps@[i].1@));
            let mut entries: Vec<(NvimString, NvimObject)> = Vec::new();
            let ghost target = Seq::new(ps0.len(), |i: int| (ps0[i].0, from_guest_prim_spec(ps0[i].1, ctx)));
            let ghost mut cur = ps0;
            proof {
                assert(Seq::new(entries@.len(), |i: int| (entries@[i].0@, crate::value::obj_view(entries@[i].1)))
                    + Seq::new(cur.len(), |i: int| (cur[i].0, from_guest_prim_spec(cur[i].1, ctx))) =~= target);
            }
            while ps.len() > 0
                invariant
                    ctx == context.current_instance_id,
                    cur.len() == ps@.len(),
                    forall|i: int| 0 <= i < cur.len() ==> #[trigger] cur[i] == (ps@[i].0@, ps@[i].1@),
                    Seq::new(
                        entries@.len(),
                        |i: int| (entries@[i].0@, crate::value::obj_view(entries@[i].1)),
                    ) + Seq::new(cur.len(), |i: int| (cur[i].0, from_guest_prim_spec(cur[i].1, ctx)))
                        =~= target,
                decreases ps.len(),
            {
                let ghost dv = ps@;
                let ghost curdv = cur;
                let ghost edv = Seq::new(
                    entries@.len(),
                    |i: int| (entries@[i].0@, crate::value::obj_view(entries@[i].1)),
                );
                let (key, p) = ps.remove(0);
                proof {
                    assert(ps@ =~= dv.drop_first());
                    cur = curdv.drop_first();
                    assert forall|i: int| 0 <= i < cur.len() implies #[trigger] cur[i] == (
                        ps@[i].0@,
                        ps@[i].1@,
                    ) by {
                        assert(curdv[i + 1] == (dv[i + 1].0@, dv[i + 1].1@));
                    }
                    assert(curdv[0] == (key@, p@));
                }
                let x = from_guest_primitive(p, context);
                entries.push((NvimString::new(key), x));
                proof {
                    let edv2 = Seq::new(
                        entries@.len(),
                        |i: int| (entries@[i].0@, crate::value::obj_view(entries@[i].1)),
                    );
                    assert(edv2 =~= edv.push((curdv[0].0, from_guest_prim_spec(curdv[0].1, ctx))));
                    assert(edv2 + Seq::new(
                        cur.len(),
                        |i: int| (cur[i].0, from_guest_prim_spec(cur[i].1, ctx)),
                    ) =~= edv + Seq::new(
                        curdv.len(),
                        |i: int| (curdv[i].0, from_guest_prim_spec(curdv[i].1, ctx)),
                    ));
                }
            }
            proof {
                assert(cur =~= Seq::<(Seq<u8>, GPrimV)>::empty());
                let edv = Seq::new(
                    entries@.len(),
                    |i: int| (entries@[i].0@, crate::value::obj_view(entries@[i].1)),
                );
                assert(edv + Seq::new(cur.len(), |i: int| (cur[i].0, from_guest_prim_spec(cur[i].1, ctx)))
                    =~= edv);
                assert(edv =~= target);
            }
            let d = NvimDictionary::from_vec(entries);
            proof {
                assert(d@ =~= target);
            }
            NvimObject::Dictionary(d)
        },
        GuestObject::Buffer(h) => NvimObject::Buffer(NvimBuffer::from_handle(h as i64)),
        GuestObject::Window(h) => NvimObject::Window(NvimWindow::from_handle(h as i64)),
        GuestObject::Tabpage(h) => NvimObject::Tabpage(NvimTabpage::from_handle(h as i64)),
        GuestObject::Wasmref(r) => NvimObject::WasmRef(
            NvimWasmRef::new(context.current_instance_id, r),
        ),
    }
}

/// Marshals the elements of a host array into primitive slots; the first
/// offending element decides the error.
fn guest_prims_of_array(arr: NvimArray, context: &Context) -> (r: Result<
    Vec<GuestPrimitive>,
    TypeConversionError,
>)
    ensures
        match r {
            Result::Ok(ps) => prims_of(arr@, context.current_instance_id) == Result::<
                Seq<GPrimV>,
                TypeConversionError,
            >::Ok(ps.deep_view()),
            Result::Err(e) => prims_of(arr@, context.current_instance_id) == Result::<
                Seq<GPrimV>,
                TypeConversionError,
            >::Err(e),
        },
{
    let ghost ctx = context.current_instance_id;
    let ghost elems0 = arr@;
    let mut items = arr.into_vec();
    proof {
        assert(items.deep_view() =~= elems0);
    }
    let mut prims: Vec<GuestPrimitive> = Vec::new();
    let mut err: Option<TypeConversionError> = Option::None;
    proof {
        assert(prims.deep_view() =~= Seq::<GPrimV>::empty());
    }
    while items.len() > 0 && err.is_none()
        invariant
            ctx == context.current_instance_id,
            match err {
                Option::None => match prims_of(items.deep_view(), ctx) {
                    Result::Ok(ps) => prims_of(elems0, ctx) == Result::<
                        Seq<GPrimV>,
                        TypeConversionError,
                    >::Ok(prims.deep_view() + ps),
                    Result::Err(e) => prims_of(elems0, ctx) == Result::<
                        Seq<GPrimV>,
                        TypeConversionError,
                    >::Err(e),
                },
                Option::Some(e) => prims_of(elems0, ctx) == Result::<
                    Seq<GPrimV>,
                    TypeConversionError,
                >::Err(e),
            },
        decreases items.len(),
    {
        let ghost dv = items.deep_view();
        let x = items.remove(0);
        proof {
            assert(items.deep_view() =~= dv.drop_first());
            assert(x.deep_view() == dv[0]);
        }
        match to_guest_primitive(x, context) {
            Result::Ok(p) => {
                let ghost pv = p@;
                let ghost pdv = prims.deep_view();
                prims.push(p);
                proof {
                    assert(prims.deep_view() =~= pdv.push(pv));
                    if let Result::Ok(ps) = prims_of(items.deep_view(), ctx) {
                        assert(pdv.push(pv) + ps =~= pdv + (seq![pv] + ps));
                    }
                }
            },
            Result::Err(e) => {
                err = Option::Some(e);
            },
        }
    }
    match err {
        Option::Some(e) => Err(e),
        Option::None => {
            proof {
                assert(items.deep_view() =~= Seq::<ObjV>::empty());
                assert(prims.deep_view() + Seq::<GPrimV>::empty() =~= prims.deep_view());
            }
            Ok(prims)
        },
    }
}

/// Marshals the entries of a host dictionary into primitive slots.
fn guest_prims_of_dictionary(dict: NvimDictionary, context: &Context) -> (r: Result<
    Vec<(Vec<u8>, GuestPrimitive)>,
    TypeConversionError,
>)
    ensures
        match r {
            Result::Ok(ps) => entry_prims_of(dict@, context.current_instance_id) == Result::<
                Seq<(Seq<u8>, GPrimV)>,
                TypeConversionError,
            >::Ok(Seq::new(ps@.len(), |i: int| (ps@[i].0@, ps@[i].1@))),
            Result::Err(e) => entry_prims_of(dict@, context.current_instance_id) == Result::<
                Seq<(Seq<u8>, GPrimV)>,
                TypeConversionError,
            >::Err(e),
        },
{
    let ghost ctx = context.current_instance_id;
    let ghost entries0 = dict@;
    let mut entries = dict.into_vec();
    proof {
        assert forall|i: int| 0 <= i < entries0.len() implies entries0[i] == (
            (#[trigger] entries@[i]).0@,
            crate::value::obj_view(entries@[i].1),
        ) by {}
    }
    let mut prims: Vec<(Vec<u8>, GuestPrimitive)> = Vec::new();
    proof {
        let pdv0 = Seq::new(prims@.len(), |i: int| (prims@[i].0@, prims@[i].1@));
        assert(pdv0 =~= Seq::<(Seq<u8>, GPrimV)>::empty());
    }
    let ghost mut cur = entries0;
    let mut err: Option<TypeConversionError> = Option::None;
    while entries.len() > 0 && err.is_none()
        invariant
            ctx == context.current_instance_id,
            cur.len() == entries@.len(),
            forall|i: int|
                0 <= i < cur.len() ==> #[trigger] cur[i] == (
                    entries@[i].0@,
                    crate::value::obj_view(entries@[i].1),
                ),
            match err {
                Option::None => match entry_prims_of(cur, ctx) {
                    Result::Ok(ps) => entry_prims_of(entries0, ctx) == Result::<
                        Seq<(Seq<u8>, GPrimV)>,
                        TypeConversionError,
                    >::Ok(Seq::new(prims@.len(), |i: int| (prims@[i].0@, prims@[i].1@)) + ps),
                    Result::Err(e) => entry_prims_of(entries0, ctx) == Result::<
                        Seq<(Seq<u8>, GPrimV)>,
                        TypeConversionError,
                    >::Err(e),
                },
                Option::Some(e) => entry_prims_of(entries0, ctx) == Result::<
                    Seq<(Seq<u8>, GPrimV)>,
                    TypeConversionError,
                >::Err(e),
            },
        decreases entries.len(),
    {
        let ghost dv = entries@;
        let ghost curdv = cur;
        let (key, val) = entries.remove(0);
        proof {
            assert(entries@ =~= dv.drop_first());
            cur = curdv.drop_first();
            assert forall|i: int| 0 <= i < cur.len() implies #[trigger] cur[i] == (
                entries@[i].0@,
                crate::value::obj_view(entries@[i].1),
            ) by {
                assert(curdv[i + 1] == (dv[i + 1].0@, crate::value::obj_view(dv[i + 1].1)));
            }
            assert(curdv[0] == (key@, val.deep_view()));
        }
        match to_guest_primitive(val, context) {
            Result::Ok(p) => {
                let ghost pv = p@;
                let ghost kv = key@;
                let ghost pdv = Seq::new(prims@.len(), |i: int| (prims@[i].0@, prims@[i].1@));
                let kb = key.into_bytes();
                prims.push((kb, p));
                proof {
                    let pdv2 = Seq::new(prims@.len(), |i: int| (prims@[i].0@, prims@[i].1@));
                    assert(pdv2 =~= pdv.push((kv, pv)));
                    if let Result::Ok(ps) = entry_prims_of(cur, ctx) {
                        assert(pdv.push((kv, pv)) + ps =~= pdv + (seq![(kv, pv)] + ps));
                    }
                }
            },
            Result::Err(e) => {
                err = Option::Some(e);
            },
        }
    }
    match err {
        Option::Some(e) => Err(e),
        Option::None => {
            proof {
                assert(cur =~= Seq::<(Seq<u8>, ObjV)>::empty());
                let pdv = Seq::new(prims@.len(), |i: int| (prims@[i].0@, prims@[i].1@));
                assert(pdv + Seq::<(Seq<u8>, GPrimV)>::empty() =~= pdv);
            }
            Ok(prims)
        },
    }
}

// ---------------------------------------------------------------------------
// Laws of the marshaling layer.
// ---------------------------------------------------------------------------
/// Marshaling any primitive host value out and back returns it unchanged:
/// for every nil, boolean, integer, float or string value `o` and every
/// context, `to_guest` succeeds and `to_host` undoes it exactly.
pub proof fn lemma_host_round_trip(o: ObjV, ctx: i32)
    requires
        o is Nil || o is Boolean || o is Integer || o is Float || o is String,
    ensures
        to_guest_spec(o, ctx) matches Result::Ok(g) && to_host_spec(g, ctx) == o,
{
}

/// Marshaling any primitive guest value in and back returns it unchanged:
/// for every nil, boolean, integer, float or string value `g` and every
/// context, `to_host` followed by `to_guest` gives back `g`.
pub proof fn lemma_guest_round_trip(g: GObjV, ctx: i32)
    requires
        g is Nil || g is Boolean || g is Integer || g is Float || g is String,
    ensures
        to_guest_spec(to_host_spec(g, ctx), ctx) == Result::<
            GObjV,
            TypeConversionError,
        >::Ok(g),
{
}

/// Marshaling the elements of an all-primitive array succeeds and
/// preserves order and count exactly: the result has one slot per element,
/// each holding that element's own primitive image.
pub proof fn lemma_array_of_primitives(elems: Seq<ObjV>, ctx: i32)
    requires
        forall|i: int| 0 <= i < elems.len() ==> is_primitive_value(#[trigger] elems[i]),
    ensures
        to_guest_spec(ObjV::Array(elems), ctx) matches Result::Ok(g)
            && g matches GObjV::Array(ps) && ps.len() == elems.len() && forall|i: int|
            0 <= i < elems.len() ==> Result::<GPrimV, TypeConversionError>::Ok(#[trigger] ps[i])
                == to_guest_prim_spec(elems[i], ctx),
    decreases elems.len(),
{
    if elems.len() > 0 {
        assert(is_primitive_value(elems[0]));
        assert forall|i: int|
            0 <= i < elems.drop_first().len() implies is_primitive_value(
            #[trigger] elems.drop_first()[i],
        ) by {
            assert(elems.drop_first()[i] == elems[i + 1]);
        }
        lemma_array_of_primitives(elems.drop_first(), ctx);
        let ps0 = prims_of(elems.drop_first(), ctx)->Ok_0;
        assert forall|i: int|
            0 <= i < elems.len() implies Result::<GPrimV, TypeConversionError>::Ok(
            #[trigger] (seq![to_guest_prim_spec(elems[0], ctx)->Ok_0] + ps0)[i],
        ) == to_guest_prim_spec(elems[i], ctx) by {
            if i > 0 {
                assert(elems.drop_first()[i - 1] == elems[i]);
            }
        }
    }
}

/// Marshaling the entries of an all-primitive dictionary succeeds and
/// preserves keys, order and count exactly.
pub proof fn lemma_dictionary_of_primitives(entries: Seq<(Seq<u8>, ObjV)>, ctx: i32)
    requires
        forall|i: int| 0 <= i < entries.len() ==> is_primitive_value((#[trigger] entries[i]).1),
    ensures
        to_guest_spec(ObjV::Dictionary(entries), ctx) matches Result::Ok(g)
            && g matches GObjV::Dictionary(ps) && ps.len() == entries.len() && forall|i: int|
            0 <= i < entries.len() ==> (#[trigger] ps[i]).0 == entries[i].0 && Result::<
                GPrimV,
                TypeConversionError,
            >::Ok(ps[i].1) == to_guest_prim_spec(entries[i].1, ctx),
    decreases entries.len(),
{
    if entries.len() > 0 {
        assert(is_primitive_value(entries[0].1));
        assert forall|i: int|
            0 <= i < entries.drop_first().len() implies is_primitive_value(
            (#[trigger] entries.drop_first()[i]).1,
        ) by {
            assert(entries.drop_first()[i] == entries[i + 1]);
        }
        lemma_dictionary_of_primitives(entries.drop_first(), ctx);
        let ps0 = entry_prims_of(entries.drop_first(), ctx)->Ok_0;
        let head = (entries[0].0, to_guest_prim_spec(entries[0].1, ctx)->Ok_0);
        assert forall|i: int|
            0 <= i < entries.len() implies ((#[trigger] (seq![head] + ps0)[i]).0 == entries[i].0
                && Result::<GPrimV, TypeConversionError>::Ok((seq![head] + ps0)[i].1)
                == to_guest_prim_spec(entries[i].1, ctx)) by {
            if i > 0 {
                assert(entries.drop_first()[i - 1] == entries[i]);
            }
        }
    }
}

/// Marshaling an array whose first offending element is a nested
/// container fails with the conversion error naming that container's
/// kind.
pub proof fn lemma_array_nested_container(elems: Seq<ObjV>, ctx: i32, k: int)
    requires
        0 <= k < elems.len(),
        !is_primitive_value(elems[k]),
        forall|j: int| 0 <= j < k ==> is_primitive_value(#[trigger] elems[j]),
    ensures
        to_guest_spec(ObjV::Array(elems), ctx) == Result::<GObjV, TypeConversionError>::Err(
            TypeConversionError::NonPrimitiveType(crate::value::spec_obj_type(elems[k])),
        ),
    decreases k,
{
    if k == 0 {
    } else {
        assert(is_primitive_value(elems[0]));
        assert forall|j: int| 0 <= j < k - 1 implies is_primitive_value(
            #[trigger] elems.drop_first()[j],
        ) by {
            assert(elems.drop_first()[j] == elems[j + 1]);
        }
        assert(elems.drop_first()[k - 1] == elems[k]);
        lemma_array_nested_container(elems.drop_first(), ctx, k - 1);
        assert(to_guest_spec(ObjV::Array(elems.drop_first()), ctx) == Result::<
            GObjV,
            TypeConversionError,
        >::Err(TypeConversionError::NonPrimitiveType(crate::value::spec_obj_type(elems[k]))));
    }
}

/// Marshaling a dictionary whose first offending value is a nested
/// container fails with the conversion error naming that container's
/// kind.
pub proof fn lemma_dictionary_nested_container(entries: Seq<(Seq<u8>, ObjV)>, ctx: i32, k: int)
    requires
        0 <= k < entries.len(),
        !is_primitive_value(entries[k].1),
        forall|j: int| 0 <= j < k ==> is_primitive_value((#[trigger] entries[j]).1),
    ensures
        to_guest_spec(ObjV::Dictionary(entries), ctx) == Result::<GObjV, TypeConversionError>::Err(
            TypeConversionError::NonPrimitiveType(crate::value::spec_obj_type(entries[k].1)),
        ),
    decreases k,
{
    if k == 0 {
    } else {
        assert(is_primitive_value(entries[0].1));
        assert forall|j: int| 0 <= j < k - 1 implies is_primitive_value(
            (#[trigger] entries.drop_first()[j]).1,
        ) by {
            assert(entries.drop_first()[j] == entries[j + 1]);
        }
        assert(entries.drop_first()[k - 1] == entries[k]);
        lemma_dictionary_nested_container(entries.drop_first(), ctx, k - 1);
    }
}

/// A callback handle minted while one instance was the current context
/// marshals to the absent reference when observed under any other
/// instance: it never resolves to its owner's registration from a foreign
/// context.
pub proof fn lemma_foreign_handle_is_absent(minted_under: i32, ref_: u32, current: i32)
    requires
        minted_under != current,
    ensures
        to_guest_spec(ObjV::WasmRef(spec_wasmref_new(minted_under, ref_)), current) == Result::<
            GObjV,
            TypeConversionError,
        >::Ok(GObjV::Wasmref(0)),
{
}

/// The arguments of a dispatched call, marshaled one by one under the
/// callee's context; the first offending argument decides the error.
pub open spec fn guest_args_of(args: Seq<ObjV>, ctx: i32) -> Result<Seq<GObjV>, TypeConversionError>
    decreases args.len(),
{
    if args.len() == 0 {
        Result::Ok(Seq::empty())
    } else {
        match to_guest_spec(args[0], ctx) {
            Result::Err(e) => Result::Err(e),
            Result::Ok(g) => match guest_args_of(args.drop_first(), ctx) {
                Result::Err(e) => Result::Err(e),
                Result::Ok(gs) => Result::Ok(seq![g] + gs),
            },
        }
    }
}

/// Marshals a whole argument list under the given context.
pub fn marshal_args(args: Vec<NvimObject>, context: &Context) -> (r: Result<
    Vec<GuestObject>,
    TypeConversionError,
>)
    ensures
        match r {
            Result::Ok(gs) => guest_args_of(args.deep_view(), context.current_instance_id)
                == Result::<Seq<GObjV>, TypeConversionError>::Ok(gs.deep_view()),
            Result::Err(e) => guest_args_of(args.deep_view(), context.current_instance_id)
                == Result::<Seq<GObjV>, TypeConversionError>::Err(e),
        },
{
    let ghost ctx = context.current_instance_id;
    let ghost args0 = args.deep_view();
    let mut items = args;
    let mut out: Vec<GuestObject> = Vec::new();
    let mut err: Option<TypeConversionError> = Option::None;
    proof {
        assert(items.deep_view() =~= args0);
        assert(out.deep_view() =~= Seq::<GObjV>::empty());
    }
    while items.len() > 0 && err.is_none()
        invariant
            ctx == context.current_instance_id,
            match err {
                Option::None => match guest_args_of(items.deep_view(), ctx) {
                    Result::Ok(gs) => guest_args_of(args0, ctx) == Result::<
                        Seq<GObjV>,
                        TypeConversionError,
                    >::Ok(out.deep_view() + gs),
                    Result::Err(e) => guest_args_of(args0, ctx) == Result::<
                        Seq<GObjV>,
                        TypeConversionError,
                    >::Err(e),
                },
                Option::Some(e) => guest_args_of(args0, ctx) == Result::<
                    Seq<GObjV>,
                    TypeConversionError,
                >::Err(e),
            },
        decreases items.len(),
    {
        let ghost dv = items.deep_view();
        let x = items.remove(0);
        proof {
            assert(items.deep_view() =~= dv.drop_first());
            assert(x.deep_view() == dv[0]);
        }
        match to_guest(x, context) {
            Result::Ok(g) => {
                let ghost gv = g@;
                let ghost odv = out.deep_view();
                out.push(g);
                proof {
                    assert(out.deep_view() =~= odv.push(gv));
                    if let Result::Ok(gs) = guest_args_of(items.deep_view(), ctx) {
                        assert(odv.push(gv) + gs =~= odv + (seq![gv] + gs));
                    }
                }
            },
            Result::Err(e) => {
                err = Option::Some(e);
            },
        }
    }
    match err {
        Option::Some(e) => Err(e),
        Option::None => {
            proof {
                assert(items.deep_view() =~= Seq::<ObjV>::empty());
                assert(out.deep_view() + Seq::<GObjV>::empty() =~= out.deep_view());
            }
            Ok(out)
        },
    }
}

} // verus!