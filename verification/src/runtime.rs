//! Bookkeeping of the plugin host runtime: the init-once engine state,
//! the capacity-bounded instance id pool, and the decisions of every
//! dispatch.
//!
//! The runtime owns no sandbox itself.  Loading registers a module token
//! under a fresh small id; dispatching a call marshals the arguments
//! under the callee's context into a call plan, the embedding performs
//! the sandbox work, and the outcome it hands back is mapped to the
//! dispatch result.  Every error crossing the entry-point boundary is a
//! typed, described value; nothing here panics.

use vstd::prelude::*;

use crate::marshal::{
    guest_args_of, marshal_args, to_host, to_host_spec, Context, TypeConversionError,
};
use crate::registry::DropNotice;
use crate::slots::{slab_contents, slab_get, slab_insert, slab_new, slab_slots};
use crate::value::{GObjV, GuestObject, NvimObject, ObjV};

verus! {

/// The number of instance ids the pool may have outstanding: ids must
/// stay within the positive range of a 32-bit signed integer.
pub const INSTANCE_CAPACITY: usize = 0x7fff_ffff;

/// The typed errors of the runtime's entry points.
#[derive(Debug)]
pub enum RuntimeError {
    /// No loaded instance has the given id.
    InstanceNotFound(i32),
    /// The instance does not export the required function.
    ExportNotFound,
    /// The export does not match the fixed calling convention.
    SignatureMismatch,
    /// The guest raised a runtime exception; its description is carried.
    Trap(String),
    /// An argument or result could not cross the boundary.
    Conversion(TypeConversionError),
    /// The id pool has reached its capacity bound.
    CapacityExceeded,
    /// A second initialization was attempted.
    DoubleInitialization,
    /// A previous call poisoned the shared runtime state; the runtime is
    /// permanently wedged.
    LockPoisoned,
}

/// The human-readable description of each runtime error.
pub open spec fn spec_describe_runtime_error(e: RuntimeError) -> Seq<char> {
    match e {
        RuntimeError::InstanceNotFound(_) => "cannot find an instance with the given id"@,
        RuntimeError::ExportNotFound => "the instance does not export the required function"@,
        RuntimeError::SignatureMismatch => "the export does not match the required signature"@,
        RuntimeError::Trap(m) => "the call into the guest trapped: "@ + m@,
        RuntimeError::Conversion(_) => "a value could not cross the boundary"@,
        RuntimeError::CapacityExceeded => "the number of instances has reached the limit"@,
        RuntimeError::DoubleInitialization => "the runtime is already initialized"@,
        RuntimeError::LockPoisoned => "the shared runtime state is poisoned"@,
    }
}

impl RuntimeError {
    /// A human-readable description of the error.
    pub fn describe(&self) -> (r: String)
        ensures
            r@ == spec_describe_runtime_error(*self),
    {
        match self {
            RuntimeError::InstanceNotFound(_) => String::from_str(
                "cannot find an instance with the given id",
            ),
            RuntimeError::ExportNotFound => String::from_str(
                "the instance does not export the required function",
            ),
            RuntimeError::SignatureMismatch => String::from_str(
                "the export does not match the required signature",
            ),
            RuntimeError::Trap(m) => String::from_str("the call into the guest trapped: ").concat(
                m.as_str(),
            ),
            RuntimeError::Conversion(_) => String::from_str("a value could not cross the boundary"),
            RuntimeError::CapacityExceeded => String::from_str(
                "the number of instances has reached the limit",
            ),
            RuntimeError::DoubleInitialization => String::from_str(
                "the runtime is already initialized",
            ),
            RuntimeError::LockPoisoned => String::from_str("the shared runtime state is poisoned"),
        }
    }
}

/// Everything the embedding needs to perform one exported-function call:
/// the callee, its module token, the export's name, and the arguments
/// already marshaled under the callee's context.
pub struct CallPlan {
    pub instance_id: i32,
    pub module: u64,
    pub func_name: String,
    pub args: Vec<GuestObject>,
}

/// Everything the embedding needs to perform one callback call into the
/// instance owning the reference.
pub struct CallbackPlan {
    pub instance_id: i32,
    pub module: u64,
    pub ref_: u32,
    pub args: Vec<GuestObject>,
}

/// Everything the embedding needs to notify an instance that a callback
/// reference was released.
pub struct DropPlan {
    pub instance_id: i32,
    pub module: u64,
    pub ref_: u32,
}

/// What the sandbox reported back for one dispatched call.
#[derive(Debug)]
pub enum GuestOutcome {
    /// The required export does not exist on the instance.
    ExportMissing,
    /// The export exists but has the wrong signature.
    NotAFunction,
    /// The call trapped; the guest's description is carried.
    Trapped(String),
    /// The call returned this value.
    Returned(GuestObject),
}

/// The runtime state: the init-once flag and the instance id pool.  One
/// value of it stands behind the embedding's single shared lock, so no
/// two dispatches run concurrently.
pub struct WasmState {
    initialized: bool,
    instances: slab::Slab<u64>,
    loaded: usize,
}

impl WasmState {
    /// Whether the engine has been initialized.
    pub closed spec fn spec_initialized(self) -> bool {
        self.initialized
    }

    /// The live instances: a map from instance id to module token.
    pub closed spec fn instances_map(self) -> Map<nat, u64> {
        slab_contents(self.instances)
    }

    /// The number of loaded instances.
    pub closed spec fn spec_loaded(self) -> nat {
        self.loaded as nat
    }

    /// Ids are handed out consecutively from zero: the live ids are
    /// exactly those below the number of loaded instances.
    pub closed spec fn wf(self) -> bool {
        &&& slab_slots(self.instances) == self.loaded as nat
        &&& slab_contents(self.instances).dom() =~= Set::new(|k: nat| k < self.loaded as nat)
    }

    /// Creates the runtime state, uninitialized and empty.
    pub fn new() -> (s: WasmState)
        ensures
            s.wf(),
            !s.spec_initialized(),
            s.instances_map() == Map::<nat, u64>::empty(),
            s.spec_loaded() == 0,
    {
        let s = WasmState { initialized: false, instances: slab_new(), loaded: 0 };
        proof {
            assert(slab_contents(s.instances).dom() =~= Set::new(|k: nat| k < 0nat));
        }
        s
    }

    /// Initializes the engine.  Initialization happens exactly once: a
    /// second attempt fails fast with the double-initialization error and
    /// changes nothing.
    pub fn initialize(&mut self) -> (r: Result<(), RuntimeError>)
        requires
            old(self).wf(),
        ensures
            final(self).wf(),
            final(self).instances_map() == old(self).instances_map(),
            final(self).spec_loaded() == old(self).spec_loaded(),
            r is Ok <==> !old(self).spec_initialized(),
            r is Ok ==> final(self).spec_initialized(),
            r matches Err(e) ==> e is DoubleInitialization && *final(self) == *old(self),
    {
        if self.initialized {
            Err(RuntimeError::DoubleInitialization)
        } else {
            self.initialized = true;
            Ok(())
        }
    }

    /// Whether the engine has been initialized.
    pub fn is_initialized(&self) -> (r: bool)
        ensures
            r == self.spec_initialized(),
    {
        self.initialized
    }

    /// The number of loaded instances.
    pub fn instance_count(&self) -> (r: usize)
        ensures
            r as nat == self.spec_loaded(),
    {
        self.loaded
    }

    /// Registers a loaded module and assigns it a fresh instance id: the
    /// next consecutive id, distinct from every id issued before.  Once
    /// the outstanding ids would exceed the positive range of a 32-bit
    /// signed integer the pool reports the capacity error instead, and no
    /// issued id is disturbed.
    pub fn load_module(&mut self, module: u64) -> (r: Result<i32, RuntimeError>)
        requires
            old(self).wf(),
            old(self).spec_initialized(),
        ensures
            final(self).wf(),
            final(self).spec_initialized(),
            match r {
                Result::Ok(id) => {
                    &&& old(self).spec_loaded() < INSTANCE_CAPACITY
                    &&& id >= 0
                    &&& id as nat == old(self).spec_loaded()
                    &&& !old(self).instances_map().dom().contains(id as nat)
                    &&& final(self).instances_map() == old(self).instances_map().insert(
                        id as nat,
                        module,
                    )
                    &&& final(self).spec_loaded() == old(self).spec_loaded() + 1
                },
                Result::Err(e) => e is CapacityExceeded && old(self).spec_loaded()
                    >= INSTANCE_CAPACITY && *final(self) == *old(self),
            },
    {
        if self.loaded >= INSTANCE_CAPACITY {
            return Err(RuntimeError::CapacityExceeded);
        }
        let key = slab_insert(&mut self.instances, module);
        proof {
            if (key as nat) < old(self).loaded as nat {
                assert(slab_contents(old(self).instances).dom().contains(key as nat));
            }
        }
        self.loaded = self.loaded + 1;
        proof {
            assert(slab_contents(self.instances).dom() =~= Set::new(
                |k: nat| k < self.loaded as nat,
            ));
        }
        Ok(key as i32)
    }

    /// The module token of a loaded instance.
    pub fn instance_module(&self, instance_id: i32) -> (r: Option<u64>)
        ensures
            match r {
                Option::Some(m) => instance_id >= 0 && self.instances_map().dom().contains(
                    instance_id as nat,
                ) && m == self.instances_map()[instance_id as nat],
                Option::None => instance_id < 0 || !self.instances_map().dom().contains(
                    instance_id as nat,
                ),
            },
    {
        if instance_id < 0 {
            return None;
        }
        slab_get(&self.instances, instance_id as usize)
    }

    /// Decides one exported-function call: the callee must be a loaded
    /// instance, and every argument is marshaled under the callee's
    /// context.  The embedding performs the plan and hands the outcome to
    /// `finish_call`.
    pub fn begin_function_call(&self, instance_id: i32, func_name: String, args: Vec<NvimObject>)
        -> (r: Result<CallPlan, RuntimeError>)
        ensures
            match r {
                Result::Ok(plan) => {
                    &&& instance_id >= 0
                    &&& self.instances_map().dom().contains(instance_id as nat)
                    &&& plan.instance_id == instance_id
                    &&& plan.module == self.instances_map()[instance_id as nat]
                    &&& plan.func_name@ == func_name@
                    &&& guest_args_of(args.deep_view(), instance_id) == Result::<
                        Seq<GObjV>,
                        TypeConversionError,
                    >::Ok(plan.args.deep_view())
                },
                Result::Err(e) => match e {
                    RuntimeError::InstanceNotFound(i) => i == instance_id && (instance_id < 0
                        || !self.instances_map().dom().contains(instance_id as nat)),
                    RuntimeError::Conversion(ce) => instance_id >= 0
                        && self.instances_map().dom().contains(instance_id as nat)
                        && guest_args_of(args.deep_view(), instance_id) == Result::<
                        Seq<GObjV>,
                        TypeConversionError,
                    >::Err(ce),
                    _ => false,
                },
            },
    {
        let module = match self.instance_module(instance_id) {
            Option::Some(m) => m,
            Option::None => {
                return Err(RuntimeError::InstanceNotFound(instance_id));
            },
        };
        let context = Context { current_instance_id: instance_id };
        match marshal_args(args, &context) {
            Result::Ok(guest_args) => Ok(
                CallPlan { instance_id, module, func_name, args: guest_args },
            ),
            Result::Err(e) => Err(RuntimeError::Conversion(e)),
        }
    }

    /// Decides one callback call: the instance owning the reference must
    /// be loaded, and the arguments are marshaled under its context.  The
    /// embedding invokes the instance's callback-dispatch export with the
    /// reference number and hands the outcome to `finish_call`.
    pub fn begin_callback_call(&self, instance_id: i32, ref_: u32, args: Vec<NvimObject>) -> (r:
        Result<CallbackPlan, RuntimeError>)
        ensures
            match r {
                Result::Ok(plan) => {
                    &&& instance_id >= 0
                    &&& self.instances_map().dom().contains(instance_id as nat)
                    &&& plan.instance_id == instance_id
                    &&& plan.module == self.instances_map()[instance_id as nat]
                    &&& plan.ref_ == ref_
                    &&& guest_args_of(args.deep_view(), instance_id) == Result::<
                        Seq<GObjV>,
                        TypeConversionError,
                    >::Ok(plan.args.deep_view())
                },
                Result::Err(e) => match e {
                    RuntimeError::InstanceNotFound(i) => i == instance_id && (instance_id < 0
                        || !self.instances_map().dom().contains(instance_id as nat)),
                    RuntimeError::Conversion(ce) => instance_id >= 0
                        && self.instances_map().dom().contains(instance_id as nat)
                        && guest_args_of(args.deep_view(), instance_id) == Result::<
                        Seq<GObjV>,
                        TypeConversionError,
                    >::Err(ce),
                    _ => false,
                },
            },
    {
        let module = match self.instance_module(instance_id) {
            Option::Some(m) => m,
            Option::None => {
                return Err(RuntimeError::InstanceNotFound(instance_id));
            },
        };
        let context = Context { current_instance_id: instance_id };
        match marshal_args(args, &context) {
            Result::Ok(guest_args) => Ok(
                CallbackPlan { instance_id, module, ref_, args: guest_args },
            ),
            Result::Err(e) => Err(RuntimeError::Conversion(e)),
        }
    }

    /// Decides the release notification for a dropped callback
    /// registration: the owning instance must still be loaded.
    pub fn prepare_drop_callback(&self, notice: DropNotice) -> (r: Result<DropPlan, RuntimeError>)
        ensures
            match r {
                Result::Ok(plan) => {
                    &&& notice.instance_id >= 0
                    &&& self.instances_map().dom().contains(notice.instance_id as nat)
                    &&& plan.instance_id == notice.instance_id
                    &&& plan.module == self.instances_map()[notice.instance_id as nat]
                    &&& plan.ref_ == notice.ref_
                },
                Result::Err(e) => match e {
                    RuntimeError::InstanceNotFound(i) => i == notice.instance_id
                        && (notice.instance_id < 0 || !self.instances_map().dom().contains(
                        notice.instance_id as nat,
                    )),
                    _ => false,
                },
            },
    {
        let module = match self.instance_module(notice.instance_id) {
            Option::Some(m) => m,
            Option::None => {
                return Err(RuntimeError::InstanceNotFound(notice.instance_id));
            },
        };
        Ok(DropPlan { instance_id: notice.instance_id, module, ref_: notice.ref_ })
    }

    /// Maps what the sandbox reported back to the dispatch result: a
    /// missing export, a signature mismatch and a trap are the three
    /// distinct error kinds, and a returned value is marshaled back under
    /// the callee's context.
    pub fn finish_call(&self, instance_id: i32, outcome: GuestOutcome) -> (r: Result<
        NvimObject,
        RuntimeError,
    >)
        ensures
            match outcome {
                GuestOutcome::ExportMissing => r matches Err(e) && e is ExportNotFound,
                GuestOutcome::NotAFunction => r matches Err(e) && e is SignatureMismatch,
                GuestOutcome::Trapped(m) => r matches Err(e) && e matches RuntimeError::Trap(t)
                    && t@ == m@,
                GuestOutcome::Returned(g) => r matches Ok(obj) && obj@ == to_host_spec(
                    g@,
                    instance_id,
                ),
            },
    {
        match outcome {
            GuestOutcome::ExportMissing => Err(RuntimeError::ExportNotFound),
            GuestOutcome::NotAFunction => Err(RuntimeError::SignatureMismatch),
            GuestOutcome::Trapped(m) => Err(RuntimeError::Trap(m)),
            GuestOutcome::Returned(g) => {
                let context = Context { current_instance_id: instance_id };
                Ok(to_host(g, &context))
            },
        }
    }

    /// Maps what the sandbox reported back for a release notification:
    /// the guest-side resources are freed best-effort, so a returned
    /// value is simply accepted.
    pub fn finish_drop_callback(&self, outcome: GuestOutcome) -> (r: Result<(), RuntimeError>)
        ensures
            match outcome {
                GuestOutcome::ExportMissing => r matches Err(e) && e is ExportNotFound,
                GuestOutcome::NotAFunction => r matches Err(e) && e is SignatureMismatch,
                GuestOutcome::Trapped(m) => r matches Err(e) && e matches RuntimeError::Trap(t)
                    && t@ == m@,
                GuestOutcome::Returned(_) => r is Ok,
            },
    {
        match outcome {
            GuestOutcome::ExportMissing => Err(RuntimeError::ExportNotFound),
            GuestOutcome::NotAFunction => Err(RuntimeError::SignatureMismatch),
            GuestOutcome::Trapped(m) => Err(RuntimeError::Trap(m)),
            GuestOutcome::Returned(_) => Ok(()),
        }
    }
}

/// Loading distinct modules one after another yields distinct ids, and a
/// later load disturbs no earlier instance: the id map only ever grows at
/// fresh keys.
pub proof fn lemma_loads_are_distinct(m0: Map<nat, u64>, id1: nat, mod1: u64, id2: nat, mod2: u64)
    requires
        !m0.dom().contains(id1),
        !m0.insert(id1, mod1).dom().contains(id2),
    ensures
        id1 != id2,
        m0.insert(id1, mod1).insert(id2, mod2)[id1] == mod1,
        m0.insert(id1, mod1).insert(id2, mod2)[id2] == mod2,
        forall|k: nat|
            m0.dom().contains(k) ==> m0.insert(id1, mod1).insert(id2, mod2)[k] == m0[k],
{
}

} // verus!
