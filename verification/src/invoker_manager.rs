//! The registry-driven invocation path: a process-wide `InvokerManager`
//! holding invoker instances, a per-call `InvokeContext` carrying auxiliary
//! state, and the context-carrying `Invoker` contract, all resolved by the
//! static type of the value asked for.

use vstd::prelude::*;

use crate::store::{Keyed, TypeKeyed, TypedStore};

verus! {

/// The erased universe of values that the context and the registry hold.
///
/// Type-erased heterogeneous storage without a built-in downcast: each
/// storable type has one variant here, and the variant decides the `TypeKey`,
/// so two different types can never collide on a key.
pub enum StoredValue {
    Local(LocalContext),
    Foo(InvokerFoo),
    Bar(InvokerBar),
}

/// Per-call auxiliary state carried through an `InvokeContext`: a request
/// id that invokers echo back, and a count of invocations performed.
#[derive(Debug)]
pub struct LocalContext {
    pub req_id: String,
    pub times: usize,
}

/// An invoker that echoes the context's request id and counts the call.
pub struct InvokerFoo;

/// A second invoker type, so that a registry can hold several invokers and
/// lookups by type can be told apart.
pub struct InvokerBar;

impl Keyed for StoredValue {
    open spec fn key_of(self) -> int {
        match self {
            StoredValue::Local(_) => 1,
            StoredValue::Foo(_) => 2,
            StoredValue::Bar(_) => 3,
        }
    }
}

impl TypeKeyed<StoredValue> for LocalContext {
    open spec fn key() -> int {
        1
    }

    open spec fn inj(self) -> StoredValue {
        StoredValue::Local(self)
    }

    proof fn lemma_inj_props() {
        assert forall|u: StoredValue| #[trigger] u.key_of() == Self::key() implies exists|a: Self| u == a.inj() by {
            assert(u == (u->Local_0).inj());
        }
    }

    fn wrap(self) -> (u: StoredValue) {
        StoredValue::Local(self)
    }

    fn unwrap_ref(u: &StoredValue) -> (r: Option<&Self>) {
        match u {
            StoredValue::Local(c) => Some(c),
            _ => None,
        }
    }

    fn unwrap_mut(u: &mut StoredValue) -> (r: Option<&mut Self>) {
        match u {
            StoredValue::Local(c) => Some(c),
            _ => None,
        }
    }
}

impl TypeKeyed<StoredValue> for InvokerFoo {
    open spec fn key() -> int {
        2
    }

    open spec fn inj(self) -> StoredValue {
        StoredValue::Foo(self)
    }

    proof fn lemma_inj_props() {
        assert forall|u: StoredValue| #[trigger] u.key_of() == Self::key() implies exists|a: Self| u == a.inj() by {
            assert(u == (u->Foo_0).inj());
        }
    }

    fn wrap(self) -> (u: StoredValue) {
        StoredValue::Foo(self)
    }

    fn unwrap_ref(u: &StoredValue) -> (r: Option<&Self>) {
        match u {
            StoredValue::Foo(c) => Some(c),
            _ => None,
        }
    }

    fn unwrap_mut(u: &mut StoredValue) -> (r: Option<&mut Self>) {
        match u {
            StoredValue::Foo(c) => Some(c),
            _ => None,
        }
    }
}

impl TypeKeyed<StoredValue> for InvokerBar {
    open spec fn key() -> int {
        3
    }

    open spec fn inj(self) -> StoredValue {
        StoredValue::Bar(self)
    }

    proof fn lemma_inj_props() {
        assert forall|u: StoredValue| #[trigger] u.key_of() == Self::key() implies exists|a: Self| u == a.inj() by {
            assert(u == (u->Bar_0).inj());
        }
    }

    fn wrap(self) -> (u: StoredValue) {
        StoredValue::Bar(self)
    }

    fn unwrap_ref(u: &StoredValue) -> (r: Option<&Self>) {
        match u {
            StoredValue::Bar(c) => Some(c),
            _ => None,
        }
    }

    fn unwrap_mut(u: &mut StoredValue) -> (r: Option<&mut Self>) {
        match u {
            StoredValue::Bar(c) => Some(c),
            _ => None,
        }
    }
}

/// A per-call bag of auxiliary state, keyed by type: a `TypedStore` scoped
/// to a single logical call chain.
pub struct InvokeContext {
    store: TypedStore<StoredValue>,
}

impl View for InvokeContext {
    type V = Map<int, StoredValue>;

    closed spec fn view(&self) -> Map<int, StoredValue> {
        self.store@
    }
}

impl InvokeContext {
    /// The context's invariant: one entry per `TypeKey`.
    pub closed spec fn wf(&self) -> bool {
        self.store.wf()
    }

    /// Create an empty context.
    pub fn new() -> (r: Self)
        ensures
            r.wf(),
            r@ == Map::<int, StoredValue>::empty(),
    {
        InvokeContext { store: TypedStore::new() }
    }

    /// Attach `value` to the context, replacing any prior value of type `T`.
    pub fn with_context<T: TypeKeyed<StoredValue>>(&mut self, value: T)
        requires
            old(self).wf(),
        ensures
            final(self).wf(),
            final(self)@ == old(self)@.insert(T::key(), value.inj()),
    {
        self.store.insert(value);
    }

    /// A read-only reference to the attached value of type `T`, if present.
    pub fn get<T: TypeKeyed<StoredValue>>(&self) -> (r: Option<&T>)
        requires
            self.wf(),
        ensures
            match r {
                Some(t) => self@.contains_key(T::key()) && self@[T::key()] == t.inj(),
                None => !self@.contains_key(T::key()),
            },
    {
        self.store.get::<T>()
    }

    /// A mutable reference to the attached value of type `T`, if present.
    pub fn get_mut<T: TypeKeyed<StoredValue>>(&mut self) -> (r: Option<&mut T>)
        requires
            old(self).wf(),
        ensures
            final(self).wf(),
            r.is_none() ==> !old(self)@.contains_key(T::key()) && *final(self) == *old(self),
            r.is_some() ==> old(self)@.contains_key(T::key())
                && old(self)@[T::key()] == (*r.unwrap()).inj()
                && final(self)@ == old(self)@.insert(T::key(), (*final(r.unwrap())).inj()),
    {
        self.store.get_mut::<T>()
    }
}

/// A scope-wide collection of invoker instances, added before first use and
/// then looked up many times by the invoker's own concrete type.
pub struct InvokerManager {
    store: TypedStore<StoredValue>,
}

impl View for InvokerManager {
    type V = Map<int, StoredValue>;

    closed spec fn view(&self) -> Map<int, StoredValue> {
        self.store@
    }
}

impl InvokerManager {
    /// The registry's invariant: one entry per `TypeKey`.
    pub closed spec fn wf(&self) -> bool {
        self.store.wf()
    }

    /// Create an empty registry.
    pub fn new() -> (r: Self)
        ensures
            r.wf(),
            r@ == Map::<int, StoredValue>::empty(),
    {
        InvokerManager { store: TypedStore::new() }
    }

    /// Register an invoker, keyed by its own concrete type; a second invoker
    /// of the same type replaces the first.
    pub fn add_invoker<I: TypeKeyed<StoredValue>>(&mut self, invoker: I)
        requires
            old(self).wf(),
        ensures
            final(self).wf(),
            final(self)@ == old(self)@.insert(I::key(), invoker.inj()),
    {
        self.store.insert(invoker);
    }

    /// A read-only reference to the registered invoker of type `I`: absence
    /// is a normal outcome, never a default or fallback instance.
    pub fn get<I: TypeKeyed<StoredValue>>(&self) -> (r: Option<&I>)
        requires
            self.wf(),
        ensures
            match r {
                Some(t) => self@.contains_key(I::key()) && self@[I::key()] == t.inj(),
                None => !self@.contains_key(I::key()),
            },
    {
        self.store.get::<I>()
    }

    /// A mutable reference to the registered invoker of type `I`, if present.
    pub fn get_mut<I: TypeKeyed<StoredValue>>(&mut self) -> (r: Option<&mut I>)
        requires
            old(self).wf(),
        ensures
            final(self).wf(),
            r.is_none() ==> !old(self)@.contains_key(I::key()) && *final(self) == *old(self),
            r.is_some() ==> old(self)@.contains_key(I::key())
                && old(self)@[I::key()] == (*r.unwrap()).inj()
                && final(self)@ == old(self)@.insert(I::key(), (*final(r.unwrap())).inj()),
    {
        self.store.get_mut::<I>()
    }
}

impl crate::Typed for InvokeContext {
    open spec fn table(&self) -> Map<int, StoredValue> {
        self@
    }

    open spec fn table_wf(&self) -> bool {
        self.wf()
    }

    fn get<I: TypeKeyed<StoredValue>>(&self) -> (r: Option<&I>) {
        self.store.get::<I>()
    }

    fn get_mut<I: TypeKeyed<StoredValue>>(&mut self) -> (r: Option<&mut I>) {
        self.store.get_mut::<I>()
    }
}

impl crate::Typed for InvokerManager {
    open spec fn table(&self) -> Map<int, StoredValue> {
        self@
    }

    open spec fn table_wf(&self) -> bool {
        self.wf()
    }

    fn get<I: TypeKeyed<StoredValue>>(&self) -> (r: Option<&I>) {
        self.store.get::<I>()
    }

    fn get_mut<I: TypeKeyed<StoredValue>>(&mut self) -> (r: Option<&mut I>) {
        self.store.get_mut::<I>()
    }
}

/// The context holds a `LocalContext` entry.
pub open spec fn has_local(ctx: Map<int, StoredValue>) -> bool {
    ctx.contains_key(LocalContext::key()) && ctx[LocalContext::key()] is Local
}

/// The `LocalContext` entry of a context that has one.
pub open spec fn local_of(ctx: Map<int, StoredValue>) -> LocalContext {
    ctx[LocalContext::key()]->Local_0
}

/// The context's invocation counter.
pub open spec fn counter_of(ctx: Map<int, StoredValue>) -> int {
    local_of(ctx).times as int
}

/// The context after one counted invocation: the same `LocalContext`, with
/// its counter one higher.
pub open spec fn bump_local(ctx: Map<int, StoredValue>) -> Map<int, StoredValue> {
    ctx.insert(
        LocalContext::key(),
        StoredValue::Local(
            LocalContext {
                req_id: local_of(ctx).req_id,
                times: (local_of(ctx).times + 1) as usize,
            },
        ),
    )
}

/// The context-carrying invocation contract: one call is a single
/// request-to-response transition that may also mutate the supplied context
/// as an observable side effect.
pub trait Invoker<Req> {
    type Res;

    /// What an implementation asks of the context and request.
    spec fn invoke_req(&self, ctx: Map<int, StoredValue>, req: Req) -> bool;

    /// What an implementation promises of its result and the context it
    /// leaves behind.
    spec fn invoke_ens(
        &self,
        ctx: Map<int, StoredValue>,
        req: Req,
        r: Self::Res,
        post: Map<int, StoredValue>,
    ) -> bool;

    fn invoke(&self, context: &mut InvokeContext, req: Req) -> (r: Self::Res)
        requires
            old(context).wf(),
            self.invoke_req(old(context)@, req),
        ensures
            final(context).wf(),
            self.invoke_ens(old(context)@, req, r, final(context)@),
    ;
}

impl<'a> Invoker<&'a str> for InvokerFoo {
    type Res = Result<String, String>;

    open spec fn invoke_req(&self, ctx: Map<int, StoredValue>, req: &'a str) -> bool {
        has_local(ctx) ==> counter_of(ctx) < usize::MAX
    }

    /// With a `LocalContext` attached, the call returns the context's request
    /// id and bumps its counter by exactly one; with none attached, it
    /// surfaces the missing context and leaves the context unchanged.
    open spec fn invoke_ens(
        &self,
        ctx: Map<int, StoredValue>,
        req: &'a str,
        r: Result<String, String>,
        post: Map<int, StoredValue>,
    ) -> bool {
        if has_local(ctx) {
            r == Ok::<String, String>(local_of(ctx).req_id) && post == bump_local(ctx)
        } else {
            r is Err && r->Err_0@ == "missing context"@ && post == ctx
        }
    }

    fn invoke(&self, context: &mut InvokeContext, req: &'a str) -> (r: Result<String, String>) {
        match context.get_mut::<LocalContext>() {
            Some(c) => {
                c.times = c.times + 1;
                Ok(c.req_id.clone())
            },
            None => Err("missing context".to_owned()),
        }
    }
}

impl<'a> Invoker<&'a str> for InvokerBar {
    type Res = Result<String, String>;

    open spec fn invoke_req(&self, ctx: Map<int, StoredValue>, req: &'a str) -> bool {
        has_local(ctx) ==> counter_of(ctx) < usize::MAX
    }

    /// Same observable behaviour as `InvokerFoo`: echo the request id, count
    /// the call, surface a missing context.
    open spec fn invoke_ens(
        &self,
        ctx: Map<int, StoredValue>,
        req: &'a str,
        r: Result<String, String>,
        post: Map<int, StoredValue>,
    ) -> bool {
        if has_local(ctx) {
            r == Ok::<String, String>(local_of(ctx).req_id) && post == bump_local(ctx)
        } else {
            r is Err && r->Err_0@ == "missing context"@ && post == ctx
        }
    }

    fn invoke(&self, context: &mut InvokeContext, req: &'a str) -> (r: Result<String, String>) {
        match context.get_mut::<LocalContext>() {
            Some(c) => {
                c.times = c.times + 1;
                Ok(c.req_id.clone())
            },
            None => Err("missing context".to_owned()),
        }
    }
}

/// One counted invocation step between two context states.
pub open spec fn counted_step(c0: Map<int, StoredValue>, c1: Map<int, StoredValue>) -> bool {
    has_local(c0) && counter_of(c0) < usize::MAX && c1 == bump_local(c0)
}

/// Law: an `InvokerFoo` call on a context that carries a `LocalContext` is a
/// counted step — it returns the context's request id and bumps the counter.
pub proof fn lemma_foo_step(
    inv: InvokerFoo,
    c0: Map<int, StoredValue>,
    req: &str,
    r: Result<String, String>,
    c1: Map<int, StoredValue>,
)
    requires
        has_local(c0),
        counter_of(c0) < usize::MAX,
        inv.invoke_ens(c0, req, r, c1),
    ensures
        counted_step(c0, c1),
        r == Ok::<String, String>(local_of(c0).req_id),
{
}

/// Law: invoking N times sequentially with the same context increments its
/// invocation counter by exactly N, and never touches the request id.
pub proof fn lemma_counter_accumulates(ctxs: Seq<Map<int, StoredValue>>)
    requires
        ctxs.len() >= 1,
        has_local(ctxs[0]),
        forall|i: int| 0 <= i < ctxs.len() - 1 ==> counted_step(#[trigger] ctxs[i], ctxs[i + 1]),
    ensures
        has_local(ctxs.last()),
        local_of(ctxs.last()).req_id == local_of(ctxs[0]).req_id,
        counter_of(ctxs.last()) == counter_of(ctxs[0]) + ctxs.len() - 1,
    decreases ctxs.len(),
{
    if ctxs.len() > 1 {
        let front = ctxs.drop_last();
        assert forall|i: int| 0 <= i < front.len() - 1 implies counted_step(
            #[trigger] front[i],
            front[i + 1],
        ) by {
            assert(front[i] == ctxs[i] && front[i + 1] == ctxs[i + 1]);
        }
        lemma_counter_accumulates(front);
        assert(front.last() == ctxs[ctxs.len() - 2]);
        assert(counted_step(ctxs[ctxs.len() - 2], ctxs[ctxs.len() - 1]));
    }
}

} // verus!
