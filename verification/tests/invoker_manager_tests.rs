use invoker_explore::invoker_manager::{
    InvokeContext, Invoker, InvokerBar, InvokerFoo, InvokerManager, LocalContext,
};
use invoker_explore::Typed;

#[test]
fn it_works() {
    let result: i32 = 2 + 2;
    assert_eq!(result, 4);
}

#[test]
fn distinct_types_never_collide() {
    let mut ctx = InvokeContext::new();
    ctx.with_context(LocalContext { req_id: "alpha".to_owned(), times: 3 });
    ctx.with_context(InvokerFoo);
    let local = ctx.get::<LocalContext>().expect("the local context must still be there");
    assert_eq!(local.req_id, "alpha");
    assert_eq!(local.times, 3);
    assert!(ctx.get::<InvokerFoo>().is_some());
    assert!(ctx.get::<InvokerBar>().is_none());
}

#[test]
fn second_insert_replaces_first() {
    let mut ctx = InvokeContext::new();
    ctx.with_context(LocalContext { req_id: "first".to_owned(), times: 1 });
    ctx.with_context(LocalContext { req_id: "second".to_owned(), times: 7 });
    let local = ctx.get::<LocalContext>().expect("a local context was attached");
    assert_eq!(local.req_id, "second");
    assert_eq!(local.times, 7);
}

#[test]
fn lookup_of_type_never_added_is_absent() {
    let mut manager = InvokerManager::new();
    manager.add_invoker(InvokerFoo);
    assert!(manager.get::<InvokerFoo>().is_some());
    assert!(manager.get::<InvokerBar>().is_none());
}

#[test]
fn empty_registry_has_nothing() {
    let manager = InvokerManager::new();
    assert!(manager.get::<InvokerFoo>().is_none());
    assert!(manager.get::<InvokerBar>().is_none());
}

#[test]
fn registry_scenario_two_invocations() {
    let mut manager = InvokerManager::new();
    manager.add_invoker(InvokerFoo);
    let invoker = manager.get::<InvokerFoo>().expect("the invoker was registered");

    let mut context = InvokeContext::new();
    context.with_context(LocalContext { req_id: "req_id".to_owned(), times: 0 });

    let first = invoker.invoke(&mut context, "a");
    assert_eq!(first, Ok("req_id".to_owned()));
    let second = invoker.invoke(&mut context, "b");
    assert_eq!(second, Ok("req_id".to_owned()));

    let local = context.get::<LocalContext>().expect("the local context is still attached");
    assert_eq!(local.times, 2);
}

#[test]
fn counter_goes_up_by_one_per_invocation() {
    let invoker = InvokerBar;
    let mut context = InvokeContext::new();
    context.with_context(LocalContext { req_id: "id".to_owned(), times: 0 });
    let n: usize = 5;
    let mut i: usize = 0;
    while i < n {
        let r = invoker.invoke(&mut context, "payload");
        assert_eq!(r, Ok("id".to_owned()));
        i += 1;
    }
    assert_eq!(context.get::<LocalContext>().unwrap().times, n);
}

#[test]
fn missing_context_is_surfaced() {
    let invoker = InvokerFoo;
    let mut context = InvokeContext::new();
    let r = invoker.invoke(&mut context, "a");
    assert_eq!(r, Err("missing context".to_owned()));
    assert!(context.get::<LocalContext>().is_none());
}

#[test]
fn typed_trait_reaches_the_same_entries() {
    let mut context = InvokeContext::new();
    context.with_context(LocalContext { req_id: "via-trait".to_owned(), times: 0 });
    {
        let local = <InvokeContext as Typed>::get_mut::<LocalContext>(&mut context)
            .expect("the entry is reachable through the trait");
        local.times = 41;
    }
    let local = <InvokeContext as Typed>::get::<LocalContext>(&context).unwrap();
    assert_eq!(local.times, 41);
    assert_eq!(local.req_id, "via-trait");

    let mut manager = InvokerManager::new();
    manager.add_invoker(InvokerBar);
    assert!(<InvokerManager as Typed>::get::<InvokerBar>(&manager).is_some());
    assert!(<InvokerManager as Typed>::get::<InvokerFoo>(&manager).is_none());
}

#[test]
fn get_mut_updates_in_place() {
    let mut context = InvokeContext::new();
    context.with_context(LocalContext { req_id: "x".to_owned(), times: 10 });
    {
        let local = context.get_mut::<LocalContext>().unwrap();
        local.times += 1;
        local.req_id.push('y');
    }
    let local = context.get::<LocalContext>().unwrap();
    assert_eq!(local.times, 11);
    assert_eq!(local.req_id, "xy");
    assert!(context.get_mut::<InvokerFoo>().is_none());
}
