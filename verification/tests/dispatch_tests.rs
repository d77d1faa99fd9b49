use dispatcher::dispatch::{DispatchPlan, Dispatcher, DispatcherFiltered, DispatcherImpl};
use futures::stream::FuturesUnordered;
use futures::StreamExt;
use std::future::Future;
use std::pin::Pin;
use std::rc::Rc;
use std::sync::Mutex;

/// A handler for these tests: called with the message and the dispatch number.
type Handler = Box<dyn Fn(&str, u32)>;

/// Carries a plan out synchronously: invokes the handler at each target index
/// with the plan's message and dispatch number.
fn run_plan(dispatcher: &DispatcherImpl<Handler>, plan: &DispatchPlan) {
    for &i in plan.targets.iter() {
        assert!(i < dispatcher.handler_count());
        (dispatcher.handler(i))(&plan.message, plan.dispatch_number);
    }
}

#[test]
fn dispatch_invokes_every_handler_once_with_the_same_arguments() {
    let records: Rc<Mutex<Vec<(String, u32)>>> = Rc::new(Mutex::new(Vec::new()));
    let mut dispatcher: DispatcherImpl<Handler> = DispatcherImpl::default();
    for _ in 0..4 {
        let records = records.clone();
        dispatcher.register_handler(Box::new(move |message: &str, number: u32| {
            records.lock().unwrap().push((message.to_string(), number));
        }));
    }

    let plan = dispatcher.dispatch("Hello, world!");
    assert_eq!(plan.message, "Hello, world!");
    assert_eq!(plan.dispatch_number, 1);
    assert_eq!(plan.targets, vec![0, 1, 2, 3]);
    run_plan(&dispatcher, &plan);

    let records = records.lock().unwrap();
    assert_eq!(records.len(), 4);
    for record in records.iter() {
        assert_eq!(record.0, "Hello, world!");
        assert_eq!(record.1, 1);
    }
}

#[test]
fn dispatch_numbers_count_up_from_one() {
    let mut dispatcher: DispatcherImpl<Handler> = DispatcherImpl::default();
    dispatcher.register_handler(Box::new(|_: &str, _: u32| {}));
    let mut numbers = Vec::new();
    for expected in 1..=3u32 {
        let plan = dispatcher.dispatch("again");
        assert_eq!(plan.dispatch_number, expected);
        numbers.push(plan.dispatch_number);
    }
    assert_eq!(numbers, vec![1, 2, 3]);
}

#[test]
fn test_filtered_dispatch() {
    let number_of_messages_processed = Rc::new(Mutex::new(0u32));
    let mut dispatcher: DispatcherImpl<Handler> = DispatcherImpl::default();

    for _ in 0..10 {
        let number_of_messages_processed = number_of_messages_processed.clone();
        dispatcher.register_handler(Box::new(move |_: &str, _: u32| {
            let mut num_messages = number_of_messages_processed
                .lock()
                .expect("mutex was poisoned");
            *num_messages += 1;
        }));
    }

    fn is_receiver(idx: usize) -> bool {
        idx % 2 == 0
    }

    let mut eligible = Vec::new();
    for idx in 0..dispatcher.handler_count() {
        eligible.push(is_receiver(idx));
    }
    let plan = dispatcher.dispatch_filtered("", &eligible);
    assert_eq!(plan.targets, vec![0, 2, 4, 6, 8]);
    run_plan(&dispatcher, &plan);

    assert_eq!(
        5,
        *number_of_messages_processed
            .lock()
            .expect("mutex was poisoned")
    );
}

#[test]
fn filtered_dispatch_can_skip_every_handler() {
    let mut dispatcher: DispatcherImpl<Handler> = DispatcherImpl::default();
    for _ in 0..3 {
        dispatcher.register_handler(Box::new(|_: &str, _: u32| {
            panic!("a skipped handler must never be invoked");
        }));
    }
    let eligible = vec![false, false, false];
    let plan = dispatcher.dispatch_filtered("quiet", &eligible);
    assert!(plan.targets.is_empty());
    assert_eq!(plan.dispatch_number, 1);
    run_plan(&dispatcher, &plan);

    // The skipped dispatch still used up a dispatch number.
    let plan = dispatcher.dispatch("loud");
    assert_eq!(plan.dispatch_number, 2);
}

#[test]
fn dispatch_includes_newly_registered_handler() {
    let hits: Rc<Mutex<Vec<&'static str>>> = Rc::new(Mutex::new(Vec::new()));
    let mut dispatcher: DispatcherImpl<Handler> = DispatcherImpl::default();

    let first_hits = hits.clone();
    dispatcher.register_handler(Box::new(move |_: &str, _: u32| {
        first_hits.lock().unwrap().push("first");
    }));
    let plan = dispatcher.dispatch("one");
    run_plan(&dispatcher, &plan);
    assert_eq!(*hits.lock().unwrap(), vec!["first"]);

    let second_hits = hits.clone();
    dispatcher.register_handler(Box::new(move |_: &str, _: u32| {
        second_hits.lock().unwrap().push("second");
    }));
    let plan = dispatcher.dispatch("two");
    assert_eq!(plan.targets, vec![0, 1]);
    run_plan(&dispatcher, &plan);
    assert_eq!(*hits.lock().unwrap(), vec!["first", "first", "second"]);
}

#[test]
fn dispatch_twice_is_not_idempotent() {
    let counter = Rc::new(Mutex::new(0u32));
    let mut dispatcher: DispatcherImpl<Handler> = DispatcherImpl::default();
    for _ in 0..3 {
        let counter = counter.clone();
        dispatcher.register_handler(Box::new(move |_: &str, _: u32| {
            *counter.lock().unwrap() += 1;
        }));
    }

    let first = dispatcher.dispatch("Hello, world!");
    run_plan(&dispatcher, &first);
    let second = dispatcher.dispatch("Hello, world!");
    run_plan(&dispatcher, &second);

    assert_ne!(first.dispatch_number, second.dispatch_number);
    assert_eq!(*counter.lock().unwrap(), 6);
}

#[test]
fn dispatch_with_no_handlers_still_counts() {
    let mut dispatcher: DispatcherImpl<Handler> = DispatcherImpl::default();
    let plan = dispatcher.dispatch("anything");
    assert!(plan.targets.is_empty());
    assert_eq!(plan.dispatch_number, 1);
}

/// An asynchronous handler as the dispatcher's callers typically store one:
/// it returns a future to be awaited.
type AsyncHandler = Box<dyn for<'a> Fn(&'a str, &'a u32) -> Pin<Box<dyn Future<Output = ()> + 'a>>>;

#[test]
fn all_handler_futures_complete_before_the_dispatch_is_done() {
    let counter = Rc::new(Mutex::new(0u32));
    let mut dispatcher: DispatcherImpl<AsyncHandler> = DispatcherImpl::default();
    for _ in 0..5 {
        let counter = counter.clone();
        dispatcher.register_handler(Box::new(move |_message, _number| {
            let counter = counter.clone();
            Box::pin(async move {
                *counter.lock().unwrap() += 1;
            })
        }));
    }

    let plan = dispatcher.dispatch("Hello, world!");
    futures::executor::block_on(async {
        let number = plan.dispatch_number;
        let mut dispatch_task_set = FuturesUnordered::new();
        for &i in plan.targets.iter() {
            assert!(i < dispatcher.handler_count());
            dispatch_task_set.push(dispatcher.handler(i)(&plan.message, &number));
        }
        while let Some(_) = dispatch_task_set.next().await {}
    });

    // Every concurrent handler invocation has completed by now.
    assert_eq!(*counter.lock().unwrap(), 5);
}
