use std::sync::atomic::{AtomicUsize, Ordering};
use std::sync::{Arc, Mutex};

use executor::{
    collect_fruits, outcome, pool_of, thread_name, Enqueued, EnqueuedTask, Executor, Result, Running,
    RunningTask, Shared, TantivyError, TaskInstrumentation,
};
use futures::executor::block_on;

/// Knows only the hooks that an instrumentation must have, and keeps a log of them.
struct MinimalInstrumentation(Arc<Mutex<Vec<&'static str>>>);
struct MinimalTask(Arc<Mutex<Vec<&'static str>>>);
struct MinimalRun(Arc<Mutex<Vec<&'static str>>>);

impl TaskInstrumentation for MinimalInstrumentation {
    fn enqueue(&self) -> Enqueued {
        self.0.lock().unwrap().push("enqueue");
        Enqueued(Box::new(MinimalTask(Arc::clone(&self.0))))
    }
}

impl EnqueuedTask for MinimalTask {
    fn run(self: Box<Self>) -> Running {
        self.0.lock().unwrap().push("run");
        Running(Box::new(MinimalRun(Arc::clone(&self.0))))
    }
}

impl RunningTask for MinimalRun {}

impl Drop for MinimalRun {
    fn drop(&mut self) {
        self.0.lock().unwrap().push("end");
    }
}

fn minimal_executor(log: &Arc<Mutex<Vec<&'static str>>>) -> Executor {
    let pool = rayon::ThreadPoolBuilder::new().num_threads(1).build().unwrap();
    Executor::InstrumentedThreadPool(
        Arc::new(pool),
        Shared(Arc::new(MinimalInstrumentation(Arc::clone(log)))),
    )
}

fn all_executors() -> Vec<Executor> {
    let log = Arc::new(Mutex::new(Vec::new()));
    vec![
        Executor::single_thread(),
        Executor::multi_thread(4, "worker-").unwrap(),
        minimal_executor(&log),
    ]
}

fn internal<T>(text: &str) -> Result<T> {
    Err(TantivyError::InternalError(text.to_string()))
}

fn text_of(error: &TantivyError) -> &str {
    match error {
        TantivyError::InternalError(text) => text,
        TantivyError::SystemError(text) => text,
    }
}

#[test]
fn every_executor_gives_the_same_fruits() {
    for executor in all_executors() {
        let fruits: Vec<usize> = executor.map(|i: usize| Ok(i * i), 0..100).unwrap();
        let expected: Vec<usize> = (0..100).map(|i: usize| i * i).collect();
        assert_eq!(fruits, expected);
    }
}

#[test]
fn map_of_nothing_is_nothing() {
    for executor in all_executors() {
        let nothing: Vec<usize> = Vec::new();
        let fruits: Vec<usize> = executor.map(|i| Ok(i), nothing.into_iter()).unwrap();
        assert!(fruits.is_empty());
    }
}

#[test]
fn map_borrows_from_the_caller() {
    let words = vec!["one".to_string(), "three".to_string()];
    for executor in all_executors() {
        let lengths: Vec<usize> = executor.map(|word: &String| Ok(word.len()), words.iter()).unwrap();
        assert_eq!(lengths, vec![3, 5]);
    }
}

#[test]
fn single_thread_stops_at_the_first_error() {
    let calls = AtomicUsize::new(0);
    let result: Result<Vec<usize>> = Executor::single_thread().map(
        |i: usize| {
            calls.fetch_add(1, Ordering::SeqCst);
            if i >= 3 {
                internal(&format!("failed at {i}"))
            } else {
                Ok(i)
            }
        },
        0..10,
    );
    assert_eq!(text_of(&result.unwrap_err()), "failed at 3");
    assert_eq!(calls.load(Ordering::SeqCst), 4);
}

#[test]
fn a_pool_runs_every_task_and_reports_one_of_the_errors() {
    let calls = AtomicUsize::new(0);
    let result: Result<Vec<usize>> = Executor::multi_thread(3, "worker-").unwrap().map(
        |i: usize| {
            calls.fetch_add(1, Ordering::SeqCst);
            if i % 4 == 1 {
                internal(&format!("failed at {i}"))
            } else {
                Ok(i)
            }
        },
        0..10,
    );
    let error = result.unwrap_err();
    assert!(["failed at 1", "failed at 5", "failed at 9"].contains(&text_of(&error)));
    assert_eq!(calls.load(Ordering::SeqCst), 10);
}

#[test]
fn an_instrumented_pool_reports_the_error_of_a_task() {
    let log = Arc::new(Mutex::new(Vec::new()));
    let result: Result<Vec<usize>> = minimal_executor(&log).map(
        |i: usize| if i == 2 { internal("two") } else { Ok(i) },
        0..4,
    );
    assert_eq!(text_of(&result.unwrap_err()), "two");
    assert_eq!(log.lock().unwrap().iter().filter(|hook| **hook == "end").count(), 4);
}

#[test]
fn scoped_hooks_fall_back_on_the_plain_ones() {
    let log = Arc::new(Mutex::new(Vec::new()));
    let fruits: Vec<usize> = minimal_executor(&log).map(|i: usize| Ok(i), 0..3).unwrap();
    assert_eq!(fruits, vec![0, 1, 2]);
    assert_eq!(
        *log.lock().unwrap(),
        vec!["enqueue", "enqueue", "enqueue", "run", "end", "run", "end", "run", "end"]
    );
}

#[test]
fn a_blocking_task_is_enqueued_and_run() {
    let log = Arc::new(Mutex::new(Vec::new()));
    let task_log = Arc::clone(&log);
    let future = minimal_executor(&log).spawn_blocking(move || {
        task_log.lock().unwrap().push("task");
        7
    });
    assert_eq!(block_on(future), Ok(7));
    assert_eq!(log.lock().unwrap()[..3], ["enqueue", "run", "task"]);
}

#[test]
fn a_pool_has_the_threads_it_was_asked_for() {
    let executor = Executor::multi_thread(3, "worker-").unwrap();
    let counts: Vec<usize> = executor.map(|_: usize| Ok(rayon::current_num_threads()), 0..5).unwrap();
    assert_eq!(counts, vec![3; 5]);
    let indices: Vec<Option<usize>> =
        executor.map(|_: usize| Ok(rayon::current_thread_index()), 0..5).unwrap();
    assert!(indices.iter().all(|index| matches!(index, Some(0..=2))));
}

#[test]
fn a_pool_of_any_size_has_a_thread() {
    let executor = Executor::multi_thread(0, "worker-").unwrap();
    let counts: Vec<usize> = executor.map(|_: usize| Ok(rayon::current_num_threads()), 0..1).unwrap();
    assert!(counts[0] >= 1);
}

#[test]
fn the_calling_thread_is_no_thread_of_a_pool() {
    let indices: Vec<Option<usize>> =
        Executor::single_thread().map(|_: usize| Ok(rayon::current_thread_index()), 0..2).unwrap();
    assert_eq!(indices, vec![None, None]);
}

#[test]
fn threads_are_named_by_prefix_and_index() {
    assert_eq!(thread_name("search-", 0), "search-0");
    assert_eq!(thread_name("search-", 9), "search-9");
    assert_eq!(thread_name("search-", 10), "search-10");
    assert_eq!(thread_name("", 12_345), "12345");
    assert_eq!(thread_name("x", usize::MAX), format!("x{}", usize::MAX));
}

#[test]
fn a_pool_makes_an_executor() {
    let pool = Arc::new(rayon::ThreadPoolBuilder::new().num_threads(2).build().unwrap());
    let executor = Executor::from(Arc::clone(&pool));
    assert!(matches!(&executor, Executor::ThreadPool(inner) if Arc::ptr_eq(inner, &pool)));
    let copy = executor.clone();
    assert!(matches!(&copy, Executor::ThreadPool(inner) if Arc::ptr_eq(inner, &pool)));
}

#[test]
fn clones_share_the_instrumentation() {
    let log = Arc::new(Mutex::new(Vec::new()));
    let executor = minimal_executor(&log);
    let copy = executor.clone();
    assert_eq!(copy.map(|i: usize| Ok(i), 0..1).unwrap(), vec![0]);
    assert_eq!(*log.lock().unwrap(), vec!["enqueue", "run", "end"]);
    assert!(matches!(Executor::single_thread().clone(), Executor::SingleThread));
}

#[test]
fn fruits_are_put_in_the_order_of_their_positions() {
    let messages: Vec<(usize, Result<char>)> = vec![(2, Ok('c')), (0, Ok('a')), (1, Ok('b'))];
    assert_eq!(collect_fruits(messages, 3).unwrap(), vec!['a', 'b', 'c']);
}

#[test]
fn arrival_order_does_not_matter() {
    let one: Vec<(usize, Result<u8>)> = vec![(0, Ok(5)), (1, Ok(6)), (2, Ok(7))];
    let other: Vec<(usize, Result<u8>)> = vec![(1, Ok(6)), (2, Ok(7)), (0, Ok(5))];
    assert_eq!(collect_fruits(one, 3).unwrap(), collect_fruits(other, 3).unwrap());
}

#[test]
fn the_last_fruit_for_a_position_stays() {
    let messages: Vec<(usize, Result<u8>)> = vec![(0, Ok(1)), (1, Ok(2)), (0, Ok(3))];
    assert_eq!(collect_fruits(messages, 2).unwrap(), vec![3, 2]);
}

#[test]
fn the_first_error_to_arrive_is_reported() {
    let messages: Vec<(usize, Result<u8>)> =
        vec![(2, Ok(1)), (1, internal("late position")), (0, internal("early position"))];
    assert_eq!(text_of(&collect_fruits(messages, 3).unwrap_err()), "late position");
}

#[test]
fn an_error_outweighs_a_missing_fruit() {
    let messages: Vec<(usize, Result<u8>)> = vec![(1, internal("task"))];
    assert_eq!(text_of(&collect_fruits(messages, 3).unwrap_err()), "task");
}

#[test]
fn a_missing_fruit_is_an_internal_error() {
    let messages: Vec<(usize, Result<u8>)> = vec![(0, Ok(1)), (2, Ok(3))];
    let error = collect_fruits(messages, 3).unwrap_err();
    assert!(matches!(&error, TantivyError::InternalError(text)
        if text == "One of the mapped execution failed."));
}

#[test]
fn no_messages_for_no_fruits() {
    let messages: Vec<(usize, Result<u8>)> = Vec::new();
    assert!(collect_fruits(messages, 0).unwrap().is_empty());
}

#[test]
fn spawn_blocking_replies() {
    assert_eq!(block_on(Executor::single_thread().spawn_blocking(|| 1 + 1)), Ok(2));
    let executor = Executor::multi_thread(2, "worker-").unwrap();
    let future = executor.spawn_blocking(|| "done".to_string());
    assert_eq!(block_on(future), Ok("done".to_string()));
}

#[test]
fn a_reply_outlives_the_executor() {
    let executor = Executor::multi_thread(1, "worker-").unwrap();
    let future = executor.spawn_blocking(|| 9);
    drop(executor);
    assert_eq!(block_on(future), Ok(9));
}

#[test]
fn a_task_that_panics_has_no_reply() {
    let executor = Executor::multi_thread(1, "worker-").unwrap();
    let future = executor.spawn_blocking(|| -> u8 { panic!("no reply") });
    assert_eq!(block_on(future), Err(()));
    assert_eq!(block_on(executor.spawn_blocking(|| 3)), Ok(3));
}

#[test]
fn what_is_received_is_delivered() {
    let (sender, receiver) = oneshot::channel();
    sender.send(4).unwrap();
    assert_eq!(outcome(block_on(receiver)), Ok(4));
    let (sender, receiver) = oneshot::channel::<u8>();
    drop(sender);
    assert_eq!(outcome(block_on(receiver)), Err(()));
}

#[test]
fn a_failed_build_is_reported_in_the_words_of_its_error() {
    let _ = rayon::ThreadPoolBuilder::new().num_threads(1).build_global();
    let cause = rayon::ThreadPoolBuilder::new().num_threads(1).build_global().unwrap_err();
    let text = cause.to_string();
    let error = pool_of(Err(cause)).unwrap_err();
    assert!(matches!(&error, TantivyError::SystemError(reported) if *reported == text));
    assert_eq!(text, "The global thread pool has already been initialized.");
}

#[test]
fn a_pool_that_was_built_is_passed_on() {
    let pool = pool_of(rayon::ThreadPoolBuilder::new().num_threads(2).build()).unwrap();
    assert_eq!(pool.current_num_threads(), 2);
}

#[test]
fn a_large_pool_has_every_thread_asked_for_or_is_refused_by_the_system() {
    match Executor::multi_thread(300, "worker-") {
        Ok(executor) => {
            let counts: Vec<usize> =
                executor.map(|_: usize| Ok(rayon::current_num_threads()), 0..1).unwrap();
            assert_eq!(counts, vec![300]);
        }
        Err(TantivyError::SystemError(text)) => assert_ne!(text, ""),
        Err(error) => panic!("{error:?}"),
    }
}

#[test]
fn a_pool_has_every_thread_asked_for() {
    for num_threads in [1, 2, 3, 8] {
        let executor = Executor::multi_thread(num_threads, "worker-").unwrap();
        let counts: Vec<usize> =
            executor.map(|_: usize| Ok(rayon::current_num_threads()), 0..1).unwrap();
        assert_eq!(counts, vec![num_threads]);
    }
}

#[test]
fn dropping_a_future_cancels_its_own_task_only() {
    let log = Arc::new(Mutex::new(Vec::new()));
    let executor = minimal_executor(&log);
    let (release, gate) = crossbeam_channel::bounded::<()>(0);
    let (entered, started) = crossbeam_channel::bounded::<()>(0);
    let blocking = executor.spawn_blocking(move || {
        entered.send(()).unwrap();
        gate.recv().unwrap();
        0
    });
    started.recv().unwrap();
    let calls = Arc::new(AtomicUsize::new(0));
    let mut kept = Vec::new();
    let mut given_up = Vec::new();
    for i in 1..=5 {
        let kept_calls = Arc::clone(&calls);
        kept.push(executor.spawn_blocking(move || {
            kept_calls.fetch_add(1, Ordering::SeqCst);
            i
        }));
        let other_calls = Arc::clone(&calls);
        given_up.push(executor.spawn_blocking(move || {
            other_calls.fetch_add(100, Ordering::SeqCst);
        }));
    }
    drop(given_up);
    release.send(()).unwrap();
    assert_eq!(block_on(blocking), Ok(0));
    for (i, future) in kept.into_iter().enumerate() {
        assert_eq!(block_on(future), Ok(i + 1));
    }
    // The pool has one thread, so the end of one more task shows that all others are over.
    assert_eq!(executor.map(|i: usize| Ok(i), 0..1).unwrap(), vec![0]);
    assert_eq!(block_on(executor.spawn_blocking(|| 6)), Ok(6));
    assert_eq!(calls.load(Ordering::SeqCst), 5);
    let hooks = log.lock().unwrap();
    assert_eq!(hooks.iter().filter(|hook| **hook == "enqueue").count(), 13);
    assert_eq!(hooks.iter().filter(|hook| **hook == "run").count(), 8);
}

#[test]
fn a_followed_task_is_told_that_it_runs_before_it_is_called() {
    let log = Arc::new(Mutex::new(Vec::new()));
    let executor = minimal_executor(&log);
    let task_log = Arc::clone(&log);
    let fruits: Vec<u8> = executor
        .map(
            |i: u8| {
                task_log.lock().unwrap().push("task");
                Ok(i)
            },
            vec![1, 2].into_iter(),
        )
        .unwrap();
    assert_eq!(fruits, vec![1, 2]);
    assert_eq!(
        *log.lock().unwrap(),
        vec!["enqueue", "enqueue", "run", "task", "end", "run", "task", "end"]
    );
}

#[test]
fn single_thread_draws_no_argument_past_the_first_error() {
    let drawn = AtomicUsize::new(0);
    let args = (0..10).inspect(|_| {
        drawn.fetch_add(1, Ordering::SeqCst);
    });
    let result: Result<Vec<usize>> =
        Executor::single_thread().map(|i| if i == 2 { internal("two") } else { Ok(i) }, args);
    assert_eq!(text_of(&result.unwrap_err()), "two");
    assert_eq!(drawn.load(Ordering::SeqCst), 3);
}

#[test]
fn tasks_of_a_pool_run_on_its_threads() {
    let executor = Executor::multi_thread(3, "worker-").unwrap();
    let places: Vec<(Option<usize>, usize)> = executor
        .map(|_: usize| Ok((rayon::current_thread_index(), rayon::current_num_threads())), 0..20)
        .unwrap();
    assert_eq!(places.len(), 20);
    for (index, num_threads) in places {
        assert!(matches!(index, Some(i) if i < 3));
        assert_eq!(num_threads, 3);
    }
    let future = executor.spawn_blocking(rayon::current_thread_index);
    assert!(matches!(block_on(future), Ok(Some(i)) if i < 3));
    assert_eq!(rayon::current_thread_index(), None);
}

#[test]
fn tasks_of_a_followed_pool_run_on_its_threads() {
    let log = Arc::new(Mutex::new(Vec::new()));
    let executor = minimal_executor(&log);
    let places: Vec<Option<usize>> =
        executor.map(|_: usize| Ok(rayon::current_thread_index()), 0..4).unwrap();
    assert_eq!(places, vec![Some(0); 4]);
    assert_eq!(block_on(executor.spawn_blocking(rayon::current_thread_index)), Ok(Some(0)));
}

#[test]
fn single_thread_tasks_run_in_the_calling_thread() {
    let executor = Executor::single_thread();
    let places: Vec<Option<usize>> =
        executor.map(|_: usize| Ok(rayon::current_thread_index()), 0..4).unwrap();
    assert_eq!(places, vec![None; 4]);
    let pool = rayon::ThreadPoolBuilder::new().num_threads(3).build().unwrap();
    pool.install(|| {
        let here = rayon::current_thread_index();
        assert!(here.is_some());
        let places: Vec<Option<usize>> =
            executor.map(|_: usize| Ok(rayon::current_thread_index()), 0..4).unwrap();
        assert_eq!(places, vec![here; 4]);
        assert_eq!(block_on(executor.spawn_blocking(rayon::current_thread_index)), Ok(here));
    });
}

#[test]
fn single_thread_calls_the_task_though_its_future_is_not_polled() {
    let calls = Arc::new(AtomicUsize::new(0));
    let task_calls = Arc::clone(&calls);
    let future = Executor::single_thread().spawn_blocking(move || {
        task_calls.fetch_add(1, Ordering::SeqCst);
    });
    assert_eq!(calls.load(Ordering::SeqCst), 1);
    drop(future);
}

#[test]
fn a_pool_calls_the_task_though_its_future_is_not_polled() {
    let executor = Executor::multi_thread(1, "worker-").unwrap();
    let (sender, receiver) = crossbeam_channel::bounded::<u8>(1);
    let future = executor.spawn_blocking(move || sender.send(8).unwrap());
    assert_eq!(receiver.recv(), Ok(8));
    assert_eq!(block_on(future), Ok(()));
}

#[test]
fn the_one_failure_of_a_batch_is_reported_by_every_executor() {
    for executor in all_executors() {
        let result: Result<Vec<usize>> =
            executor.map(|i| if i == 6 { internal("six") } else { Ok(i) }, 0..10);
        assert_eq!(text_of(&result.unwrap_err()), "six");
    }
}

#[test]
fn each_task_of_a_failed_batch_has_its_own_ticket() {
    let log = Arc::new(Mutex::new(Vec::new()));
    let executor = minimal_executor(&log);
    let result: Result<Vec<usize>> =
        executor.map(|i| if i == 0 { internal("none") } else { Ok(i) }, 0..7);
    assert_eq!(text_of(&result.unwrap_err()), "none");
    let hooks = log.lock().unwrap();
    assert!(hooks[..7].iter().all(|hook| *hook == "enqueue"));
    assert_eq!(hooks.iter().filter(|hook| **hook == "enqueue").count(), 7);
    assert_eq!(hooks.iter().filter(|hook| **hook == "run").count(), 7);
    assert_eq!(hooks.iter().filter(|hook| **hook == "end").count(), 7);
}
