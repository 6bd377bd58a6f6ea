use std::sync::atomic::{AtomicU64, AtomicUsize, Ordering};
use std::sync::Arc;

use executor::{
    Enqueued, EnqueuedTask, Executor, Running, RunningTask, Shared, TaskInstrumentation,
};

struct TestTaskInstrumentation {
    enqueue_count: Arc<AtomicUsize>,
    enqueue_scoped_count: Arc<AtomicUsize>,
    run_count: Arc<AtomicUsize>,
    run_scoped_count: Arc<AtomicUsize>,
}
struct TestEnqueuedTask {
    run_count: Arc<AtomicUsize>,
    run_scoped_count: Arc<AtomicUsize>,
}
struct TestRunningTask;

impl TaskInstrumentation for TestTaskInstrumentation {
    fn enqueue(&self) -> Enqueued {
        self.enqueue_count.fetch_add(1, Ordering::Relaxed);
        Enqueued(Box::new(TestEnqueuedTask {
            run_count: Arc::clone(&self.run_count),
            run_scoped_count: Arc::clone(&self.run_scoped_count),
        }))
    }

    fn enqueue_scoped(&self) -> Enqueued {
        self.enqueue_scoped_count.fetch_add(1, Ordering::Relaxed);
        Enqueued(Box::new(TestEnqueuedTask {
            run_count: Arc::clone(&self.run_count),
            run_scoped_count: Arc::clone(&self.run_scoped_count),
        }))
    }
}
impl EnqueuedTask for TestEnqueuedTask {
    fn run(self: Box<Self>) -> Running {
        self.run_count.fetch_add(1, Ordering::Relaxed);
        Running(Box::new(TestRunningTask))
    }

    fn run_scoped(self: Box<Self>) -> Running {
        self.run_scoped_count.fetch_add(1, Ordering::Relaxed);
        Running(Box::new(TestRunningTask))
    }
}
impl RunningTask for TestRunningTask {}

#[test]
#[should_panic(expected = "panic should propagate")]
fn test_panic_propagates_single_thread() {
    let _result: Vec<usize> = Executor::single_thread()
        .map(
            |_| {
                panic!("panic should propagate");
            },
            vec![0].into_iter(),
        )
        .unwrap();
}

#[test]
#[should_panic] //< unfortunately the panic message is not propagated
fn test_panic_propagates_multi_thread() {
    let _result: Vec<usize> = Executor::multi_thread(1, "search-test")
        .unwrap()
        .map(
            |_| {
                panic!("panic should propagate");
            },
            vec![0].into_iter(),
        )
        .unwrap();
}

#[test]
fn test_map_singlethread() {
    let result: Vec<usize> = Executor::single_thread()
        .map(|i| Ok(i * 2), 0..1_000)
        .unwrap();
    assert_eq!(result.len(), 1_000);
    for i in 0..1_000 {
        assert_eq!(result[i], i * 2);
    }
}

#[test]
fn test_map_multithread() {
    let result: Vec<usize> = Executor::multi_thread(3, "search-test")
        .unwrap()
        .map(|i| Ok(i * 2), 0..10)
        .unwrap();
    assert_eq!(result.len(), 10);
    for i in 0..10 {
        assert_eq!(result[i], i * 2);
    }
}

#[test]
fn test_map_instrumented() {
    let enqueue_count = Arc::new(AtomicUsize::new(0));
    let enqueue_scoped_count = Arc::new(AtomicUsize::new(0));
    let run_count = Arc::new(AtomicUsize::new(0));
    let run_scoped_count = Arc::new(AtomicUsize::new(0));
    let pool = rayon::ThreadPoolBuilder::new()
        .num_threads(2)
        .build()
        .unwrap();
    let executor = Executor::InstrumentedThreadPool(
        Arc::new(pool),
        Shared(Arc::new(TestTaskInstrumentation {
            enqueue_count: Arc::clone(&enqueue_count),
            enqueue_scoped_count: Arc::clone(&enqueue_scoped_count),
            run_count: Arc::clone(&run_count),
            run_scoped_count: Arc::clone(&run_scoped_count),
        })),
    );
    let result: Vec<usize> = executor.map(|i| Ok(i * 2), 0..10).unwrap();
    assert_eq!(result.len(), 10);
    for i in 0..10 {
        assert_eq!(result[i], i * 2);
    }
    assert_eq!(enqueue_count.load(Ordering::Relaxed), 0);
    assert_eq!(enqueue_scoped_count.load(Ordering::Relaxed), 10);
    assert_eq!(run_count.load(Ordering::Relaxed), 0);
    assert_eq!(run_scoped_count.load(Ordering::Relaxed), 10);
}

#[test]
fn test_spawn_blocking_instrumented() {
    let enqueue_count = Arc::new(AtomicUsize::new(0));
    let enqueue_scoped_count = Arc::new(AtomicUsize::new(0));
    let run_count = Arc::new(AtomicUsize::new(0));
    let run_scoped_count = Arc::new(AtomicUsize::new(0));
    let pool = rayon::ThreadPoolBuilder::new()
        .num_threads(2)
        .build()
        .unwrap();
    let executor = Executor::InstrumentedThreadPool(
        Arc::new(pool),
        Shared(Arc::new(TestTaskInstrumentation {
            enqueue_count: Arc::clone(&enqueue_count),
            enqueue_scoped_count: Arc::clone(&enqueue_scoped_count),
            run_count: Arc::clone(&run_count),
            run_scoped_count: Arc::clone(&run_scoped_count),
        })),
    );
    let result = futures::executor::block_on(executor.spawn_blocking(|| 42usize)).unwrap();
    assert_eq!(result, 42);
    assert_eq!(enqueue_count.load(Ordering::Relaxed), 1);
    assert_eq!(enqueue_scoped_count.load(Ordering::Relaxed), 0);
    assert_eq!(run_count.load(Ordering::Relaxed), 1);
    assert_eq!(run_scoped_count.load(Ordering::Relaxed), 0);
}

#[test]
fn test_cancel_cpu_intensive_tasks() {
    let counter: Arc<AtomicU64> = Default::default();

    let other_counter: Arc<AtomicU64> = Default::default();

    let mut futures = Vec::new();
    let mut other_futures = Vec::new();

    let (tx, rx) = crossbeam_channel::bounded::<()>(0);
    let rx = Arc::new(rx);
    let executor = Executor::multi_thread(3, "search-test").unwrap();
    for _ in 0..1000 {
        let counter_clone: Arc<AtomicU64> = counter.clone();
        let other_counter_clone: Arc<AtomicU64> = other_counter.clone();

        let rx_clone = rx.clone();
        let rx_clone2 = rx.clone();
        let fut = executor.spawn_blocking(move || {
            counter_clone.fetch_add(1, Ordering::SeqCst);
            let _ = rx_clone.recv();
        });
        futures.push(fut);
        let other_fut = executor.spawn_blocking(move || {
            other_counter_clone.fetch_add(1, Ordering::SeqCst);
            let _ = rx_clone2.recv();
        });
        other_futures.push(other_fut);
    }

    // We execute 100 futures.
    for _ in 0..100 {
        tx.send(()).unwrap();
    }

    let counter_val = counter.load(Ordering::SeqCst);
    let other_counter_val = other_counter.load(Ordering::SeqCst);
    assert!(counter_val >= 30);
    assert!(other_counter_val >= 30);

    drop(other_futures);

    // We execute 100 futures.
    for _ in 0..100 {
        tx.send(()).unwrap();
    }

    let counter_val2 = counter.load(Ordering::SeqCst);
    assert!(counter_val2 >= counter_val + 100 - 6);

    let other_counter_val2 = other_counter.load(Ordering::SeqCst);
    assert!(other_counter_val2 <= other_counter_val + 6);
}
