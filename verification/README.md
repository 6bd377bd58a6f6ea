# executor

Runs tasks in the calling thread or in a thread pool. `Executor::map` applies a function to a batch
of arguments and returns the results in the order of the arguments, whichever thread computed them.
`Executor::spawn_blocking` runs one task and returns a future of its reply. A `TaskInstrumentation`
can follow the tasks of a pool from the queue to their end.

The library is written in Verus, and what each function does is stated in its contract:

- `executor` holds `Executor` and what its methods give;
- `map` works on a batch, in order or in a pool, and `fruits` puts the outcomes of a batch in order;
- `blocking` runs one task detached from its caller;
- `instrumentation` holds the hooks that follow a task, and `ticket` tells them of each task, once
  when it joins the queue and once when it runs;
- `worker` holds the threads that call the tasks: a function is called only through the thread that
  it is meant to run in, and a worker is good for one call;
- `pool`, `worker`, `channel` and `reply` stand between the library and the crates it builds on:
  `rayon`, `crossbeam-channel`, `oneshot` and `futures-util`. What is believed of those crates, rather
  than proved, is stated there, and only there;
- `laws` states what holds of every executor.

What is to come (whether a scope completes, which messages arrive, whether a reply is delivered) is
foretold by ghost values: they are settled by what the program does, and nothing it computes depends
on them.

Where and when a function is called is stated in what is required of it: a map requires no more of
its function than that it may be called by a thread of the pool, say, so it cannot call it elsewhere.
