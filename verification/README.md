# run_queue

The per-CPU run queues of a multi-processor kernel, verified with Verus: which
CPU takes a task, which task a CPU runs next, how a task is handed over between
CPUs, and how CPUs ask each other to reschedule.

The library keeps the state of all tasks and CPUs in one value, `System`. Every
operation takes the CPU that performs it, changes that state, and returns what
the kernel has to do as a plain value: a context switch to perform, or a CPU to
interrupt. The ready queues themselves are those of the `ax-sched` crate.

- `src/model.rs`: the mathematical model of the state, and what every operation
  keeps of it.
- `src/system.rs`, `src/run_queue.rs`, `src/scheduler.rs`, `src/task.rs`,
  `src/cpumask.rs`, `src/stack.rs`: the data.
- `src/placement.rs`, `src/activity.rs`, `src/select.rs`, `src/run_queue_ref.rs`:
  choosing a run queue for a task, and reserving idle CPUs.
- `src/dispatch.rs`, `src/handshake.rs`, `src/current.rs`, `src/reschedule.rs`:
  putting tasks into queues, switching between them, waking them up while they
  are still being switched out, and requests to reschedule.
- `src/boot.rs`, `src/gc.rs`: bringing CPUs in, and collecting exited tasks.
- `src/laws.rs`: what holds of the scheduler as a whole.
- `app/`: the lock, the guards, the hardware and the tasks' contexts around it.
