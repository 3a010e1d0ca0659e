//! Per-CPU run queues of a multi-processor kernel: which CPU takes a task, which
//! task a CPU runs next, and how tasks are handed over between CPUs.
//!
//! The state of all tasks and CPUs is one value, [`System`]. An operation takes
//! the CPU that performs it as an argument, and returns what the kernel has to do
//! as a value: a context switch to perform, or a CPU to interrupt.
pub mod activity;
pub mod boot;
pub mod cpumask;
pub mod current;
pub mod dispatch;
pub mod effects;
pub mod gc;
pub mod handshake;
pub mod laws;
pub mod model;
pub mod order;
pub mod placement;
pub mod reschedule;
pub mod run_queue;
pub mod run_queue_ref;
pub mod scheduler;
pub mod select;
pub mod stack;
pub mod system;
pub mod task;

pub use boot::{init, init_secondary, BootTasks};
pub use cpumask::{AxCpuMask, CPU_CAPACITY};
pub use current::{current_run_queue, request_current_reschedule, CurrentRunQueueRef, ExitAction};
pub use dispatch::{clear_prev_task_on_cpu, ContextSwitch};
pub use gc::gc_round;
pub use run_queue_ref::{
    migrate_entry, select_migration_run_queue, select_new_task_run_queue, select_wake_run_queue,
    AxRunQueueRef,
};
pub use system::System;
pub use task::{TaskInner, TaskRole, TaskState};
