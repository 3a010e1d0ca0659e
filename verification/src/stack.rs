//! The stacks that tasks run on.
use ax_memory_addr::VirtAddr;
use vstd::prelude::*;

verus! {

/// The type `ax_memory_addr::VirtAddr`, of which nothing is claimed: it is only
/// carried along.
#[verifier::external_type_specification]
#[verifier::external_body]
pub struct ExVirtAddr(ax_memory_addr::VirtAddr);

/// The alignment of a task's stack, in bytes.
pub const TASK_STACK_ALIGN: usize = 16;

/// The size of the stack of an idle task that is created at boot, in bytes.
pub const IDLE_TASK_STACK_SIZE: usize = 16384;

/// A region of memory that a task uses as its stack.
#[derive(Clone, Copy, Debug, PartialEq, Eq)]
pub struct TaskStack {
    /// The lowest address of the region.
    pub ptr: VirtAddr,
    pub size: usize,
    pub align: usize,
    /// Whether the region belongs to someone else, and is not freed with the task.
    pub borrowed: bool,
}

impl TaskStack {
    /// A stack in a region that belongs to someone else.
    pub fn borrowed(ptr: VirtAddr, size: usize, align: usize) -> (stack: Self)
        ensures
            stack == (TaskStack { ptr, size, align, borrowed: true }),
    {
        TaskStack { ptr, size, align, borrowed: true }
    }
}

/// The stack of the main task: the one that the CPU has booted on.
pub fn main_task_stack(stack_ptr: VirtAddr, stack_size: usize) -> (stack: TaskStack)
    ensures
        stack == (TaskStack {
            ptr: stack_ptr,
            size: stack_size,
            align: TASK_STACK_ALIGN,
            borrowed: true,
        }),
{
    TaskStack::borrowed(stack_ptr, stack_size, TASK_STACK_ALIGN)
}

} // verus!
