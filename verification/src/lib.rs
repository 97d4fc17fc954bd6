//! Load tests of a serial link between two ports of one machine.
//!
//! The two ends of the link run the same test with crossed seeds: each sends a stream of bytes
//! that the other one can predict, and counts the bytes that differ. Every test, and every task of
//! one, is a [`machine::Machine`]: it names the next action to perform on the hardware, and takes
//! the reply. What the machines promise over whole runs is stated and proved beside them, in proof
//! functions whose names start with `law_`.

// What tests and hardware have to do with each other.
pub mod device;
pub mod machine;
pub mod params;

// The streams of bytes and their checking.
pub mod check;
pub mod rng;

// Configuration and interrupts.
pub mod config;
pub mod plic;
pub mod service;
pub mod user_trap;

// The tests and their tasks.
pub mod buffered_tasks;
pub mod kernel_driver_test;
pub mod unbuffered_tasks;
pub mod user_full_load_test;
pub mod user_polling_test;

// What the tests do, told by their actions and the replies to them.
pub mod async_conduct;
pub mod flow_conduct;
pub mod full_load_conduct;
pub mod intr_conduct;
pub mod kernel_conduct;
pub mod poll_conduct;
pub mod polling_conduct;
pub mod short_buf_conduct;
pub mod task_conduct;
pub mod unbuffered_conduct;

// Both ends together.
pub mod link;
