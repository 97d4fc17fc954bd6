# uart_load

Load tests of a serial link between two ports of one machine, and the kernel's side of the
interrupt controller that delivers the ports' interrupts. The logic is verified with Verus.

Both ends of the link run the same test with crossed seeds. Each sends a stream of bytes that the
other one can predict, and counts the bytes that differ.

- `src/` is the verified library. A test is a state machine (`machine::Machine`) that names the
  next action to perform on the hardware (`device::Action`) and takes the reply
  (`device::Reply`). What holds of whole runs is stated in the proof functions whose names start
  with `law_`: that what is sent is the stream, that a clean link causes no errors, what lost and
  changed bytes cost, that interrupts are completed, that a test ends. The buffered asynchronous
  test is an exception to the second of these: its read tasks draw once too often, so that only
  the first block of a clean link is free of errors (`link.rs` states what becomes of the second).
- `tests/` runs the machines against simulated hardware.
- `app/` is the program on the board: it performs the actions through the system calls and the
  serial drivers, and hands the replies back.

Two outside functions are called from `src/`, each behind a wrapper whose contract is trusted:
`rand_core::SeedableRng::seed_from_u64` in `rng.rs` and `array_init::array_init` in
`buffered_tasks.rs`.
