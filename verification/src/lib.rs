//! Process layer of a single-core, preemptible microkernel.
//!
//! The crate owns process identity and state (`process::pcb`), the scheduling
//! policies (`process::scheduler`), context transfer between processes
//! (`process::context`), the process service that ties them together
//! (`services::process_service`) and the system-call boundary (`syscalls`,
//! `interrupts`).  Beside them stand the memory service and a small file
//! system (`services`), and the arithmetic of the timer (`timer`).
//!
//! Every function has a contract, and all but two are verified against
//! theirs.  The two are the places where the crate calls code that is not
//! its own: `addr::virt_addr`, which asks the `x86_64` crate for a canonical
//! address, and the decoding of UTF-8 in `syscalls`.  Their contracts are
//! taken on trust.

pub mod addr;
pub mod interrupts;
pub mod ordered;
pub mod process;
pub mod queue;
pub mod services;
pub mod syscalls;
pub mod timer;
