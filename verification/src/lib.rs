//! Core of an interactive process debugger: software-breakpoint
//! bookkeeping and word patching, trap attribution, the control loop's
//! stop classification and resume choreography, command parsing, and the
//! stack scan - each with a proved contract. The surrounding process
//! launch, trace syscalls and terminal I/O live outside the library and
//! feed it plain values.

pub mod breakpoint;
pub mod text;
pub mod user_instructions;
pub mod instruction_processor;
pub mod debugger;
