//! Addresses inside a parsed ELF64 image, and byte payloads built from them.
//!
//! * [`pwn`] answers the queries: a symbol's address, the GOT slot of an
//!   imported symbol, the address of `.bss`, and the search for the PLT stub
//!   that reaches a GOT slot.
//! * [`elf`] holds the section records that an image is made of.
//! * [`plt`] is the stub search: it decides what an emulator is to do next
//!   and what follows from what the emulator did.
//! * [`util`] builds payloads, and [`connection`] says how values are sent
//!   and when enough has been received.

pub mod connection;
pub mod elf;
pub mod plt;
pub mod pwn;
pub mod util;
