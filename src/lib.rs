//! Dual-bank firmware bootloader core: the boot metadata record and the
//! flash model that stores it, bank selection, the update protocol state
//! machine with its wire encoding and framing, the services of the
//! cooperative main loop, and the host uploader's logic (upload plan, UF2).

pub mod bytes;
pub mod protocol;
pub mod flash;
pub mod wire;
pub mod update;
pub mod boot;
pub mod transport;
pub mod service;
pub mod services;
pub mod uf2;
pub mod host;
