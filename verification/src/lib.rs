//! bups: the print server for USB-based label printers, as a verified library.
//!
//! The library holds everything the server decides: which USB devices are
//! supported label printers, how a 32-byte status frame reads, what a TCP
//! client's command means and what it is answered, how an SNMP request is
//! answered, when the health loop retries, and what the mDNS record says.
//! The program around it (sockets, USB transfers, threads) lives in `app/`.

pub mod config;
pub mod device;
pub mod names;
pub mod text;
pub mod status;
pub mod command;
pub mod snmp;
pub mod pid;
pub mod usb;
pub mod health;
pub mod mdns;
pub mod net;
