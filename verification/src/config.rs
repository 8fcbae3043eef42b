//! Protocol constants: USB identifiers, the status frame layout, network sizes.
use vstd::prelude::*;

verus! {

// --- USB ---

/// USB vendor ID of Brother Industries.
pub const BROTHER_VENDOR_ID: u16 = 0x04f9;

/// The printer-class interface; every model in the table exposes it as 0.
pub const USB_INTERFACE: u8 = 0;

/// Bulk OUT endpoint.
pub const USB_EP_OUT: u8 = 0x02;

/// Bulk IN endpoint.
pub const USB_EP_IN: u8 = 0x81;

/// Size of a status frame.
pub const USB_READ_SIZE: usize = 32;

/// Size of the buffer a status read is submitted with.
pub const USB_READ_BUFFER: usize = 64;

/// How many reads are tried before a status request is given up.
pub const USB_READ_RETRIES: u32 = 10;

/// Largest single bulk OUT transfer.
pub const USB_WRITE_CHUNK: usize = 4096;

/// Timeout of a bulk OUT transfer, in milliseconds.
pub const USB_TIMEOUT_MS: u64 = 2000;

/// Timeout of one status read attempt, in milliseconds.
pub const USB_READ_TIMEOUT_MS: u64 = 500;

/// Pause between a status request and its read, in milliseconds.
pub const USB_STATUS_DELAY_MS: u64 = 50;

// --- Status response format (32-byte) ---

/// Byte 0 of a status frame: the print head mark.
pub const STATUS_MAGIC_0: u8 = 0x80;

/// Byte 1 of a status frame: the frame size.
pub const STATUS_MAGIC_1: u8 = 0x20;

pub const STATUS_OFF_ERROR1: usize = 8;

pub const STATUS_OFF_ERROR2: usize = 9;

pub const STATUS_OFF_MEDIA_WIDTH: usize = 10;

pub const STATUS_OFF_MEDIA_TYPE: usize = 11;

/// On QL die-cut labels this carries the die-cut length.
pub const STATUS_OFF_MEDIA_LENGTH: usize = 17;

pub const STATUS_OFF_STATUS_TYPE: usize = 18;

/// Byte 19 is the phase type; bytes 20 and 21 are the phase number, big-endian.
pub const STATUS_OFF_PHASE_TYPE: usize = 19;

pub const STATUS_OFF_PHASE_NUMBER_HI: usize = 20;

pub const STATUS_OFF_PHASE_NUMBER_LO: usize = 21;

/// PT only. Bytes 24 to 31 are reserved on QL.
pub const STATUS_OFF_TAPE_COLOR: usize = 24;

/// PT only.
pub const STATUS_OFF_TEXT_COLOR: usize = 25;

// --- Network ---

pub const TCP_PORT: u16 = 9100;

pub const SNMP_PORT: u16 = 161;

pub const TCP_BUFFER_SIZE: usize = 8192;

pub const TCP_IDLE_TIMEOUT_S: u64 = 30;

pub const TCP_MAX_CONNECTIONS: usize = 8;

pub const SNMP_BUFFER_SIZE: usize = 1024;

/// A chunk at most this long may be a text command; anything longer is print data.
pub const COMMAND_WINDOW: usize = 64;

// --- Reconnect ---

pub const DEFAULT_RECONNECT_INTERVAL: u64 = 30;

/// 0 means retry forever.
pub const DEFAULT_MAX_RECONNECT_ATTEMPTS: u32 = 0;

// --- mDNS ---

pub const MDNS_RETIRE_TIMEOUT_MS: u64 = 1000;

/// DNS-SD service type the printer is announced under.
pub const MDNS_SERVICE_TYPE: &'static str = "_pdl-datastream._tcp.local.";

/// Page description language advertised in the TXT record.
pub const BROTHER_PDL: &'static str = "application/vnd.brother-hbp";

} // verus!
