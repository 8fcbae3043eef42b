//! Which connected USB devices are supported printers, which one is opened,
//! and what a status read brought back.
//!
//! Enumeration and transfers are the program's; it hands the library what
//! they reported.
use vstd::prelude::*;
use vstd::string::StringExecFns;
use crate::config::{BROTHER_VENDOR_ID, STATUS_MAGIC_0, STATUS_MAGIC_1, USB_READ_SIZE};
use crate::device::{name_matches, Device};
use crate::status::has_magic;
use crate::text::{chars_of, same_chars};

verus! {

/// What USB enumeration reports of one device.
#[derive(Clone, Debug, PartialEq, Eq)]
pub struct UsbDeviceInfo {
    pub vendor_id: u16,
    pub product_id: u16,
    /// The serial number string, when the device has one.
    pub serial: Option<String>,
}

/// The supported printer a device is: a Brother device with a product ID in
/// the table.
pub open spec fn identified(vendor_id: u16, product_id: u16) -> Option<Device> {
    if vendor_id == BROTHER_VENDOR_ID {
        Device::with_pid(product_id)
    } else {
        None
    }
}

/// The supported printer a device is, if any.
pub fn identify(vendor_id: u16, product_id: u16) -> (r: Option<Device>)
    ensures
        r == identified(vendor_id, product_id),
{
    if vendor_id == BROTHER_VENDOR_ID {
        Device::from_pid(product_id)
    } else {
        None
    }
}

/// The serial a printer is listed with: its serial number, or `Unknown`.
pub open spec fn listed_serial(serial: Option<String>) -> Seq<char> {
    match serial {
        Some(s) => s@,
        None => "Unknown"@,
    }
}

/// The supported printers among `found`, in enumeration order, each with
/// the serial it is listed with.
pub open spec fn supported_view(found: Seq<UsbDeviceInfo>) -> Seq<(Device, Seq<char>)>
    decreases found.len(),
{
    if found.len() == 0 {
        seq![]
    } else {
        let last = found.last();
        let rest = supported_view(found.drop_last());
        match identified(last.vendor_id, last.product_id) {
            Some(d) => rest.push((d, listed_serial(last.serial))),
            None => rest,
        }
    }
}

/// The view of a list of printers with serials.
pub open spec fn printers_view(v: Seq<(Device, String)>) -> Seq<(Device, Seq<char>)> {
    v.map_values(|p: (Device, String)| (p.0, p.1@))
}

/// The supported printers among the enumerated devices.
pub fn supported_printers(found: &Vec<UsbDeviceInfo>) -> (r: Vec<(Device, String)>)
    ensures
        printers_view(r@) == supported_view(found@),
{
    let mut out: Vec<(Device, String)> = Vec::new();
    let n = found.len();
    for i in 0..n
        invariant
            n == found.len(),
            printers_view(out@) == supported_view(found@.take(i as int)),
    {
        let info = &found[i];
        assert(found@.take(i + 1).drop_last() =~= found@.take(i as int));
        assert(found@.take(i + 1).last() == found@[i as int]);
        match identify(info.vendor_id, info.product_id) {
            Some(d) => {
                let serial = match &info.serial {
                    Some(s) => s.clone(),
                    None => String::from_str("Unknown"),
                };
                let ghost before = out@;
                out.push((d, serial));
                assert(printers_view(out@) =~= printers_view(before).push(
                    (d, listed_serial(info.serial)),
                ));
            },
            None => {},
        }
    }
    assert(found@.take(n as int) =~= found@);
    out
}

/// A printer passes the filters: its model answers to the model filter and
/// its serial is the serial filter, where given.
pub open spec fn passes(
    p: (Device, Seq<char>),
    model_filter: Option<Seq<char>>,
    serial_filter: Option<Seq<char>>,
) -> bool {
    &&& match model_filter {
        Some(m) => name_matches(p.0.name(), m),
        None => true,
    }
    &&& match serial_filter {
        Some(s) => p.1 == s,
        None => true,
    }
}

/// The view of an optional string.
pub open spec fn opt_text(s: Option<&str>) -> Option<Seq<char>> {
    match s {
        Some(t) => Some(t@),
        None => None,
    }
}

/// The printer to open: the first one, in enumeration order, that passes
/// the filters; `None` when none does.
pub fn select_printer(
    printers: &Vec<(Device, String)>,
    model_filter: Option<&str>,
    serial_filter: Option<&str>,
) -> (r: Option<usize>)
    ensures
        match r {
            Some(i) => i < printers.len() && passes(
                printers_view(printers@)[i as int],
                opt_text(model_filter),
                opt_text(serial_filter),
            ) && forall|j: int|
                0 <= j < i ==> !passes(
                    #[trigger] printers_view(printers@)[j],
                    opt_text(model_filter),
                    opt_text(serial_filter),
                ),
            None => forall|j: int|
                0 <= j < printers.len() ==> !passes(
                    #[trigger] printers_view(printers@)[j],
                    opt_text(model_filter),
                    opt_text(serial_filter),
                ),
        },
{
    let n = printers.len();
    for i in 0..n
        invariant
            n == printers.len(),
            forall|j: int|
                0 <= j < i ==> !passes(
                    #[trigger] printers_view(printers@)[j],
                    opt_text(model_filter),
                    opt_text(serial_filter),
                ),
    {
        let (d, serial) = (printers[i].0, &printers[i].1);
        let model_ok = match model_filter {
            Some(m) => d.matches(m),
            None => true,
        };
        let serial_ok = match serial_filter {
            Some(s) => same_chars(&chars_of(serial.as_str()), &chars_of(s)),
            None => true,
        };
        assert(printers_view(printers@)[i as int] == (d, serial@));
        if model_ok && serial_ok {
            return Some(i);
        }
    }
    None
}

/// What one attempt at reading the status endpoint reported.
#[derive(Clone, Debug, PartialEq, Eq)]
pub enum ReadOutcome {
    /// The transfer completed with these bytes.
    Data(Vec<u8>),
    /// The transfer completed with an error status.
    Failed,
    /// Nothing arrived before the timeout.
    TimedOut,
}

/// What a status read does after one attempt.
#[derive(Clone, Debug, PartialEq, Eq)]
pub enum ReadStep {
    /// A status frame arrived.
    Frame([u8; USB_READ_SIZE]),
    /// Nothing usable arrived; try again while attempts remain.
    Retry,
    /// The transfer failed; give up.
    Fail,
}

/// The first 32 bytes of `data`, zero-filled when it is shorter.
pub open spec fn frame_of(data: Seq<u8>) -> Seq<u8> {
    Seq::new(USB_READ_SIZE as nat, |i: int| if i < data.len() { data[i] } else { 0u8 })
}

/// Decides what one read attempt brought: a failed transfer ends the read;
/// data that starts with the status magic is the frame, cut or zero-padded
/// to 32 bytes; empty or other data and a timeout call for another attempt.
pub fn read_step(outcome: ReadOutcome) -> (r: ReadStep)
    ensures
        match outcome {
            ReadOutcome::Failed => r == ReadStep::Fail,
            ReadOutcome::TimedOut => r == ReadStep::Retry,
            ReadOutcome::Data(d) => if d@.len() > 0 && has_magic(frame_of(d@)) {
                r matches ReadStep::Frame(f) && f@ == frame_of(d@)
            } else {
                r == ReadStep::Retry
            },
        },
{
    match outcome {
        ReadOutcome::Failed => ReadStep::Fail,
        ReadOutcome::TimedOut => ReadStep::Retry,
        ReadOutcome::Data(d) => {
            if d.len() == 0 {
                return ReadStep::Retry;
            }
            let mut buf = [0u8; USB_READ_SIZE];
            let len = if d.len() < USB_READ_SIZE {
                d.len()
            } else {
                USB_READ_SIZE
            };
            let mut i: usize = 0;
            while i < len
                invariant
                    len <= USB_READ_SIZE,
                    len <= d.len(),
                    i <= len,
                    len == USB_READ_SIZE || len == d.len(),
                    forall|k: int| 0 <= k < i ==> buf@[k] == d@[k],
                    forall|k: int| i <= k < USB_READ_SIZE ==> buf@[k] == 0u8,
                    buf@.len() == USB_READ_SIZE,
                decreases len - i,
            {
                buf[i] = d[i];
                i = i + 1;
            }
            assert(buf@ =~= frame_of(d@));
            if buf[0] == STATUS_MAGIC_0 && buf[1] == STATUS_MAGIC_1 {
                ReadStep::Frame(buf)
            } else {
                ReadStep::Retry
            }
        },
    }
}

} // verus!
