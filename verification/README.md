# bups

A network print server for Brother PT (P-touch) and QL label printers: it
exposes a USB-connected printer over TCP port 9100, answers SNMP status
queries and advertises the printer via mDNS.

The crate is written in Verus.

- `src/` is the library, with its contracts and proofs: the device table and
  which model names select which device (`device`, `names`), the 32-byte
  status frame (`status`), the TCP text commands (`command`), SNMP answers
  (`snmp`), the PID file (`pid`), printer selection and status reads (`usb`),
  reconnect bookkeeping (`health`), the mDNS record (`mdns`), bind addresses
  (`net`), and the text primitives they share (`text`).
- `app/` is the program around it: command line, logging, sockets, USB
  transfers, the mDNS daemon, signals.
- `tests/` runs the library on concrete values.
