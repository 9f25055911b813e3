# bacnet_bss

Helpers for a BACnet/IP Smart Sensor (B-SS) built on the CAS BACnet Stack,
with the byte-level and decision logic verified by Verus.

- `src/property_buffer_helper.rs` packs the little-endian `propertyArrays`
  buffers of the stack's client-role `Send*` calls (ReadProperty,
  WriteProperty, CreateObject, WriteGroup, SubscribeCOVPropertyMultiple) and
  refuses, with a message naming the element, any field that would not fit
  its wire field. Contracts give the exact bytes and the exact message;
  proof functions give the byte map of each record.
- `src/cas_example_helper.rs` holds the 6-byte IPv4 connection string, the
  framing of received datagrams, the local subnet addressing, and the
  `--port` / `--deviceID` parsers.
- `src/text.rs` renders integers in decimal and reads them back;
  `src/wire.rs` has the little-endian field images and record
  concatenation; `src/constants.rs` the BACnet enumeration values.
- `app/` is the unverified plumbing: the native library binding
  (`libloading`), the UDP socket, the `once_cell` statics, and the
  `extern "C"` callbacks.
