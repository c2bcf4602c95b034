# comms

Messaging between serial devices, zmq publishers and subscribers, and an XPUB/XSUB
proxy between them. The library (`src/`) holds the logic, verified with Verus:

- `packet`: the packet header and its protobuf encoding (five `uint32` fields),
  written and read through prost's wire primitives; decoding what was encoded gives
  the header back.
- `wire`: the varint and field-key primitives, specified over base-128 encoding.
- `subscriptions`: the proxy's subscriber count per topic, kept from control frames.
- `monitor`: socket monitor events and the proxy's count of connected publishers.
- `frames`: two-part topic/message frames and the send flags of forwarded parts.
- `text`: decimal numbers, publisher topics and greeting lines.
- `communication`: the serial and zmq links that a reader starts.

`app/` runs the programs: sockets, serial ports, threads and printing.
