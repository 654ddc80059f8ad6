# ergohaven

The verified core of the Ergohaven keyboard firmware, written in Verus.

- `src/host_data.rs`: what the host daemon pushes (clock, layout, media
  titles, coding-agent and usage feeds; the agent feed arrives as the `0xB0`
  packet handled in `via.rs`) and the snapshot the screen reads,
  with the 30-second expiry of the feeds.
- `src/via.rs`: the VIA/Vial raw-HID protocol, including the host data packets
  and the Ergohaven commands (battery halves, native key actions). The service
  says what it needs to read from the keyboard and what the keyboard must do
  afterwards; the reply it builds is specified byte by byte.
- `src/layer_led.rs`: the RGB indicator LED of a K:04 half as a state machine
  over events and time, and the PWM frame it sends.
- `src/display.rs`: the Qube dongle screen: dirty regions, the stripe
  framebuffer, event handling, the passes of its event loop (how long a pass
  waits, which events it takes in, when it redraws) and what the battery
  gauges, clock and agent grid show.
- `src/split.rs`: the split peripheral's choice of central, its advertising
  phases and data, the product check, the connection loop as a state machine
  (with the connection status it reports) and the link events.
- `src/text.rs`, `src/bytes.rs`: bounded UTF-8 text and byte-order helpers.

`app/` holds what runs around it: the VIA task's turn, the embedded-graphics
drawing of the status screen and its event loop, the split peripheral's
connection and read loops, the layer LED task, and the BLE advertisement
values. The loops take their I/O through small traits; what to wait for, what
to do next and what to report come from the library, and the loops carry it
out.
