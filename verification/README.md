# ap_sitl

A bridge to ArduPilot's JSON SITL backend. ArduPilot sends binary PWM servo
packets over UDP; the bridge answers with JSON aircraft state messages.

- `src/` is the verified library: the two PWM packet layouts (`packet`), the
  acceptance checks and the decoding of servo channels from a received packet,
  the choice of the servo values that a drain of the socket reports (`lib`,
  `bridge`), the validation of the servo configuration (`cfg`), the R/C input
  of the state message (`msg`, `state`) and the newline framing of sent
  messages.
- `app/` holds the UDP sockets, the TOML and JSON handling (serde), and the
  floating-point parts (the state message and the normalization of servo
  values), built on the library.
- `tests/` runs the library on concrete packets and configurations.
