# ayphr

Provisioning protocol of the Geo device, verified with Verus.

The device (an ESP32-C3 board) is configured over BLE or a serial link by a
companion application. Requests and replies are short byte frames: an
opcode, then length-prefixed UTF-8 fields and flag bytes.

## Layout

- `src/` — the verified library.
  - `wire`: opcodes, little-endian encodings.
  - `fields`: length-prefixed string fields and their round trip.
  - `device`: the stored configuration, its loading and storing, and the
    device's session state.
  - `processor`: the device's request processor, as a function from state
    and request to the next state and the step to take (reply, restart, or
    outside work to perform first), with its laws: the authentication gate,
    the completeness of the configuration, factory reset.
  - `requests`: the requests the companion builds, and the laws that the
    device reads each one as what it was built from.
  - `companion`: parsing the device's replies, connection state, log
    formatting.
  - `upload`: the companion's side of a firmware update, as a step function
    from the device's last reply to the next request, with its ordering laws.
  - `serial_state`, `keyed`, `name_order`: the companion's record of serial
    devices, its authentication cache and port cache, a scan round (with the
    age and retention of what it found), and the ordering of devices by name.
  - `ble_link`: the companion's bounded search for a BLE device.
  - `framing`, `ota`, `wifi`, `ble_ids`, `models`, `errors`: serial frames,
    the device's firmware-update book-keeping and its laws, WiFi
    credentials and reconnection decisions, BLE identifiers and the choice of the firmware endpoints,
    the short status format and sensor packets, error codes.
- `tests/` — tests on concrete values.
- `app/` — the programs around the library: the companion's transports and
  commands, and the firmware's runtime (radio, storage, flashing, sensor).
