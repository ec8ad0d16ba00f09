# esp32_led_flasher

Firmware logic for an ESP32 that flashes an LED on a configurable pulse,
takes commands on a serial and a TCP command line, joins WiFi, talks MQTT,
and reads water meters over a clocked UART line.  The logic is a Verus
library whose behaviour is stated in `requires`/`ensures` contracts and
proved; the hardware drivers live in a thin application around it.

## Layout

- `src/` — the verified library
  - `uart_format.rs` — frame formats (7E1 … 8N2), frame encoding and
    decoding; decoding an encoded frame gives the character back.
  - `led.rs` — pulse configurations and their limits, LED status patterns,
    the timer tick that drives a pulse, and the pulse statistics; a valid
    pulse is lit for its duration and repeats every period.
  - `cli/` — the command type, the parser, the line editor (history, cursor
    movement, tab completion, telnet negotiation) and the command handlers
    for the flasher and for the meter simulator, with every reply text.
  - `mtu/` — the meter reader: configuration, frames, the bit-stream
    receiver and the reader thread's decisions.
  - `meter/` — the meter simulator's configuration.
  - `wifi.rs`, `device.rs`, `mqtt.rs` — credentials, addresses, topics,
    the MQTT client's bookkeeping and reconnection back-off.
  - `bounded.rs`, `clock.rs` — the fixed-capacity `heapless` collections
    and the clocks, with what their operations do.
- `tests/` — tests on concrete values.
- `app/` — the ESP-IDF application: drivers, threads, I/O, and the LED
  status report (whose rates are computed in floating point).
