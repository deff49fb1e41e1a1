# touchtron

Firmware logic of a capacitive touchpad, verified with Verus.

- `src/f0/` — the touchpad board: frames (`touch_data`), the matrix scan
  (`touchpad`), the ADC bring-up and conversion protocol (`adc`), the column
  drive channels and PWM timing (`pwm`), and the USB reporter that sends frames
  in 64-byte packets (`reporter`).
- `src/f103/` — the blue-pill prototype: its frame, a reporter that sends the
  whole frame on every poll, and a counting test class.
- `src/serial.rs` — the upper-casing serial echo of the first bring-up board.
- `src/payload.rs` — the byte view of what a reporter sends.
- `app/` — the firmware around the library: peripheral setup, register
  accesses, interrupt tasks and the USB class glue.

The hardware-facing parts are written as protocols: the library says which
register access comes next or which packet to write, and `app/` performs it.
