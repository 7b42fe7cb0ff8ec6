# c't-Lab module firmware logic, verified

Firmware logic of the c't-Lab measurement modules (ADA-IO analogue/digital
I/O, DCG power supply, DDS function generator with its square-wave variant,
DIV voltmeter, EDL electronic load), written in Verus and proved against
its contracts.

## Layout

- `src/` — the verified library.
  - `avrd.rs`, `bits.rs`: the AVR port register model and bit sequences.
  - `text.rs`, `protocol.rs`: characters, trimming and case of command
    lines; status byte, XOR checksum and number formats of the protocol.
  - `ada_hw.rs`, `dcg_hw.rs`, `div_hw.rs`, `dds_hw.rs`, `mp3control.rs`:
    the pin-level drivers (shift registers, DACs, ADCs, the AD9833, the
    auxiliary UART) with the exact pin sequences they produce.
  - `ada_parser.rs`, `edl_parser.rs`, `dds_sqg.rs`, `sqg_firmware.rs`:
    the command parsers and the state they read and write.
  - `ada.rs`, `dcg.rs`, `dds.rs`, `div.rs`, `edl.rs`: protocol tables,
    codes and the integer logic of the module firmware.
- `tests/` — tests of the library on concrete values.
- `app/` — the floating-point values, the serial text and the hardware
  edge around the library.

The laws that hold across calls are public proof functions named `law_*`.
