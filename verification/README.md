# dc34_console

The serial console and LED ring logic of the S-CAM badge, written in Verus.

- `src/` is the verified library: the `photo`, `qr`, `debug` and `upload`
  console commands (command lines, chunk wire format, photo naming, replies),
  the line editor of the shell (`shell`), the LED service's decisions and the
  pattern-to-gene inversion (`leds`), and text helpers (`text`). `deps` holds
  the calls into `base64`, `crc32fast`, `bytemuck` and std that the proofs
  take on trust, each with its contract.
- `app/` is the firmware glue: threads, Xous messaging, the PDDB, printing,
  and the renderer. It hands the library plain values and performs what the
  library decides.
- `tests/` runs the library on concrete inputs.
