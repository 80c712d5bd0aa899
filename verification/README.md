# USB host on a PIO block

Low- and full-speed USB host for RP2040 and RP235x microcontrollers, on two adjacent
GPIO pins and one PIO block.

* `src/` is the verified library: CRCs, line code and packets, the PIO programs and
  what they do cycle by cycle, the order in which the hardware is driven, debouncing,
  keep-alives, single transactions and control transfers. It touches no hardware: it
  says what to do next and takes what came of it.
* `app/` drives the registers of an RP2040, or of an RP235x if built with
  `--cfg rp235x`, as the library says and offers the bus to `embassy`.
* `tests/` runs the library on concrete values, the PIO programs against the `pio`
  crate's assembler among them.

A host needs both pins in one PIO window, all 32 instructions of the PIO block, three
of its state machines, and a system clock of at least 96 MHz.
