# chip8emu

A CHIP-8 interpreter core verified with Verus.

- `src/model.rs`: the machine state as mathematical values (`EmuView`), the
  instruction set (`Instruction`), decoding, and the meaning of every
  instruction, of fetching, of the timers and of loading a program.
- `src/emu.rs`: the executable machine `Emu`; each operation is proved to
  act on its view as the model says, and never to index out of bounds or
  overflow under its stated precondition (`can_tick`, `can_execute` test it).
- `src/laws.rs`: properties that span operations (call/return, drawing a
  sprite twice, carries and borrows, store/load of registers, ...).
- `src/keymap.rs`: the host keyboard to keypad mapping.
- `src/rng.rs`: the random byte source used by `CXNN`.
- `app/main.rs`: the SDL2 front end (window, keyboard, ROM file).
