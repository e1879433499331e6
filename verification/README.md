# rsx

A PlayStation (SCPH-1001) emulator core as a verified library: the CPU
interpreter, the bus, and the devices behind it, each with contracts that Verus
proves.

Layout:

- `src/` — the library. `machine` ties the `cpu` (R3000A with `cop0` and the
  `gte` geometry engine) to the `bus`, which holds RAM, the BIOS and the
  devices: `gpu` (with `raster` and `texcache`), `cdrom` (with `disc`, `cue`
  and the `xa` audio helpers), `dma`, `spu` (its voices, ADPCM decoding and
  envelopes in `voice`), `timers`, `joy` and `irq`.
  `config` parses the command line, `clock` paces the guest against wall time,
  `capture` builds WAV files, `display` holds the picture the GPU outputs.
  The SPU resamples its voices through a 512-entry Gaussian table
  (`Spu::gauss_table`), which starts out all zero: fill it to hear voices.
- `tests/` — tests run against the compiled library.
- `app/` — the `rsx` program: reads the BIOS, the disc and `rsx.toml` from
  disk, runs the machine headless or captures PNG/WAV at chosen vblanks.
