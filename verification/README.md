# nrsc5_studio

Verified core of NRSC5 Studio's rolling song log and spectrum waterfall, written in Verus.

- `src/play_log.rs`: the play log (`PlayLog`, `PlayEntry`): push rules (trimming, station
  identification filter, per-program dedup and rate limit), hard cap, retention pruning,
  station labels and CSV lines, with the laws that tie them together.
- `src/text.rs`: character-level helpers (ASCII lowercasing, Unicode trimming, substring and
  whole-word search, decimal rendering, RFC 4180 CSV fields).
- `src/clock.rs`: the system clock and local-time rendering.
- `src/local_time.rs`: chrono date-times behind trusted wrappers, and the layout and meaning of
  the texts they render (RFC 3339, `HH:MM`, file stamps).
- `src/dsp/spectrum.rs`: I/Q batch selection, FFT throttling, fft-shift order and the rolling
  waterfall ring buffer.
- `app/`: unverified edges: RON persistence and CSV file export of the log, the rustfft
  spectrum tap (floating point), and process start-up settings.
