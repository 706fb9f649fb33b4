# robstride

Parameter tables of RobStride motors and the decisions that the motor
gateway takes when it streams their parameters, verified with Verus.

- `src/registers.rs`: the common runtime control table (`0x7005..=0x702E`),
  the model tables, lookups by id and by model name, `ParameterId`.
- `src/params.rs`: the observation lists and the parsing of lists of
  parameter ids (numbers, hexadecimal or decimal texts, comma-separated text).
- `src/stream.rs`: the parameter stream's settings and how a configuration
  message changes them.
- `src/dispatch.rs`: whether a scan may reach RobStride motors, and the
  routing of operations that the gateway handles itself.
- `src/text.rs`: trimming, ASCII case and comparison of texts.
- `app/lib.rs`: reads the gateway's JSON messages with `serde_json` and hands
  the library plain values.
