# esprinkler

The logic of a WiFi sprinkler-valve controller for the ESP32, verified with
Verus.

- `src/` is the verified library: the configuration model and its defaults
  (`config`), URL-encoded form decoding (`form`), valve actuation plans
  (`valves`), WiFi provisioning decisions (`wifi`), the HTTP pages and the
  setup-form handler (`pages`), and the std text conversions they rest on
  (`text`).
- `app/` is the firmware around it: TOML parsing of the configuration, GPIO,
  NVS, WiFi and the HTTP server, all through `esp-idf-svc`.
- `tests/` exercises the library on concrete inputs.
