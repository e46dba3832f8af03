# azeroth_dashboard

Administration dashboard for an AzerothCore world server, with its decision
logic verified by Verus.

- `src/` is the verified library:
  - `alert`: the alert cooldown (at most one alert per five minutes);
  - `metrics`, `number`, `text`: the Prometheus text parser and the syntax of
    the numbers it accepts;
  - `dashboard`: the panel layout, the alert rule and the update history
    window;
  - `process`: recognising world server processes and adding up their memory;
  - `notify`: where an alert is delivered (Discord bridge, e-mail);
  - `poller`: the browser's poll loop decisions.
- `app/` is the program around it: the axum backend (`main.rs`), the wire
  types with their serde derives (`wire.rs`) and the WebAssembly front end
  (`frontend.rs`). Floating point readings, the simulated data, network, mail
  and operating system access live there.
- `tests/` exercises the library on concrete values.

The backend listens on `127.0.0.1:8086` and serves the configuration at
`/api/dashboard/config`; the front end polls that address. A native build runs
the backend, a WebAssembly build runs the front end.
