# duka

Humidity-based fan speed controller for Duka/Blauberg ventilation units on a
local network.

- `src/` is the verified library (Verus):
  - `protocol` — the UDP packet format: building requests with their 16-bit
    checksum, and parsing status responses;
  - `comms` — which discovery replies name a unit, what a status poll does to
    a unit's reachability, which units accept commands;
  - `state` — the record kept for each discovered unit;
  - `automation` — speed tier selection and clamping, the speed-decrease
    lockout, the outdoor fetch schedule;
  - `auth` — session tokens and cookies, public paths, session expiry, the
    per-address login lockout;
  - `api` — validation of request bodies;
  - `text`, `clock` — whitespace trimming and elapsed-time helpers.
- `app/` is the server around it: configuration and settings files, UDP and
  HTTP I/O, the background tasks, JSON, and the floating-point humidity
  arithmetic.
- `tests/` exercises the library.
