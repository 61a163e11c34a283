# lgaircon

Controls an LG air conditioner over infrared (LIRC), keeps its state in
SQLite, reads a DS18B20 temperature sensor and serves the state over HTTP.

- `src/` is the verified library (Verus): the infrared command codec
  (`lg_ac`), reading and storing the state as named settings (`settings`),
  the DS18B20 report reader (`ds18b20`), the control loop's decisions
  (`control`), and the text and number helpers they rest on (`text`,
  `number`).
- `app/` is the program around it: the HTTP server (actix-web), the SQLite
  store (diesel), the LIRC link, the sysfs sensor files, and the loop that
  carries out the library's decisions. Floating-point temperatures live
  there only.
- `tests/` exercises the library.
