# daly_bms

A library for Daly BMS boards and the other devices of a home battery
installation on an RS485 bus, with every function proved against its
contract by Verus.

## Layout

- `src/` — the library.
  - `protocol`, `commands`, `bus`, `write`, `poll`, `types`, `error`: the Daly
    UART/RS485 protocol — frames and checksum, decoding of the read commands,
    the decisions of an exchange on a shared bus, the write commands and their
    guards, the polling loop's retries and backoff.
  - `modbus`, `meters`, `chint`: Modbus RTU framing, the ET112 meters and the
    irradiance sensor, the CHINT transfer switch.
  - `store`, `alerts`, `api`, `dashboard`, `config`, `startup`, `topics`,
    `influx`, `tasmota`: the server side — per-device history, alert
    hysteresis and cooldown, the checks of the HTTP API, configuration
    defaults, command line, MQTT topics, batching, smart plugs, and the CSV
    answers of InfluxDB behind the overview chart.
  - `venus`, `payload`: the MQTT to D-Bus bridge for Venus OS.
  - `text`, `cli`: text handling (addresses, topics, labels) and the logic of
    the command-line tools.
- `tests/` — tests of the library on concrete values.
- `app/` — a command-line tool built on the library: the serial port, the
  terminal, JSON output, the physical units (floating point) and a simulator
  of boards for use without hardware live there.
