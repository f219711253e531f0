# co2_monitor

The verified core of a CO2 monitoring station: an ESP32 mote reads a CCS811
air-quality sensor over I2C and posts each reading as JSON over HTTP; a server
stores the readings in InfluxDB.

- `src/text.rs`: decimal and binary text of numbers, splitting at a separator,
  and reading unsigned decimal text as `str::parse` does.
- `src/sensor.rs`: the sensor's registers and flags, and the driver's procedures
  (device search, status check with the start of the application firmware,
  measurement mode configuration, decoding of results) as state machines that
  name the next bus operation.
- `src/http.rs`: the server's address read from its configured text, the JSON
  body of a reading, and the HTTP request that posts it.
- `src/data.rs`: the InfluxDB data point that the server writes for a reading.
- `app/`: the server program (axum, tokio, InfluxDB client) and the mote's
  hardware and network I/O (esp-hal, esp-radio, smoltcp), which perform what the
  library decides.
