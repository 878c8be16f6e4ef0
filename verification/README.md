# swarm_lib

Verified logic of a Raspberry Pi Pico W sensor node, written in Verus.

- `src/sensors/bme280.rs`: BME280 register map and calibration decoding.
- `src/sensors/ky_040.rs`: full-step quadrature decoder for the KY-040 rotary encoder.
- `src/sensors/ssd1306.rs`: SSD1306 command framing and frame buffer.
- `src/network.rs`: the Wi-Fi / DHCP bring-up as a state machine.
- `src/command.rs`: the `on` / `off` TCP command protocol.
- `src/config.rs`: the Wi-Fi credentials record.

`app/` is the Embassy firmware around the library: it owns the peripherals,
performs the I2C, PIO, radio and socket I/O, and hands the results to the
library functions.
