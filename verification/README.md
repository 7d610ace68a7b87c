# herbfarm_sensor

The verified core of a soil-moisture station: an ESP32 board that reads a
seesaw capacitive soil sensor over I2C, shows the reading on an ST7789
display and logs it on a server over Wi-Fi.

- `src/` is the library, verified with Verus:
  - `soil.rs`: the sensor's registers and commands, big-endian decoding,
    the address scan that finds the sensor and the polling rule for
    capacitance readings, with their laws;
  - `temperature.rs`: the whole degrees shown for a fixed-point reading,
    with single-precision rounding done on integers;
  - `network.rs`: the Wi-Fi bring-up policy (a state machine) and the
    server requests;
  - `display.rs`: where centered text goes and the lines shown;
  - `text.rs`: decimal notation.
- `app/` is the firmware around it: hardware drivers, the loops that run the
  state machines, logging.
- `tests/` exercises the library on concrete values.
