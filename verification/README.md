# stm32f4_devices

Drivers for an STM32F4 board (ILI9341 LCD on a GPIO parallel bus, DHT21 and
AHT20 sensors, an I2C bus scan, SX1278 and SX1262 radios), split in two:

- `src/` is the verified library (Verus): the pin steps of each LCD transfer
  and reset, DHT21 pulse decoding and checksum, the I2C scan state machine
  and its report, SX1278 register frames and the continuous-wave register
  sequence, the SX1262 transmit-done flag, DWT cycle-counter arithmetic, the
  fill-rate arithmetic, and a CRC-8/NRSC-5 check of AHT20 measurement bytes
  through the `crc` crate.
- `app/` performs the I/O those steps call for, through `embedded-hal`
  traits and the cortex-m cycle counter, and scales sensor readings to
  floating point. It reads the AHT20 through the `embedded-aht20` driver,
  which checks the measurement CRC itself.
- `tests/` runs the library on concrete values.
