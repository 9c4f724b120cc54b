//! Verified core of a set of STM32F4 peripheral drivers: DWT cycle-counter
//! timing, the DHT21 single-wire sensor protocol, an I2C bus scan, the
//! register protocol of the SX1278 and SX1262 radios, the 8080 parallel bus
//! of an ILI9341 LCD and the AHT20 CRC check.
pub mod aht20;
pub mod dht21;
pub mod display;
pub mod i2c_scan;
pub mod lcd_bus;
pub mod sx1262;
pub mod sx1278;
pub mod timing;
