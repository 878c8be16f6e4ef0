pub mod bme280;
pub mod ky_040;
pub mod ssd1306;
