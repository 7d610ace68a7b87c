//! Verified logic of a soil-moisture station: the seesaw soil sensor's I2C
//! protocol and its polling rules, the temperature conversion, the Wi-Fi
//! connection policy, the server requests and the text shown on the display.
//! The hardware drivers themselves stay outside this crate.

pub mod soil;
pub mod temperature;
pub mod text;
pub mod network;
pub mod display;
