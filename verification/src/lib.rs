//! Control of an LG air conditioner over infrared: the command codec, the
//! persisted settings, the DS18B20 temperature reading and the control loop's
//! decisions.

pub mod control;
pub mod ds18b20;
pub mod lg_ac;
pub mod number;
pub mod settings;
pub mod text;
