//! Control plane for servo channels on PCA9685 PWM boards and for short audio
//! effects: controller and servo registries, the angle to pulse conversion,
//! the playback session registry and the routine interpreter.

pub mod audio_manager;
pub mod config;
pub mod errors;
pub mod hardware;
pub mod registry;
pub mod requests;
pub mod routine;
pub mod servo_manager;
pub mod text;
