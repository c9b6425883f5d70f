use vstd::prelude::*;

verus! {

/// Buffer size, in samples, of an audio configuration that names none.
pub const DEFAULT_BUFFER_SIZE: u32 = 32768;

/// Copies an optional string exactly.
pub fn copy_optional_text(s: &Option<String>) -> (r: Option<String>)
    ensures
        r == *s,
{
    match s {
        Some(t) => Some(t.clone()),
        None => None,
    }
}

/// A PWM driver board as configured.
#[derive(Debug)]
pub struct Pca9685Config {
    /// Unique key of the board.
    pub id: String,
    /// Bus address: the word `default`, or a hexadecimal number such as `0x40`.
    pub i2c_address: String,
    /// PWM frequency in Hz.
    pub frequency: u16,
}

impl Clone for Pca9685Config {
    fn clone(&self) -> (r: Self)
        ensures
            r == *self,
    {
        Pca9685Config {
            id: self.id.clone(),
            i2c_address: self.i2c_address.clone(),
            frequency: self.frequency,
        }
    }
}

/// A servo: the board and channel that drive it, and how its angle range maps
/// onto pulse ticks. Angles are in thousandths of a degree.
#[derive(Debug)]
pub struct ServoConfig {
    /// Unique key of the servo, across all boards.
    pub name: String,
    /// The `id` of the board that drives this servo.
    pub controller_id: String,
    /// Output channel on that board, 0 to 15.
    pub channel: u8,
    /// Smallest accepted angle, in thousandths of a degree.
    pub min_angle: i32,
    /// Largest accepted angle, in thousandths of a degree.
    pub max_angle: i32,
    /// Tick count at which the pulse ends for `min_angle`.
    pub min_pulse: u16,
    /// Tick count at which the pulse ends for `max_angle`.
    pub max_pulse: u16,
    /// Free text.
    pub description: Option<String>,
}

impl Clone for ServoConfig {
    fn clone(&self) -> (r: Self)
        ensures
            r == *self,
    {
        ServoConfig {
            name: self.name.clone(),
            controller_id: self.controller_id.clone(),
            channel: self.channel,
            min_angle: self.min_angle,
            max_angle: self.max_angle,
            min_pulse: self.min_pulse,
            max_pulse: self.max_pulse,
            description: copy_optional_text(&self.description),
        }
    }
}

impl ServoConfig {
    /// The channel exists on a board, and both ranges are non-empty and
    /// increasing.
    pub open spec fn spec_is_valid(&self) -> bool {
        &&& self.channel < 16
        &&& self.min_angle < self.max_angle
        &&& self.min_pulse < self.max_pulse
    }

    /// Whether `angle` lies in the servo's accepted range.
    pub open spec fn spec_accepts(&self, angle: int) -> bool {
        self.min_angle <= angle <= self.max_angle
    }

    /// Whether the channel exists on a board and both ranges are non-empty and
    /// increasing.
    pub fn is_valid(&self) -> (r: bool)
        ensures
            r == self.spec_is_valid(),
    {
        self.channel < 16 && self.min_angle < self.max_angle && self.min_pulse < self.max_pulse
    }
}

/// Where the playable files are, and how playback is buffered.
#[derive(Debug)]
pub struct AudioConfig {
    /// Directory that holds the playable files.
    pub audio_directory: String,
    /// Playback buffer size, in samples.
    pub buffer_size: u32,
}

impl Clone for AudioConfig {
    fn clone(&self) -> (r: Self)
        ensures
            r == *self,
    {
        AudioConfig { audio_directory: self.audio_directory.clone(), buffer_size: self.buffer_size }
    }
}

/// Buffer size of an audio configuration that names none.
pub fn default_buffer_size() -> (r: u32)
    ensures
        r == DEFAULT_BUFFER_SIZE,
{
    DEFAULT_BUFFER_SIZE
}

/// A servo as an older configuration format lists it: board, channel and name.
#[derive(Debug)]
pub struct ServoInfo {
    /// The `id` of the board that drives this servo.
    pub controller_id: String,
    /// Output channel on that board.
    pub channel: u8,
    /// Name of the servo.
    pub name: String,
}

impl Clone for ServoInfo {
    fn clone(&self) -> (r: Self)
        ensures
            r == *self,
    {
        ServoInfo {
            controller_id: self.controller_id.clone(),
            channel: self.channel,
            name: self.name.clone(),
        }
    }
}

} // verus!
