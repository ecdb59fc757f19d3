//! The audio section of the application's configuration: the capture
//! device, sample rate, meter calibration, output format, and the choice
//! of visualization, with the documented default for each field.

use vstd::prelude::*;

verus! {

/// Which real-time display the recorder draws.
#[derive(Debug, Clone, Copy, PartialEq, Eq, Structural)]
pub enum VisualizationType {
    /// Time-domain waveform: amplitude over time.
    Waveform,
    /// Frequency spectrum: energy across the voice band.
    Spectrum,
}

impl VisualizationType {
    /// The configuration keyword for this visualization.
    pub fn as_str(&self) -> (r: &'static str)
        ensures
            *self is Waveform ==> r@ == "waveform"@,
            *self is Spectrum ==> r@ == "spectrum"@,
    {
        match self {
            VisualizationType::Waveform => "waveform",
            VisualizationType::Spectrum => "spectrum",
        }
    }
}

impl Default for VisualizationType {
    /// The spectrum display is the default.
    fn default() -> (r: Self)
        ensures
            r is Spectrum,
    {
        VisualizationType::Spectrum
    }
}

/// Default output format: MP3 at a speech-oriented bitrate.
pub fn default_output_format() -> (r: String)
    ensures
        r@ == "mp3 -ab 16k -ar 12000"@,
{
    "mp3 -ab 16k -ar 12000".to_owned()
}

/// Default peak-volume threshold for the red peak indicator, in percent.
pub fn default_peak_volume_threshold() -> (r: u8)
    ensures
        r == 90,
{
    90
}

/// Default reference level for the 100% meter reading, in dBFS.
pub fn default_reference_level_db() -> (r: i8)
    ensures
        r == -20,
{
    -20
}

/// Default for boolean options that are on unless disabled.
pub fn default_true() -> (r: bool)
    ensures
        r,
{
    true
}

/// Audio recording and metering configuration.
#[derive(Debug, Clone)]
pub struct AudioConfig {
    /// Capture device: `default`, a zero-based index, or an exact name.
    pub device: String,
    /// Requested sample rate in Hz (the device may negotiate another).
    pub sample_rate: u32,
    /// Peak threshold for the visual indicator, 0-100.
    pub peak_volume_threshold: u8,
    /// Reference level in dBFS for the 100% meter reading.
    pub reference_level_db: i8,
    /// Output format: a codec name followed by encoder options.
    pub output_format: String,
    /// Which real-time display to draw.
    pub visualization: VisualizationType,
}

impl Default for AudioConfig {
    /// The documented defaults: the system default device at 16 kHz.
    fn default() -> (r: Self)
        ensures
            r.device@ == "default"@,
            r.sample_rate == 16000,
            r.peak_volume_threshold == 90,
            r.reference_level_db == -20,
            r.output_format@ == "mp3 -ab 16k -ar 12000"@,
            r.visualization is Spectrum,
    {
        AudioConfig {
            device: "default".to_owned(),
            sample_rate: 16000,
            peak_volume_threshold: default_peak_volume_threshold(),
            reference_level_db: default_reference_level_db(),
            output_format: default_output_format(),
            visualization: VisualizationType::Spectrum,
        }
    }
}

/// Provider options specific to the OpenAI transcription API; none are
/// configurable yet.
#[derive(Debug, Clone)]
pub struct OpenAiConfig {}

impl Default for OpenAiConfig {
    fn default() -> (r: Self) {
        OpenAiConfig {  }
    }
}

} // verus!
