//! How activations are to be quantized.
use vstd::prelude::*;

verus! {

/// The format of activations.
#[derive(Clone, Copy, Debug, PartialEq, Eq, Structural)]
pub enum ActivationQuantMode {
    /// Activations stay floating-point numbers.
    Off,
    /// Weights and activations in eight bits.
    W8A8,
    /// Weights in four bits and activations in eight.
    W4A8,
}

impl Default for ActivationQuantMode {
    fn default() -> (mode: Self)
        ensures
            mode == ActivationQuantMode::Off,
    {
        ActivationQuantMode::Off
    }
}

/// What a caller asks of the format of activations.
#[derive(Clone, Debug, PartialEq, Eq, Structural)]
pub struct ActivationQuantConfig {
    pub mode: ActivationQuantMode,
    /// A mode that is not supported is refused.
    pub strict: bool,
}

impl Default for ActivationQuantConfig {
    fn default() -> (config: Self)
        ensures
            config == (ActivationQuantConfig { mode: ActivationQuantMode::Off, strict: false }),
    {
        ActivationQuantConfig { mode: ActivationQuantMode::Off, strict: false }
    }
}

impl ActivationQuantConfig {
    pub fn is_enabled(&self) -> (enabled: bool)
        ensures
            enabled == (self.mode != ActivationQuantMode::Off),
    {
        !matches!(self.mode, ActivationQuantMode::Off)
    }
}

} // verus!
