//! The state of the front light.
use vstd::prelude::*;

verus! {

/// What is known of the front light.
#[derive(Clone, Debug, PartialEq, Eq)]
pub struct BacklightSnapshot {
    pub supported: bool,
    pub percent: Option<u8>,
    pub forced_off: bool,
    pub provider: Option<String>,
    pub brightness: Option<u32>,
    pub max_brightness: Option<u32>,
    pub bl_power: Option<u32>,
    pub linear_mapping: Option<String>,
    pub error: Option<String>,
}

impl BacklightSnapshot {
    /// Nothing is known of the light but why.
    pub open spec fn is_unsupported(self, message: Seq<char>) -> bool {
        &&& !self.supported
        &&& self.percent is None
        &&& !self.forced_off
        &&& self.provider is None
        &&& self.brightness is None
        &&& self.max_brightness is None
        &&& self.bl_power is None
        &&& self.linear_mapping is None
        &&& self.error is Some
        &&& self.error->0@ == message
    }

    /// The snapshot of a device without a front light.
    pub fn unsupported(message: &str) -> (r: BacklightSnapshot)
        ensures
            r.is_unsupported(message@),
    {
        BacklightSnapshot {
            supported: false,
            percent: None,
            forced_off: false,
            provider: None,
            brightness: None,
            max_brightness: None,
            bl_power: None,
            linear_mapping: None,
            error: Some(message.to_owned()),
        }
    }
}

} // verus!
