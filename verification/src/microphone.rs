//! Microphone parameters, the frontend's microphone interface as the set of
//! entry points it provides, and the checks around opening and reading.

use crate::raw::{retro_microphone_params, RETRO_MICROPHONE_INTERFACE_VERSION};
use vstd::prelude::*;

verus! {

/// A microphone sample rate in hertz; 0 asks for the frontend's default.
#[derive(Clone, Copy, Debug, PartialEq, Eq, Hash, Structural)]
pub struct MicrophoneRateHz(u32);

impl Default for MicrophoneRateHz {
    /// The rate 0, which leaves the choice to the frontend.
    fn default() -> (hz: Self)
        ensures
            hz@ == 0,
    {
        MicrophoneRateHz(0)
    }
}

impl View for MicrophoneRateHz {
    type V = u32;

    closed spec fn view(&self) -> u32 {
        self.0
    }
}

impl MicrophoneRateHz {
    /// A value is determined by its view: two values are equal exactly
    /// when their views are.
    pub proof fn lemma_view_injective(a: Self, b: Self)
        ensures
            a@ == b@ <==> a == b,
    {
    }
}

impl MicrophoneRateHz {
    pub fn new(rate: u32) -> (hz: Self)
        ensures
            hz@ == rate,
    {
        MicrophoneRateHz(rate)
    }

    /// The rate that leaves the choice to the frontend.
    pub fn frontend_default() -> (hz: Self)
        ensures
            hz@ == 0,
    {
        MicrophoneRateHz(0)
    }

    pub fn get(self) -> (rate: u32)
        ensures
            rate == self@,
    {
        self.0
    }
}

/// Parameters a microphone is opened with.
#[derive(Clone, Copy, Debug, PartialEq, Eq, Hash, Structural)]
pub struct MicrophoneParams {
    pub rate: MicrophoneRateHz,
}

impl Default for MicrophoneParams {
    /// Parameters with rate 0, the same as `frontend_default`.
    fn default() -> (params: Self)
        ensures
            params.rate@ == 0,
    {
        MicrophoneParams { rate: MicrophoneRateHz::default() }
    }
}

impl MicrophoneParams {
    pub fn new(rate: MicrophoneRateHz) -> (params: Self)
        ensures
            params.rate == rate,
    {
        MicrophoneParams { rate }
    }

    /// Parameters that leave the rate to the frontend.
    pub fn frontend_default() -> (params: Self)
        ensures
            params.rate@ == 0,
    {
        MicrophoneParams { rate: MicrophoneRateHz::frontend_default() }
    }

    /// The libretro structure for these parameters.
    pub fn into_raw(self) -> (raw: retro_microphone_params)
        ensures
            raw.rate == self.rate@,
    {
        retro_microphone_params { rate: self.rate.get() }
    }

    /// The parameters a libretro structure holds.
    pub fn from_raw(raw: retro_microphone_params) -> (params: Self)
        ensures
            params.rate@ == raw.rate,
    {
        MicrophoneParams { rate: MicrophoneRateHz::new(raw.rate) }
    }
}

/// Two parameter values with rate 0, such as those of `frontend_default` and
/// `default`, are the same value.
pub proof fn lemma_frontend_default_is_default(frontend: MicrophoneParams, default: MicrophoneParams)
    requires
        frontend.rate@ == 0,
        default.rate@ == 0,
    ensures
        frontend == default,
{
}

/// Parameters survive a trip through the libretro structure: the raw rate
/// that `into_raw` gives, read back by `from_raw`, gives the same parameters.
pub proof fn lemma_microphone_params_raw_round_trip(
    params: MicrophoneParams,
    raw: retro_microphone_params,
    back: MicrophoneParams,
)
    requires
        raw.rate == params.rate@,
        back.rate@ == raw.rate,
    ensures
        back == params,
{
}

/// The frontend's microphone interface: its version and which of its entry
/// points it provides.
#[derive(Clone, Copy, Debug, Default, PartialEq, Eq, Structural)]
pub struct MicrophoneInterface {
    pub interface_version: u32,
    pub open_mic: bool,
    pub close_mic: bool,
    pub get_params: bool,
    pub set_mic_state: bool,
    pub get_mic_state: bool,
    pub read_mic: bool,
}

/// The `open_mic` call to make: with these parameters, or with none to let
/// the frontend choose.
#[derive(Clone, Copy, Debug, PartialEq, Eq, Structural)]
pub struct MicrophoneOpenCall {
    pub params: Option<MicrophoneParams>,
}

impl MicrophoneInterface {
    pub fn version(self) -> (version: u32)
        ensures
            version == self.interface_version,
    {
        self.interface_version
    }

    /// Whether the interface is recent enough and provides every entry point.
    pub fn is_available(self) -> (available: bool)
        ensures
            available == (self.interface_version >= RETRO_MICROPHONE_INTERFACE_VERSION
                && self.open_mic && self.close_mic && self.get_params && self.set_mic_state
                && self.get_mic_state && self.read_mic),
    {
        self.interface_version >= RETRO_MICROPHONE_INTERFACE_VERSION && self.open_mic
            && self.close_mic && self.get_params && self.set_mic_state && self.get_mic_state
            && self.read_mic
    }

    /// The call that opens a microphone with the frontend's default
    /// parameters; none where the frontend gives no `open_mic`.
    pub fn open_default(self) -> (call: Option<MicrophoneOpenCall>)
        ensures
            self.open_mic ==> call == Some(MicrophoneOpenCall { params: None }),
            !self.open_mic ==> call is None,
    {
        if self.open_mic {
            Some(MicrophoneOpenCall { params: None })
        } else {
            None
        }
    }

    /// The call that opens a microphone with `params`; none where the
    /// frontend gives no `open_mic`.
    pub fn open(self, params: MicrophoneParams) -> (call: Option<MicrophoneOpenCall>)
        ensures
            self.open_mic ==> call == Some(MicrophoneOpenCall { params: Some(params) }),
            !self.open_mic ==> call is None,
    {
        if self.open_mic {
            Some(MicrophoneOpenCall { params: Some(params) })
        } else {
            None
        }
    }
}

/// Why a microphone read gave no samples.
#[derive(Debug, Clone, Copy, PartialEq, Eq, Structural)]
pub enum MicrophoneReadError {
    /// No `read_mic` entry point, or the frontend reported a failure.
    Unavailable,
    /// The frontend claimed more samples than the buffer holds.
    ReturnedTooManySamples { returned: usize, capacity: usize },
}

/// The outcome of a microphone read into a buffer of `capacity` samples,
/// given what `read_mic` returned (`None` where there is no `read_mic`):
/// a negative count is a failure, a count above the capacity is refused.
pub fn microphone_read_outcome(returned: Option<i32>, capacity: usize) -> (outcome: Result<
    usize,
    MicrophoneReadError,
>)
    ensures
        match returned {
            None => outcome == Err::<usize, MicrophoneReadError>(MicrophoneReadError::Unavailable),
            Some(read) => if read < 0 {
                outcome == Err::<usize, MicrophoneReadError>(MicrophoneReadError::Unavailable)
            } else if read > capacity {
                outcome == Err::<usize, MicrophoneReadError>(
                    MicrophoneReadError::ReturnedTooManySamples {
                        returned: read as usize,
                        capacity,
                    },
                )
            } else {
                outcome == Ok::<usize, MicrophoneReadError>(read as usize)
            },
        },
{
    match returned {
        None => Err(MicrophoneReadError::Unavailable),
        Some(read) => {
            if read < 0 {
                Err(MicrophoneReadError::Unavailable)
            } else if read as u64 > capacity as u64 {
                Err(
                    MicrophoneReadError::ReturnedTooManySamples {
                        returned: read as usize,
                        capacity,
                    },
                )
            } else {
                Ok(read as usize)
            }
        },
    }
}

} // verus!
