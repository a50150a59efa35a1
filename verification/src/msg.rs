//! The integer parts of the JSON state message sent to ArduPilot: the R/C
//! input channels and the choice of rangefinder slot.
use vstd::prelude::*;

verus! {

/// Number of R/C input channels a message carries.
pub const RC_CHANNELS: usize = 12;

/// Number of rangefinder instances a message can carry.
pub const RANGEFINDERS: usize = 6;

/// RC channel override packet.
///
/// Channels are serialized as `rc_1` through `rc_12` using raw PWM values.
#[derive(Debug, Clone, Copy, PartialEq, Eq, Structural)]
pub struct RcInput {
    rc_1: u16,
    rc_2: u16,
    rc_3: u16,
    rc_4: u16,
    rc_5: u16,
    rc_6: u16,
    rc_7: u16,
    rc_8: u16,
    rc_9: u16,
    rc_10: u16,
    rc_11: u16,
    rc_12: u16,
}

impl RcInput {
    /// The channels in order, `rc_1` first.
    pub closed spec fn spec_channels(self) -> Seq<u16> {
        seq![
            self.rc_1,
            self.rc_2,
            self.rc_3,
            self.rc_4,
            self.rc_5,
            self.rc_6,
            self.rc_7,
            self.rc_8,
            self.rc_9,
            self.rc_10,
            self.rc_11,
            self.rc_12,
        ]
    }

    /// Creates RC input from twelve PWM channels: `rc_k` is `channels[k - 1]`.
    pub fn new(channels: [u16; 12]) -> (r: Self)
        ensures
            r.spec_channels() == channels@,
    {
        let r = Self {
            rc_1: channels[0],
            rc_2: channels[1],
            rc_3: channels[2],
            rc_4: channels[3],
            rc_5: channels[4],
            rc_6: channels[5],
            rc_7: channels[6],
            rc_8: channels[7],
            rc_9: channels[8],
            rc_10: channels[9],
            rc_11: channels[10],
            rc_12: channels[11],
        };
        assert(r.spec_channels() =~= channels@);
        r
    }

    /// The channels in order, `rc_1` first.
    pub fn channels(&self) -> (r: [u16; 12])
        ensures
            r@ == self.spec_channels(),
    {
        let r = [
            self.rc_1,
            self.rc_2,
            self.rc_3,
            self.rc_4,
            self.rc_5,
            self.rc_6,
            self.rc_7,
            self.rc_8,
            self.rc_9,
            self.rc_10,
            self.rc_11,
            self.rc_12,
        ];
        assert(r@ =~= self.spec_channels());
        r
    }
}

/// An input made from twelve channels reads them back in order: channel
/// `rc_k` is `channels[k - 1]`.
pub proof fn lemma_rc_input_round_trip(channels: [u16; 12], input: RcInput)
    requires
        input.spec_channels() == channels@,
    ensures
        input.spec_channels().len() == RC_CHANNELS,
        forall|k: int| 0 <= k < RC_CHANNELS ==> #[trigger] input.spec_channels()[k] == channels[k],
{
}

/// The rangefinder slot that driver instance `idx` fills: instances `1..=6`
/// fill slots `0..=5` (`rng_1` through `rng_6`); any other index has none.
pub fn rangefinder_slot(idx: usize) -> (r: Option<usize>)
    ensures
        r == (if 1 <= idx <= RANGEFINDERS {
            Some((idx - 1) as usize)
        } else {
            None::<usize>
        }),
{
    if 1 <= idx && idx <= RANGEFINDERS {
        Some(idx - 1)
    } else {
        None
    }
}

} // verus!
