//! The servo packet configuration: which PWM layout ArduPilot sends and which
//! of its channels drive the four motors.
use vstd::prelude::*;

verus! {

/// Size of a 16-channel PWM packet.
pub const PWM_16_SIZE: usize = 40;
/// Size of a 32-channel PWM packet.
pub const PWM_32_SIZE: usize = 72;
/// Magic value of a 16-channel PWM packet.
pub const PWM_16_MAGIC: u16 = 18458;
/// Magic value of a 32-channel PWM packet.
pub const PWM_32_MAGIC: u16 = 29569;

/// The PWM channel that drives each motor: front left, front right, rear
/// left and rear right.
#[derive(Debug, Clone, Copy, PartialEq, Eq, Structural)]
pub struct ServoMapping {
    pub fl: usize,
    pub fr: usize,
    pub rl: usize,
    pub rr: usize,
}

/// The four motors, in the order in which the mapping lists them.
#[derive(Debug, Clone, Copy, PartialEq, Eq, Structural)]
pub enum Servo {
    Fl,
    Fr,
    Rl,
    Rr,
}

impl ServoMapping {
    /// The mapped channels in the order `fl`, `fr`, `rl`, `rr`.
    pub open spec fn channels(self) -> Seq<usize> {
        seq![self.fl, self.fr, self.rl, self.rr]
    }

    /// Whether every mapped channel is at most `max`.
    pub open spec fn all_within(self, max: usize) -> bool {
        &&& self.fl <= max
        &&& self.fr <= max
        &&& self.rl <= max
        &&& self.rr <= max
    }

    /// The first motor, in mapping order, whose channel exceeds `max`, with
    /// that channel.
    pub open spec fn first_out_of_range(self, max: usize) -> Option<(Servo, usize)> {
        if self.fl > max {
            Some((Servo::Fl, self.fl))
        } else if self.fr > max {
            Some((Servo::Fr, self.fr))
        } else if self.rl > max {
            Some((Servo::Rl, self.rl))
        } else if self.rr > max {
            Some((Servo::Rr, self.rr))
        } else {
            None
        }
    }

    /// The mapped channels in the order `fl`, `fr`, `rl`, `rr`.
    pub fn iter(&self) -> (r: [usize; 4])
        ensures
            r@ == self.channels(),
    {
        [self.fl, self.fr, self.rl, self.rr]
    }
}

/// The configuration as it is written in the configuration file.
#[derive(Debug, Clone, Copy, PartialEq, Eq, Structural)]
pub struct SitlCfg {
    pub pwm_ver: usize,
    pub servos: ServoMapping,
}

/// Why a configuration was refused.
#[derive(Debug, Clone, Copy, PartialEq, Eq, Structural)]
pub enum CfgError {
    /// `pwm_ver` is neither 16 nor 32.
    InvalidPwmVer { pwm_ver: usize },
    /// The channel of `servo` is `value`, above `max`, the highest channel of
    /// packets of version `pwm_ver`.
    InvalidServo { servo: Servo, value: usize, max: usize, pwm_ver: usize },
}

/// The layout of a PWM packet version: magic, size and highest channel index.
pub open spec fn pwm_layout(pwm_ver: usize) -> Option<(u16, usize, usize)> {
    if pwm_ver == 16 {
        Some((PWM_16_MAGIC, PWM_16_SIZE, 15usize))
    } else if pwm_ver == 32 {
        Some((PWM_32_MAGIC, PWM_32_SIZE, 31usize))
    } else {
        None
    }
}

/// A validated servo packet configuration.
#[derive(Debug, Clone, Copy, PartialEq, Eq, Structural)]
pub struct ServoPktCfg {
    pub magic: u16,
    pub pwm_size: usize,
    pub servo_mapping: ServoMapping,
}

/// The result of validating `cfg`: its layout when `pwm_ver` is 16 or 32 and
/// every mapped channel exists in that layout, else the first problem found.
pub open spec fn validate_cfg(cfg: SitlCfg) -> Result<ServoPktCfg, CfgError> {
    match pwm_layout(cfg.pwm_ver) {
        None => Err(CfgError::InvalidPwmVer { pwm_ver: cfg.pwm_ver }),
        Some((magic, pwm_size, max)) => match cfg.servos.first_out_of_range(max) {
            Some((servo, value)) => Err(
                CfgError::InvalidServo { servo, value, max, pwm_ver: cfg.pwm_ver },
            ),
            None => Ok(ServoPktCfg { magic, pwm_size, servo_mapping: cfg.servos }),
        },
    }
}

/// The layout of PWM packet version `pwm_ver`, if it is one.
pub fn layout_of(pwm_ver: usize) -> (r: Option<(u16, usize, usize)>)
    ensures
        r == pwm_layout(pwm_ver),
        r is Some <==> (pwm_ver == 16 || pwm_ver == 32),
        pwm_ver == 16 ==> r == Some((18458u16, 40usize, 15usize)),
        pwm_ver == 32 ==> r == Some((29569u16, 72usize, 31usize)),
{
    if pwm_ver == 16 {
        Some((PWM_16_MAGIC, PWM_16_SIZE, 15))
    } else if pwm_ver == 32 {
        Some((PWM_32_MAGIC, PWM_32_SIZE, 31))
    } else {
        None
    }
}

/// Only versions 16 and 32 have a layout: 16 is the 40-byte packet with
/// magic 18458 and channels 0 to 15, 32 the 72-byte packet with magic 29569
/// and channels 0 to 31.
pub proof fn lemma_only_two_layouts(pwm_ver: usize)
    ensures
        pwm_layout(pwm_ver) is Some <==> (pwm_ver == 16 || pwm_ver == 32),
        pwm_ver == 16 ==> pwm_layout(pwm_ver) == Some((18458u16, 40usize, 15usize)),
        pwm_ver == 32 ==> pwm_layout(pwm_ver) == Some((29569u16, 72usize, 31usize)),
{
}

/// A configuration is accepted exactly when its version is 16 or 32 and each
/// of its four channels exists in that version's packet (at most 15 or 31);
/// an accepted configuration keeps its mapping and takes the version's size
/// and magic, and any other version is refused as such, whatever the mapping.
pub proof fn lemma_validate_accepts_exactly(cfg: SitlCfg)
    ensures
        validate_cfg(cfg) is Ok <==> ((cfg.pwm_ver == 16 && cfg.servos.fl <= 15 && cfg.servos.fr
            <= 15 && cfg.servos.rl <= 15 && cfg.servos.rr <= 15) || (cfg.pwm_ver == 32
            && cfg.servos.fl <= 31 && cfg.servos.fr <= 31 && cfg.servos.rl <= 31 && cfg.servos.rr
            <= 31)),
        !(cfg.pwm_ver == 16 || cfg.pwm_ver == 32) ==> validate_cfg(cfg) == Err::<
            ServoPktCfg,
            CfgError,
        >(CfgError::InvalidPwmVer { pwm_ver: cfg.pwm_ver }),
        validate_cfg(cfg) matches Ok(c) ==> {
            &&& c.servo_mapping == cfg.servos
            &&& cfg.pwm_ver == 16 ==> c.magic == 18458 && c.pwm_size == 40
            &&& cfg.pwm_ver == 32 ==> c.magic == 29569 && c.pwm_size == 72
        },
{
}

impl ServoPktCfg {
    /// A configuration is well formed when it is one of the two layouts and
    /// every mapped channel exists in it.
    pub open spec fn wf(self) -> bool {
        ||| self.magic == PWM_16_MAGIC && self.pwm_size == PWM_16_SIZE
            && self.servo_mapping.all_within(15)
        ||| self.magic == PWM_32_MAGIC && self.pwm_size == PWM_32_SIZE
            && self.servo_mapping.all_within(31)
    }

    /// Whether the configuration is well formed (its fields are public, so a
    /// caller may have built it by hand).
    pub fn is_valid(&self) -> (r: bool)
        ensures
            r == self.wf(),
    {
        let m = self.servo_mapping;
        let max: usize = if self.magic == PWM_16_MAGIC && self.pwm_size == PWM_16_SIZE {
            15
        } else if self.magic == PWM_32_MAGIC && self.pwm_size == PWM_32_SIZE {
            31
        } else {
            return false;
        };
        m.fl <= max && m.fr <= max && m.rl <= max && m.rr <= max
    }

    /// Validates a parsed configuration file: `pwm_ver` selects the packet
    /// layout, and each mapped channel must exist in it.
    pub fn from_sitl_cfg(cfg: SitlCfg) -> (r: Result<ServoPktCfg, CfgError>)
        ensures
            r == validate_cfg(cfg),
            r matches Ok(c) ==> c.wf(),
            !(cfg.pwm_ver == 16 || cfg.pwm_ver == 32) ==> r == Err::<ServoPktCfg, CfgError>(
                CfgError::InvalidPwmVer { pwm_ver: cfg.pwm_ver },
            ),
            r is Ok ==> cfg.pwm_ver == 16 || cfg.pwm_ver == 32,
    {
        let (magic, pwm_size, chnl_idx) = match layout_of(cfg.pwm_ver) {
            Some(layout) => layout,
            None => {
                return Err(CfgError::InvalidPwmVer { pwm_ver: cfg.pwm_ver });
            },
        };
        let servos = cfg.servos.iter();
        let mut idx: usize = 0;
        while idx < 4
            invariant
                idx <= 4,
                servos@ == cfg.servos.channels(),
                pwm_layout(cfg.pwm_ver) == Some((magic, pwm_size, chnl_idx)),
                forall|j: int| 0 <= j < idx ==> servos@[j] <= chnl_idx,
            decreases 4 - idx,
        {
            let val = servos[idx];
            if val > chnl_idx {
                let servo = if idx == 0 {
                    Servo::Fl
                } else if idx == 1 {
                    Servo::Fr
                } else if idx == 2 {
                    Servo::Rl
                } else {
                    Servo::Rr
                };
                return Err(
                    CfgError::InvalidServo { servo, value: val, max: chnl_idx, pwm_ver: cfg.pwm_ver },
                );
            }
            idx = idx + 1;
        }
        Ok(ServoPktCfg { magic, pwm_size, servo_mapping: cfg.servos })
    }
}

} // verus!
