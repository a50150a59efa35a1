//! Decisions of the servo bridge: which received packets it accepts, what it
//! reads from them, and which one its drained command reflects.
use vstd::prelude::*;

use crate::cfg::{ServoMapping, ServoPktCfg};
use crate::packet::{
    le_u16_at, lemma_layout_constants, offset_from_min, packet_check, pwm_offset, read_le_u16,
    PacketError, Pwm, Pwm16, Pwm32, PWM_START,
};

verus! {

/// A decoded servo packet: ArduPilot's frame rate and the four mapped motor
/// channels, each as its PWM value minus `PWM_MIN`, saturating at zero
/// (divided by 1000 it is the normalized motor command).
#[derive(Debug, Clone, Copy, PartialEq, Eq, Structural)]
pub struct ServoFrame {
    pub frame_rate: u16,
    pub fl: u16,
    pub fr: u16,
    pub rl: u16,
    pub rr: u16,
}

/// The offset above `PWM_MIN` of channel `channel` of `bytes`.
pub open spec fn channel_offset(bytes: Seq<u8>, channel: usize) -> u16 {
    pwm_offset(le_u16_at(bytes, PWM_START as int + 2 * channel)) as u16
}

/// The frame that `bytes` holds under `mapping`.
pub open spec fn decode_frame(mapping: ServoMapping, bytes: Seq<u8>) -> ServoFrame {
    ServoFrame {
        frame_rate: le_u16_at(bytes, 2) as u16,
        fl: channel_offset(bytes, mapping.fl),
        fr: channel_offset(bytes, mapping.fr),
        rl: channel_offset(bytes, mapping.rl),
        rr: channel_offset(bytes, mapping.rr),
    }
}

/// The outcome of parsing `bytes` as a servo packet of configuration `cfg`.
pub open spec fn parse_result(cfg: ServoPktCfg, bytes: Seq<u8>) -> Result<ServoFrame, PacketError> {
    match packet_check(bytes, cfg.pwm_size, cfg.magic) {
        Err(e) => Err(e),
        Ok(()) => Ok(decode_frame(cfg.servo_mapping, bytes)),
    }
}

/// The command held after a datagram arrives: a datagram from the simulator
/// that parses replaces it, anything else leaves it as it was.
pub open spec fn next_frame(
    cfg: ServoPktCfg,
    latest: Option<ServoFrame>,
    from_sitl: bool,
    bytes: Seq<u8>,
) -> Option<ServoFrame> {
    if from_sitl && parse_result(cfg, bytes) is Ok {
        Some(parse_result(cfg, bytes)->Ok_0)
    } else {
        latest
    }
}

/// Whether the bridge takes the command of a datagram, given as whether it
/// came from the simulator's address and its bytes.
pub open spec fn accepted(cfg: ServoPktCfg, datagram: (bool, Seq<u8>)) -> bool {
    datagram.0 && parse_result(cfg, datagram.1) is Ok
}

/// The command held after `datagrams` arrive in order, starting from `latest`.
pub open spec fn drain_frames(
    cfg: ServoPktCfg,
    latest: Option<ServoFrame>,
    datagrams: Seq<(bool, Seq<u8>)>,
) -> Option<ServoFrame>
    decreases datagrams.len(),
{
    if datagrams.len() == 0 {
        latest
    } else {
        let last = datagrams.last();
        next_frame(cfg, drain_frames(cfg, latest, datagrams.drop_last()), last.0, last.1)
    }
}

/// Draining reports the command of the last datagram that was accepted, and
/// leaves the command unchanged when no datagram was accepted.
pub proof fn lemma_drain_reports_last_accepted(
    cfg: ServoPktCfg,
    latest: Option<ServoFrame>,
    datagrams: Seq<(bool, Seq<u8>)>,
)
    ensures
        (forall|i: int| 0 <= i < datagrams.len() ==> !accepted(cfg, #[trigger] datagrams[i]))
            ==> drain_frames(cfg, latest, datagrams) == latest,
        forall|i: int|
            0 <= i < datagrams.len() && accepted(cfg, #[trigger] datagrams[i]) && (forall|j: int|
                i < j < datagrams.len() ==> !accepted(cfg, #[trigger] datagrams[j]))
                ==> drain_frames(cfg, latest, datagrams) == Some(
                parse_result(cfg, datagrams[i].1)->Ok_0,
            ),
    decreases datagrams.len(),
{
    if datagrams.len() > 0 {
        let rest = datagrams.drop_last();
        lemma_drain_reports_last_accepted(cfg, latest, rest);
        let n = datagrams.len() - 1;
        if !accepted(cfg, datagrams[n]) {
            assert forall|i: int|
                0 <= i < datagrams.len() && accepted(cfg, #[trigger] datagrams[i]) && (forall|j: int|
                    i < j < datagrams.len() ==> !accepted(cfg, #[trigger] datagrams[j]))
                implies drain_frames(cfg, latest, datagrams) == Some(
                parse_result(cfg, datagrams[i].1)->Ok_0,
            ) by {
                assert(i < n);
                assert(rest[i] == datagrams[i]);
                assert forall|j: int| i < j < rest.len() implies !accepted(
                    cfg,
                    #[trigger] rest[j],
                ) by {
                    assert(rest[j] == datagrams[j]);
                }
            }
            if forall|i: int| 0 <= i < datagrams.len() ==> !accepted(cfg, #[trigger] datagrams[i]) {
                assert forall|i: int| 0 <= i < rest.len() implies !accepted(
                    cfg,
                    #[trigger] rest[i],
                ) by {
                    assert(rest[i] == datagrams[i]);
                }
            }
        } else {
            assert forall|i: int|
                0 <= i < datagrams.len() && accepted(cfg, #[trigger] datagrams[i]) && (forall|j: int|
                    i < j < datagrams.len() ==> !accepted(cfg, #[trigger] datagrams[j]))
                implies drain_frames(cfg, latest, datagrams) == Some(
                parse_result(cfg, datagrams[i].1)->Ok_0,
            ) by {
                if i < n {
                    assert(!accepted(cfg, datagrams[n]));
                }
            }
        }
    }
}

/// The frame rate that the bridge starts from: that of the first accepted
/// packet, raised to at least one.
pub open spec fn handshake_rate(cfg: ServoPktCfg, bytes: Seq<u8>) -> Option<u16> {
    match parse_result(cfg, bytes) {
        Ok(frame) => Some(if frame.frame_rate == 0 { 1u16 } else { frame.frame_rate }),
        Err(_) => None,
    }
}

/// Every channel that a well formed configuration maps lies inside its
/// packets.
pub proof fn lemma_mapped_channels_in_packet(cfg: ServoPktCfg)
    requires
        cfg.wf(),
    ensures
        forall|i: int|
            0 <= i < 4 ==> PWM_START + 2 * #[trigger] cfg.servo_mapping.channels()[i] + 2
                <= cfg.pwm_size,
{
}

/// A well formed configuration checks packets exactly as the packet layout
/// of its version does.
pub proof fn lemma_cfg_checks_as_layout(cfg: ServoPktCfg, bytes: Seq<u8>)
    requires
        cfg.wf(),
    ensures
        cfg.pwm_size == Pwm16::SIZE ==> packet_check(bytes, cfg.pwm_size, cfg.magic)
            == packet_check(bytes, Pwm16::SIZE, Pwm16::MAGIC),
        cfg.pwm_size == Pwm32::SIZE ==> packet_check(bytes, cfg.pwm_size, cfg.magic)
            == packet_check(bytes, Pwm32::SIZE, Pwm32::MAGIC),
        cfg.pwm_size == Pwm16::SIZE || cfg.pwm_size == Pwm32::SIZE,
{
    lemma_layout_constants();
}

/// A packet parses exactly when it has the configured size and its first two
/// bytes, little-endian, are the configured magic. Its frame rate is the
/// little-endian `u16` at bytes 2 and 3, and each motor's command is the
/// little-endian `u16` of its mapped channel (bytes `8 + 2c`, `9 + 2c`) minus
/// 1000, saturating at zero.
pub proof fn lemma_parse_result_reads_packet(cfg: ServoPktCfg, bytes: Seq<u8>)
    ensures
        parse_result(cfg, bytes) is Ok <==> (bytes.len() == cfg.pwm_size && bytes[0] as int + 256
            * bytes[1] as int == cfg.magic as int),
        bytes.len() != cfg.pwm_size ==> parse_result(cfg, bytes) == Err::<ServoFrame, PacketError>(
            PacketError::InvalidSize { expected: cfg.pwm_size, got: bytes.len() as usize },
        ),
        bytes.len() == cfg.pwm_size && bytes[0] as int + 256 * bytes[1] as int != cfg.magic as int
            ==> parse_result(cfg, bytes) == Err::<ServoFrame, PacketError>(
            PacketError::InvalidMagic {
                expected: cfg.magic,
                got: (bytes[0] as int + 256 * bytes[1] as int) as u16,
            },
        ),
        parse_result(cfg, bytes) matches Ok(f) ==> {
            &&& f.frame_rate as int == bytes[2] as int + 256 * bytes[3] as int
            &&& f.fl as int == ({
                let pwm = bytes[8 + 2 * cfg.servo_mapping.fl] as int + 256 * bytes[9 + 2 * cfg.servo_mapping.fl] as int;
                if pwm >= 1000 {
                    pwm - 1000
                } else {
                    0
                }
            })
            &&& f.fr as int == ({
                let pwm = bytes[8 + 2 * cfg.servo_mapping.fr] as int + 256 * bytes[9 + 2 * cfg.servo_mapping.fr] as int;
                if pwm >= 1000 {
                    pwm - 1000
                } else {
                    0
                }
            })
            &&& f.rl as int == ({
                let pwm = bytes[8 + 2 * cfg.servo_mapping.rl] as int + 256 * bytes[9 + 2 * cfg.servo_mapping.rl] as int;
                if pwm >= 1000 {
                    pwm - 1000
                } else {
                    0
                }
            })
            &&& f.rr as int == ({
                let pwm = bytes[8 + 2 * cfg.servo_mapping.rr] as int + 256 * bytes[9 + 2 * cfg.servo_mapping.rr] as int;
                if pwm >= 1000 {
                    pwm - 1000
                } else {
                    0
                }
            })
        },
{
    crate::packet::lemma_packet_check_accepts_exactly(bytes, cfg.pwm_size, cfg.magic);
}

/// The frame rate of a parsed packet depends on bytes 2 and 3 alone: two
/// packets that parse and agree there have the same frame rate, whatever
/// else they hold.
pub proof fn lemma_frame_rate_ignores_rest(cfg: ServoPktCfg, a: Seq<u8>, b: Seq<u8>)
    requires
        parse_result(cfg, a) is Ok,
        parse_result(cfg, b) is Ok,
        a[2] == b[2],
        a[3] == b[3],
    ensures
        parse_result(cfg, a)->Ok_0.frame_rate == parse_result(cfg, b)->Ok_0.frame_rate,
{
    lemma_parse_result_reads_packet(cfg, a);
    lemma_parse_result_reads_packet(cfg, b);
}

/// The handshake takes exactly the packets that parse, and starts from their
/// frame rate (the little-endian `u16` at bytes 2 and 3) unchanged when it is
/// nonzero, and from one when it is zero.
pub proof fn lemma_handshake_keeps_rate(cfg: ServoPktCfg, bytes: Seq<u8>)
    ensures
        handshake_rate(cfg, bytes) is Some <==> parse_result(cfg, bytes) is Ok,
        parse_result(cfg, bytes) matches Ok(f) ==> handshake_rate(cfg, bytes) == Some(
            if f.frame_rate == 0 {
                1u16
            } else {
                f.frame_rate
            },
        ),
        handshake_rate(cfg, bytes) matches Some(rate) ==> {
            &&& rate >= 1
            &&& bytes[2] as int + 256 * bytes[3] as int != 0 ==> rate as int == bytes[2] as int
                + 256 * bytes[3] as int
            &&& bytes[2] as int + 256 * bytes[3] as int == 0 ==> rate == 1
        },
{
    lemma_parse_result_reads_packet(cfg, bytes);
}

impl ServoPktCfg {
    /// Checks that `bytes` has the configured size and magic and reads the
    /// frame rate and the mapped motor channels from it.
    pub fn parse_packet(&self, bytes: &[u8]) -> (r: Result<ServoFrame, PacketError>)
        requires
            self.wf(),
        ensures
            r == parse_result(*self, bytes@),
            r is Ok <==> (bytes@.len() == self.pwm_size && bytes@[0] as int + 256 * bytes@[1] as int
                == self.magic as int),
            r matches Ok(f) ==> f.frame_rate as int == bytes@[2] as int + 256 * bytes@[3] as int,
    {
        if bytes.len() != self.pwm_size {
            return Err(PacketError::InvalidSize { expected: self.pwm_size, got: bytes.len() });
        }
        let magic = read_le_u16(bytes, 0);
        if magic != self.magic {
            return Err(PacketError::InvalidMagic { expected: self.magic, got: magic });
        }
        let frame_rate = read_le_u16(bytes, 2);
        let m = self.servo_mapping;
        Ok(
            ServoFrame {
                frame_rate,
                fl: offset_from_min(read_le_u16(bytes, PWM_START + 2 * m.fl)),
                fr: offset_from_min(read_le_u16(bytes, PWM_START + 2 * m.fr)),
                rl: offset_from_min(read_le_u16(bytes, PWM_START + 2 * m.rl)),
                rr: offset_from_min(read_le_u16(bytes, PWM_START + 2 * m.rr)),
            },
        )
    }

    /// Whether the bridge takes `bytes` as the simulator's first packet, and
    /// if so the frame rate it starts from (at least one).
    pub fn handshake(&self, bytes: &[u8]) -> (r: Option<u16>)
        requires
            self.wf(),
        ensures
            r == handshake_rate(*self, bytes@),
            r matches Some(rate) ==> rate >= 1,
            r matches Some(rate) ==> (bytes@[2] as int + 256 * bytes@[3] as int != 0 ==> rate as int
                == bytes@[2] as int + 256 * bytes@[3] as int),
    {
        proof {
            lemma_handshake_keeps_rate(*self, bytes@);
        }
        match self.parse_packet(bytes) {
            Ok(frame) => Some(if frame.frame_rate == 0 { 1 } else { frame.frame_rate }),
            Err(_) => None,
        }
    }

    /// Folds one received datagram into the command drained so far: a
    /// datagram from the simulator's address that parses replaces it, any
    /// other is ignored.
    pub fn receive_step(&self, latest: Option<ServoFrame>, from_sitl: bool, bytes: &[u8]) -> (r:
        Option<ServoFrame>)
        requires
            self.wf(),
        ensures
            r == next_frame(*self, latest, from_sitl, bytes@),
    {
        if from_sitl {
            match self.parse_packet(bytes) {
                Ok(frame) => Some(frame),
                Err(_) => latest,
            }
        } else {
            latest
        }
    }
}

} // verus!
