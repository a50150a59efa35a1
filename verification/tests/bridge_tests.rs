use ap_sitl::bridge::ServoFrame;
use ap_sitl::cfg::{ServoMapping, ServoPktCfg, SitlCfg};
use ap_sitl::packet::PacketError;

fn cfg16() -> ServoPktCfg {
    ServoPktCfg::from_sitl_cfg(SitlCfg {
        pwm_ver: 16,
        servos: ServoMapping { fl: 2, fr: 0, rl: 3, rr: 1 },
    })
    .unwrap()
}

fn packet(size: usize, magic: u16, frame_rate: u16, pwms: &[u16]) -> Vec<u8> {
    let mut bytes = vec![0u8; size];
    bytes[0..2].copy_from_slice(&magic.to_le_bytes());
    bytes[2..4].copy_from_slice(&frame_rate.to_le_bytes());
    for (i, pwm) in pwms.iter().enumerate() {
        bytes[8 + 2 * i..10 + 2 * i].copy_from_slice(&pwm.to_le_bytes());
    }
    bytes
}

#[test]
fn parse_packet_reads_mapped_channels() {
    let frame = cfg16().parse_packet(&packet(40, 18458, 400, &[1100, 1200, 1300, 1400]));
    assert_eq!(frame, Ok(ServoFrame { frame_rate: 400, fl: 300, fr: 100, rl: 400, rr: 200 }));
}

#[test]
fn parse_packet_saturates_low_pwm() {
    let frame = cfg16().parse_packet(&packet(40, 18458, 50, &[900, 0, 1000, 65535]));
    assert_eq!(frame, Ok(ServoFrame { frame_rate: 50, fl: 0, fr: 0, rl: 64535, rr: 0 }));
}

#[test]
fn parse_packet_rejects_size() {
    assert_eq!(
        cfg16().parse_packet(&packet(39, 18458, 400, &[])),
        Err(PacketError::InvalidSize { expected: 40, got: 39 })
    );
}

#[test]
fn parse_packet_rejects_magic() {
    assert_eq!(
        cfg16().parse_packet(&packet(40, 29569, 400, &[])),
        Err(PacketError::InvalidMagic { expected: 18458, got: 29569 })
    );
}

#[test]
fn parse_packet_pwm32_high_channel() {
    let cfg = ServoPktCfg::from_sitl_cfg(SitlCfg {
        pwm_ver: 32,
        servos: ServoMapping { fl: 31, fr: 30, rl: 0, rr: 1 },
    })
    .unwrap();
    let mut pwms = vec![1000u16; 32];
    pwms[31] = 1999;
    pwms[30] = 1001;
    let frame = cfg.parse_packet(&packet(72, 29569, 1200, &pwms));
    assert_eq!(frame, Ok(ServoFrame { frame_rate: 1200, fl: 999, fr: 1, rl: 0, rr: 0 }));
}

#[test]
fn handshake_raises_zero_rate() {
    assert_eq!(cfg16().handshake(&packet(40, 18458, 0, &[])), Some(1));
    assert_eq!(cfg16().handshake(&packet(40, 18458, 400, &[])), Some(400));
    assert_eq!(cfg16().handshake(&packet(40, 1, 400, &[])), None);
    assert_eq!(cfg16().handshake(&packet(12, 18458, 400, &[])), None);
}

#[test]
fn receive_step_keeps_latest_accepted() {
    let cfg = cfg16();
    let first = packet(40, 18458, 400, &[1100, 1100, 1100, 1100]);
    let second = packet(40, 18458, 300, &[1500, 1500, 1500, 1500]);
    let bad = packet(40, 7, 300, &[1900, 1900, 1900, 1900]);
    let mut latest = None;
    latest = cfg.receive_step(latest, true, &first);
    assert_eq!(latest, Some(ServoFrame { frame_rate: 400, fl: 100, fr: 100, rl: 100, rr: 100 }));
    latest = cfg.receive_step(latest, false, &second);
    assert_eq!(latest, Some(ServoFrame { frame_rate: 400, fl: 100, fr: 100, rl: 100, rr: 100 }));
    latest = cfg.receive_step(latest, true, &bad);
    assert_eq!(latest, Some(ServoFrame { frame_rate: 400, fl: 100, fr: 100, rl: 100, rr: 100 }));
    latest = cfg.receive_step(latest, true, &second);
    assert_eq!(latest, Some(ServoFrame { frame_rate: 300, fl: 500, fr: 500, rl: 500, rr: 500 }));
}

#[test]
fn receive_step_none_without_accepted() {
    let cfg = cfg16();
    let bad = packet(41, 18458, 300, &[]);
    assert_eq!(cfg.receive_step(None, true, &bad), None);
    assert_eq!(cfg.receive_step(None, false, &packet(40, 18458, 1, &[])), None);
}
