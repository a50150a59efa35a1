use ap_sitl::packet::{offset_from_min, read_le_u16, PacketError, PWM_MIN, SERVO_SLOTS};
use ap_sitl::{Pwm, Pwm16, Pwm32, RecvPacket};

fn packet(size: usize, magic: u16, pwms: &[u16]) -> Vec<u8> {
    let mut bytes = vec![0u8; size];
    bytes[0..2].copy_from_slice(&magic.to_le_bytes());
    for (i, pwm) in pwms.iter().enumerate() {
        bytes[8 + 2 * i..10 + 2 * i].copy_from_slice(&pwm.to_le_bytes());
    }
    bytes
}

#[test]
fn layout_constants() {
    assert_eq!(Pwm16::SIZE, 40);
    assert_eq!(Pwm16::MAGIC, 18458);
    assert_eq!(Pwm32::SIZE, 72);
    assert_eq!(Pwm32::MAGIC, 29569);
}

#[test]
fn read_le_u16_is_little_endian() {
    assert_eq!(read_le_u16(&[0x1a, 0x48], 0), 18458);
    assert_eq!(read_le_u16(&[0, 0x34, 0x12], 1), 0x1234);
}

#[test]
fn offset_saturates_below_min() {
    assert_eq!(offset_from_min(999), 0);
    assert_eq!(offset_from_min(PWM_MIN), 0);
    assert_eq!(offset_from_min(1500), 500);
    assert_eq!(offset_from_min(u16::MAX), u16::MAX - 1000);
}

#[test]
fn parse_accepts_valid_pwm16() {
    let p = RecvPacket::<Pwm16>::new();
    assert_eq!(p.parse(&packet(40, 18458, &[])), Ok(()));
}

#[test]
fn parse_accepts_valid_pwm32() {
    let p = RecvPacket::<Pwm32>::new();
    assert_eq!(p.parse(&packet(72, 29569, &[])), Ok(()));
}

#[test]
fn parse_rejects_wrong_size() {
    let p = RecvPacket::<Pwm16>::new();
    assert_eq!(
        p.parse(&packet(72, 18458, &[])),
        Err(PacketError::InvalidSize { expected: 40, got: 72 })
    );
    assert_eq!(p.parse(&[]), Err(PacketError::InvalidSize { expected: 40, got: 0 }));
}

#[test]
fn parse_rejects_wrong_magic() {
    let p = RecvPacket::<Pwm32>::new();
    assert_eq!(
        p.parse(&packet(72, 18458, &[])),
        Err(PacketError::InvalidMagic { expected: 29569, got: 18458 })
    );
}

#[test]
fn servo_offsets_pwm16_fills_sixteen() {
    let p = RecvPacket::<Pwm16>::new();
    let pwms: Vec<u16> = (0..16).map(|i| 1000 + 100 * i as u16).collect();
    let offsets = p.servo_offsets(&packet(40, 18458, &pwms));
    assert_eq!(offsets.len(), SERVO_SLOTS);
    for i in 0..16 {
        assert_eq!(offsets[i], 100 * i as u16);
    }
    for i in 16..32 {
        assert_eq!(offsets[i], 0);
    }
}

#[test]
fn servo_offsets_pwm32_fills_all() {
    let p = RecvPacket::<Pwm32>::new();
    let pwms: Vec<u16> = (0..32).map(|i| 1001 + i as u16).collect();
    let offsets = p.servo_offsets(&packet(72, 29569, &pwms));
    for i in 0..32 {
        assert_eq!(offsets[i], 1 + i as u16);
    }
}

#[test]
fn servo_offsets_saturate_low_pwm() {
    let p = RecvPacket::<Pwm16>::new();
    let offsets = p.servo_offsets(&packet(40, 18458, &[0, 999, 1000, 2000]));
    assert_eq!(&offsets[0..4], &[0, 0, 0, 1000]);
}

#[test]
fn servo_offsets_ignore_magic() {
    let p = RecvPacket::<Pwm16>::new();
    let offsets = p.servo_offsets(&packet(40, 0, &[1250]));
    assert_eq!(offsets[0], 250);
}
