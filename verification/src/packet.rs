//! Layout of the PWM packets that ArduPilot sends to its JSON SITL backend,
//! and the checks and decoding applied to a received packet.
use std::marker::PhantomData;
use vstd::prelude::*;

verus! {

/// PWM value that maps to a zero servo command.
pub const PWM_MIN: u16 = 1000;

/// Byte offset of the first PWM channel in a packet (after magic, frame rate
/// and frame count).
pub const PWM_START: usize = 8;

/// Number of servo slots handed out per packet.
pub const SERVO_SLOTS: usize = 32;

/// ArduPilot PWM packet layout.
pub trait Pwm {
    /// Packet size in bytes.
    const SIZE: usize;
    /// Packet magic value.
    const MAGIC: u16;
}

/// ArduPilot 16-channel PWM packet layout.
pub struct Pwm16;

impl Pwm for Pwm16 {
    const SIZE: usize = 40;
    const MAGIC: u16 = 18458;
}

/// ArduPilot 32-channel PWM packet layout.
pub struct Pwm32;

impl Pwm for Pwm32 {
    const SIZE: usize = 72;
    const MAGIC: u16 = 29569;
}

/// The little-endian `u16` made of the two bytes at `at` and `at + 1`.
pub open spec fn le_u16_at(bytes: Seq<u8>, at: int) -> int {
    bytes[at] as int + 256 * bytes[at + 1] as int
}

/// A PWM value minus `PWM_MIN`, saturating at zero.
pub open spec fn pwm_offset(pwm: int) -> int {
    if pwm >= PWM_MIN as int {
        pwm - PWM_MIN as int
    } else {
        0
    }
}

/// The number of servo slots that a packet of `size` bytes fills: one per
/// complete two-byte channel after the header, at most `SERVO_SLOTS`.
pub open spec fn filled_slots(size: int) -> int {
    let channels = (size - PWM_START as int) / 2;
    if channels < SERVO_SLOTS as int {
        channels
    } else {
        SERVO_SLOTS as int
    }
}

/// What slot `i` of the servo offsets of `bytes` holds.
pub open spec fn servo_slot(bytes: Seq<u8>, size: int, i: int) -> int {
    if i < filled_slots(size) {
        pwm_offset(le_u16_at(bytes, PWM_START as int + 2 * i))
    } else {
        0
    }
}

/// The sizes and magic values of the two layouts.
pub proof fn lemma_layout_constants()
    ensures
        Pwm16::SIZE == 40 && Pwm16::MAGIC == 18458,
        Pwm32::SIZE == 72 && Pwm32::MAGIC == 29569,
{
}

/// A 16-channel packet fills the first 16 servo slots and leaves the rest
/// zero; a 32-channel packet fills all 32.
pub proof fn lemma_layout_slots(bytes: Seq<u8>)
    ensures
        filled_slots(Pwm16::SIZE as int) == 16,
        filled_slots(Pwm32::SIZE as int) == SERVO_SLOTS,
        forall|i: int| 16 <= i < SERVO_SLOTS ==> #[trigger] servo_slot(bytes, Pwm16::SIZE as int, i) == 0,
{
}

/// Every servo offset is a PWM value minus `PWM_MIN` or zero, so it never
/// exceeds `u16::MAX - PWM_MIN`.
pub proof fn lemma_offset_bounds(pwm: u16)
    ensures
        0 <= pwm_offset(pwm as int) <= u16::MAX - PWM_MIN,
        pwm <= PWM_MIN ==> pwm_offset(pwm as int) == 0,
{
}

/// Why a received packet was rejected.
#[derive(Debug, Clone, Copy, PartialEq, Eq, Structural)]
#[allow(inconsistent_fields)]
pub enum PacketError {
    /// The packet does not have the layout's size.
    InvalidSize { expected: usize, got: usize },
    /// The packet's first two bytes are not the layout's magic value.
    InvalidMagic { expected: u16, got: u16 },
}

/// The outcome of checking `bytes` against a layout of `size` bytes and
/// magic `magic`.
pub open spec fn packet_check(bytes: Seq<u8>, size: usize, magic: u16) -> Result<(), PacketError> {
    if bytes.len() != size {
        Err(PacketError::InvalidSize { expected: size, got: bytes.len() as usize })
    } else if le_u16_at(bytes, 0) != magic {
        Err(PacketError::InvalidMagic { expected: magic, got: le_u16_at(bytes, 0) as u16 })
    } else {
        Ok(())
    }
}

/// A packet passes the check exactly when it has the layout's size and its
/// first two bytes, little-endian, are the layout's magic; the refusal names
/// what was expected and what came.
pub proof fn lemma_packet_check_accepts_exactly(bytes: Seq<u8>, size: usize, magic: u16)
    ensures
        packet_check(bytes, size, magic) is Ok <==> (bytes.len() == size && bytes[0] as int + 256
            * bytes[1] as int == magic as int),
        bytes.len() != size ==> packet_check(bytes, size, magic) == Err::<(), PacketError>(
            PacketError::InvalidSize { expected: size, got: bytes.len() as usize },
        ),
        bytes.len() == size && bytes[0] as int + 256 * bytes[1] as int != magic as int
            ==> packet_check(bytes, size, magic) == Err::<(), PacketError>(
            PacketError::InvalidMagic {
                expected: magic,
                got: (bytes[0] as int + 256 * bytes[1] as int) as u16,
            },
        ),
{
}

/// The check looks at the packet's length and first two bytes only: two
/// packets that agree on those are checked alike, whatever else they hold.
pub proof fn lemma_packet_check_ignores_payload(a: Seq<u8>, b: Seq<u8>, size: usize, magic: u16)
    requires
        a.len() == b.len(),
        a[0] == b[0],
        a[1] == b[1],
    ensures
        packet_check(a, size, magic) == packet_check(b, size, magic),
{
}

/// Slot `i` of the servo offsets of a packet of `size` bytes is the
/// little-endian `u16` at bytes `8 + 2i` and `9 + 2i` minus 1000, saturating
/// at zero, for every channel the packet has, and zero past them.
pub proof fn lemma_servo_slot_reads_channel(bytes: Seq<u8>, size: int, i: int)
    requires
        0 <= i < 32,
        8 <= size,
    ensures
        servo_slot(bytes, size, i) == (if i < (size - 8) / 2 {
            let pwm = bytes[8 + 2 * i] as int + 256 * bytes[9 + 2 * i] as int;
            if pwm >= 1000 {
                pwm - 1000
            } else {
                0
            }
        } else {
            0
        }),
{
}

/// Reads the little-endian `u16` at `at`.
pub fn read_le_u16(bytes: &[u8], at: usize) -> (r: u16)
    requires
        at + 1 < bytes@.len(),
    ensures
        r == le_u16_at(bytes@, at as int),
{
    let lo = bytes[at] as u16;
    let hi = bytes[at + 1] as u16;
    lo + 256 * hi
}

/// Subtracts `PWM_MIN` from a PWM value, saturating at zero.
pub fn offset_from_min(pwm: u16) -> (r: u16)
    ensures
        r == pwm_offset(pwm as int),
{
    if pwm >= PWM_MIN {
        pwm - PWM_MIN
    } else {
        0
    }
}

/// Checks and decodes received PWM packets of layout `P`.
pub struct RecvPacket<P> {
    _pwm: PhantomData<P>,
}

impl<P: Pwm> RecvPacket<P> {
    /// Creates a decoder for layout `P`.
    pub fn new() -> Self {
        Self { _pwm: PhantomData }
    }

    /// Accepts `bytes` when it is exactly `P::SIZE` long and starts with
    /// `P::MAGIC` in little-endian order.
    pub fn parse(&self, bytes: &[u8]) -> (r: Result<(), PacketError>)
        requires
            bytes@.len() == P::SIZE ==> P::SIZE >= 2,
        ensures
            r == packet_check(bytes@, P::SIZE, P::MAGIC),
            r is Ok <==> (bytes@.len() == P::SIZE && bytes@[0] as int + 256 * bytes@[1] as int
                == P::MAGIC as int),
    {
        if bytes.len() != P::SIZE {
            return Err(PacketError::InvalidSize { expected: P::SIZE, got: bytes.len() });
        }
        let packet_magic = read_le_u16(bytes, 0);
        if packet_magic != P::MAGIC {
            return Err(PacketError::InvalidMagic { expected: P::MAGIC, got: packet_magic });
        }
        Ok(())
    }

    /// The PWM channels of `bytes[PWM_START..P::SIZE]`, each minus `PWM_MIN`
    /// (saturating at zero), in `SERVO_SLOTS` slots; slots past the packet's
    /// channels hold zero. Divided by 1000 they are the normalized servo
    /// commands.
    pub fn servo_offsets(&self, bytes: &[u8]) -> (r: Vec<u16>)
        requires
            PWM_START <= P::SIZE <= bytes@.len(),
        ensures
            r@.len() == SERVO_SLOTS,
            forall|i: int| 0 <= i < SERVO_SLOTS ==> r@[i] == servo_slot(bytes@, P::SIZE as int, i),
            forall|i: int|
                0 <= i < 32 ==> #[trigger] r@[i] == (if i < (P::SIZE - 8) / 2 {
                    let pwm = bytes@[8 + 2 * i] as int + 256 * bytes@[9 + 2 * i] as int;
                    if pwm >= 1000 {
                        pwm - 1000
                    } else {
                        0
                    }
                } else {
                    0
                }),
    {
        let slots: usize = if (P::SIZE - PWM_START) / 2 < SERVO_SLOTS {
            (P::SIZE - PWM_START) / 2
        } else {
            SERVO_SLOTS
        };
        let mut servos: Vec<u16> = Vec::new();
        let mut i: usize = 0;
        while i < SERVO_SLOTS
            invariant
                i <= SERVO_SLOTS,
                slots == filled_slots(P::SIZE as int),
                PWM_START <= P::SIZE <= bytes@.len(),
                servos@.len() == i,
                forall|j: int| 0 <= j < i ==> servos@[j] == servo_slot(bytes@, P::SIZE as int, j),
            decreases SERVO_SLOTS - i,
        {
            if i < slots {
                let pwm = read_le_u16(bytes, PWM_START + 2 * i);
                servos.push(offset_from_min(pwm));
            } else {
                servos.push(0);
            }
            i = i + 1;
        }
        proof {
            assert forall|i: int| 0 <= i < 32 implies #[trigger] servos@[i] == (if i < (P::SIZE - 8)
                / 2 {
                let pwm = bytes@[8 + 2 * i] as int + 256 * bytes@[9 + 2 * i] as int;
                if pwm >= 1000 {
                    pwm - 1000
                } else {
                    0
                }
            } else {
                0
            }) by {
                lemma_servo_slot_reads_channel(bytes@, P::SIZE as int, i);
            }
        }
        servos
    }
}

} // verus!
