//! Verified decisions of a bridge to ArduPilot's JSON SITL backend: the
//! packet layouts, the checks applied to received PWM packets, the decoding of
//! their servo channels, the validation of the servo configuration, and the
//! framing of the JSON state messages sent back.
use vstd::prelude::*;

pub mod bridge;
pub mod cfg;
pub mod msg;
pub mod packet;
pub mod state;

pub use msg::RcInput;
pub use packet::{Pwm, Pwm16, Pwm32, RecvPacket};

use packet::{servo_slot, PWM_START, SERVO_SLOTS};

verus! {

/// The servo offsets of a packet: slot `i` is `servo_slot(bytes, size, i)`.
pub open spec fn offsets_of(bytes: Seq<u8>, size: int) -> Seq<u16> {
    Seq::new(SERVO_SLOTS as nat, |i: int| servo_slot(bytes, size, i) as u16)
}

/// Whether the connection takes the servos of a datagram, given as whether it
/// came from the simulator's address and its bytes: it must fill the whole
/// receive buffer of `size` bytes.
pub open spec fn takes_datagram(size: usize, datagram: (bool, Seq<u8>)) -> bool {
    datagram.0 && datagram.1.len() == size
}

/// The servos held after a datagram arrives: one that is taken replaces them,
/// any other leaves them as they were.
pub open spec fn next_servos(size: usize, latest: Option<Seq<u16>>, datagram: (bool, Seq<u8>)) -> Option<
    Seq<u16>,
> {
    if takes_datagram(size, datagram) {
        Some(offsets_of(datagram.1, size as int))
    } else {
        latest
    }
}

/// The servos held after `datagrams` arrive in order, starting from `latest`.
pub open spec fn drain_servos(size: usize, latest: Option<Seq<u16>>, datagrams: Seq<(bool, Seq<u8>)>) -> Option<
    Seq<u16>,
>
    decreases datagrams.len(),
{
    if datagrams.len() == 0 {
        latest
    } else {
        next_servos(size, drain_servos(size, latest, datagrams.drop_last()), datagrams.last())
    }
}

/// Draining reports the servos of the last datagram that was taken, and
/// leaves the servos unchanged when none was taken.
pub proof fn lemma_drain_servos_reports_last_taken(
    size: usize,
    latest: Option<Seq<u16>>,
    datagrams: Seq<(bool, Seq<u8>)>,
)
    ensures
        (forall|i: int| 0 <= i < datagrams.len() ==> !takes_datagram(size, #[trigger] datagrams[i]))
            ==> drain_servos(size, latest, datagrams) == latest,
        forall|i: int|
            0 <= i < datagrams.len() && takes_datagram(size, #[trigger] datagrams[i]) && (forall|
                j: int,
            | i < j < datagrams.len() ==> !takes_datagram(size, #[trigger] datagrams[j]))
                ==> drain_servos(size, latest, datagrams) == Some(
                offsets_of(datagrams[i].1, size as int),
            ),
    decreases datagrams.len(),
{
    if datagrams.len() > 0 {
        let rest = datagrams.drop_last();
        lemma_drain_servos_reports_last_taken(size, latest, rest);
        let n = datagrams.len() - 1;
        if !takes_datagram(size, datagrams[n]) {
            assert forall|i: int|
                0 <= i < datagrams.len() && takes_datagram(size, #[trigger] datagrams[i]) && (forall|
                    j: int,
                | i < j < datagrams.len() ==> !takes_datagram(size, #[trigger] datagrams[j]))
                implies drain_servos(size, latest, datagrams) == Some(
                offsets_of(datagrams[i].1, size as int),
            ) by {
                assert(rest[i] == datagrams[i]);
                assert forall|j: int| i < j < rest.len() implies !takes_datagram(
                    size,
                    #[trigger] rest[j],
                ) by {
                    assert(rest[j] == datagrams[j]);
                }
            }
            if forall|i: int| 0 <= i < datagrams.len() ==> !takes_datagram(size, #[trigger] datagrams[i]) {
                assert forall|i: int| 0 <= i < rest.len() implies !takes_datagram(
                    size,
                    #[trigger] rest[i],
                ) by {
                    assert(rest[i] == datagrams[i]);
                }
            }
        }
    }
}

/// A datagram from the simulator that fills the whole `size`-byte buffer
/// replaces the held servos with its 32 slots, slot `i` being the
/// little-endian `u16` at bytes `8 + 2i`, `9 + 2i` minus 1000 (saturating at
/// zero) for each channel of the packet and zero past them; any other
/// datagram leaves the held servos as they were.
pub proof fn lemma_next_servos_reads_channels(
    size: usize,
    latest: Option<Seq<u16>>,
    datagram: (bool, Seq<u8>),
)
    requires
        8 <= size,
    ensures
        datagram.0 && datagram.1.len() == size ==> next_servos(size, latest, datagram) is Some
            && next_servos(size, latest, datagram)->0.len() == 32 && forall|i: int|
            0 <= i < 32 ==> #[trigger] next_servos(size, latest, datagram)->0[i] == (if i < (size - 8) / 2 {
                    let pwm = datagram.1[8 + 2 * i] as int + 256 * datagram.1[9 + 2 * i] as int;
                    if pwm >= 1000 {
                        pwm - 1000
                    } else {
                        0
                    }
                } else {
                    0
                }),
        !(datagram.0 && datagram.1.len() == size) ==> next_servos(size, latest, datagram) == latest,
{
    if datagram.0 && datagram.1.len() == size {
        assert forall|i: int| 0 <= i < 32 implies #[trigger] next_servos(
            size,
            latest,
            datagram,
        )->0[i] == (if i < (size - 8) / 2 {
                    let pwm = datagram.1[8 + 2 * i] as int + 256 * datagram.1[9 + 2 * i] as int;
                    if pwm >= 1000 {
                        pwm - 1000
                    } else {
                        0
                    }
                } else {
                    0
                }) by {
            packet::lemma_servo_slot_reads_channel(datagram.1, size as int, i);
        }
    }
}

impl<P: Pwm> RecvPacket<P> {
    /// Folds one received datagram into the servos drained so far: a
    /// datagram from the simulator's address that fills the whole
    /// `P::SIZE`-byte receive buffer replaces them with its decoded servo
    /// offsets (its magic is not checked here), any other is ignored.
    pub fn receive_step(&self, latest: Option<Vec<u16>>, from_sitl: bool, datagram: &[u8]) -> (r:
        Option<Vec<u16>>)
        requires
            takes_datagram(P::SIZE, (from_sitl, datagram@)) ==> PWM_START <= P::SIZE,
        ensures
            r.deep_view() == next_servos(P::SIZE, latest.deep_view(), (from_sitl, datagram@)),
            from_sitl && datagram@.len() == P::SIZE ==> (r matches Some(v) && v@.len() == 32
                && forall|i: int|
                0 <= i < 32 ==> #[trigger] v@[i] == (if i < (P::SIZE - 8) / 2 {
                    let pwm = datagram@[8 + 2 * i] as int + 256 * datagram@[9 + 2 * i] as int;
                    if pwm >= 1000 {
                        pwm - 1000
                    } else {
                        0
                    }
                } else {
                    0
                })),
            !(from_sitl && datagram@.len() == P::SIZE) ==> r == latest,
    {
        if from_sitl && datagram.len() == P::SIZE {
            let servos = self.servo_offsets(datagram);
            assert(servos@ =~= offsets_of(datagram@, P::SIZE as int));
            Some(servos)
        } else {
            latest
        }
    }
}

/// The byte that ends each framed state message (`b'\n'`).
pub const NEWLINE: u8 = 10;

/// Frames a serialized state message for sending: the message followed by a
/// newline.
pub fn frame_line(message: &[u8]) -> (r: Vec<u8>)
    ensures
        r@ == message@.push(NEWLINE),
{
    let mut line: Vec<u8> = Vec::new();
    let mut i: usize = 0;
    while i < message.len()
        invariant
            i <= message@.len(),
            line@ == message@.take(i as int),
        decreases message@.len() - i,
    {
        line.push(message[i]);
        i = i + 1;
        assert(line@ =~= message@.take(i as int));
    }
    assert(message@.take(message@.len() as int) =~= message@);
    line.push(NEWLINE);
    line
}

} // verus!
