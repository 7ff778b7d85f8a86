//! How loud playback is: a number from zero to one, held as the bit pattern of a
//! single-precision number.

use vstd::prelude::*;

verus! {

/// The bit pattern of one.
pub const ONE_BITS: u32 = 0x3f80_0000;

/// The bit pattern of the single-precision number nearest to a hundredth.
pub const HUNDREDTH_BITS: u32 = 0x3c23_d70a;

/// The bit pattern of infinity: those of numbers lie below it.
pub const INFINITY_BITS: u32 = 0x7f80_0000;

pub const SIGN_BITS: u32 = 0x8000_0000;

#[derive(Clone, Copy, Debug, PartialEq, Eq, Structural)]
pub struct Volume {
    pub bits: u32,
}

impl Volume {
    pub open spec fn magnitude(self) -> int {
        self.bits as int % SIGN_BITS as int
    }

    /// Neither infinite nor outside the numbers.
    pub open spec fn finite(self) -> bool {
        self.magnitude() < INFINITY_BITS
    }

    pub open spec fn number(self) -> bool {
        self.magnitude() <= INFINITY_BITS
    }

    /// Orders numbers as their values are ordered.
    pub open spec fn order(self) -> int {
        if self.bits >= SIGN_BITS {
            -self.magnitude()
        } else {
            self.magnitude()
        }
    }

    pub open spec fn positive(self) -> bool {
        self.number() && self.order() > 0
    }

    /// The closest number from zero to one; what is no number stays as it is.
    pub open spec fn in_unit_range(self) -> Volume {
        if !self.number() {
            self
        } else if self.order() < 0 {
            Volume { bits: 0 }
        } else if self.order() > ONE_BITS {
            Volume { bits: ONE_BITS }
        } else {
            self
        }
    }

    pub open spec fn sound(self) -> bool {
        self.finite() && 0 <= self.order() <= ONE_BITS
    }

    fn order_of(self) -> (order: i64)
        ensures
            order == self.order(),
    {
        if self.bits >= SIGN_BITS {
            -((self.bits % SIGN_BITS) as i64)
        } else {
            (self.bits % SIGN_BITS) as i64
        }
    }

    pub fn is_number(self) -> (result: bool)
        ensures
            result == self.number(),
    {
        self.bits % SIGN_BITS <= INFINITY_BITS
    }

    pub fn is_finite(self) -> (result: bool)
        ensures
            result == self.finite(),
    {
        self.bits % SIGN_BITS < INFINITY_BITS
    }

    pub fn is_positive(self) -> (result: bool)
        ensures
            result == self.positive(),
    {
        self.is_number() && self.order_of() > 0
    }

    pub fn clamped(self) -> (volume: Self)
        ensures
            volume == self.in_unit_range(),
    {
        if !self.is_number() {
            self
        } else if self.order_of() < 0 {
            Volume { bits: 0 }
        } else if self.order_of() > ONE_BITS as i64 {
            Volume { bits: ONE_BITS }
        } else {
            self
        }
    }

    pub fn at_least_hundredth(self) -> (volume: Self)
        requires
            self.number(),
        ensures
            volume == (if self.order() < HUNDREDTH_BITS {
                Volume { bits: HUNDREDTH_BITS }
            } else {
                self
            }),
    {
        if self.order_of() < HUNDREDTH_BITS as i64 {
            Volume { bits: HUNDREDTH_BITS }
        } else {
            self
        }
    }
}

/// A stored volume made sound: brought into range, and `fallback` where it is not
/// finite.
pub open spec fn sound_volume(value: Volume, fallback: Volume) -> Volume {
    if value.finite() {
        value.in_unit_range()
    } else {
        fallback
    }
}

pub fn normalized_volume(value: Volume, fallback: Volume) -> (volume: Volume)
    ensures
        volume == sound_volume(value, fallback),
        fallback.sound() ==> volume.sound(),
{
    if value.is_finite() {
        value.clamped()
    } else {
        fallback
    }
}

/// The volume and the volume to go back to from silence.
#[derive(Clone, Copy, Debug, PartialEq, Eq, Structural)]
pub struct Loudness {
    pub volume: Volume,
    pub last_nonzero: Volume,
}

impl Loudness {
    /// The loudness after `volume` was chosen.
    pub open spec fn with_volume(self, volume: Volume) -> Loudness {
        let volume = volume.in_unit_range();
        Loudness {
            volume,
            last_nonzero: if volume.positive() {
                volume
            } else {
                self.last_nonzero
            },
        }
    }

    pub fn set_volume(&mut self, volume: Volume)
        ensures
            *final(self) == old(self).with_volume(volume),
    {
        self.volume = volume.clamped();
        if self.volume.is_positive() {
            self.last_nonzero = self.volume;
        }
    }

    /// The volume that muting chooses: silence, and from silence the last volume.
    pub open spec fn muted_volume(self) -> Volume {
        if self.volume.positive() {
            Volume { bits: 0 }
        } else {
            self.last_nonzero
        }
    }

    pub fn toggle_mute(&mut self) -> (volume: Volume)
        ensures
            volume == old(self).muted_volume(),
            *final(self) == old(self).with_volume(volume),
    {
        let volume = if self.volume.is_positive() {
            Volume { bits: 0 }
        } else {
            self.last_nonzero
        };
        self.set_volume(volume);
        volume
    }
}

/// Muting twice gives a sound, audible volume back that was the last chosen one.
pub proof fn unmuting_restores_volume(loudness: Loudness)
    requires
        loudness.volume.sound(),
        loudness.volume.positive(),
        loudness.last_nonzero == loudness.volume,
    ensures
        ({
            let muted = loudness.with_volume(loudness.muted_volume());
            muted.with_volume(muted.muted_volume()) == loudness
        }),
{
}

/// A volume is brought into its range: below nothing becomes nothing, above the whole
/// becomes the whole, and any other stays. What is no finite number is replaced.
pub proof fn volumes_are_brought_into_range(value: Volume, fallback: Volume)
    requires
        fallback.sound(),
    ensures
        sound_volume(value, fallback).sound(),
        value.sound() ==> sound_volume(value, fallback) == value,
        !value.finite() ==> sound_volume(value, fallback) == fallback,
        value.finite() && value.order() > 0x3f80_0000 ==> sound_volume(value, fallback).bits
            == 0x3f80_0000,
        value.finite() && value.order() < 0 ==> sound_volume(value, fallback).bits == 0,
{
}

/// The number is ordered by its sign and its magnitude: without the sign bit it is the
/// magnitude, and with it the opposite.
pub proof fn the_sign_bit_turns_a_volume_round(bits: u32)
    requires
        bits < 0x8000_0000,
    ensures
        (Volume { bits }).order() == bits,
        (Volume { bits: (bits + 0x8000_0000) as u32 }).order() == -bits,
        (Volume { bits }).finite() <==> bits < 0x7f80_0000,
        (Volume { bits: (bits + 0x8000_0000) as u32 }).finite() <==> bits < 0x7f80_0000,
        (Volume { bits }).positive() <==> 0 < bits <= 0x7f80_0000,
        !(Volume { bits: (bits + 0x8000_0000) as u32 }).positive(),
{
}

/// The last audible volume is remembered while the sound is off, and choosing one that is
/// heard makes it the last.
pub proof fn silence_remembers_the_last_volume(loudness: Loudness, volume: Volume)
    ensures
        ({
            let after = loudness.with_volume(volume);
            &&& volume.sound() ==> after.volume == volume
            &&& volume.sound() && volume.bits > 0 && volume.bits < 0x8000_0000
                ==> after.last_nonzero == volume
            &&& volume.bits == 0 ==> after.last_nonzero == loudness.last_nonzero
                && after.volume.bits == 0
            &&& after.volume.positive() ==> after.last_nonzero == after.volume
        }),
        loudness.volume.positive() ==> loudness.muted_volume().bits == 0,
        !loudness.volume.positive() ==> loudness.muted_volume() == loudness.last_nonzero,
{
}

/// A number above the whole is chosen as the whole, one below nothing as nothing, one in
/// between as it is, and what is no number stays what it is.
pub proof fn chosen_volumes_lie_in_range(value: Volume)
    ensures
        !value.number() ==> value.in_unit_range() == value,
        value.number() && value.order() > 0x3f80_0000 ==> value.in_unit_range().bits == 0x3f80_0000,
        value.number() && value.order() < 0 ==> value.in_unit_range().bits == 0,
        value.number() && 0 <= value.order() <= 0x3f80_0000 ==> value.in_unit_range() == value,
        value.number() ==> value.in_unit_range().sound(),
{
}

} // verus!
