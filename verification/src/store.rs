//! The entity store: creating, reading, and mutating the record held in a
//! slot, built on the record format and the slot accessor.

use crate::errors::HorseError;
use crate::record::{
    lemma_decode_valid, lemma_record_round_trip, spec_decode, spec_encode, valid_record, Horse,
    HorseView,
};
use crate::slot::{spec_write, Slot, SlotView};
use vstd::prelude::*;

verus! {

/// The lifecycle operations over the record held in a slot.
pub struct HorseRacing;

/// What creating a record does to a slot: the encoded record replaces the
/// buffer (zero-padded to the capacity), or the slot is unchanged and the
/// error names the first failed check (name length, write permission,
/// capacity — in that order).
pub open spec fn spec_mint(
    name: Seq<char>,
    velocity: u32,
    durability: u32,
    stability: u32,
    s: SlotView,
) -> (SlotView, Result<(), HorseError>) {
    let h = HorseView { name, velocity, durability, stability };
    if !valid_record(h) {
        (s, Err(HorseError::NameTooLong))
    } else {
        spec_write(s, spec_encode(h))
    }
}

/// What reading a slot returns: the record encoded at the front of its
/// buffer, or `Malformed` when the buffer holds no valid encoding.
pub open spec fn spec_read(s: SlotView) -> Result<HorseView, HorseError> {
    match spec_decode(s.bytes) {
        Some(h) => Ok(h),
        None => Err(HorseError::Malformed),
    }
}

/// The record `h` with each stat raised by its increment.
pub open spec fn raised(
    h: HorseView,
    velocity_inc: u32,
    durability_inc: u32,
    stability_inc: u32,
) -> HorseView
    recommends
        h.velocity + velocity_inc <= u32::MAX,
        h.durability + durability_inc <= u32::MAX,
        h.stability + stability_inc <= u32::MAX,
{
    HorseView {
        name: h.name,
        velocity: (h.velocity + velocity_inc) as u32,
        durability: (h.durability + durability_inc) as u32,
        stability: (h.stability + stability_inc) as u32,
    }
}

/// What a stat upgrade does to a slot: the stored record with each stat
/// raised by its increment replaces the buffer; the slot is unchanged when
/// the buffer does not decode, an increment would overflow, or the slot is
/// not writable (checked in that order).
pub open spec fn spec_upgrade(
    velocity_inc: u32,
    durability_inc: u32,
    stability_inc: u32,
    s: SlotView,
) -> (SlotView, Result<(), HorseError>) {
    match spec_decode(s.bytes) {
        None => (s, Err(HorseError::Malformed)),
        Some(h) => {
            if h.velocity + velocity_inc > u32::MAX || h.durability + durability_inc > u32::MAX
                || h.stability + stability_inc > u32::MAX {
                (s, Err(HorseError::Overflow))
            } else {
                spec_write(s, spec_encode(raised(h, velocity_inc, durability_inc, stability_inc)))
            }
        },
    }
}

impl HorseRacing {
    /// Builds a new record, encodes it, and writes it into the slot; the
    /// slot's prior contents are discarded on success and untouched on
    /// failure.
    pub fn mint_horse(
        name: String,
        velocity: u32,
        durability: u32,
        stability: u32,
        slot: &mut Slot,
    ) -> (r: Result<(), HorseError>)
        ensures
            (final(slot)@, r) == spec_mint(name@, velocity, durability, stability, old(slot)@),
    {
        let horse = Horse { name, velocity, durability, stability };
        let encoded = match horse.encode() {
            Ok(b) => b,
            Err(e) => {
                return Err(e);
            },
        };
        slot.write(encoded.as_slice())
    }

    /// Decodes the record currently held in the slot.  A slot that was never
    /// initialized (or holds foreign data) is reported as `Malformed`, never
    /// guessed at.
    pub fn get_owned_horse(slot: &Slot) -> (r: Result<Horse, HorseError>)
        ensures
            match spec_read(slot@) {
                Ok(h) => r matches Ok(x) && x@ == h,
                Err(e) => r matches Err(e2) && e2 == e,
            },
    {
        let bytes = slot.read();
        Horse::decode(bytes.as_slice())
    }

    /// Projects the stored record onto its name and stat fields; fails
    /// exactly when reading does.
    pub fn get_horse_stats(slot: &Slot) -> (r: Result<(String, u32, u32, u32), HorseError>)
        ensures
            match spec_read(slot@) {
                Ok(h) => r matches Ok(t) && t.0@ == h.name && t.1 == h.velocity && t.2
                    == h.durability && t.3 == h.stability,
                Err(e) => r matches Err(e2) && e2 == e,
            },
    {
        match Self::get_owned_horse(slot) {
            Ok(h) => Ok((h.name, h.velocity, h.durability, h.stability)),
            Err(e) => Err(e),
        }
    }

    /// Acknowledges the start of a race session.  A placeholder for a future
    /// scheduler: it mutates nothing and succeeds unconditionally.
    pub fn start_race() -> (r: Result<(), HorseError>)
        ensures
            r == Ok::<(), HorseError>(()),
    {
        Ok(())
    }

    /// Acknowledges the end of a race session.  A placeholder like
    /// [`Self::start_race`]: it mutates nothing and succeeds unconditionally.
    pub fn end_race() -> (r: Result<(), HorseError>)
        ensures
            r == Ok::<(), HorseError>(()),
    {
        Ok(())
    }

    /// Reads the stored record, raises each stat by its increment, and
    /// writes the result back as one logical transaction: on any failure the
    /// slot's bytes are exactly what they were before the call.
    pub fn upgrade_horse_stats(
        velocity_increment: u32,
        durability_increment: u32,
        stability_increment: u32,
        slot: &mut Slot,
    ) -> (r: Result<(), HorseError>)
        ensures
            (final(slot)@, r) == spec_upgrade(
                velocity_increment,
                durability_increment,
                stability_increment,
                old(slot)@,
            ),
    {
        let horse = match Self::get_owned_horse(slot) {
            Ok(h) => h,
            Err(e) => {
                return Err(e);
            },
        };
        let velocity = match horse.velocity.checked_add(velocity_increment) {
            Some(v) => v,
            None => {
                return Err(HorseError::Overflow);
            },
        };
        let durability = match horse.durability.checked_add(durability_increment) {
            Some(v) => v,
            None => {
                return Err(HorseError::Overflow);
            },
        };
        let stability = match horse.stability.checked_add(stability_increment) {
            Some(v) => v,
            None => {
                return Err(HorseError::Overflow);
            },
        };
        let updated = Horse { name: horse.name, velocity, durability, stability };
        proof {
            lemma_decode_valid(old(slot)@.bytes);
        }
        let encoded = match updated.encode() {
            Ok(b) => b,
            Err(e) => {
                proof {
                    assert(false);
                }
                return Err(e);
            },
        };
        slot.write(encoded.as_slice())
    }
}

/// Capacity-safety law for creation: `mint_horse` either succeeds and leaves
/// the slot holding exactly the new record's encoding (zero-padded to the
/// capacity, so it decodes back to that record), or fails and leaves the
/// slot unchanged.
pub proof fn lemma_mint_capacity_safety(
    name: Seq<char>,
    velocity: u32,
    durability: u32,
    stability: u32,
    s: SlotView,
)
    ensures
        ({
            let h = HorseView { name, velocity, durability, stability };
            let (s2, r) = spec_mint(name, velocity, durability, stability, s);
            &&& r is Ok ==> s2.bytes == crate::slot::zero_pad(spec_encode(h), s.bytes.len())
                && spec_decode(s2.bytes) == Some(h)
            &&& r is Err ==> s2 == s
        }),
{
    let h = HorseView { name, velocity, durability, stability };
    let (s2, r) = spec_mint(name, velocity, durability, stability, s);
    if r is Ok {
        lemma_record_round_trip(h, s2.bytes.skip(spec_encode(h).len() as int));
        assert(spec_encode(h) + s2.bytes.skip(spec_encode(h).len() as int) =~= s2.bytes);
    }
}

/// Capacity-safety law for upgrades: `upgrade_horse_stats` either succeeds
/// and leaves the slot holding exactly the encoding of the raised record, or
/// fails and leaves the slot unchanged.
pub proof fn lemma_upgrade_capacity_safety(
    velocity_inc: u32,
    durability_inc: u32,
    stability_inc: u32,
    s: SlotView,
)
    ensures
        ({
            let (s2, r) = spec_upgrade(velocity_inc, durability_inc, stability_inc, s);
            &&& r is Ok ==> spec_decode(s.bytes) is Some && s2.bytes == crate::slot::zero_pad(
                spec_encode(
                    raised(spec_decode(s.bytes).unwrap(), velocity_inc, durability_inc,
                    stability_inc),
                ),
                s.bytes.len(),
            )
            &&& r is Err ==> s2 == s
        }),
{
}

/// Monotonicity law: a successful upgrade with any increments leaves each
/// stored stat at its prior value plus its increment, hence no smaller.
pub proof fn lemma_upgrade_monotonic(
    velocity_inc: u32,
    durability_inc: u32,
    stability_inc: u32,
    s: SlotView,
)
    ensures
        ({
            let (s2, r) = spec_upgrade(velocity_inc, durability_inc, stability_inc, s);
            r is Ok ==> {
                let h = spec_decode(s.bytes).unwrap();
                let h2 = spec_decode(s2.bytes).unwrap();
                &&& spec_decode(s2.bytes) is Some
                &&& h2.name == h.name
                &&& h2.velocity == h.velocity + velocity_inc
                &&& h2.durability == h.durability + durability_inc
                &&& h2.stability == h.stability + stability_inc
                &&& h2.velocity >= h.velocity
                &&& h2.durability >= h.durability
                &&& h2.stability >= h.stability
            }
        }),
{
    let (s2, r) = spec_upgrade(velocity_inc, durability_inc, stability_inc, s);
    if r is Ok {
        let h = spec_decode(s.bytes).unwrap();
        let h2 = raised(h, velocity_inc, durability_inc, stability_inc);
        lemma_decode_valid(s.bytes);
        lemma_record_round_trip(h2, s2.bytes.skip(spec_encode(h2).len() as int));
        assert(spec_encode(h2) + s2.bytes.skip(spec_encode(h2).len() as int) =~= s2.bytes);
    }
}

/// Determinism law behind idempotent reads: reading never changes a slot (it
/// takes the slot immutably), so any two results obtained from the same slot
/// state agree.
pub proof fn lemma_read_deterministic(
    s: SlotView,
    r1: Result<HorseView, HorseError>,
    r2: Result<HorseView, HorseError>,
)
    requires
        r1 == spec_read(s),
        r2 == spec_read(s),
    ensures
        r1 == r2,
{
}

} // verus!
