//! The dispatch entrypoint: decodes the leading selector of an opaque
//! instruction payload and routes it to the matching store operation.
//!
//! The wire format is one selector byte followed by the operation's
//! arguments.  A create instruction carries a full encoded record (the same
//! layout the slot stores); an upgrade carries the three stat increments as
//! little-endian `u32` values.  The read, stats, and session operations take
//! no arguments.  Operations that touch a record use the first slot of the
//! list.
//!
//! The invoking party's identity plays no role here: authorization is the
//! host's concern, so the entrypoint receives only the slots and the payload.

use crate::errors::HorseError;
use crate::record::{spec_decode, Horse};
use crate::slot::{Slot, SlotView};
use crate::store::{spec_mint, spec_read, spec_upgrade, HorseRacing};
use vstd::bytes::{spec_u32_from_le_bytes, u32_from_le_bytes};
use vstd::prelude::*;
use vstd::slice::slice_subrange;

verus! {

/// Selector byte: create a record in the first slot from an encoded record
/// carried in the payload.
pub const SEL_CREATE: u8 = 0;

/// Selector byte: decode the record held in the first slot.
pub const SEL_READ: u8 = 1;

/// Selector byte: decode the record held in the first slot and project its
/// stats.
pub const SEL_GET_STATS: u8 = 2;

/// Selector byte: raise the stored record's stats by the three little-endian
/// `u32` increments carried in the payload.
pub const SEL_UPGRADE_STATS: u8 = 3;

/// Selector byte: acknowledge the start of a race session (a no-op stub).
pub const SEL_START_RACE: u8 = 4;

/// Selector byte: acknowledge the end of a race session (a no-op stub).
pub const SEL_END_RACE: u8 = 5;

/// Whether a selector byte names an operation of this library.
pub open spec fn recognized(selector: u8) -> bool {
    ||| selector == SEL_CREATE
    ||| selector == SEL_READ
    ||| selector == SEL_GET_STATS
    ||| selector == SEL_UPGRADE_STATS
    ||| selector == SEL_START_RACE
    ||| selector == SEL_END_RACE
}

/// The models of the slots in a slot list.
pub open spec fn views(slots: Seq<Slot>) -> Seq<SlotView> {
    Seq::new(slots.len(), |i: int| slots[i]@)
}

/// What one invocation does: the slot models after it, and its result.  An
/// empty payload is malformed; an unrecognized selector changes nothing and
/// is reported as such; an operation that needs a slot fails without one;
/// otherwise the matching store operation runs against the first slot and
/// its result is relayed unchanged.
pub open spec fn spec_dispatch(slots: Seq<SlotView>, data: Seq<u8>) -> (
    Seq<SlotView>,
    Result<(), HorseError>,
) {
    if data.len() == 0 {
        (slots, Err(HorseError::Malformed))
    } else if data[0] == SEL_CREATE {
        if slots.len() == 0 {
            (slots, Err(HorseError::MissingSlot))
        } else {
            match spec_decode(data.subrange(1, data.len() as int)) {
                None => (slots, Err(HorseError::Malformed)),
                Some(h) => {
                    let (s2, r) = spec_mint(h.name, h.velocity, h.durability, h.stability,
                    slots[0]);
                    (slots.update(0, s2), r)
                },
            }
        }
    } else if data[0] == SEL_READ || data[0] == SEL_GET_STATS {
        if slots.len() == 0 {
            (slots, Err(HorseError::MissingSlot))
        } else {
            match spec_read(slots[0]) {
                Ok(_) => (slots, Ok(())),
                Err(e) => (slots, Err(e)),
            }
        }
    } else if data[0] == SEL_UPGRADE_STATS {
        if slots.len() == 0 {
            (slots, Err(HorseError::MissingSlot))
        } else if data.len() < 13 {
            (slots, Err(HorseError::Malformed))
        } else {
            let (s2, r) = spec_upgrade(
                spec_u32_from_le_bytes(data.subrange(1, 5)),
                spec_u32_from_le_bytes(data.subrange(5, 9)),
                spec_u32_from_le_bytes(data.subrange(9, 13)),
                slots[0],
            );
            (slots.update(0, s2), r)
        }
    } else if data[0] == SEL_START_RACE || data[0] == SEL_END_RACE {
        (slots, Ok(()))
    } else {
        (slots, Err(HorseError::UnknownOperation))
    }
}

/// Routes one instruction payload to a store operation over the given slot
/// list and relays the operation's result unchanged.
pub fn process_instruction(slots: &mut Vec<Slot>, instruction_data: &[u8]) -> (r: Result<
    (),
    HorseError,
>)
    ensures
        views(final(slots)@) == spec_dispatch(views(old(slots)@), instruction_data@).0,
        r == spec_dispatch(views(old(slots)@), instruction_data@).1,
{
    if instruction_data.len() == 0 {
        return Err(HorseError::Malformed);
    }
    let selector = instruction_data[0];
    if selector == SEL_CREATE {
        if slots.len() == 0 {
            return Err(HorseError::MissingSlot);
        }
        let payload = slice_subrange(instruction_data, 1, instruction_data.len());
        let horse = match Horse::decode(payload) {
            Ok(h) => h,
            Err(e) => {
                return Err(e);
            },
        };
        let mut first = slots.remove(0);
        let r = HorseRacing::mint_horse(
            horse.name,
            horse.velocity,
            horse.durability,
            horse.stability,
            &mut first,
        );
        slots.insert(0, first);
        proof {
            assert(views(old(slots)@)[0] == old(slots)@[0]@);
            assert(slots@ =~= old(slots)@.update(0, slots@[0]));
            assert(views(slots@) =~= views(old(slots)@).update(0, slots@[0]@));
            assert(r == spec_dispatch(views(old(slots)@), instruction_data@).1);
        }
        r
    } else if selector == SEL_READ {
        if slots.len() == 0 {
            return Err(HorseError::MissingSlot);
        }
        proof {
            assert(views(slots@)[0] == slots@[0]@);
        }
        match HorseRacing::get_owned_horse(&slots[0]) {
            Ok(_) => Ok(()),
            Err(e) => Err(e),
        }
    } else if selector == SEL_GET_STATS {
        if slots.len() == 0 {
            return Err(HorseError::MissingSlot);
        }
        proof {
            assert(views(slots@)[0] == slots@[0]@);
        }
        match HorseRacing::get_horse_stats(&slots[0]) {
            Ok(_) => Ok(()),
            Err(e) => Err(e),
        }
    } else if selector == SEL_UPGRADE_STATS {
        if slots.len() == 0 {
            return Err(HorseError::MissingSlot);
        }
        if instruction_data.len() < 13 {
            return Err(HorseError::Malformed);
        }
        let velocity_inc = u32_from_le_bytes(slice_subrange(instruction_data, 1, 5));
        let durability_inc = u32_from_le_bytes(slice_subrange(instruction_data, 5, 9));
        let stability_inc = u32_from_le_bytes(slice_subrange(instruction_data, 9, 13));
        let mut first = slots.remove(0);
        let r = HorseRacing::upgrade_horse_stats(velocity_inc, durability_inc, stability_inc,
        &mut first);
        slots.insert(0, first);
        proof {
            assert(views(old(slots)@)[0] == old(slots)@[0]@);
            assert(slots@ =~= old(slots)@.update(0, slots@[0]));
            assert(views(slots@) =~= views(old(slots)@).update(0, slots@[0]@));
            assert(r == spec_dispatch(views(old(slots)@), instruction_data@).1);
        }
        r
    } else if selector == SEL_START_RACE {
        HorseRacing::start_race()
    } else if selector == SEL_END_RACE {
        HorseRacing::end_race()
    } else {
        Err(HorseError::UnknownOperation)
    }
}

/// Unknown-operation safety law: dispatching an unrecognized selector leaves
/// every slot unchanged and reports `UnknownOperation`.
pub proof fn lemma_unknown_operation_safety(slots: Seq<SlotView>, data: Seq<u8>)
    requires
        data.len() > 0,
        !recognized(data[0]),
    ensures
        spec_dispatch(slots, data) == (slots, Err::<(), HorseError>(HorseError::UnknownOperation)),
{
}

/// Rollback law: whenever an invocation fails, the slot list it leaves
/// behind is exactly the one it was given — a failed operation never
/// partially mutates a slot.
pub proof fn lemma_dispatch_failure_preserves_slots(slots: Seq<SlotView>, data: Seq<u8>)
    ensures
        ({
            let (s2, r) = spec_dispatch(slots, data);
            r is Err ==> s2 =~= slots
        }),
{
}

} // verus!
