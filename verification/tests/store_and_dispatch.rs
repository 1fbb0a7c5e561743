use horse_racing::dispatch::{
    process_instruction, SEL_CREATE, SEL_END_RACE, SEL_GET_STATS, SEL_READ, SEL_START_RACE,
    SEL_UPGRADE_STATS,
};
use horse_racing::errors::HorseError;
use horse_racing::record::Horse;
use horse_racing::slot::Slot;
use horse_racing::store::HorseRacing;

fn mint(name: &str, velocity: u32, durability: u32, stability: u32, slot: &mut Slot) {
    HorseRacing::mint_horse(String::from(name), velocity, durability, stability, slot).unwrap();
}

#[test]
fn create_then_get_stats() {
    let mut slot = Slot::new(64, true);
    mint("Secretariat", 10, 10, 10, &mut slot);
    let (name, velocity, durability, stability) = HorseRacing::get_horse_stats(&slot).unwrap();
    assert_eq!(name, "Secretariat");
    assert_eq!((velocity, durability, stability), (10, 10, 10));
}

#[test]
fn upgrade_then_get_stats() {
    let mut slot = Slot::new(64, true);
    mint("Secretariat", 10, 10, 10, &mut slot);
    HorseRacing::upgrade_horse_stats(5, 0, 2, &mut slot).unwrap();
    let (name, velocity, durability, stability) = HorseRacing::get_horse_stats(&slot).unwrap();
    assert_eq!(name, "Secretariat");
    assert_eq!((velocity, durability, stability), (15, 10, 12));
}

#[test]
fn create_into_too_small_empty_slot() {
    // "Secretariat" encodes to 17 + 11 bytes; a 20-byte slot cannot hold it.
    let mut slot = Slot::new(20, true);
    let r = HorseRacing::mint_horse(String::from("Secretariat"), 10, 10, 10, &mut slot);
    assert_eq!(r.unwrap_err(), HorseError::CapacityExceeded);
    // The slot is still uninitialized, so reading it reports Malformed.
    assert_eq!(
        HorseRacing::get_horse_stats(&slot).unwrap_err(),
        HorseError::Malformed
    );
}

#[test]
fn failed_create_preserves_existing_record() {
    let mut slot = Slot::new(24, true);
    mint("Bold", 1, 2, 3, &mut slot);
    let r = HorseRacing::mint_horse(String::from("Whirlaway"), 4, 5, 6, &mut slot);
    assert_eq!(r.unwrap_err(), HorseError::CapacityExceeded);
    let (name, velocity, durability, stability) = HorseRacing::get_horse_stats(&slot).unwrap();
    assert_eq!(name, "Bold");
    assert_eq!((velocity, durability, stability), (1, 2, 3));
}

#[test]
fn create_discards_prior_contents() {
    let mut slot = Slot::new(40, true);
    mint("Longernamehere", 9, 9, 9, &mut slot);
    mint("Shorter", 1, 1, 1, &mut slot);
    let h = HorseRacing::get_owned_horse(&slot).unwrap();
    assert_eq!(h.name, "Shorter");
    assert_eq!(h.velocity, 1);
}

#[test]
fn read_is_idempotent() {
    let mut slot = Slot::new(64, true);
    mint("Citation", 3, 4, 5, &mut slot);
    let a = HorseRacing::get_owned_horse(&slot).unwrap();
    let b = HorseRacing::get_owned_horse(&slot).unwrap();
    assert_eq!(a.name, b.name);
    assert_eq!(a.velocity, b.velocity);
    assert_eq!(a.durability, b.durability);
    assert_eq!(a.stability, b.stability);
}

#[test]
fn upgrade_overflow_leaves_slot_unchanged() {
    let mut slot = Slot::new(64, true);
    mint("Limit", u32::MAX - 1, 0, 0, &mut slot);
    let r = HorseRacing::upgrade_horse_stats(2, 0, 0, &mut slot);
    assert_eq!(r.unwrap_err(), HorseError::Overflow);
    let (_, velocity, durability, _) = HorseRacing::get_horse_stats(&slot).unwrap();
    assert_eq!(velocity, u32::MAX - 1);
    assert_eq!(durability, 0);
    // An increment that lands exactly on the limit still goes through.
    HorseRacing::upgrade_horse_stats(1, 0, 0, &mut slot).unwrap();
    let (_, velocity, _, _) = HorseRacing::get_horse_stats(&slot).unwrap();
    assert_eq!(velocity, u32::MAX);
}

#[test]
fn write_denied_on_readonly_slot() {
    let mut slot = Slot::new(64, false);
    let r = HorseRacing::mint_horse(String::from("Frozen"), 1, 1, 1, &mut slot);
    assert_eq!(r.unwrap_err(), HorseError::WriteDenied);
}

#[test]
fn upgrade_denied_on_readonly_slot() {
    let mut slot = Slot::new(64, true);
    mint("Granite", 1, 1, 1, &mut slot);
    let bytes = slot.read();
    let mut frozen = Slot::from_bytes(bytes, false);
    let r = HorseRacing::upgrade_horse_stats(1, 1, 1, &mut frozen);
    assert_eq!(r.unwrap_err(), HorseError::WriteDenied);
    let (_, velocity, _, _) = HorseRacing::get_horse_stats(&frozen).unwrap();
    assert_eq!(velocity, 1);
}

#[test]
fn mint_rejects_oversized_name() {
    let mut slot = Slot::new(4096, true);
    let r = HorseRacing::mint_horse("a".repeat(1025), 1, 1, 1, &mut slot);
    assert_eq!(r.unwrap_err(), HorseError::NameTooLong);
}

#[test]
fn session_stubs_succeed() {
    assert_eq!(HorseRacing::start_race(), Ok(()));
    assert_eq!(HorseRacing::end_race(), Ok(()));
}

#[test]
fn slot_write_zero_pads_remainder() {
    let mut slot = Slot::from_bytes(vec![0xAA; 8], true);
    slot.write(&[1, 2, 3]).unwrap();
    assert_eq!(slot.read(), vec![1, 2, 3, 0, 0, 0, 0, 0]);
}

#[test]
fn slot_write_rejects_oversized_input() {
    let mut slot = Slot::from_bytes(vec![0xAA; 4], true);
    let r = slot.write(&[0; 5]);
    assert_eq!(r.unwrap_err(), HorseError::CapacityExceeded);
    assert_eq!(slot.read(), vec![0xAA; 4]);
}

fn create_payload(name: &str, velocity: u32, durability: u32, stability: u32) -> Vec<u8> {
    let record = Horse { name: String::from(name), velocity, durability, stability }
        .encode()
        .unwrap();
    let mut payload = vec![SEL_CREATE];
    payload.extend_from_slice(&record);
    payload
}

fn upgrade_payload(velocity_inc: u32, durability_inc: u32, stability_inc: u32) -> Vec<u8> {
    let mut payload = vec![SEL_UPGRADE_STATS];
    payload.extend_from_slice(&velocity_inc.to_le_bytes());
    payload.extend_from_slice(&durability_inc.to_le_bytes());
    payload.extend_from_slice(&stability_inc.to_le_bytes());
    payload
}

#[test]
fn dispatch_create_read_upgrade() {
    let mut slots = vec![Slot::new(64, true)];
    process_instruction(&mut slots, &create_payload("Man o War", 2, 3, 4)).unwrap();
    process_instruction(&mut slots, &[SEL_READ]).unwrap();
    process_instruction(&mut slots, &[SEL_GET_STATS]).unwrap();
    process_instruction(&mut slots, &upgrade_payload(1, 0, 6)).unwrap();
    let (name, velocity, durability, stability) =
        HorseRacing::get_horse_stats(&slots[0]).unwrap();
    assert_eq!(name, "Man o War");
    assert_eq!((velocity, durability, stability), (3, 3, 10));
}

#[test]
fn dispatch_unknown_selector_mutates_nothing() {
    let mut slots = vec![Slot::new(64, true)];
    process_instruction(&mut slots, &create_payload("Steady", 1, 1, 1)).unwrap();
    let before = slots[0].read();
    let r = process_instruction(&mut slots, &[0xFF]);
    assert_eq!(r.unwrap_err(), HorseError::UnknownOperation);
    assert_eq!(slots[0].read(), before);
}

#[test]
fn dispatch_empty_payload_is_malformed() {
    let mut slots = vec![Slot::new(64, true)];
    let r = process_instruction(&mut slots, &[]);
    assert_eq!(r.unwrap_err(), HorseError::Malformed);
}

#[test]
fn dispatch_without_slots() {
    let mut slots: Vec<Slot> = Vec::new();
    let r = process_instruction(&mut slots, &create_payload("Nowhere", 1, 1, 1));
    assert_eq!(r.unwrap_err(), HorseError::MissingSlot);
    assert_eq!(
        process_instruction(&mut slots, &[SEL_READ]).unwrap_err(),
        HorseError::MissingSlot
    );
    // The session stubs need no slot at all.
    assert_eq!(process_instruction(&mut slots, &[SEL_START_RACE]), Ok(()));
}

#[test]
fn dispatch_short_upgrade_payload_is_malformed() {
    let mut slots = vec![Slot::new(64, true)];
    process_instruction(&mut slots, &create_payload("Stable", 1, 1, 1)).unwrap();
    let before = slots[0].read();
    let r = process_instruction(&mut slots, &[SEL_UPGRADE_STATS, 9, 9]);
    assert_eq!(r.unwrap_err(), HorseError::Malformed);
    assert_eq!(slots[0].read(), before);
}

#[test]
fn dispatch_sessions_leave_slots_alone() {
    let mut slots = vec![Slot::new(32, true)];
    process_instruction(&mut slots, &create_payload("Idle", 5, 5, 5)).unwrap();
    let before = slots[0].read();
    process_instruction(&mut slots, &[SEL_START_RACE]).unwrap();
    process_instruction(&mut slots, &[SEL_END_RACE]).unwrap();
    assert_eq!(slots[0].read(), before);
}

#[test]
fn dispatch_create_with_garbage_arguments() {
    let mut slots = vec![Slot::new(64, true)];
    let r = process_instruction(&mut slots, &[SEL_CREATE, 0, 0, 0]);
    assert_eq!(r.unwrap_err(), HorseError::Malformed);
    assert_eq!(
        HorseRacing::get_owned_horse(&slots[0]).unwrap_err(),
        HorseError::Malformed
    );
}

#[test]
fn dispatch_propagates_operation_errors() {
    // A create that does not fit is relayed unchanged to the caller.
    let mut slots = vec![Slot::new(20, true)];
    let r = process_instruction(&mut slots, &create_payload("Secretariat", 1, 1, 1));
    assert_eq!(r.unwrap_err(), HorseError::CapacityExceeded);
    // Reading the still-empty slot is relayed as Malformed.
    assert_eq!(
        process_instruction(&mut slots, &[SEL_GET_STATS]).unwrap_err(),
        HorseError::Malformed
    );
}
