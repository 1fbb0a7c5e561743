//! A verified store for entity records kept in fixed-capacity byte slots.
//!
//! A [`record::Horse`] (a name plus three stat counters) is marshalled into a
//! deterministic, length-prefixed binary layout and held inside a
//! [`slot::Slot`], a fixed-capacity mutable byte buffer supplied by the host.
//! [`store::HorseRacing`] offers the lifecycle operations (create, read,
//! project stats, increment stats), and [`dispatch::process_instruction`]
//! routes an opaque instruction payload to one of them.

pub mod dispatch;
pub mod errors;
pub mod record;
pub mod slot;
pub mod store;
