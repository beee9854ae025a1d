//! A virtio network device model.
//!
//! The device moves Ethernet frames between the virtqueues of a guest and a tap, under rate limits,
//! and lets a metadata service answer the guest. It keeps the state and takes the decisions; the
//! host that runs it owns the queues' rings, the limiters' clocks and the file descriptors.
//!
//! - [`device`] holds the device, [`device::Net`]: its configuration, the events that wake it, and
//!   the answers that move it on.
//! - [`protocol`] says what the device asks of its host and how it goes from one request to the
//!   next.
//! - [`guest`] copies frames between the device and the buffers that a guest offers.
//! - [`config`] and [`vnet`] hold the configuration space, feature bits and frame headers.
//! - [`answers`] proves what each event and each answer leads to, told by what the host sees.
//! - [`laws`] proves what holds of single events and answers, and [`runs`] what holds from an event
//!   to the next moment of rest, whatever the host answers and whenever it fetches the effects.
pub mod answers;
pub mod config;
pub mod device;
pub mod guest;
pub mod laws;
pub mod protocol;
pub mod runs;
pub mod vnet;
