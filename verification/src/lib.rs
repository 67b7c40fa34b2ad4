//! Session management for live price subscriptions.
//!
//! Each subscription is a *session*, named by a [`SessionKey`]. A session is
//! backed by one stream worker, which publishes the prices it decodes into a
//! [`PriceStore`] and stops when its cancellation handle is signalled or its
//! connection fails.
//!
//! The data structures here are sequential and fully verified; a host that
//! shares them between tasks puts each behind a lock of its own.

pub mod cancel;
pub mod error;
pub mod key;
pub mod price;
pub mod registry;
pub mod store;
pub mod supervisor;
pub mod table;
pub mod worker;

pub use crate::cancel::{cancel_pair, CancelHandle, CancelWatch, SignalOutcome, CANCEL_BUFFER};
pub use crate::error::{DecodeError, SessionError};
pub use crate::key::SessionKey;
pub use crate::price::Price;
pub use crate::registry::SessionRegistry;
pub use crate::store::PriceStore;
pub use crate::supervisor::SessionSupervisor;
pub use crate::worker::{StreamWorker, WorkerAction, WorkerEvent, WorkerState};
