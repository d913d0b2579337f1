//! Combinators for HTTP request and response bodies.
//!
//! A [`Body`] is polled for frames of data, which trailers may follow. Beside its executable
//! functions each body has a relation, [`Body::steps`], that says what a poll of it may return and
//! what it leaves behind, and the combinators are specified over the relations of the bodies that
//! they are made of.

pub mod body;
pub mod buf;
pub mod combinators;
pub mod error;
pub mod future;
pub mod legacy;
pub mod pending;
pub mod run;
pub mod size_hint;
pub mod trailers;

pub use body::{Body, Frame, Polled};
pub use buf::Buf;
pub use combinators::buffered::{BufBody, Buffered};
pub use combinators::chain::Chain;
pub use error::ErrorBody;
pub use future::{TryFuture, TryFutureBody};
pub use legacy::{LegacyBody, UpgradeBody};
pub use pending::Pending;
pub use size_hint::SizeHint;
