//! Two poll-based adapters: a future driven by a polling function, and a
//! stream unfolded from a seed by a step function that yields futures.

use vstd::prelude::*;

pub use futures_core::{Future, Stream};
pub use futures_io::{AsyncRead, AsyncSeek, AsyncWrite};

pub mod future;
pub mod stream;

verus! {

/// The result of one poll: `Ready` with a value, or `Pending`.
#[verifier::external_type_specification]
pub struct ExPoll<T>(std::task::Poll<T>);

/// The waking context handed to a poll; carried through, never inspected.
#[verifier::external_type_specification]
#[verifier::external_body]
pub struct ExContext<'a>(std::task::Context<'a>);

/// A pointer whose target stays at its address; carried through, never inspected.
#[verifier::external_type_specification]
#[verifier::external_body]
#[verifier::reject_recursive_types(Ptr)]
pub struct ExPin<Ptr>(std::pin::Pin<Ptr>);

} // verus!
