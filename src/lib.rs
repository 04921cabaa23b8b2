//! Pull-based asynchronous streams and futures, with combinators whose
//! behaviour is stated as contracts and proved: a termination guard, pairing
//! and merging of two streams, bounded pools of concurrent futures, a
//! single-slot channel, accumulation, and item transforms.

pub mod poll;
pub mod stream;
pub mod future;
pub mod iter;
pub mod empty;
pub mod fuse;
pub mod merge;
pub mod zip;
pub mod filling;
pub mod buffered;
pub mod buffer_unordered;
pub mod channel;
pub mod fold;
pub mod collect;
pub mod for_each;
pub mod take;
pub mod skip;
pub mod skip_while;
pub mod map;
pub mod map_err;
pub mod filter;
pub mod filter_map;
pub mod and_then;
pub mod then;
pub mod or_else;
pub mod stream_future;
pub mod peek;
pub mod flatten;
pub mod catching;
