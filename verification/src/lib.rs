//! A typed signal dispatch core: a marshaling layer between dynamically
//! tagged values and fixed-arity argument tuples, signal descriptors with
//! detail routing, an accumulator protocol combining listener return values,
//! a connection registry, and a pollable stream bridge over a listener
//! registration.

pub mod borrowed_object;
pub mod descriptor;
pub mod dispatch;
pub mod marshal;
pub mod pointer;
pub mod signal_stream;
pub mod value;

pub use borrowed_object::BorrowedObject;
pub use descriptor::{Accumulator, ConnectDetails, DetailedSignal, SignalDescriptor, SignalFlags};
pub use dispatch::{ConnectError, Dispatcher, Emission, Listener, WeakRef};
pub use marshal::{ArgumentTuple, MarshalError};
pub use pointer::Pointer;
pub use signal_stream::{ConnectEof, OnceFuture, OncePoll, SelfPoll, SignalStream, SignalStreamSelf, StreamPoll};
pub use value::{DynamicValue, PrimitiveValue, TypeTag};
