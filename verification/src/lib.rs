//! `trapy`: the logic of a Python logging facade that emits real `tracing`
//! events.
//!
//! A call such as `trapy.info("msg", cat="planning", x=1)` becomes an event with
//! one real field per keyword argument, at the caller's source location, under
//! the target `py:<module>`. This library decides what that event is: how a
//! Python object is read ([`value`]), which keyword is what ([`kwargs`]), which
//! callsite is used ([`callsite`]) and which value goes into which field
//! ([`event`]). It does the same for spans and their timing ([`span`],
//! [`timing`]), for events that cross from one cdylib to another ([`capsule`],
//! [`level`]), and for the layers of the subscriber ([`fmt`], [`router`],
//! [`init`], [`directive`]). The interpreter, the dispatcher and all input and output are the
//! caller's.

pub mod callsite;
pub mod capsule;
pub mod directive;
pub mod event;
pub mod fmt;
pub mod init;
pub mod kwargs;
pub mod level;
pub mod router;
pub mod span;
pub mod text;
pub mod timing;
pub mod value;

pub use crate::capsule::{import_trapy_subscriber, CAPSULE_NAME, CAPSULE_VERSION};
pub use crate::event::caller_location;
pub use crate::kwargs::CALLER_SKIP_KWARG;
pub use crate::span::Span;
