//! A declarative HTTP resource engine.
//!
//! A [`resource::Resource`] describes what one endpoint accepts and provides.
//! The engine in [`flow`] walks the fixed decision graph of [`graph`] over a
//! request, consulting the resource and the negotiation of [`conneg`], and
//! ends in a response head followed by the body that a handler produces.
//!
//! What the engine answers is tied to what the resource has answered: every
//! outcome of a node rests on answers that the resource gave to the calls
//! that the node made. [`reading`] and [`refusal`] say what follows from
//! that for a resource that keeps its defaults, and [`posting`] for one
//! that creates on POST.

pub mod conneg;
pub mod decision;
pub mod exchange;
pub mod flow;
pub mod graph;
pub mod media;
pub mod message;
pub mod nodes;
pub mod posting;
pub mod precondition;
pub mod reading;
pub mod refusal;
pub mod resource;
pub mod text;
