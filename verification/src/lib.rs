//! SOAP backend: tool calls as SOAP 1.1 and 1.2 envelopes over HTTP.
//!
//! One binding is one SOAP operation. A call renders the binding's templates
//! with its arguments, wraps the result in an envelope, posts it, looks in
//! the response for a fault, and answers with one JSON document.
//!
//! - [`types`]: versions, binding specs, errors, what came back over HTTP.
//! - [`registration`]: how a binding is checked and set up.
//! - [`call`] and [`call_state`]: how a call is carried out.
//! - [`xml`]: escaping, and the request envelope.
//! - [`request`] and [`response`]: what is sent, and what a response means.
//! - [`xml_events`] and [`references`]: a document as a list of events, and
//!   what references in it stand for.
//! - [`fault`] and [`projection`]: the fault of a document, and its JSON view.
//! - [`envelope`] and [`outcome`]: the answer, and how a call is counted and
//!   audited.
//! - [`text`], [`string_map`] and [`json`]: what all of this is built from.
//! - [`tree`]: a document as a tree of elements, which laws are stated over.
//!
//! The modules with `laws` in their name hold what follows for all inputs.

pub mod call;
pub mod call_laws;
pub mod call_state;
pub mod envelope;
pub mod escape_laws;
pub mod fault;
pub mod fault_element_laws;
pub mod fault_laws;
pub mod json;
pub mod outcome;
pub mod projection;
pub mod projection_element_laws;
pub mod projection_laws;
pub mod references;
pub mod registration;
pub mod request;
pub mod response;
pub mod string_map;
pub mod text;
pub mod tree;
pub mod types;
pub mod view_laws;
pub mod xml;
pub mod xml_events;
