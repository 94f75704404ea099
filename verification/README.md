# SOAP backend

The logic of a backend that dispatches tool calls as SOAP 1.1 and 1.2 envelopes
over HTTP, written in Verus. Every function states what it returns for every
input. Verus proves it of all but the few functions that call into `quick-xml`
and the standard library, whose contracts are taken on trust (see below).

## Layout

- `src/`: the verified library. It checks binding specs, escapes arguments,
  builds request envelopes, reads responses for faults, views XML as JSON,
  builds the structured answer, and decides each step of a registration and of
  a call.
- `app/`: the asynchronous plugin around it: JSON documents, template
  rendering, HTTP, metrics and audit.
- `tests/`: tests of the library, run against the real `quick-xml`.

## How a call runs

`call::start` makes the first state of a call. `CallState::step` takes what came
of the last action and gives the next state and the next action, up to
`Finish`. The state tells which event comes next; `call_laws` proves that
answering each action is all that is asked.

## What is taken on trust

XML is read by `quick-xml`. `src/xml_events.rs` declares what is believed of it:
which events it reports of a document is a function of the document alone, and
the small operations (local names, line ends, CDATA, escaping) are stated in
full. `src/text.rs` and `src/references.rs` state what is believed of
`String::push`, `String::from_utf8_lossy` and `char::from_u32`.

## Faults in bodies that are not whole

A body that cannot be read as XML before its fault ends has no fault. One that
just stops, such as a body that was cut off at the response limit, has the fault
with what was read by then: a service that answers with a fault is reported
as such even when the answer is too long.
