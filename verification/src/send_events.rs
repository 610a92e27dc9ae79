//! The control-channel wire format: a generic envelope carrying a numeric
//! event-type tag and a payload, written out as JSON by hand against a
//! character-exact specification. The hello message is the first event of
//! every connection and carries the session's audio port.

use vstd::prelude::*;
use vstd::string::*;

use crate::decimal::dec_seq;
use crate::decimal::u32_to_string;

verus! {

/// The extensible message envelope of every control-channel event.
pub struct EventWrapper<T> {
    pub event_type: u32,
    pub data: T,
}

/// The first message sent to a newly connected participant: the session's
/// audio port.
#[derive(Clone, Copy, Debug, PartialEq, Eq)]
pub struct HelloEvent {
    pub port: u16,
}

/// The JSON text of an envelope around an already-serialized payload.
pub open spec fn event_json(event_type: u32, data: Seq<char>) -> Seq<char> {
    "{\"event_type\":"@ + dec_seq(event_type as nat) + ",\"data\":"@ + data + "}"@
}

/// The JSON text of the hello payload.
pub open spec fn hello_data_json(port: u16) -> Seq<char> {
    "{\"port\":"@ + dec_seq(port as nat) + "}"@
}

/// The JSON text of the whole hello message.
pub open spec fn hello_event_json(port: u16) -> Seq<char> {
    event_json(1, hello_data_json(port))
}

/// Writes the envelope around an already-serialized payload.
pub fn serialize_envelope(event_type: u32, data_json: &str) -> (r: String)
    ensures
        r@ == event_json(event_type, data_json@),
{
    let mut out = String::from_str("{\"event_type\":");
    let tag = u32_to_string(event_type);
    out.append(tag.as_str());
    out.append(",\"data\":");
    out.append(data_json);
    out.append("}");
    proof {
        assert(out@ =~= event_json(event_type, data_json@));
    }
    out
}

impl<T> EventWrapper<T> {
    /// Wraps an already-serialized payload under this envelope's tag.
    pub fn envelope_json(&self, data_json: &str) -> (r: String)
        ensures
            r@ == event_json(self.event_type, data_json@),
    {
        serialize_envelope(self.event_type, data_json)
    }
}

impl HelloEvent {
    /// The numeric tag of the hello event.
    pub fn event_type(&self) -> (t: u32)
        ensures
            t == 1,
    {
        1
    }

    /// Writes the hello payload.
    pub fn data_json(&self) -> (r: String)
        ensures
            r@ == hello_data_json(self.port),
    {
        let mut out = String::from_str("{\"port\":");
        let num = u32_to_string(self.port as u32);
        out.append(num.as_str());
        out.append("}");
        proof {
            assert(out@ =~= hello_data_json(self.port));
        }
        out
    }

    /// Writes the whole hello message: the envelope around the payload.
    pub fn serialize_event(&self) -> (r: String)
        ensures
            r@ == hello_event_json(self.port),
    {
        let wrapper = EventWrapper { event_type: self.event_type(), data: *self };
        let data = self.data_json();
        wrapper.envelope_json(data.as_str())
    }
}

} // verus!
