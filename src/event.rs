//! Events as the dispatcher sees them: a name and the payload handed to
//! every command that the event triggers.

use vstd::prelude::*;

verus! {

/// An event: the name that listeners match against, and the serialized
/// event that commands read.
pub struct Event {
    pub name: String,
    pub payload: Vec<u8>,
}

/// Why a decoded event cannot be handled.
pub enum DecodeError {
    /// The event is not an object.
    NotAnObject,
    /// The event is an object with this many keys, where it must have one.
    KeyCount(usize),
}

/// Builds an event from the top-level keys of its decoded form (`None`
/// where it is not an object) and its serialization. An event is an object
/// with exactly one key, which is its name.
pub fn event_from_object(keys: Option<Vec<String>>, payload: Vec<u8>) -> (r: Result<
    Event,
    DecodeError,
>)
    ensures
        keys is None <==> r matches Err(DecodeError::NotAnObject),
        keys matches Some(k) ==> match r {
            Ok(e) => k@.len() == 1 && e.name@ == k@[0]@ && e.payload@ == payload@,
            Err(DecodeError::KeyCount(c)) => k@.len() != 1 && c == k@.len(),
            Err(DecodeError::NotAnObject) => false,
        },
{
    match keys {
        None => Err(DecodeError::NotAnObject),
        Some(mut k) => {
            if k.len() != 1 {
                Err(DecodeError::KeyCount(k.len()))
            } else {
                let name = k.remove(0);
                Ok(Event { name, payload })
            }
        },
    }
}

} // verus!
