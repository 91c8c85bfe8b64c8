//! Notifications of the upstream source.
//!
//! The modules receive a notification as bytes: its canonical JSON
//! encoding. What the notification says is of no concern to the host.

use vstd::prelude::*;

verus! {

/// A JSON value of `serde_json`. Opaque here: it is only carried to the
/// encoder.
#[verifier::external_type_specification]
#[verifier::external_body]
pub struct ExJsonValue(serde_json::Value);

/// The error of `serde_json`. Opaque here.
#[verifier::external_type_specification]
#[verifier::external_body]
pub struct ExJsonError(serde_json::Error);

/// The bytes that `serde_json::to_vec` writes for a JSON value, `None` if
/// it fails on the value.
pub uninterp spec fn json_encoding(value: serde_json::Value) -> Option<Seq<u8>>;

/// `serde_json::to_vec` on a JSON value: its JSON text as bytes, or the
/// encoder's error. What is written, and whether anything is, is a
/// function of the value.
#[verifier::external_body]
fn json_to_vec(value: &serde_json::Value) -> (encoded: Result<Vec<u8>, serde_json::Error>)
    ensures
        match encoded {
            Ok(bytes) => json_encoding(*value) == Some(bytes@),
            Err(_) => json_encoding(*value).is_none(),
        },
{
    serde_json::to_vec(value)
}

/// The notification could not be encoded.
#[derive(Debug, Clone, Copy, PartialEq, Eq, Structural)]
pub struct EncodeError;

/// A notification from the upstream source, as the bytes that are handed to
/// the modules.
#[derive(Debug)]
pub struct Notification {
    pub payload: Vec<u8>,
}

impl View for Notification {
    type V = Seq<u8>;

    open spec fn view(&self) -> Seq<u8> {
        self.payload@
    }
}

impl Notification {
    /// The notification with that encoding.
    pub fn new(payload: Vec<u8>) -> (notification: Notification)
        ensures
            notification@ == payload@,
    {
        Notification { payload }
    }

    /// The notification that an attempt to encode has made: the one with
    /// the encoded bytes, or none if the encoder failed.
    pub fn from_encoded(encoded: Result<Vec<u8>, serde_json::Error>) -> (notification: Result<
        Notification,
        EncodeError,
    >)
        ensures
            match (encoded, notification) {
                (Ok(bytes), Ok(notification)) => notification@ == bytes@,
                (Err(_), Err(_)) => true,
                _ => false,
            },
    {
        match encoded {
            Ok(payload) => Ok(Notification { payload }),
            Err(_) => Err(EncodeError),
        }
    }

    /// The notification of a JSON value: its canonical encoding is the JSON
    /// text that `serde_json` writes for it. There is none where the
    /// encoder fails on the value.
    pub fn from_json(value: &serde_json::Value) -> (notification: Result<Notification, EncodeError>)
        ensures
            match notification {
                Ok(notification) => json_encoding(*value) == Some(notification@),
                Err(_) => json_encoding(*value).is_none(),
            },
    {
        Notification::from_encoded(json_to_vec(value))
    }

    /// The number of bytes that a module is handed.
    pub fn len(&self) -> (len: usize)
        ensures
            len == self@.len(),
    {
        self.payload.len()
    }
}

} // verus!
