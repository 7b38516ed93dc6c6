//! A record of the topic log after decoding.

use crate::qos::QoS;
use bytes::Bytes;
use vstd::prelude::*;

verus! {

/// One message of a topic log.
#[derive(Clone, Debug, PartialEq, Eq)]
pub struct Message {
    /// Position in the log; the log reader hands records out in rising order.
    pub offset: u64,
    /// The level at which the producer published.
    pub qos: QoS,
    pub payload: Bytes,
    pub user_properties: Vec<(String, String)>,
    /// Seconds since the epoch at which the broker took the message.
    pub timestamp: u64,
    pub retained: bool,
}

} // verus!
