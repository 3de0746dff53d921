//! Tag bytes that open every packet on the wire.
use vstd::prelude::*;

verus! {

pub const PING: u8 = 0;

pub const PONG: u8 = 1;

pub const GREETING: u8 = 2;

pub const PUBLISH: u8 = 3;

pub const PUBLISH_RESPONSE: u8 = 4;

pub const SUBSCRIBE: u8 = 5;

pub const SUBSCRIBE_RESPONSE: u8 = 6;

pub const NEW_MESSAGES: u8 = 7;

pub const ALL_MESSAGES_DELIVERED_CONFIRMATION: u8 = 8;

pub const CREATE_TOPIC_IF_NOT_EXISTS: u8 = 9;

pub const REJECT: u8 = 10;

pub const PACKET_VERSIONS: u8 = 11;

pub const ALL_MESSAGES_NOT_DELIVERED_CONFIRMATION: u8 = 12;

pub const CONFIRM_SOME_MESSAGES_AS_OK: u8 = 13;

pub const INTERMEDIARY_CONFIRM: u8 = 14;

/// True for the tag bytes that name a packet kind.
pub open spec fn is_known_tag(b: u8) -> bool {
    b <= 14
}

} // verus!
