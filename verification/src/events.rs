//! The events that the write side takes in: which service a message is
//! from, and how a blockchain is named.

use vstd::prelude::*;
use crate::text::str_eq;

verus! {

/// The name of a blockchain by its number.
pub open spec fn blockchain_name(n: i32) -> Seq<char> {
    if n == 1 {
        "Solana"@
    } else if n == 2 {
        "Polygon"@
    } else if n == 3 {
        "Ethereum"@
    } else {
        "Unspecified"@
    }
}

/// Names a blockchain by its number.
pub fn int_to_blockchain(n: i32) -> (r: String)
    ensures
        r@ == blockchain_name(n),
{
    match n {
        1 => "Solana",
        2 => "Polygon",
        3 => "Ethereum",
        _ => "Unspecified",
    }.to_owned()
}

/// The services whose events are taken in.
#[derive(Debug, Clone, Copy, PartialEq, Eq, Structural)]
pub enum Services {
    Organizations,
    Customers,
    Treasuries,
    Nfts,
    SolanaNfts,
}

/// Why a message is not taken in.
#[derive(Debug, PartialEq, Eq)]
pub enum RecvError {
    MissingKey,
    MissingPayload,
    BadTopic(String),
}

impl Services {
    /// The service that writes to a topic.
    pub open spec fn of_topic(topic: Seq<char>) -> Option<Services> {
        if topic == "hub-orgs"@ {
            Some(Services::Organizations)
        } else if topic == "hub-customers"@ {
            Some(Services::Customers)
        } else if topic == "hub-treasuries"@ {
            Some(Services::Treasuries)
        } else if topic == "hub-nfts"@ {
            Some(Services::Nfts)
        } else if topic == "hub-nfts-solana"@ {
            Some(Services::SolanaNfts)
        } else {
            None
        }
    }

    /// The service that a message is from. A message needs a key and a
    /// payload, which are asked for in this order, and a topic that one of
    /// the services writes to.
    pub fn from_message(topic: &str, has_key: bool, has_payload: bool) -> (r: Result<
        Services,
        RecvError,
    >)
        ensures
            !has_key ==> r == Err::<Services, RecvError>(RecvError::MissingKey),
            has_key && !has_payload ==> r == Err::<Services, RecvError>(RecvError::MissingPayload),
            has_key && has_payload ==> match Services::of_topic(topic@) {
                Some(service) => r == Ok::<Services, RecvError>(service),
                None => r matches Err(RecvError::BadTopic(t)) && t@ == topic@,
            },
    {
        if !has_key {
            return Err(RecvError::MissingKey);
        }
        if !has_payload {
            return Err(RecvError::MissingPayload);
        }
        if str_eq(topic, "hub-orgs") {
            Ok(Services::Organizations)
        } else if str_eq(topic, "hub-customers") {
            Ok(Services::Customers)
        } else if str_eq(topic, "hub-treasuries") {
            Ok(Services::Treasuries)
        } else if str_eq(topic, "hub-nfts") {
            Ok(Services::Nfts)
        } else if str_eq(topic, "hub-nfts-solana") {
            Ok(Services::SolanaNfts)
        } else {
            Err(RecvError::BadTopic(topic.to_owned()))
        }
    }
}

} // verus!
