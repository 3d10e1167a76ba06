use holaplex_hub_analytics::events::{int_to_blockchain, RecvError, Services};

#[test]
fn blockchains_are_named_by_number() {
    assert_eq!(int_to_blockchain(1), "Solana");
    assert_eq!(int_to_blockchain(2), "Polygon");
    assert_eq!(int_to_blockchain(3), "Ethereum");
    assert_eq!(int_to_blockchain(0), "Unspecified");
    assert_eq!(int_to_blockchain(4), "Unspecified");
    assert_eq!(int_to_blockchain(-1), "Unspecified");
    assert_eq!(int_to_blockchain(i32::MAX), "Unspecified");
}

#[test]
fn a_message_is_from_the_service_of_its_topic() {
    assert_eq!(Services::from_message("hub-orgs", true, true), Ok(Services::Organizations));
    assert_eq!(Services::from_message("hub-customers", true, true), Ok(Services::Customers));
    assert_eq!(Services::from_message("hub-treasuries", true, true), Ok(Services::Treasuries));
    assert_eq!(Services::from_message("hub-nfts", true, true), Ok(Services::Nfts));
    assert_eq!(Services::from_message("hub-nfts-solana", true, true), Ok(Services::SolanaNfts));
}

#[test]
fn a_message_on_another_topic_is_refused() {
    assert_eq!(
        Services::from_message("hub-nfts-polygon", true, true),
        Err(RecvError::BadTopic("hub-nfts-polygon".to_string()))
    );
    assert_eq!(Services::from_message("", true, true), Err(RecvError::BadTopic(String::new())));
}

#[test]
fn a_message_needs_a_key_and_then_a_payload() {
    assert_eq!(Services::from_message("hub-orgs", false, true), Err(RecvError::MissingKey));
    assert_eq!(Services::from_message("hub-orgs", false, false), Err(RecvError::MissingKey));
    assert_eq!(Services::from_message("hub-orgs", true, false), Err(RecvError::MissingPayload));
    assert_eq!(Services::from_message("nowhere", false, false), Err(RecvError::MissingKey));
    assert_eq!(Services::from_message("nowhere", true, false), Err(RecvError::MissingPayload));
}
