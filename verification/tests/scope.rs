use holaplex_hub_analytics::{parse_id_and_root, Error, Id, Scope, ScopeKey, UserID};

const A: Id = Id { bits: 0x936da01f_9abd_4d9d_80c7_02af85c822a8 };
const B: Id = Id { bits: 0x00000000_0000_0000_0000_000000000001 };
const A_TEXT: &str = "936da01f-9abd-4d9d-80c7-02af85c822a8";

#[test]
fn an_organization_alone_is_a_scope() {
    assert_eq!(
        parse_id_and_root(Some(A), None, None),
        Ok(Scope { id: A_TEXT.to_string(), key: ScopeKey::Organization })
    );
}

#[test]
fn a_project_alone_is_a_scope() {
    assert_eq!(
        parse_id_and_root(None, Some(A), None),
        Ok(Scope { id: A_TEXT.to_string(), key: ScopeKey::Project })
    );
}

#[test]
fn a_collection_alone_is_a_scope() {
    assert_eq!(
        parse_id_and_root(None, None, Some(B)),
        Ok(Scope {
            id: "00000000-0000-0000-0000-000000000001".to_string(),
            key: ScopeKey::Collection
        })
    );
}

#[test]
fn no_identifier_is_no_scope() {
    assert_eq!(parse_id_and_root(None, None, None), Err(Error::InvalidScope));
}

#[test]
fn two_identifiers_are_no_scope() {
    assert_eq!(parse_id_and_root(Some(A), Some(B), None), Err(Error::InvalidScope));
    assert_eq!(parse_id_and_root(Some(A), None, Some(B)), Err(Error::InvalidScope));
    assert_eq!(parse_id_and_root(None, Some(A), Some(B)), Err(Error::InvalidScope));
    assert_eq!(parse_id_and_root(Some(A), Some(A), None), Err(Error::InvalidScope));
}

#[test]
fn three_identifiers_are_no_scope() {
    assert_eq!(parse_id_and_root(Some(A), Some(B), Some(A)), Err(Error::InvalidScope));
}

#[test]
fn exactly_one_identifier_succeeds_and_nothing_else() {
    for organization in [None, Some(A)] {
        for project in [None, Some(B)] {
            for collection in [None, Some(A)] {
                let given = [organization, project, collection].iter().filter(|id| id.is_some()).count();
                let resolved = parse_id_and_root(organization, project, collection);
                if given == 1 {
                    assert!(resolved.is_ok());
                } else {
                    assert_eq!(resolved, Err(Error::InvalidScope));
                }
            }
        }
    }
}

#[test]
fn an_identifier_is_written_in_hyphenated_lower_case() {
    assert_eq!(A.to_text(), A_TEXT);
    assert_eq!(Id { bits: 0 }.to_text(), "00000000-0000-0000-0000-000000000000");
    assert_eq!(Id { bits: u128::MAX }.to_text(), "ffffffff-ffff-ffff-ffff-ffffffffffff");
}

#[test]
fn an_identifier_is_read_in_its_usual_forms() {
    assert_eq!(Id::parse(A_TEXT), Some(A));
    assert_eq!(Id::parse("936DA01F-9ABD-4D9D-80C7-02AF85C822A8"), Some(A));
    assert_eq!(Id::parse("936da01f9abd4d9d80c702af85c822a8"), Some(A));
    assert_eq!(Id::parse("{936da01f-9abd-4d9d-80c7-02af85c822a8}"), Some(A));
    assert_eq!(Id::parse("urn:uuid:936da01f-9abd-4d9d-80c7-02af85c822a8"), Some(A));
}

#[test]
fn other_texts_hold_no_identifier() {
    assert_eq!(Id::parse(""), None);
    assert_eq!(Id::parse("936da01f"), None);
    assert_eq!(Id::parse("936da01f-9abd-4d9d-80c7-02af85c822ag"), None);
    assert_eq!(Id::parse("936da01f-9abd-4d9d-80c7-02af85c822a8 "), None);
}

#[test]
fn what_is_written_is_read_back() {
    for bits in [0u128, 1, 0x936da01f_9abd_4d9d_80c7_02af85c822a8, u128::MAX] {
        assert_eq!(Id::parse(&Id { bits }.to_text()), Some(Id { bits }));
    }
}

#[test]
fn a_request_names_its_user_in_a_header_or_not_at_all() {
    assert_eq!(UserID::from_header(None), Ok(UserID(None)));
    assert_eq!(UserID::from_header(Some(A_TEXT)), Ok(UserID(Some(A))));
    assert_eq!(UserID::from_header(Some("")), Err(()));
    assert_eq!(UserID::from_header(Some("me")), Err(()));
}
