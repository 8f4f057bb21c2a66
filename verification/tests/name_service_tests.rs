use std::str::FromStr;
use indexer_read::name_service;

#[test]
fn test_name_service_outputs() {
    assert_eq!(
        name_service::Domain::from_str("@test").unwrap().to_string() == "test.sui",
        true
    );
    assert_eq!(
        name_service::Domain::from_str("test.sui")
            .unwrap()
            .to_string()
            == "test.sui",
        true
    );
    assert_eq!(
        name_service::Domain::from_str("@test@sui")
            .unwrap()
            .to_string()
            == "test.sui",
        true
    );
    assert_eq!(
        name_service::Domain::from_str("test@test@sui")
            .unwrap()
            .to_string()
            == "test.test.sui",
        true
    );
    assert_eq!(
        name_service::Domain::from_str("test.test")
            .unwrap()
            .to_string()
            == "test.test.sui",
        true
    );
    assert_eq!(
        name_service::Domain::from_str("test@test")
            .unwrap()
            .to_string()
            == "test.test.sui",
        true
    );
    assert_eq!(
        name_service::Domain::from_str("test@sui")
            .unwrap()
            .to_string()
            == "test.sui",
        true
    );
    assert_eq!(
        name_service::Domain::from_str("test").unwrap().to_string() == "test.sui",
        true
    );
}

#[test]
fn test_tld_formatted_sld_outputs() {
    assert_eq!(
        name_service::Domain::from_str("@sui").unwrap().to_string() == "sui.sui",
        true
    );
    assert_eq!(
        name_service::Domain::from_str("@sui@sui")
            .unwrap()
            .to_string()
            == "sui.sui",
        true
    );
}

#[test]
fn rejects_empty_and_bad_labels() {
    assert_eq!(
        name_service::Domain::from_str(""),
        Err(name_service::NameServiceError::InvalidLabel)
    );
    assert_eq!(
        name_service::Domain::from_str("@"),
        Err(name_service::NameServiceError::InvalidLabel)
    );
    assert_eq!(
        name_service::Domain::from_str("-test.sui"),
        Err(name_service::NameServiceError::InvalidLabel)
    );
    assert_eq!(
        name_service::Domain::from_str("test-.sui"),
        Err(name_service::NameServiceError::InvalidLabel)
    );
    assert_eq!(
        name_service::Domain::from_str("Test.sui"),
        Err(name_service::NameServiceError::InvalidLabel)
    );
    assert_eq!(
        name_service::Domain::from_str("te st.sui"),
        Err(name_service::NameServiceError::InvalidLabel)
    );
    assert_eq!(
        name_service::Domain::from_str("a..b"),
        Err(name_service::NameServiceError::InvalidLabel)
    );
}

#[test]
fn keeps_inner_hyphens_and_digits() {
    assert_eq!(
        name_service::Domain::from_str("my-name42.sui")
            .unwrap()
            .to_string(),
        "my-name42.sui".to_owned()
    );
    assert_eq!(
        name_service::Domain::from_str("a.b.c.sui").unwrap().to_string(),
        "a.b.c.sui".to_owned()
    );
}
