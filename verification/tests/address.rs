use holochain_core::address::Address;

#[test]
fn address_of_content_is_base58_of_sha2_256_multihash() {
    assert_eq!(
        "QmbXSE38SN3SuJDmHKSSw5qWWegvU7oTxrLDRavWjyxMrT",
        Address::encode_from_str("test entry content").as_str()
    );
    assert_eq!(
        "QmPz5jKXsxq7gPVAbPwx5gD2TqHfqB8n25feX5YH18JXrT",
        Address::encode_from_str("other test entry content").as_str()
    );
}

#[test]
fn address_of_empty_content() {
    assert_eq!(
        "QmdfTbBqBPQ7VNxZEYEj14VmRuZBkqFbiwReogJgS1zR1n",
        Address::encode_from_str("").as_str()
    );
}

#[test]
fn address_is_deterministic_and_tells_contents_apart() {
    assert_eq!(
        Address::encode_from_str("some content"),
        Address::encode_from_str("some content")
    );
    assert_ne!(
        Address::encode_from_str("some content"),
        Address::encode_from_str("some other content")
    );
}

#[test]
fn address_new_is_empty() {
    assert_eq!("", Address::new().as_str());
    assert_eq!(Address::new(), Address::from_text(""));
}

#[test]
fn address_from_text_keeps_the_text() {
    let address = Address::from_text("QmbXSE38SN3SuJDmHKSSw5qWWegvU7oTxrLDRavWjyxMrT");
    assert_eq!(
        "QmbXSE38SN3SuJDmHKSSw5qWWegvU7oTxrLDRavWjyxMrT",
        address.as_str()
    );
    assert_eq!(address, Address::encode_from_str("test entry content"));
    assert_eq!(address, address.clone());
}
