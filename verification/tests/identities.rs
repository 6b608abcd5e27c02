use candid::Principal;
use quickstart_scaling::identity::{
    clone_identities, contains_identity, Identity, ANONYMOUS_TAG, MAX_IDENTITY_BYTES,
};

#[test]
fn anonymous_is_the_tag_byte() {
    let anonymous = Identity::anonymous();
    assert_eq!(anonymous.as_slice(), &[ANONYMOUS_TAG]);
    assert_eq!(anonymous.as_slice(), Principal::anonymous().as_slice());
    assert!(anonymous.is_anonymous());
    assert!(!Identity::from_slice(&[4, 0]).is_anonymous());
    assert!(!Identity::from_slice(&[]).is_anonymous());
    assert!(!Identity::from_slice(&[5]).is_anonymous());
}

#[test]
fn management_canister_has_no_bytes() {
    let id = Identity::management_canister();
    assert_eq!(id.len(), 0);
    assert_eq!(id.as_slice(), Principal::management_canister().as_slice());
    assert_eq!(id.to_text(), "aaaaa-aa");
}

#[test]
fn slices_longer_than_the_bound_are_refused() {
    let long = [7u8; MAX_IDENTITY_BYTES + 1];
    assert!(Identity::try_from_slice(&long).is_none());
    let fits = [7u8; MAX_IDENTITY_BYTES];
    let id = Identity::try_from_slice(&fits).unwrap();
    assert_eq!(id.len(), 29);
    assert_eq!(id.as_slice(), &fits);
}

#[test]
fn same_as_compares_bytes() {
    let a = Identity::from_slice(&[1, 2, 3]);
    assert!(a.same_as(&Identity::from_slice(&[1, 2, 3])));
    assert!(!a.same_as(&Identity::from_slice(&[1, 2])));
    assert!(!a.same_as(&Identity::from_slice(&[1, 2, 4])));
    assert!(a.same_as(&a.clone()));
}

#[test]
fn text_form_is_that_of_the_principal() {
    assert_eq!(Identity::from_slice(&[1]).to_text(), "uuc56-gyb");
    assert_eq!(Identity::from_slice(&[2]).to_text(), "hqgi5-iic");
    assert_eq!(Identity::from_slice(&[3]).to_text(), "jmf34-nyd");
    assert_eq!(Identity::anonymous().to_text(), "2vxsx-fae");
    let bytes = [0xefu8, 0xcd, 0xab, 0, 0, 0, 0, 0, 1];
    assert_eq!(Identity::from_slice(&bytes).to_text(), Principal::from_slice(&bytes).to_text());
    assert_eq!(Identity::from_slice(&bytes).to_text(), "2chl6-4hpzw-vqaaa-aaaaa-c");
}

#[test]
fn text_is_parsed_as_the_principal_parses_it() {
    assert_eq!(Identity::from_text("hqgi5-iic"), Some(Identity::from_slice(&[2])));
    assert_eq!(Identity::from_text("aaaaa-aa"), Some(Identity::management_canister()));
    assert_eq!(Identity::from_text("2vxsx-fae"), Some(Identity::anonymous()));
    assert_eq!(Identity::from_text("hqgi5-iid"), None);
    assert_eq!(Identity::from_text("hqgi5iic"), None);
    assert_eq!(Identity::from_text(""), None);
    assert_eq!(Identity::from_text("not a principal"), None);
    let text = "l6s27-7ndcl-nowe5-xeyf7-ymdnq-dkemz-jkhfw-zr5wu-jvf2p-aupzq-2qe";
    let id = Identity::from_text(text).unwrap();
    assert_eq!(id.as_slice(), Principal::from_text(text).unwrap().as_slice());
    assert_eq!(id.to_text(), text);
}

#[test]
fn lists_of_identities() {
    let ids = vec![Identity::from_slice(&[1]), Identity::from_slice(&[2, 2])];
    assert_eq!(clone_identities(&ids), ids);
    assert!(contains_identity(&ids, &Identity::from_slice(&[2, 2])));
    assert!(!contains_identity(&ids, &Identity::from_slice(&[2])));
    assert!(!contains_identity(&Vec::new(), &Identity::anonymous()));
}
