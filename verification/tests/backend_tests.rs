use remotecmd::backend::BackendList;

#[test]
fn backend_names() {
    assert!(matches!(BackendList::from_str("email"), Ok(BackendList::Email)));
    assert!(matches!(BackendList::from_str("matrix"), Ok(BackendList::Matrix)));
}

#[test]
fn unknown_backend_name_is_rejected() {
    assert!(BackendList::from_str("imap").is_err());
    assert!(BackendList::from_str("").is_err());
    assert!(BackendList::from_str("Email").is_err());
}
