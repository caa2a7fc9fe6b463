use pitwall::secret::{attributes, load, store_request, APP_ID, LABEL};

#[test]
fn the_item_is_ours_alone() {
    assert_eq!(
        attributes(),
        vec![("application", "dev.miguelrincon.Pitwall"), ("type", "github-token")]
    );
    assert_eq!(APP_ID, "dev.miguelrincon.Pitwall");
    assert_eq!(LABEL, "Pitwall GitHub token");
}

#[test]
fn a_stored_token_is_decoded() {
    assert_eq!(load(None), Ok(None));
    assert_eq!(load(Some("tökén".as_bytes().to_vec())), Ok(Some("tökén".to_owned())));
    assert_eq!(load(Some(vec![])), Ok(Some(String::new())));
    let err = load(Some(vec![b'a', 0xff])).unwrap_err();
    assert!(err.starts_with("stored token is not valid UTF-8: invalid utf-8"), "{err}");
}

#[test]
fn a_saved_token_is_loaded_again() {
    let request = store_request("tökén");
    assert_eq!(request.label, LABEL);
    assert_eq!(request.attributes, attributes());
    assert!(request.replace);
    assert_eq!(load(Some(request.secret.into_bytes())), Ok(Some("tökén".to_owned())));
}
