use denia::credentials::{
    is_blank_document, read_dotenv_key, validate_ref_name, CredentialStore, CredentialError, CredentialEvent, CredentialInfo,
    DOCUMENT_VERSION,
};

#[test]
fn ref_name_grammar() {
    assert!(validate_ref_name("DEEPSEEK_API_KEY").is_ok());
    assert!(validate_ref_name("_X1").is_ok());
    assert!(validate_ref_name("1KEY").is_err());
    assert!(validate_ref_name("has-dash").is_err());
    assert!(validate_ref_name("").is_err());
}

#[test]
fn dotenv_parsing() {
    let contents = "# comment\nFOO=bar\nexport BAZ=\"quoted\"\nEMPTY=\nQUOTED='single'\n";
    assert_eq!(read_dotenv_key(contents, "FOO").as_deref(), Some("bar"));
    assert_eq!(read_dotenv_key(contents, "BAZ").as_deref(), Some("quoted"));
    assert_eq!(read_dotenv_key(contents, "EMPTY").as_deref(), Some(""));
    assert_eq!(read_dotenv_key(contents, "QUOTED").as_deref(), Some("single"));
    assert_eq!(read_dotenv_key(contents, "ABSENT"), None);
}

#[test]
fn stored_key_is_read_back_and_removed() {
    let mut doc = CredentialStore::default();
    assert_eq!(doc.set("KEY", "secret", &None), Ok(()));
    assert_eq!(doc.get("KEY"), Some("secret"));
    let found = doc.resolve("KEY", &None, &Ok(None), &Ok(None)).unwrap().unwrap();
    assert_eq!(found.value, "secret");
    assert_eq!(doc.unset("KEY", &None), Ok(true));
    assert_eq!(doc.unset("KEY", &None), Ok(false));
    assert_eq!(doc.resolve("KEY", &None, &Ok(None), &Ok(None)), Ok(None));
}

#[test]
fn environment_is_asked_first() {
    let mut doc = CredentialStore::default();
    assert_eq!(doc.set("KEY", "stored", &None), Ok(()));
    let env = Some("from-env".to_string());
    let found = doc.resolve("KEY", &env, &Ok(None), &Ok(None)).unwrap().unwrap();
    assert_eq!(found.value, "from-env");
    assert!(matches!(doc.set("KEY", "other", &env), Err(CredentialError::Shadowed(_))));
    assert!(matches!(doc.unset("KEY", &env), Err(CredentialError::Shadowed(_))));
}

#[test]
fn each_refusal_has_its_code() {
    let mut doc = CredentialStore::default();
    assert!(matches!(doc.set("1KEY", "x", &None), Err(CredentialError::InvalidRefName(_))));
    assert!(matches!(doc.set("KEY", "", &None), Err(CredentialError::InvalidValue(_))));
    let newer = CredentialStore::check(DOCUMENT_VERSION + 1, Vec::new());
    assert!(matches!(newer, Err(CredentialError::Version(_))));
    for error in [
        CredentialError::InvalidRefName("a".into()),
        CredentialError::InvalidValue("b".into()),
        CredentialError::Shadowed("c".into()),
        CredentialError::Version(9),
        CredentialError::Parse("d".into()),
        CredentialError::Io("e".into()),
    ] {
        assert!(!error.code().is_empty());
        assert!(!error.to_text().is_empty());
    }
}

#[test]
fn description_tells_no_secret() {
    let doc = CredentialStore::default();
    let info = doc.describe("KEY", &None, &Ok(None), &Ok(None)).unwrap();
    assert_eq!(info, CredentialInfo { configured: false, source: None, writable: true });
    let event = CredentialEvent::ReferenceUpdated { reference: "KEY".into() };
    assert_eq!(event, CredentialEvent::ReferenceUpdated { reference: "KEY".into() });
}

#[test]
fn document_is_read_with_its_entries() {
    let refs = vec![("A".to_string(), "1".to_string()), ("B".to_string(), "2".to_string())];
    let doc = CredentialStore::check(DOCUMENT_VERSION, refs).unwrap();
    assert_eq!(doc.entries().len(), 2);
    assert_eq!(doc.get("B"), Some("2"));
    assert_eq!(doc.get("C"), None);
}

#[test]
fn document_of_spaces_is_blank() {
    assert!(is_blank_document(""));
    assert!(is_blank_document(" \n\t "));
    assert!(!is_blank_document("version: 1\n"));
}
