use affine_native::mobile::{
    db_path_parts, escape_filename, spaces_dir, SpaceType, StorageOptions, UniffiError,
};

#[test]
fn test_escape_filename() {
    assert_eq!(escape_filename("hello@world"), "hello_world");
    assert_eq!(escape_filename("test!!file"), "test_file");
    assert_eq!(escape_filename("_test_"), "_test"); // Leading underscore preserved
    assert_eq!(escape_filename("multi___under"), "multi_under");
    assert_eq!(escape_filename("path/to\\file"), "path_to_file");
}

#[test]
fn escape_filename_at_the_edges() {
    assert_eq!(escape_filename(""), "");
    assert_eq!(escape_filename("___"), "");
    assert_eq!(escape_filename("\\/!@#$%^&*()+~`\"':;,?<>|"), "");
    assert_eq!(escape_filename("a-b.c d"), "a-b.c d");
    assert_eq!(escape_filename("a_!_b"), "a_b");
    assert_eq!(escape_filename("würfel@straße"), "würfel_straße");
    assert_eq!(escape_filename("x?"), "x");
}

#[test]
fn store_lies_below_the_kind_of_space() {
    let options = StorageOptions {
        peer: "https://app.example.com".to_string(),
        space_type: SpaceType::Workspace,
        id: "space-1".to_string(),
    };
    assert_eq!(
        db_path_parts(&options),
        vec![".affine", "workspaces", "https_app.example.com", "space-1", "storage.db"]
    );
    assert_eq!(spaces_dir(SpaceType::Userspace), "userspaces");
}

#[test]
fn client_errors_in_words() {
    assert_eq!(
        UniffiError::GetUserDocumentDirectoryFailed.message(),
        "Get user document directory failed"
    );
    assert_eq!(
        UniffiError::CreateAffineDirFailed("/x".to_string()).message(),
        "Create affine dir failed: /x"
    );
    assert_eq!(UniffiError::EmptyDocStoragePath.message(), "Empty doc storage path");
    assert_eq!(UniffiError::EmptySpaceId.message(), "Empty space id");
    assert_eq!(UniffiError::SqlxError("locked".to_string()).message(), "Sqlx error: locked");
    assert_eq!(
        UniffiError::Base64DecodingError("bad".to_string()).message(),
        "Base64 decoding error: bad"
    );
    assert_eq!(UniffiError::TimestampDecodingError.message(), "Timestamp decoding error");
    assert_eq!(
        UniffiError::InvalidUniversalId("u".to_string()).message(),
        "Invalid universal storage id: u. It should be in format of @peer($peer);@type($type);@id($id);"
    );
    assert_eq!(UniffiError::InvalidSpaceType("t".to_string()).message(), "Invalid space type: t");
    assert_eq!(
        UniffiError::ConcatSpaceDirFailed("p".to_string()).message(),
        "Concat space dir failed: p"
    );
    assert_eq!(UniffiError::Failed("e".to_string()).message(), "Error: e");
}

#[test]
fn escaped_names_are_clean_and_stay_as_they_are() {
    for name in ["hello@world", "a__b!!c__", "___", "", "x/y\\z:;,?", "_lead_", "plain", "a_b"] {
        let once = escape_filename(name);
        assert!(!once.contains("__"), "{once}");
        assert!(!once.ends_with('_'), "{once}");
        assert!(!once.chars().any(|c| "\\/!@#$%^&*()+~`\"':;,?<>|".contains(c)), "{once}");
        assert!(once.chars().count() <= name.chars().count());
        assert_eq!(escape_filename(&once), once);
    }
}
