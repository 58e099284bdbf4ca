use dropbox_client::decode_listing_response;
use dropbox_client::to_json_string;
use dropbox_client::Client;
use dropbox_client::Error;
use dropbox_client::ListFolderArg;
use dropbox_client::ListFoldersArgs;
use dropbox_client::ListFoldersResult;

#[test]
fn new_accepts_ordinary_token() {
    let client = Client::new("sl.abc-123_XYZ").expect("token should be accepted");
    assert_eq!(client.token, "sl.abc-123_XYZ");
}

#[test]
fn new_rejects_control_characters() {
    assert!(matches!(Client::new("bad\ntoken"), Err(Error::Token)));
    assert!(matches!(Client::new("bad\u{0}token"), Err(Error::Token)));
    assert!(matches!(Client::new("bad\u{7f}token"), Err(Error::Token)));
}

#[test]
fn requests_carry_auth_and_content_type() {
    let client = Client::new("tok").unwrap();
    let folders = client.sharing_list_folders_request(&ListFoldersArgs::default());
    assert_eq!(folders.authorization, "Bearer tok");
    assert_eq!(folders.content_type, "application/json");
    let folder = client.list_folder_request(&ListFolderArg::default());
    assert_eq!(folder.authorization, "Bearer tok");
    assert_eq!(folder.content_type, "application/json");
}

#[test]
fn list_folders_request_has_empty_object_body() {
    let client = Client::new("tok").unwrap();
    let req = client.sharing_list_folders_request(&ListFoldersArgs::default());
    assert_eq!(req.body, "{}");
    assert_eq!(req.url, "https://api.dropboxapi.com/2/sharing/list_folders");
}

#[test]
fn list_folder_request_root_path_body() {
    let client = Client::new("tok").unwrap();
    let req = client.list_folder_request(&ListFolderArg {
        path: String::new(),
    });
    assert_eq!(req.body, "{\"path\":\"\"}");
    assert_eq!(req.url, "https://api.dropboxapi.com/2/files/list_folder");
}

#[test]
fn list_folder_request_escapes_path() {
    let client = Client::new("tok").unwrap();
    let req = client.list_folder_request(&ListFolderArg {
        path: "/a\"b\\c\nd".to_string(),
    });
    assert_eq!(req.body, "{\"path\":\"/a\\\"b\\\\c\\nd\"}");
}

#[test]
fn decode_empty_listing() {
    let res = decode_listing_response(200, "{\"cursor\":null,\"entries\":[]}")
        .expect("well-shaped body should decode");
    assert_eq!(res.cursor, None);
    assert!(res.entries.is_empty());
}

#[test]
fn decode_listing_with_cursor_and_entry() {
    let res = decode_listing_response(200, "{\"cursor\":\"abc\",\"entries\":[{\"id\":\"1\"}]}")
        .expect("well-shaped body should decode");
    assert_eq!(res.cursor, Some("abc".to_string()));
    assert_eq!(res.entries.len(), 1);
    assert_eq!(to_json_string(&res.entries[0]), "{\"id\":\"1\"}");
}

#[test]
fn cursor_is_kept_as_raw_lexeme() {
    let res = decode_listing_response(200, "{\"cursor\":\"a\\nb\",\"entries\":[]}").unwrap();
    assert_eq!(res.cursor, Some("a\\nb".to_string()));
}

#[test]
fn decode_missing_cursor_is_none() {
    let res = decode_listing_response(200, "{\"entries\":[]}").unwrap();
    assert_eq!(res.cursor, None);
    assert!(res.entries.is_empty());
}

#[test]
fn decode_ignores_unknown_fields() {
    let body = "{\"cursor\":\"c\",\"entries\":[],\"has_more\":true}";
    let res = decode_listing_response(200, body).unwrap();
    assert_eq!(res.cursor, Some("c".to_string()));
}

#[test]
fn non_success_status_fails_without_reading_body() {
    let good = "{\"cursor\":null,\"entries\":[]}";
    assert!(matches!(
        decode_listing_response(401, good),
        Err(Error::Status(401))
    ));
    assert!(matches!(
        decode_listing_response(500, "not even json"),
        Err(Error::Status(500))
    ));
    assert!(matches!(
        decode_listing_response(301, good),
        Err(Error::Status(301))
    ));
    assert!(matches!(
        decode_listing_response(199, good),
        Err(Error::Status(199))
    ));
}

#[test]
fn malformed_body_fails_as_decode_error() {
    assert!(matches!(
        decode_listing_response(200, "not json"),
        Err(Error::Decode)
    ));
    assert!(matches!(
        decode_listing_response(200, "{\"cursor\":}"),
        Err(Error::Decode)
    ));
    assert!(matches!(decode_listing_response(200, ""), Err(Error::Decode)));
}

#[test]
fn wrong_shape_fails_as_decode_error() {
    assert!(matches!(decode_listing_response(200, "{}"), Err(Error::Decode)));
    assert!(matches!(
        decode_listing_response(200, "{\"entries\":5}"),
        Err(Error::Decode)
    ));
    assert!(matches!(
        decode_listing_response(200, "{\"cursor\":5,\"entries\":[]}"),
        Err(Error::Decode)
    ));
    assert!(matches!(
        decode_listing_response(200, "{\"entries\":[],\"entries\":[]}"),
        Err(Error::Decode)
    ));
    assert!(matches!(
        decode_listing_response(200, "[{\"entries\":[]}]"),
        Err(Error::Decode)
    ));
}

#[test]
fn default_arguments() {
    let arg = ListFolderArg::default();
    assert_eq!(arg.path, "");
    let _empty = ListFoldersArgs::default();
    let res = ListFoldersResult::default();
    assert_eq!(res.cursor, None);
    assert!(res.entries.is_empty());
}

#[test]
fn client_clone_keeps_token() {
    let client = Client::new("tok").unwrap();
    let copy = client.clone();
    assert_eq!(copy.token, client.token);
}
