//! A minimal client binding for a small subset of the Dropbox HTTP API:
//! the `sharing/list_folders` and `files/list_folder` endpoints.
//!
//! The library holds everything about these calls that can be stated and
//! checked: validating the bearer token, building each request (URL,
//! headers, JSON body), and decoding each response (HTTP status handling,
//! JSON parsing, and extraction of the listing shape). The network round
//! trip itself is a single POST per call and is left to the embedding
//! program, which hands the returned status and body back to [`decode_listing_response`].

use vstd::prelude::*;

mod json;

pub use json::JsonValue;
pub use json::escape_json_string;
pub use json::json_escape;
pub use json::json_text;
pub use json::parse_json;
pub use json::to_json_string;
pub use json::vec_model;
pub use json::fields_model;
pub use json::json_doc;
pub use json::JsonModel;
pub use json::json_model;

verus! {

/// Reads the listing shape off a field list, scanning from the last field
/// towards the first, with the fields already seen carried alongside.
/// A duplicated `cursor` or `entries` field, or one of the wrong type,
/// refuses the document; any other field is ignored. The result does not
/// depend on the direction of the scan: a value is only taken when the
/// field occurs exactly once.
pub open spec fn scan_fields(
    fields: Seq<(Seq<char>, JsonModel)>,
    cursor: Option<Option<Seq<char>>>,
    entries: Option<Seq<JsonModel>>,
) -> Option<(Option<Seq<char>>, Seq<JsonModel>)>
    decreases fields.len(),
{
    if fields.len() == 0 {
        match entries {
            Option::Some(e) => Option::Some(
                (
                    match cursor {
                        Option::Some(c) => c,
                        Option::None => Option::None,
                    },
                    e,
                ),
            ),
            Option::None => Option::None,
        }
    } else {
        let f = fields.last();
        let rest = fields.drop_last();
        if f.0 == "cursor"@ {
            if cursor is Some {
                Option::None
            } else {
                match f.1 {
                    JsonModel::Null => scan_fields(rest, Option::Some(Option::None), entries),
                    JsonModel::String(sq) => scan_fields(
                        rest,
                        Option::Some(Option::Some(sq)),
                        entries,
                    ),
                    _ => Option::None,
                }
            }
        } else if f.0 == "entries"@ {
            if entries is Some {
                Option::None
            } else {
                match f.1 {
                    JsonModel::Array(items) => scan_fields(rest, cursor, Option::Some(items)),
                    _ => Option::None,
                }
            }
        } else {
            scan_fields(rest, cursor, entries)
        }
    }
}

/// Everything that can go wrong with one call. Each failure is surfaced as
/// one of these; nothing is retried or swallowed.
#[derive(Debug, PartialEq, Eq)]
pub enum Error {
    /// The token cannot be carried in an HTTP header.
    Token,
    /// The request never completed: connection, DNS, TLS or timeout failure.
    /// Carries the transport's own message.
    Transport(String),
    /// The request completed with a non-success HTTP status.
    Status(u16),
    /// The response body was not the expected JSON shape.
    Decode,
}

/// A character is allowed in an HTTP header value: horizontal tab and
/// everything at or above space, except delete.
pub open spec fn valid_header_char(c: char) -> bool {
    ((c as u32) >= 32 && (c as u32) != 127) || (c as u32) == 9
}

/// A token can be carried in an `Authorization` header: every character of
/// it is allowed in a header value.
pub open spec fn valid_token(token: Seq<char>) -> bool {
    forall|i: int| 0 <= i < token.len() ==> valid_header_char(#[trigger] token[i])
}

/// Checks that every character of `s` may stand in an HTTP header value.
pub fn check_header_value(s: &str) -> (r: bool)
    ensures
        r == valid_token(s@),
{
    let n: usize = s.unicode_len();
    let mut i: usize = 0;
    while i < n
        invariant
            n as nat == s@.len(),
            i <= n,
            forall|j: int| 0 <= j < i ==> valid_header_char(#[trigger] s@[j]),
        decreases n - i,
    {
        let c = s.get_char(i);
        let u: u32 = c as u32;
        if !((u >= 32 && u != 127) || u == 9) {
            return false;
        }
        i = i + 1;
    }
    true
}

/// The fixed base under which both endpoint paths live.
pub open spec fn api_base() -> Seq<char> {
    "https://api.dropboxapi.com/2/"@
}

/// The value of the `Authorization` header for a given token.
pub open spec fn auth_header(token: Seq<char>) -> Seq<char> {
    "Bearer "@ + token
}

/// The value of the `Content-Type` header on every request.
pub open spec fn content_type() -> Seq<char> {
    "application/json"@
}

/// The JSON body of a list-folder request: an object with the single
/// `path` field, the path escaped for embedding in the document.
pub open spec fn list_folder_body(path: Seq<char>) -> Seq<char> {
    "{\"path\":\""@ + json_escape(path) + "\"}"@
}

/// One outgoing request, ready to be sent: where to POST, the two headers
/// that authenticate it and declare its body, and the JSON body itself.
#[derive(Debug)]
pub struct HttpRequest {
    pub url: String,
    pub authorization: String,
    pub content_type: String,
    pub body: String,
}

/// The API client: it holds the bearer token and builds each request.
#[derive(Debug)]
pub struct Client {
    /// The token, as given at construction.
    pub token: String,
}

impl Clone for Client {
    fn clone(&self) -> (r: Self)
        ensures
            r == *self,
    {
        Client { token: self.token.clone() }
    }
}

impl Client {
    /// Makes a new client from a bearer token. A token that cannot be
    /// carried in an HTTP header — one with a control character in it —
    /// is refused at construction.
    pub fn new(token: &str) -> (r: Result<Client, Error>)
        ensures
            r is Ok <==> valid_token(token@),
            r matches Ok(c) ==> c.token@ == token@,
            !valid_token(token@) ==> r == Err::<Client, Error>(Error::Token),
    {
        if check_header_value(token) {
            Ok(Client { token: token.to_owned() })
        } else {
            Err(Error::Token)
        }
    }

    /// The value this client sends in the `Authorization` header:
    /// `Bearer ` followed by the token.
    pub fn auth_header_value(&self) -> (r: String)
        ensures
            r@ == auth_header(self.token@),
    {
        let mut out = String::from_str("Bearer ");
        out.append(self.token.as_str());
        out
    }

    /// Builds the list-shared-folders request: a POST to
    /// `sharing/list_folders` under the fixed API base, authenticated with
    /// this client's token, with the serialized arguments — the empty
    /// object — as its body.
    pub fn sharing_list_folders_request(&self, args: &ListFoldersArgs) -> (r: HttpRequest)
        ensures
            r.url@ == api_base() + "sharing/list_folders"@,
            r.authorization@ == auth_header(self.token@),
            r.content_type@ == content_type(),
            r.body@ == "{}"@,
    {
        let _ = args;
        HttpRequest {
            url: String::from_str("https://api.dropboxapi.com/2/").concat("sharing/list_folders"),
            authorization: self.auth_header_value(),
            content_type: String::from_str("application/json"),
            body: String::from_str("{}"),
        }
    }

    /// Builds the list-folder request: a POST to `files/list_folder` under
    /// the fixed API base, authenticated with this client's token, with the
    /// serialized arguments — an object holding the folder path — as its
    /// body.
    pub fn list_folder_request(&self, args: &ListFolderArg) -> (r: HttpRequest)
        ensures
            r.url@ == api_base() + "files/list_folder"@,
            r.authorization@ == auth_header(self.token@),
            r.content_type@ == content_type(),
            r.body@ == list_folder_body(args.path@),
    {
        let mut body = String::from_str("{\"path\":\"");
        body.append(escape_json_string(args.path.as_str()).as_str());
        body.append("\"}");
        assert(body@ =~= list_folder_body(args.path@));
        HttpRequest {
            url: String::from_str("https://api.dropboxapi.com/2/").concat("files/list_folder"),
            authorization: self.auth_header_value(),
            content_type: String::from_str("application/json"),
            body,
        }
    }
}

/// Arguments of a list-shared-folders call. The endpoint takes no
/// parameters yet, so the struct is empty and serializes to `{}`.
#[derive(Debug)]
pub struct ListFoldersArgs {}

impl Default for ListFoldersArgs {
    fn default() -> (r: Self) {
        ListFoldersArgs {}
    }
}

/// Arguments of a list-folder call: the folder path. The empty string
/// names the root folder.
#[derive(Debug)]
pub struct ListFolderArg {
    pub path: String,
}

impl Default for ListFolderArg {
    fn default() -> (r: Self)
        ensures
            r.path@ == Seq::<char>::empty(),
    {
        ListFolderArg { path: String::new() }
    }
}

/// What a listing endpoint returns: an optional continuation cursor and the
/// entries, each an opaque JSON record passed through unchanged.
#[derive(Debug)]
pub struct ListFoldersResult {
    /// The cursor, if more results exist upstream. Like the entries, it is
    /// opaque and carried as its raw lexeme: the characters that stood
    /// between the quotes, escape sequences as written.
    pub cursor: Option<String>,
    /// The entries, in the order the endpoint returned them.
    pub entries: Vec<JsonValue>,
}

impl Default for ListFoldersResult {
    fn default() -> (r: Self)
        ensures
            r.cursor is None,
            r.entries@ == Seq::<JsonValue>::empty(),
    {
        ListFoldersResult { cursor: None, entries: Vec::new() }
    }
}

/// The result shape of a list-folder call as the wire protocol defines it,
/// with its explicit `has_more` flag. No call in this crate produces it:
/// the list-folder call returns [`ListFoldersResult`] instead, mirroring
/// the wire shape actually decoded. It is kept because the protocol
/// defines it, and because a later pagination feature would need it.
#[derive(Debug)]
pub struct ListFolderResult {
    /// The cursor, if more results exist upstream.
    pub cursor: Option<String>,
    /// The entries, in the order the endpoint returned them.
    pub entries: Vec<JsonValue>,
    /// Whether more entries are available.
    pub has_more: bool,
}

/// The cursor as the contracts speak of it: the characters of the string,
/// if one is present.
pub open spec fn cursor_view(c: Option<String>) -> Option<Seq<char>> {
    match c {
        Option::Some(s) => Option::Some(s@),
        Option::None => Option::None,
    }
}

/// What a listing document denotes: `None` if the document is not an
/// object of the expected shape, otherwise the cursor and the entries.
/// The object must hold an `entries` array; a `cursor` field may be absent,
/// null, or a string; a duplicated or wrongly-typed field refuses the
/// document; unknown fields are ignored.
pub open spec fn listing_of_model(m: JsonModel) -> Option<(Option<Seq<char>>, Seq<JsonModel>)> {
    match m {
        JsonModel::Object(fields) => scan_fields(fields, Option::None, Option::None),
        _ => Option::None,
    }
}

/// What a listing response value denotes: the listing of its model.
pub open spec fn listing_of_json(v: JsonValue) -> Option<(Option<Seq<char>>, Seq<JsonModel>)> {
    listing_of_model(json_model(v))
}

/// Reads the listing shape out of a parsed JSON document, consuming it.
/// Returns exactly what the document denotes under [`listing_of_json`].
#[verifier::loop_isolation(false)]
pub fn extract_listing(v: JsonValue) -> (r: Option<ListFoldersResult>)
    ensures
        r is Some <==> listing_of_json(v) is Some,
        r matches Some(res) ==> listing_of_json(v) == Some(
            (cursor_view(res.cursor), vec_model(res.entries)),
        ),
{
    let orig = match v {
        JsonValue::Object(fields) => fields,
        _ => {
            return None;
        },
    };
    let ghost orig_vec = orig;
    let mut fields = orig;
    let cursor_key = String::from_str("cursor");
    let entries_key = String::from_str("entries");
    let mut cursor: Option<Option<String>> = None;
    let mut entries: Option<Vec<JsonValue>> = None;
    while fields.len() > 0
        invariant
            scan_fields(fields_model(orig_vec), Option::None, Option::None) == scan_fields(
                fields_model(fields),
                cursor_state(cursor),
                entries_state(entries),
            ),
            cursor_key@ == "cursor"@,
            entries_key@ == "entries"@,
        decreases fields.len(),
    {
        let ghost prev = fields;
        let f = match fields.pop() {
            Some(f) => f,
            None => {
                return None;
            },
        };
        let (key, val) = f;
        proof {
            assert(prev@ =~= fields@.push((key, val)));
            json::lemma_field_models_of_push(fields, prev, (key, val));
            assert(fields_model(prev).drop_last() =~= fields_model(fields));
            assert(fields_model(prev).last() == json::field_model((key, val)));
        }
        if key.eq(&cursor_key) {
            if cursor.is_some() {
                return None;
            }
            match val {
                JsonValue::Null => {
                    cursor = Some(None);
                },
                JsonValue::String(s) => {
                    cursor = Some(Some(s));
                },
                _ => {
                    return None;
                },
            }
        } else if key.eq(&entries_key) {
            if entries.is_some() {
                return None;
            }
            match val {
                JsonValue::Array(items) => {
                    entries = Some(items);
                },
                _ => {
                    return None;
                },
            }
        }
    }
    proof {
        assert(fields_model(fields) =~= Seq::<(Seq<char>, JsonModel)>::empty());
    }
    let ent = match entries {
        Some(e) => e,
        None => {
            return None;
        },
    };
    let cur = match cursor {
        Some(c) => c,
        None => None,
    };
    Some(ListFoldersResult { cursor: cur, entries: ent })
}

/// The cursor state while fields are being read: not seen yet, or seen with
/// the value it carried.
pub open spec fn cursor_state(c: Option<Option<String>>) -> Option<Option<Seq<char>>> {
    match c {
        Option::Some(inner) => Option::Some(cursor_view(inner)),
        Option::None => Option::None,
    }
}

/// The entries state while fields are being read: not seen yet, or seen
/// with the models of the items it carried.
pub open spec fn entries_state(e: Option<Vec<JsonValue>>) -> Option<Seq<JsonModel>> {
    match e {
        Option::Some(items) => Option::Some(vec_model(items)),
        Option::None => Option::None,
    }
}

/// The HTTP status codes on which a call succeeds.
pub open spec fn is_success_status(status: u16) -> bool {
    200 <= status < 300
}

/// Decodes one response of a listing endpoint from its HTTP status and its
/// body.
///
/// A non-success status fails with that status, whatever the body holds —
/// the body is not even parsed. On a success status the outcome is fixed by
/// the body text: a body that is not a JSON document ([`json_doc`]), or one
/// whose document is not of the listing shape ([`listing_of_json`]), fails
/// as a decode error, never as a transport or status error; a well-shaped
/// body yields exactly the cursor and the entries that its document
/// denotes.
pub fn decode_listing_response(status: u16, body: &str) -> (r: Result<ListFoldersResult, Error>)
    ensures
        !is_success_status(status) ==> r == Err::<ListFoldersResult, Error>(Error::Status(status)),
        is_success_status(status) ==> match json_doc(body@) {
            Option::None => r == Err::<ListFoldersResult, Error>(Error::Decode),
            Option::Some(m) => match listing_of_model(m) {
                Option::None => r == Err::<ListFoldersResult, Error>(Error::Decode),
                Option::Some(pair) => r matches Ok(res) && cursor_view(res.cursor) == pair.0
                    && vec_model(res.entries) == pair.1,
            },
        },
{
    if !(200 <= status && status < 300) {
        return Err(Error::Status(status));
    }
    let v = match parse_json(body) {
        Some(v) => v,
        None => {
            return Err(Error::Decode);
        },
    };
    match extract_listing(v) {
        Some(res) => Ok(res),
        None => Err(Error::Decode),
    }
}

} // verus!
