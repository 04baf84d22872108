//! The local HTTP bridge between the web app and the desktop: which requests it serves, which
//! origins it answers, and what it replies. Sockets and files are the caller's.
use vstd::prelude::*;
use crate::ipj::strings_view;
use crate::paths::{file_name_of, opt_view, path_file_name};
use crate::text::{
    chars_eq, chars_of, contains, contains_exec, ends_with, ends_with_exec, starts_with,
    starts_with_exec, string_of,
};
use crate::updater::UpdateInfo;
use vstd::string::StringExecFns;

verus! {

/// Who is signed in.
#[derive(Debug)]
pub struct AuthState {
    pub logged_in: bool,
    pub username: String,
    pub access_token: Option<String>,
}

impl Default for AuthState {
    fn default() -> (s: Self)
        ensures
            !s.logged_in,
            s.username@ == Seq::<char>::empty(),
            s.access_token is None,
    {
        AuthState { logged_in: false, username: String::new(), access_token: None }
    }
}

impl Clone for AuthState {
    fn clone(&self) -> (r: Self)
        ensures
            r == *self,
    {
        AuthState {
            logged_in: self.logged_in,
            username: self.username.clone(),
            access_token: match &self.access_token {
                Some(t) => Some(t.clone()),
                None => None,
            },
        }
    }
}

/// A char that may appear in a lower-case host name.
pub open spec fn host_char(c: char) -> bool {
    ||| 97 <= c as u32 <= 122
    ||| 48 <= c as u32 <= 57
    ||| c == '-'
    ||| c == '.'
}

/// `fabbit.io` itself, or a host name under it: lower-case letters, digits, `-` and `.`, with
/// no empty label, ending in `.fabbit.io`.
pub open spec fn fabbit_host(h: Seq<char>) -> bool {
    ||| h == "fabbit.io"@
    ||| {
        &&& ends_with(h, ".fabbit.io"@)
        &&& h.len() > 10
        &&& h[0] != '.'
        &&& !contains(h, ".."@)
        &&& forall|i: int| 0 <= i < h.len() ==> host_char(#[trigger] h[i])
    }
}

/// The web origins whose requests the bridge answers: `https` origins on `fabbit.io` and its
/// subdomains.
pub open spec fn allowed_origin(o: Seq<char>) -> bool {
    starts_with(o, "https://"@) && fabbit_host(o.skip(8))
}

/// The origin the bridge names in its CORS headers: the request's, when allowed, else
/// `https://fabbit.io`.
pub open spec fn cors_origin(origin: Option<Seq<char>>) -> Seq<char> {
    match origin {
        Some(o) => if allowed_origin(o) {
            o
        } else {
            "https://fabbit.io"@
        },
        None => "https://fabbit.io"@,
    }
}

/// Whether every char of `h` may appear in a host name.
fn all_host_chars(h: &Vec<char>) -> (r: bool)
    ensures
        r == forall|i: int| 0 <= i < h@.len() ==> host_char(#[trigger] h@[i]),
{
    let mut i: usize = 0;
    while i < h.len()
        invariant
            0 <= i <= h@.len(),
            forall|k: int| 0 <= k < i ==> host_char(#[trigger] h@[k]),
        decreases h.len() - i,
    {
        let c = h[i];
        let v = c as u32;
        if !((97 <= v && v <= 122) || (48 <= v && v <= 57) || c == '-' || c == '.') {
            assert(!host_char(h@[i as int]));
            return false;
        }
        i = i + 1;
    }
    true
}

/// Whether `origin` is one the bridge answers.
pub fn is_allowed_origin(origin: &str) -> (r: bool)
    ensures
        r == allowed_origin(origin@),
{
    let c = chars_of(origin);
    let scheme = chars_of("https://");
    proof {
        reveal_strlit("https://");
    }
    if !starts_with_exec(&c, &scheme) {
        return false;
    }
    let host = sub_vec(&c, 8, c.len());
    assert(host@ =~= c@.skip(8));
    if chars_eq(&host, &chars_of("fabbit.io")) {
        return true;
    }
    ends_with_exec(&host, &chars_of(".fabbit.io")) && host.len() > 10 && host[0] != '.'
        && !contains_exec(&host, &chars_of("..")) && all_host_chars(&host)
}

pub open spec fn pair_view(p: (String, String)) -> (Seq<char>, Seq<char>) {
    (p.0@, p.1@)
}

/// The CORS headers of every reply, as (name, value) pairs.
pub fn build_cors_headers(origin: Option<&str>) -> (r: Vec<(String, String)>)
    ensures
        r@.len() == 3,
        pair_view(r@[0]) == ("Access-Control-Allow-Origin"@, cors_origin(
            match origin {
                Some(o) => Some(o@),
                None => None,
            },
        )),
        pair_view(r@[1]) == ("Access-Control-Allow-Methods"@, "GET, POST, OPTIONS"@),
        pair_view(r@[2]) == ("Access-Control-Allow-Headers"@, "Content-Type"@),
{
    let allowed = match origin {
        Some(o) => {
            if is_allowed_origin(o) {
                o.to_owned()
            } else {
                "https://fabbit.io".to_owned()
            }
        },
        None => "https://fabbit.io".to_owned(),
    };
    let mut r: Vec<(String, String)> = Vec::new();
    r.push(("Access-Control-Allow-Origin".to_owned(), allowed));
    r.push(("Access-Control-Allow-Methods".to_owned(), "GET, POST, OPTIONS".to_owned()));
    r.push(("Access-Control-Allow-Headers".to_owned(), "Content-Type".to_owned()));
    r
}

/// What a request asks for.
#[derive(Clone, Copy, PartialEq, Eq, Debug, Structural)]
pub enum Route {
    /// A CORS preflight (`OPTIONS`), answered with an empty 204.
    Preflight,
    Status,
    AuthCallback,
    Download,
    UpdateCheck,
    UploadStatus,
    NotFound,
}

pub open spec fn route_spec(method: Seq<char>, url: Seq<char>) -> Route {
    if method == "OPTIONS"@ {
        Route::Preflight
    } else if method == "GET"@ && url == "/status"@ {
        Route::Status
    } else if method == "GET"@ && starts_with(url, "/auth/callback"@) {
        Route::AuthCallback
    } else if method == "POST"@ && url == "/download"@ {
        Route::Download
    } else if method == "GET"@ && url == "/update/check"@ {
        Route::UpdateCheck
    } else if method == "GET"@ && url == "/upload/status"@ {
        Route::UploadStatus
    } else {
        Route::NotFound
    }
}

/// Routes a request by its method and URL.
pub fn route_request(method: &str, url: &str) -> (r: Route)
    ensures
        r == route_spec(method@, url@),
{
    let m = chars_of(method);
    let u = chars_of(url);
    if chars_eq(&m, &chars_of("OPTIONS")) {
        Route::Preflight
    } else if chars_eq(&m, &chars_of("GET")) && chars_eq(&u, &chars_of("/status")) {
        Route::Status
    } else if chars_eq(&m, &chars_of("GET")) && starts_with_exec(&u, &chars_of("/auth/callback")) {
        Route::AuthCallback
    } else if chars_eq(&m, &chars_of("POST")) && chars_eq(&u, &chars_of("/download")) {
        Route::Download
    } else if chars_eq(&m, &chars_of("GET")) && chars_eq(&u, &chars_of("/update/check")) {
        Route::UpdateCheck
    } else if chars_eq(&m, &chars_of("GET")) && chars_eq(&u, &chars_of("/upload/status")) {
        Route::UploadStatus
    } else {
        Route::NotFound
    }
}

/// The JSON body of a reply, by shape.
#[derive(Debug)]
pub enum ReplyBody {
    /// `{ key: message }`.
    Message { key: String, message: String },
    /// `{ version, running, loggedIn, user }`.
    Status { version: String, running: bool, logged_in: bool, user: String },
    /// `{ status: "success", fileId, path }`.
    Download { file_id: String, path: String },
    /// The update check's result.
    Update(UpdateInfo),
    /// `{ pendingCount, files }`.
    Pending { files: Vec<String> },
}

/// A reply: its HTTP status and body.
#[derive(Debug)]
pub struct ServerReply {
    pub status: i32,
    pub body: ReplyBody,
}

/// A `{ key: message }` reply.
pub open spec fn is_message(r: ServerReply, status: i32, key: Seq<char>, message: Seq<char>) -> bool {
    &&& r.status == status
    &&& r.body matches ReplyBody::Message { key: k, message: m }
    &&& k@ == key
    &&& m@ == message
}

/// A reply whose body is `{ key: message }`.
pub fn json_response(status: i32, key: &str, message: &str) -> (r: ServerReply)
    ensures
        is_message(r, status, key@, message@),
{
    ServerReply {
        status,
        body: ReplyBody::Message { key: key.to_owned(), message: message.to_owned() },
    }
}

/// `GET /status`: the bridge runs, and who is signed in.
pub fn handle_status(state: &AuthState, version: &str) -> (r: ServerReply)
    ensures
        r.status == 200,
        r.body matches ReplyBody::Status { version: v, running, logged_in, user } && v@
            == version@ && running && logged_in == state.logged_in && user@ == state.username@,
{
    ServerReply {
        status: 200,
        body: ReplyBody::Status {
            version: version.to_owned(),
            running: true,
            logged_in: state.logged_in,
            user: state.username.clone(),
        },
    }
}

/// The index of the first `c` in `s`.
pub open spec fn first_index(s: Seq<char>, c: char) -> Option<int>
    decreases s.len(),
{
    if s.len() == 0 {
        None
    } else if s[0] == c {
        Some(0)
    } else {
        match first_index(s.drop_first(), c) {
            Some(i) => Some(i + 1),
            None => None,
        }
    }
}

/// The pieces of `s` between occurrences of `sep` (`str::split` with a char).
pub open spec fn split_pieces(s: Seq<char>, sep: char) -> Seq<Seq<char>>
    decreases s.len(),
{
    match first_index(s, sep) {
        None => seq![s],
        Some(i) => if 0 <= i < s.len() {
            seq![s.take(i)] + split_pieces(s.skip(i + 1), sep)
        } else {
            seq![s]
        },
    }
}

/// `str::trim_start_matches` with a string pattern: removes the pattern from the front as long
/// as it is there.
pub open spec fn strip_all_prefix(s: Seq<char>, p: Seq<char>) -> Seq<char>
    decreases s.len(),
{
    if p.len() > 0 && starts_with(s, p) {
        strip_all_prefix(s.skip(p.len() as int), p)
    } else {
        s
    }
}

/// The value of the first `code=` parameter among the given pieces.
pub open spec fn code_in(pieces: Seq<Seq<char>>) -> Option<Seq<char>>
    decreases pieces.len(),
{
    if pieces.len() == 0 {
        None
    } else if starts_with(pieces[0], "code="@) {
        Some(strip_all_prefix(pieces[0], "code="@))
    } else {
        code_in(pieces.drop_first())
    }
}

/// The `code` of an authorization callback URL: the query is the text between the first `?`
/// and the next one; its first `&`-separated parameter starting with `code=` gives the code.
pub open spec fn callback_code_spec(path: Seq<char>) -> Option<Seq<char>> {
    let pieces = split_pieces(path, '?');
    if pieces.len() < 2 {
        None
    } else {
        code_in(split_pieces(pieces[1], '&'))
    }
}

proof fn lemma_first_index_bounds(s: Seq<char>, c: char)
    ensures
        first_index(s, c) matches Some(i) ==> 0 <= i < s.len() && s[i] == c && forall|k: int|
            0 <= k < i ==> s[k] != c,
        first_index(s, c) is None ==> forall|k: int| 0 <= k < s.len() ==> s[k] != c,
    decreases s.len(),
{
    if s.len() > 0 {
        lemma_first_index_bounds(s.drop_first(), c);
        if s[0] != c {
            assert forall|k: int| 1 <= k < s.len() implies s[k] == s.drop_first()[k - 1] by {}
        }
    }
}

proof fn lemma_first_index_from(s: Seq<char>, c: char, i: int)
    requires
        0 <= i <= s.len(),
        forall|k: int| 0 <= k < i ==> s[k] != c,
    ensures
        first_index(s, c) == match first_index(s.skip(i), c) {
            Some(j) => Some(j + i),
            None => None::<int>,
        },
    decreases i,
{
    if i > 0 {
        assert(s.skip(1) =~= s.drop_first());
        assert(s.drop_first().skip(i - 1) =~= s.skip(i));
        lemma_first_index_from(s.drop_first(), c, i - 1);
    } else {
        assert(s.skip(0) =~= s);
    }
}

/// Finds the next `c` in `s` at or after `from`.
fn find_char(s: &Vec<char>, c: char, from: usize) -> (r: Option<usize>)
    requires
        from <= s@.len(),
    ensures
        first_index(s@.skip(from as int), c) == match r {
            Some(j) => Some(j - from),
            None => None::<int>,
        },
        r matches Some(j) ==> from <= j < s@.len(),
{
    let mut k = from;
    while k < s.len()
        invariant
            from <= k <= s@.len(),
            forall|m: int| from <= m < k ==> s@[m] != c,
        decreases s.len() - k,
    {
        if s[k] == c {
            proof {
                let t = s@.skip(from as int);
                lemma_first_index_from(t, c, k - from);
                assert(t.skip(k - from) =~= s@.skip(k as int));
            }
            return Some(k);
        }
        k = k + 1;
    }
    proof {
        let t = s@.skip(from as int);
        lemma_first_index_from(t, c, k - from);
        assert(t.skip(k - from).len() == 0);
    }
    None
}

fn sub_vec(s: &Vec<char>, from: usize, to: usize) -> (r: Vec<char>)
    requires
        from <= to <= s@.len(),
    ensures
        r@ == s@.subrange(from as int, to as int),
{
    let mut r: Vec<char> = Vec::new();
    let mut k = from;
    while k < to
        invariant
            from <= k <= to <= s@.len(),
            r@ == s@.subrange(from as int, k as int),
        decreases to - k,
    {
        r.push(s[k]);
        k = k + 1;
        assert(r@ =~= s@.subrange(from as int, k as int));
    }
    r
}

/// Removes `p` from the front of `s` as long as it is there.
fn strip_all_prefix_exec(s: &Vec<char>, p: &Vec<char>) -> (r: Vec<char>)
    ensures
        r@ == strip_all_prefix(s@, p@),
{
    let mut start: usize = 0;
    assert(s@.skip(0) =~= s@);
    while p.len() > 0 && p.len() <= s.len() - start && starts_with_exec(
        &sub_vec(s, start, s.len()),
        p,
    )
        invariant
            start <= s@.len(),
            strip_all_prefix(s@, p@) == strip_all_prefix(s@.skip(start as int), p@),
        decreases s.len() - start,
    {
        assert(s@.subrange(start as int, s@.len() as int) =~= s@.skip(start as int));
        assert(s@.skip(start as int).skip(p@.len() as int) =~= s@.skip(start + p.len()));
        start = start + p.len();
    }
    proof {
        assert(s@.subrange(start as int, s@.len() as int) =~= s@.skip(start as int));
        if p@.len() > 0 && p@.len() > s@.len() - start {
            assert(!starts_with(s@.skip(start as int), p@));
        }
    }
    sub_vec(s, start, s.len())
}

/// The code carried by an authorization callback URL, if any.
pub fn callback_code(path: &str) -> (r: Option<String>)
    ensures
        opt_view(r) == callback_code_spec(path@),
{
    let s = chars_of(path);
    let first = match find_char(&s, '?', 0) {
        None => {
            proof {
                assert(s@.skip(0) =~= s@);
                lemma_first_index_bounds(s@, '?');
            }
            return None;
        },
        Some(i) => i,
    };
    assert(s@.skip(0) =~= s@);
    let query_end = match find_char(&s, '?', first + 1) {
        None => s.len(),
        Some(j) => j,
    };
    let query = sub_vec(&s, first + 1, query_end);
    proof {
        let rest = s@.skip(first + 1);
        assert(split_pieces(s@, '?') =~= seq![s@.take(first as int)] + split_pieces(rest, '?'));
        if query_end == s@.len() {
            assert(query@ =~= rest);
        } else {
            assert(query@ =~= rest.take(query_end - first - 1));
        }
        assert(split_pieces(rest, '?').len() >= 1);
        assert(split_pieces(s@, '?')[1] == query@);
        assert(callback_code_spec(path@) == code_in(split_pieces(query@, '&')));
    }
    let prefix = chars_of("code=");
    let mut start: usize = 0;
    assert(query@.skip(0) =~= query@);
    loop
        invariant
            start <= query@.len(),
            prefix@ == "code="@,
            callback_code_spec(path@) == code_in(split_pieces(query@, '&')),
            code_in(split_pieces(query@, '&')) == code_in(split_pieces(query@.skip(start as int), '&')),
        decreases query@.len() - start,
    {
        let end = match find_char(&query, '&', start) {
            None => query.len(),
            Some(j) => j,
        };
        let piece = sub_vec(&query, start, end);
        let ghost rest = query@.skip(start as int);
        proof {
            if end == query@.len() {
                assert(piece@ =~= rest);
                assert(split_pieces(rest, '&') =~= seq![rest]);
            } else {
                assert(piece@ =~= rest.take(end - start));
                assert(rest.skip(end - start + 1) =~= query@.skip(end + 1));
            }
            assert(split_pieces(rest, '&')[0] == piece@);
        }
        if starts_with_exec(&piece, &prefix) {
            let code = strip_all_prefix_exec(&piece, &prefix);
            return Some(string_of(&code));
        }
        if end == query.len() {
            proof {
                assert(split_pieces(rest, '&').drop_first().len() == 0);
                assert(code_in(split_pieces(rest, '&')) == code_in(
                    split_pieces(rest, '&').drop_first(),
                ));
            }
            return None;
        }
        proof {
            assert(split_pieces(rest, '&').drop_first() =~= split_pieces(query@.skip(end + 1), '&'));
        }
        start = end + 1;
    }
}

/// The request that trades an authorization code for tokens: `POST {api}/oauth/token` with
/// this body.
#[derive(Debug)]
pub struct TokenExchange {
    pub code: String,
    pub client_id: String,
}

/// The desktop agent's OAuth client id.
pub open spec fn agent_client_id() -> Seq<char> {
    "fabbit-agent"@
}

/// `GET /auth/callback?code=...`: the token request for the code, or a 400 reply without one.
pub fn handle_auth_callback(path: &str) -> (r: Result<TokenExchange, ServerReply>)
    ensures
        match callback_code_spec(path@) {
            None => r matches Err(reply) && is_message(reply, 400, "error"@, "Missing code parameter"@),
            Some(code) => r matches Ok(t) && t.code@ == code && t.client_id@ == agent_client_id(),
        },
{
    match callback_code(path) {
        None => Err(json_response(400, "error", "Missing code parameter")),
        Some(code) => Ok(TokenExchange { code, client_id: "fabbit-agent".to_owned() }),
    }
}

/// The token endpoint of the API at `api_url`.
pub fn token_url(api_url: &str) -> (r: String)
    ensures
        r@ == api_url@ + "/oauth/token"@,
{
    let mut r = api_url.to_owned();
    r.append("/oauth/token");
    r
}

/// An HTTP status in the success class (200 to 299).
pub open spec fn is_success_status(code: u16) -> bool {
    200 <= code <= 299
}

/// Signs in from the token server's answer: its status, and the `access_token` and `username`
/// strings of its body, if any. A success status with a token signs in, keeping the token and
/// the user name (the previous name where the answer has none); anything else leaves the state
/// as it was and answers 502.
pub fn sign_in_with_token(
    state: &mut AuthState,
    status: u16,
    access_token: Option<String>,
    username: Option<String>,
) -> (r: ServerReply)
    ensures
        match access_token {
            Some(token) => if is_success_status(status) {
                &&& is_message(r, 200, "success"@, "로그인 완료. 이 창을 닫아도 됩니다."@)
                &&& final(state).logged_in
                &&& opt_view(final(state).access_token) == Some(token@)
                &&& final(state).username@ == match username {
                    Some(u) => u@,
                    None => old(state).username@,
                }
            } else {
                is_message(r, 502, "error"@, "Token exchange failed"@) && *final(state) == *old(
                    state,
                )
            },
            None => is_message(r, 502, "error"@, "Token exchange failed"@) && *final(state) == *old(
                state,
            ),
        },
{
    let token = match access_token {
        Some(t) => t,
        None => {
            return json_response(502, "error", "Token exchange failed");
        },
    };
    if !(200 <= status && status <= 299) {
        return json_response(502, "error", "Token exchange failed");
    }
    state.logged_in = true;
    state.access_token = Some(token);
    match username {
        Some(u) => {
            state.username = u;
        },
        None => {},
    }
    json_response(200, "success", "로그인 완료. 이 창을 닫아도 됩니다.")
}

/// Signs in from the token server's answer (its status and body), or from the text of the
/// error that kept it from answering.
pub fn complete_sign_in(state: &mut AuthState, response: Result<(u16, String), String>) -> (r: ServerReply)
    ensures
        match response {
            Err(_) => is_message(r, 502, "error"@, "Token exchange failed"@) && *final(state)
                == *old(state),
            Ok((status, body)) => match json_str_field(body@, "access_token"@) {
                Some(token) => if is_success_status(status) {
                    &&& is_message(r, 200, "success"@, "로그인 완료. 이 창을 닫아도 됩니다."@)
                    &&& final(state).logged_in
                    &&& opt_view(final(state).access_token) == Some(token)
                    &&& final(state).username@ == match json_str_field(body@, "username"@) {
                        Some(u) => u,
                        None => old(state).username@,
                    }
                } else {
                    is_message(r, 502, "error"@, "Token exchange failed"@) && *final(state)
                        == *old(state)
                },
                None => is_message(r, 502, "error"@, "Token exchange failed"@) && *final(state)
                    == *old(state),
            },
        },
{
    match response {
        Err(_) => json_response(502, "error", "Token exchange failed"),
        Ok((status, body)) => {
            let token = json_string_field(body.as_str(), "access_token");
            let username = json_string_field(body.as_str(), "username");
            sign_in_with_token(state, status, token, username)
        },
    }
}

/// What `serde_json` finds at `key` in the JSON text `text` when that is a string: `None` when
/// the text is no JSON, is no object, lacks the key, or holds no string there.
pub uninterp spec fn json_str_field(text: Seq<char>, key: Seq<char>) -> Option<Seq<char>>;

/// Parses `text` as a `serde_json::Value` and reads the string at `key`, if any.
#[verifier::external_body]
pub(crate) fn json_string_field(text: &str, key: &str) -> (r: Option<String>)
    ensures
        opt_view(r) == json_str_field(text@, key@),
{
    serde_json::from_str::<serde_json::Value>(text).ok().and_then(
        |v| v.get(key).and_then(|f| f.as_str().map(String::from)),
    )
}

/// An id that names one file in the synced folder once `.txt` is added: the name is its own
/// last component, so it has no path separator of the build's platform in it and no prefix
/// (`/` anywhere; on Windows also `\` and a drive such as `C:`). `.` and `..` are fine:
/// with `.txt` added they are ordinary names.
pub open spec fn plain_file_name(id: Seq<char>) -> bool {
    path_file_name(id + ".txt"@) == Some(id + ".txt"@)
}

/// Whether `id` is a plain file name.
pub fn is_plain_file_name(id: &str) -> (r: bool)
    ensures
        r == plain_file_name(id@),
{
    let name = download_file_name(id);
    match file_name_of(name.as_str()) {
        Some(last) => chars_eq(&chars_of(last.as_str()), &chars_of(name.as_str())),
        None => false,
    }
}

/// `POST /download`, given the `fileId` string of the request body (if any): the id, or the
/// reply refusing the request (401 when nobody is signed in, 400 without a `fileId` or with one
/// that is not a plain file name).
pub fn download_request(state: &AuthState, file_id: Option<String>) -> (r: Result<String, ServerReply>)
    ensures
        !state.logged_in ==> (r matches Err(reply) && is_message(
            reply,
            401,
            "error"@,
            "Not authenticated"@,
        )),
        state.logged_in ==> match file_id {
            None => r matches Err(reply) && is_message(reply, 400, "error"@, "Missing fileId"@),
            Some(id) => if plain_file_name(id@) {
                r matches Ok(i) && i@ == id@
            } else {
                r matches Err(reply) && is_message(reply, 400, "error"@, "Invalid fileId"@)
            },
        },
{
    if !state.logged_in {
        return Err(json_response(401, "error", "Not authenticated"));
    }
    match file_id {
        None => Err(json_response(400, "error", "Missing fileId")),
        Some(id) => {
            if is_plain_file_name(id.as_str()) {
                Ok(id)
            } else {
                Err(json_response(400, "error", "Invalid fileId"))
            }
        },
    }
}

/// `POST /download` with the request body: the id of the file to download, or the reply
/// refusing the request (401 when nobody is signed in, 400 when the body names no `fileId` or
/// one that is not a plain file name).
pub fn download_file_id(state: &AuthState, body: &str) -> (r: Result<String, ServerReply>)
    ensures
        !state.logged_in ==> (r matches Err(reply) && is_message(
            reply,
            401,
            "error"@,
            "Not authenticated"@,
        )),
        state.logged_in ==> match json_str_field(body@, "fileId"@) {
            None => r matches Err(reply) && is_message(reply, 400, "error"@, "Missing fileId"@),
            Some(id) => if plain_file_name(id) {
                r matches Ok(i) && i@ == id
            } else {
                r matches Err(reply) && is_message(reply, 400, "error"@, "Invalid fileId"@)
            },
        },
{
    if !state.logged_in {
        return Err(json_response(401, "error", "Not authenticated"));
    }
    download_request(state, json_string_field(body, "fileId"))
}

/// The name the downloaded file is saved under.
pub fn download_file_name(file_id: &str) -> (r: String)
    ensures
        r@ == file_id@ + ".txt"@,
{
    let mut r = file_id.to_owned();
    r.append(".txt");
    r
}

/// The reply once the download was written to `path`, or failed with `write_error`.
pub fn download_reply(file_id: &str, path: &str, write_error: Option<String>) -> (r: ServerReply)
    ensures
        match write_error {
            Some(e) => is_message(r, 500, "error"@, "File write failed: "@ + e@),
            None => r.status == 200 && (r.body matches ReplyBody::Download { file_id: f, path: p }
                && f@ == file_id@ && p@ == path@),
        },
{
    match write_error {
        Some(e) => {
            let mut m = "File write failed: ".to_owned();
            m.append(e.as_str());
            ServerReply { status: 500, body: ReplyBody::Message { key: "error".to_owned(), message: m } }
        },
        None => ServerReply {
            status: 200,
            body: ReplyBody::Download { file_id: file_id.to_owned(), path: path.to_owned() },
        },
    }
}

/// `GET /update/check`: the result of an update check.
pub fn update_check_reply(info: &UpdateInfo) -> (r: ServerReply)
    ensures
        r.status == 200,
        r.body matches ReplyBody::Update(i) && i == *info,
{
    ServerReply { status: 200, body: ReplyBody::Update(info.clone()) }
}

/// An entry of the synced folder: its file name and whether it is a regular file.
#[derive(Debug)]
pub struct FolderEntry {
    pub name: String,
    pub is_file: bool,
}

/// The names of the regular, non-hidden files among the entries that could be read.
pub open spec fn pending_names(entries: Seq<Option<FolderEntry>>) -> Seq<Seq<char>>
    decreases entries.len(),
{
    if entries.len() == 0 {
        Seq::empty()
    } else {
        let rest = pending_names(entries.drop_last());
        match entries.last() {
            Some(e) => if e.is_file && !(e.name@.len() > 0 && e.name@[0] == '.') {
                rest.push(e.name@)
            } else {
                rest
            },
            None => rest,
        }
    }
}

/// `GET /upload/status`: the files of the synced folder waiting for upload; `entries` is `None`
/// where the folder could not be read, and holds `None` for an entry that could not be read.
pub fn upload_status_reply(entries: &Option<Vec<Option<FolderEntry>>>) -> (r: ServerReply)
    ensures
        r.status == 200,
        r.body matches ReplyBody::Pending { files } && strings_view(files@) == match entries {
            Some(v) => pending_names(v@),
            None => Seq::empty(),
        },
{
    let mut files: Vec<String> = Vec::new();
    match entries {
        None => {
            assert(strings_view(files@) =~= Seq::<Seq<char>>::empty());
        },
        Some(v) => {
            let mut i: usize = 0;
            assert(v@.take(0) =~= Seq::<Option<FolderEntry>>::empty());
            assert(strings_view(files@) =~= Seq::<Seq<char>>::empty());
            while i < v.len()
                invariant
                    0 <= i <= v.len(),
                    strings_view(files@) == pending_names(v@.take(i as int)),
                decreases v.len() - i,
            {
                assert(v@.take(i + 1).drop_last() =~= v@.take(i as int));
                assert(v@.take(i + 1).last() == v@[i as int]);
                match &v[i] {
                    Some(e) => {
                        let c = chars_of(e.name.as_str());
                        if e.is_file && !(c.len() > 0 && c[0] == '.') {
                            let ghost before = strings_view(files@);
                            files.push(e.name.clone());
                            assert(strings_view(files@) =~= before.push(e.name@));
                        }
                    },
                    None => {},
                }
                i = i + 1;
            }
            assert(v@.take(v.len() as int) =~= v@);
        },
    }
    ServerReply { status: 200, body: ReplyBody::Pending { files } }
}

/// The reply to a request for no known route.
pub fn not_found_reply() -> (r: ServerReply)
    ensures
        is_message(r, 404, "error"@, "Not found"@),
{
    json_response(404, "error", "Not found")
}

/// The CORS headers only ever name an allowed origin.
pub proof fn lemma_cors_origin_allowed(origin: Option<Seq<char>>)
    ensures
        allowed_origin(cors_origin(origin)),
{
    reveal_strlit("https://fabbit.io");
    reveal_strlit("https://");
    reveal_strlit("fabbit.io");
    let o = "https://fabbit.io"@;
    assert(o.subrange(0, 8) =~= "https://"@);
    assert(o.skip(8) =~= "fabbit.io"@);
}

} // verus!
