//! The session client: request descriptions and response decoding.
//!
//! The client owns a bearer token and a portal base address. It does not
//! open connections itself: for each operation it hands out an
//! `HttpRequest` describing exactly what to send, and decodes the response
//! body the caller brings back. Every authenticated request carries the
//! token under both header spellings the portal's deployments expect.

use vstd::prelude::*;
use vstd::string::*;

use crate::json::{
    chars_to_string, lemma_view_variant, obj_get, parse_document, sp_document, sv_get,
    vec_json_view, Json, JsonV,
};
use crate::model::{
    decode_app_instance, decode_profile, get_opt_str, get_str, get_u64, sd_app_instance,
    sd_opt_str, sd_profile, sd_str, sd_u64, AppInstance, AppInstanceV, Profile, ProfileV,
};

verus! {

/// How one of the portal's operations fails: the transport broke, the
/// portal answered with a non-success status, or the body did not decode.
#[derive(Debug)]
pub enum SsoError {
    Transport { message: String },
    Remote { status: u16, body: String },
    Decode,
}

pub enum HttpMethod {
    Get,
    Post,
}

/// Everything the transport needs to perform one portal call.
pub struct HttpRequest {
    pub method: HttpMethod,
    pub url: String,
    pub headers: Vec<(String, String)>,
    pub query: Vec<(String, String)>,
    pub form: Vec<(String, String)>,
}

/// Envelope of the list endpoints: a possible continuation token and the
/// entries of this page, in wire order.
pub struct Page<T> {
    pub pagination_token: Option<String>,
    pub result: Vec<T>,
}

pub struct PageV<TV> {
    pub pagination_token: Option<Seq<char>>,
    pub result: Seq<TV>,
}

/// Elementwise view of a vector of viewable values.
pub open spec fn seq_view<T: View>(v: &Vec<T>) -> Seq<T::V> {
    Seq::new(v@.len(), |k: int| v@[k]@)
}

impl<T: View> View for Page<T> {
    type V = PageV<T::V>;

    open spec fn view(&self) -> PageV<T::V> {
        PageV {
            pagination_token: match self.pagination_token {
                Some(t) => Some(t@),
                None => None,
            },
            result: seq_view(&self.result),
        }
    }
}

/// View of a list of string pairs, as used for headers and parameters.
pub open spec fn pairs_view(v: &Vec<(String, String)>) -> Seq<(Seq<char>, Seq<char>)> {
    Seq::new(v@.len(), |k: int| (v@[k].0@, v@[k].1@))
}

/// The portal origin for a region.
pub open spec fn spec_base_url(region: Seq<char>) -> Seq<char> {
    "https://portal.sso."@ + region + ".amazonaws.com"@
}

/// The two header spellings every authenticated request must carry, both
/// bound to the same bearer token.
pub open spec fn spec_auth_headers(token: Seq<char>) -> Seq<(Seq<char>, Seq<char>)> {
    seq![("x-amz-sso_bearer_token"@, token), ("x-amz-sso-bearer-token"@, token)]
}

/// Both spellings of the bearer header are present and hold `token`.
pub open spec fn carries_dual_bearer(hs: Seq<(Seq<char>, Seq<char>)>, token: Seq<char>) -> bool {
    hs.contains(("x-amz-sso_bearer_token"@, token)) && hs.contains(
        ("x-amz-sso-bearer-token"@, token),
    )
}

/// What the token-exchange response decodes to: the object's `token`
/// member, a string.
pub open spec fn sd_token(body: Seq<char>) -> Option<Seq<char>> {
    match sp_document(body) {
        Some(JsonV::Obj(ms)) => sd_str(ms, "token"@),
        _ => None,
    }
}

/// All application instances of a wire array, in wire order; any failing
/// item fails the whole list.
pub open spec fn sd_app_items(elems: Seq<JsonV>) -> Option<Seq<AppInstanceV>> {
    if forall|k: int| 0 <= k < elems.len() ==> (#[trigger] sd_app_instance(elems[k])) is Some {
        Some(Seq::new(elems.len(), |k: int| sd_app_instance(elems[k])->0))
    } else {
        None
    }
}

/// All profiles of a wire array, in wire order; any failing item fails
/// the whole list.
pub open spec fn sd_profile_items(elems: Seq<JsonV>) -> Option<Seq<ProfileV>> {
    if forall|k: int| 0 <= k < elems.len() ==> (#[trigger] sd_profile(elems[k])) is Some {
        Some(Seq::new(elems.len(), |k: int| sd_profile(elems[k])->0))
    } else {
        None
    }
}

/// What an application-instance list response decodes to: the optional
/// continuation token and the decoded entries, in wire order.
pub open spec fn sd_app_page(body: Seq<char>) -> Option<(Option<Seq<char>>, Seq<AppInstanceV>)> {
    match sp_document(body) {
        Some(JsonV::Obj(ms)) => match (sd_opt_str(ms, "paginationToken"@), sv_get(
            ms,
            "result"@,
        )) {
            (Some(pt), Some(JsonV::Arr(elems))) => match sd_app_items(elems) {
                Some(items) => Some((pt, items)),
                None => None,
            },
            _ => None,
        },
        _ => None,
    }
}

/// What a profile list response decodes to, shaped as `sd_app_page`.
pub open spec fn sd_profile_page(body: Seq<char>) -> Option<(Option<Seq<char>>, Seq<ProfileV>)> {
    match sp_document(body) {
        Some(JsonV::Obj(ms)) => match (sd_opt_str(ms, "paginationToken"@), sv_get(
            ms,
            "result"@,
        )) {
            (Some(pt), Some(JsonV::Arr(elems))) => match sd_profile_items(elems) {
                Some(items) => Some((pt, items)),
                None => None,
            },
            _ => None,
        },
        _ => None,
    }
}

/// What a successful construction yields: the envelope's token, which
/// must be non-empty for the client's invariant to hold, and the portal
/// origin for the region.
pub open spec fn spec_new(region: Seq<char>, body: Seq<char>) -> Option<ClientV> {
    match sd_token(body) {
        Some(t) => if t.len() > 0 {
            Some(ClientV { token: t, base_url: spec_base_url(region) })
        } else {
            None
        },
        None => None,
    }
}

/// The session client. Immutable after construction: both fields are read
/// on every operation and written by none.
pub struct Client {
    token: String,
    base_url: String,
}

pub struct ClientV {
    pub token: Seq<char>,
    pub base_url: Seq<char>,
}

impl View for Client {
    type V = ClientV;

    closed spec fn view(&self) -> ClientV {
        ClientV { token: self.token@, base_url: self.base_url@ }
    }
}

/// The portal origin for a region, by interpolation alone: a nonsense
/// region yields a nonsense hostname, not an error.
pub fn base_url_for_region(region: &str) -> (s: String)
    ensures
        s@ == spec_base_url(region@),
{
    let mut s = String::from_str("https://portal.sso.");
    s.append(region);
    s.append(".amazonaws.com");
    s
}

/// The one unauthenticated request: exchanging an authorization code for
/// a bearer token.
pub fn token_request(org_id: &str, auth_code: &str, region: &str) -> (r: HttpRequest)
    ensures
        r.method is Post,
        r.url@ == spec_base_url(region@) + "/auth/sso-token"@,
        pairs_view(&r.form) == seq![("authCode"@, auth_code@), ("orgId"@, org_id@)],
        r.headers@.len() == 0,
        r.query@.len() == 0,
{
    let mut url = base_url_for_region(region);
    url.append("/auth/sso-token");
    let mut form: Vec<(String, String)> = Vec::new();
    form.push((String::from_str("authCode"), String::from_str(auth_code)));
    form.push((String::from_str("orgId"), String::from_str(org_id)));
    proof {
        assert(pairs_view(&form) =~~= seq![("authCode"@, auth_code@), ("orgId"@, org_id@)]);
    }
    HttpRequest {
        method: HttpMethod::Post,
        url,
        headers: Vec::new(),
        query: Vec::new(),
        form,
    }
}

impl Client {
    /// The client's invariant: it never exists without a token.
    pub open spec fn wf(&self) -> bool {
        self@.token.len() > 0
    }

    /// Builds a client from the token-exchange response. The whole
    /// construction fails when the body does not decode to a token
    /// envelope, or when the token it holds is empty: there is no
    /// partial client.
    pub fn new(region: &str, token_response_body: &str) -> (r: Result<Client, SsoError>)
        ensures
            match spec_new(region@, token_response_body@) {
                Some(cv) => r matches Ok(c) && c@ == cv && c.wf(),
                None => r matches Err(e) && e is Decode,
            },
    {
        let base_url = base_url_for_region(region);
        match parse_document(token_response_body) {
            None => Err(SsoError::Decode),
            Some(doc) => match doc {
                Json::Obj(ms) => match obj_get(&ms, "token") {
                    Some(tj) => match tj {
                        Json::Str(t) => if t.len() > 0 {
                            Ok(Client { token: chars_to_string(t), base_url })
                        } else {
                            Err(SsoError::Decode)
                        },
                        _ => {
                            proof {
                                lemma_view_variant(tj);
                            }
                            Err(SsoError::Decode)
                        },
                    },
                    None => Err(SsoError::Decode),
                },
                _ => {
                    proof {
                        lemma_view_variant(&doc);
                    }
                    Err(SsoError::Decode)
                },
            },
        }
    }

    fn auth_headers(&self) -> (hs: Vec<(String, String)>)
        ensures
            pairs_view(&hs) == spec_auth_headers(self@.token),
    {
        let mut hs: Vec<(String, String)> = Vec::new();
        hs.push((String::from_str("x-amz-sso_bearer_token"), self.token.clone()));
        hs.push((String::from_str("x-amz-sso-bearer-token"), self.token.clone()));
        proof {
            assert(pairs_view(&hs) =~~= spec_auth_headers(self@.token));
        }
        hs
    }

    /// The request that lists application instances.
    pub fn app_instances_request(&self) -> (r: HttpRequest)
        ensures
            r.method is Get,
            r.url@ == self@.base_url + "/instance/appinstances"@,
            pairs_view(&r.headers) == spec_auth_headers(self@.token),
            r.query@.len() == 0,
            r.form@.len() == 0,
    {
        let mut url = self.base_url.clone();
        url.append("/instance/appinstances");
        HttpRequest {
            method: HttpMethod::Get,
            url,
            headers: self.auth_headers(),
            query: Vec::new(),
            form: Vec::new(),
        }
    }

    /// The request that lists the profiles of one application instance.
    pub fn profiles_request(&self, app_instance_id: &str) -> (r: HttpRequest)
        ensures
            r.method is Get,
            r.url@ == self@.base_url + "/instance/appinstance/"@ + app_instance_id@
                + "/profiles"@,
            pairs_view(&r.headers) == spec_auth_headers(self@.token),
            r.query@.len() == 0,
            r.form@.len() == 0,
    {
        let mut url = self.base_url.clone();
        url.append("/instance/appinstance/");
        url.append(app_instance_id);
        url.append("/profiles");
        HttpRequest {
            method: HttpMethod::Get,
            url,
            headers: self.auth_headers(),
            query: Vec::new(),
            form: Vec::new(),
        }
    }

    /// The request that exchanges an account and role for credentials.
    pub fn credentials_request(&self, account_id: &str, role_name: &str) -> (r: HttpRequest)
        ensures
            r.method is Get,
            r.url@ == self@.base_url + "/federation/credentials/"@,
            pairs_view(&r.headers) == spec_auth_headers(self@.token),
            pairs_view(&r.query) == seq![
                ("account_id"@, account_id@),
                ("role_name"@, role_name@),
                ("debug"@, "true"@),
            ],
            r.form@.len() == 0,
    {
        let mut url = self.base_url.clone();
        url.append("/federation/credentials/");
        let mut query: Vec<(String, String)> = Vec::new();
        query.push((String::from_str("account_id"), String::from_str(account_id)));
        query.push((String::from_str("role_name"), String::from_str(role_name)));
        query.push((String::from_str("debug"), String::from_str("true")));
        proof {
            assert(pairs_view(&query) =~~= seq![
                ("account_id"@, account_id@),
                ("role_name"@, role_name@),
                ("debug"@, "true"@),
            ]);
        }
        HttpRequest {
            method: HttpMethod::Get,
            url,
            headers: self.auth_headers(),
            query,
            form: Vec::new(),
        }
    }
}


/// A point in time after the Unix epoch, split into whole seconds and the
/// remaining milliseconds.
pub struct Timestamp {
    pub secs: u64,
    pub millis: u32,
}

impl Timestamp {
    pub open spec fn wf(&self) -> bool {
        self.millis < 1000
    }

    /// The instant as milliseconds after the epoch.
    pub open spec fn as_millis(&self) -> int {
        self.secs * 1000 + self.millis
    }

    /// The instant the portal states as epoch milliseconds.
    pub fn from_epoch_millis(ms: u64) -> (r: Timestamp)
        ensures
            r.wf(),
            r.secs == ms / 1000,
            r.millis == ms % 1000,
            r.as_millis() == ms,
    {
        Timestamp { secs: ms / 1000, millis: (ms % 1000) as u32 }
    }
}

/// The credential fields exactly as the wire carries them, with the
/// expiration still in epoch milliseconds.
pub struct WireCredentials {
    pub access_key_id: String,
    pub secret_access_key: String,
    pub session_token: String,
    pub expiration: u64,
}

pub struct WireCredentialsV {
    pub access_key_id: Seq<char>,
    pub secret_access_key: Seq<char>,
    pub session_token: Seq<char>,
    pub expiration: u64,
}

impl View for WireCredentials {
    type V = WireCredentialsV;

    open spec fn view(&self) -> WireCredentialsV {
        WireCredentialsV {
            access_key_id: self.access_key_id@,
            secret_access_key: self.secret_access_key@,
            session_token: self.session_token@,
            expiration: self.expiration,
        }
    }
}

/// Temporary credentials as handed to the rest of the system, with an
/// absolute expiry instant.
pub struct Credentials {
    pub access_key_id: String,
    pub secret_access_key: String,
    pub session_token: String,
    pub expiration: Timestamp,
}

impl WireCredentials {
    /// The one conversion between the wire shape and the client-facing
    /// shape: the key material is kept as is, the expiration becomes an
    /// absolute instant.
    pub fn into_credentials(self) -> (r: Credentials)
        ensures
            r.access_key_id@ == self.access_key_id@,
            r.secret_access_key@ == self.secret_access_key@,
            r.session_token@ == self.session_token@,
            r.expiration.wf(),
            r.expiration.as_millis() == self.expiration,
    {
        let expiration = Timestamp::from_epoch_millis(self.expiration);
        Credentials {
            access_key_id: self.access_key_id,
            secret_access_key: self.secret_access_key,
            session_token: self.session_token,
            expiration,
        }
    }
}

/// What the credential-exchange response decodes to: the four fields of
/// the `roleCredentials` member.
pub open spec fn sd_credentials(body: Seq<char>) -> Option<WireCredentialsV> {
    match sp_document(body) {
        Some(JsonV::Obj(ms)) => match sv_get(ms, "roleCredentials"@) {
            Some(JsonV::Obj(rc)) => {
                let access_key_id = sd_str(rc, "accessKeyId"@);
                let secret_access_key = sd_str(rc, "secretAccessKey"@);
                let session_token = sd_str(rc, "sessionToken"@);
                let expiration = sd_u64(rc, "expiration"@);
                if access_key_id is Some && secret_access_key is Some && session_token is Some
                    && expiration is Some {
                    Some(
                        WireCredentialsV {
                            access_key_id: access_key_id->0,
                            secret_access_key: secret_access_key->0,
                            session_token: session_token->0,
                            expiration: expiration->0,
                        },
                    )
                } else {
                    None
                }
            },
            _ => None,
        },
        _ => None,
    }
}

fn decode_app_instances(es: &Vec<Json>) -> (r: Option<Vec<AppInstance>>)
    ensures
        match r {
            Some(v) => sd_app_items(vec_json_view(es)) == Some(seq_view(&v)),
            None => sd_app_items(vec_json_view(es)) is None,
        },
{
    let ghost elems = vec_json_view(es);
    let mut out: Vec<AppInstance> = Vec::new();
    let mut k: usize = 0;
    while k < es.len()
        invariant
            k <= es@.len(),
            elems == vec_json_view(es),
            elems.len() == es@.len(),
            out@.len() == k,
            forall|m: int| 0 <= m < k ==> #[trigger] sd_app_instance(elems[m]) == Some(out@[m]@),
        decreases es@.len() - k,
    {
        proof {
            assert(elems[k as int] == es@[k as int]@);
        }
        match decode_app_instance(&es[k]) {
            Some(a) => {
                out.push(a);
            },
            None => {
                proof {
                    assert(sd_app_instance(elems[k as int]) is None);
                }
                return None;
            },
        }
        k = k + 1;
    }
    proof {
        assert(forall|m: int| 0 <= m < elems.len() ==> (#[trigger] sd_app_instance(
            elems[m],
        )) is Some);
        assert(Seq::new(elems.len(), |m: int| sd_app_instance(elems[m])->0) =~= seq_view(&out));
    }
    Some(out)
}

fn decode_profiles(es: &Vec<Json>) -> (r: Option<Vec<Profile>>)
    ensures
        match r {
            Some(v) => sd_profile_items(vec_json_view(es)) == Some(seq_view(&v)),
            None => sd_profile_items(vec_json_view(es)) is None,
        },
{
    let ghost elems = vec_json_view(es);
    let mut out: Vec<Profile> = Vec::new();
    let mut k: usize = 0;
    while k < es.len()
        invariant
            k <= es@.len(),
            elems == vec_json_view(es),
            elems.len() == es@.len(),
            out@.len() == k,
            forall|m: int| 0 <= m < k ==> #[trigger] sd_profile(elems[m]) == Some(out@[m]@),
        decreases es@.len() - k,
    {
        proof {
            assert(elems[k as int] == es@[k as int]@);
        }
        match decode_profile(&es[k]) {
            Some(p) => {
                out.push(p);
            },
            None => {
                proof {
                    assert(sd_profile(elems[k as int]) is None);
                }
                return None;
            },
        }
        k = k + 1;
    }
    proof {
        assert(forall|m: int| 0 <= m < elems.len() ==> (#[trigger] sd_profile(elems[m])) is Some);
        assert(Seq::new(elems.len(), |m: int| sd_profile(elems[m])->0) =~= seq_view(&out));
    }
    Some(out)
}


/// Decode of one list envelope holding application instances.
pub fn parse_app_instance_page(body: &str) -> (r: Result<Page<AppInstance>, SsoError>)
    ensures
        match sd_app_page(body@) {
            Some(pg) => r matches Ok(p) && p@.pagination_token == pg.0 && p@.result == pg.1,
            None => r matches Err(e) && e is Decode,
        },
{
    match parse_document(body) {
        None => Err(SsoError::Decode),
        Some(doc) => match doc {
            Json::Obj(ms) => {
                let pt = get_opt_str(&ms, "paginationToken");
                match pt {
                    None => Err(SsoError::Decode),
                    Some(pagination_token) => match obj_get(&ms, "result") {
                        Some(rj) => match rj {
                            Json::Arr(es) => match decode_app_instances(es) {
                                Some(result) => Ok(Page { pagination_token, result }),
                                None => Err(SsoError::Decode),
                            },
                            _ => {
                                proof {
                                    lemma_view_variant(rj);
                                }
                                Err(SsoError::Decode)
                            },
                        },
                        None => Err(SsoError::Decode),
                    },
                }
            },
            _ => {
                proof {
                    lemma_view_variant(&doc);
                }
                Err(SsoError::Decode)
            },
        },
    }
}

/// Decode of one list envelope holding profiles.
pub fn parse_profile_page(body: &str) -> (r: Result<Page<Profile>, SsoError>)
    ensures
        match sd_profile_page(body@) {
            Some(pg) => r matches Ok(p) && p@.pagination_token == pg.0 && p@.result == pg.1,
            None => r matches Err(e) && e is Decode,
        },
{
    match parse_document(body) {
        None => Err(SsoError::Decode),
        Some(doc) => match doc {
            Json::Obj(ms) => {
                let pt = get_opt_str(&ms, "paginationToken");
                match pt {
                    None => Err(SsoError::Decode),
                    Some(pagination_token) => match obj_get(&ms, "result") {
                        Some(rj) => match rj {
                            Json::Arr(es) => match decode_profiles(es) {
                                Some(result) => Ok(Page { pagination_token, result }),
                                None => Err(SsoError::Decode),
                            },
                            _ => {
                                proof {
                                    lemma_view_variant(rj);
                                }
                                Err(SsoError::Decode)
                            },
                        },
                        None => Err(SsoError::Decode),
                    },
                }
            },
            _ => {
                proof {
                    lemma_view_variant(&doc);
                }
                Err(SsoError::Decode)
            },
        },
    }
}

/// A successful portal response carries a status code in the 2xx range.
pub open spec fn spec_status_ok(status: u16) -> bool {
    200 <= status < 300
}

/// Whether an HTTP status code counts as success for portal calls.
pub fn status_ok(status: u16) -> (r: bool)
    ensures
        r == spec_status_ok(status),
{
    200 <= status && status < 300
}

/// A successful portal response carries a status code in the 2xx range;
/// any other status is a remote rejection carrying status and body.
pub fn check_status(status: u16, body: String) -> (r: Result<(), SsoError>)
    ensures
        spec_status_ok(status) <==> r is Ok,
        !spec_status_ok(status) ==> (r matches Err(e) && e matches SsoError::Remote {
            status: s,
            body: b,
        } && s == status && b@ == body@),
{
    if status_ok(status) {
        Ok(())
    } else {
        Err(SsoError::Remote { status, body })
    }
}

impl Client {
    /// Decodes the response to `app_instances_request`: every instance of
    /// this page, in wire order. A body outside the envelope shape fails
    /// the whole call; no partial list is returned. Exactly one page is
    /// consulted: a continuation token in the envelope is read (see
    /// `parse_app_instance_page`) but deliberately not followed.
    pub fn app_instances(&self, response_body: &str) -> (r: Result<Vec<AppInstance>, SsoError>)
        ensures
            match sd_app_page(response_body@) {
                Some(pg) => r matches Ok(v) && seq_view(&v) == pg.1,
                None => r matches Err(e) && e is Decode,
            },
    {
        match parse_app_instance_page(response_body) {
            Ok(page) => Ok(page.result),
            Err(e) => Err(e),
        }
    }

    /// Decodes the response to `profiles_request`: every profile of this
    /// page, in wire order, under the same failure rule as
    /// `app_instances`.
    pub fn profiles(&self, response_body: &str) -> (r: Result<Vec<Profile>, SsoError>)
        ensures
            match sd_profile_page(response_body@) {
                Some(pg) => r matches Ok(v) && seq_view(&v) == pg.1,
                None => r matches Err(e) && e is Decode,
            },
    {
        match parse_profile_page(response_body) {
            Ok(page) => Ok(page.result),
            Err(e) => Err(e),
        }
    }

    /// Decodes the response to `credentials_request` and converts the
    /// epoch-millisecond expiration into an absolute instant.
    pub fn credentials(&self, response_body: &str) -> (r: Result<Credentials, SsoError>)
        ensures
            match sd_credentials(response_body@) {
                Some(w) => r matches Ok(c) && c.access_key_id@ == w.access_key_id
                    && c.secret_access_key@ == w.secret_access_key && c.session_token@
                    == w.session_token && c.expiration.wf() && c.expiration.as_millis()
                    == w.expiration,
                None => r matches Err(e) && e is Decode,
            },
    {
        match parse_wire_credentials(response_body) {
            Ok(w) => Ok(w.into_credentials()),
            Err(e) => Err(e),
        }
    }
}

/// Decode of the credential-exchange envelope, still in wire shape.
pub fn parse_wire_credentials(body: &str) -> (r: Result<WireCredentials, SsoError>)
    ensures
        match sd_credentials(body@) {
            Some(w) => r matches Ok(c) && c@ == w,
            None => r matches Err(e) && e is Decode,
        },
{
    match parse_document(body) {
        None => Err(SsoError::Decode),
        Some(doc) => match doc {
            Json::Obj(ms) => match obj_get(&ms, "roleCredentials") {
                Some(rcj) => match rcj {
                    Json::Obj(rc) => {
                        let access_key_id = get_str(rc, "accessKeyId");
                        let secret_access_key = get_str(rc, "secretAccessKey");
                        let session_token = get_str(rc, "sessionToken");
                        let expiration = get_u64(rc, "expiration");
                        match (access_key_id, secret_access_key, session_token, expiration) {
                            (
                                Some(access_key_id),
                                Some(secret_access_key),
                                Some(session_token),
                                Some(expiration),
                            ) => Ok(
                                WireCredentials {
                                    access_key_id,
                                    secret_access_key,
                                    session_token,
                                    expiration,
                                },
                            ),
                            _ => Err(SsoError::Decode),
                        }
                    },
                    _ => {
                        proof {
                            lemma_view_variant(rcj);
                        }
                        Err(SsoError::Decode)
                    },
                },
                None => Err(SsoError::Decode),
            },
            _ => {
                proof {
                    lemma_view_variant(&doc);
                }
                Err(SsoError::Decode)
            },
        },
    }
}


/// Law: the header list every authenticated request carries holds both
/// spellings of the bearer header, each bound to the same token.
pub proof fn lemma_dual_bearer(token: Seq<char>)
    ensures
        carries_dual_bearer(spec_auth_headers(token), token),
{
    assert(spec_auth_headers(token).contains(("x-amz-sso_bearer_token"@, token))) by {
        assert(spec_auth_headers(token)[0] == ("x-amz-sso_bearer_token"@, token));
    }
    assert(spec_auth_headers(token).contains(("x-amz-sso-bearer-token"@, token))) by {
        assert(spec_auth_headers(token)[1] == ("x-amz-sso-bearer-token"@, token));
    }
}

/// Law: construction from a token envelope holding a non-empty token
/// succeeds, binds exactly that token, and every authenticated request of
/// the resulting client carries it under both header spellings.
pub proof fn lemma_token_round_trip(region: Seq<char>, body: Seq<char>, token: Seq<char>)
    requires
        sd_token(body) == Some(token),
        token.len() > 0,
    ensures
        spec_new(region, body) matches Some(cv) && cv.token == token && carries_dual_bearer(
            spec_auth_headers(cv.token),
            token,
        ),
{
    lemma_dual_bearer(token);
}

/// Law: a list envelope whose `result` is the empty array decodes to the
/// empty sequence, not to a failure.
pub proof fn lemma_empty_page(body: Seq<char>, ms: Seq<(Seq<char>, JsonV)>, pt: Option<Seq<char>>)
    requires
        sp_document(body) == Some(JsonV::Obj(ms)),
        sd_opt_str(ms, "paginationToken"@) == Some(pt),
        sv_get(ms, "result"@) == Some(JsonV::Arr(Seq::<JsonV>::empty())),
    ensures
        sd_app_page(body) == Some((pt, Seq::<AppInstanceV>::empty())),
        sd_profile_page(body) == Some((pt, Seq::<ProfileV>::empty())),
{
    assert(Seq::new(0nat, |k: int| sd_app_instance(Seq::<JsonV>::empty()[k])->0) =~= Seq::<
        AppInstanceV,
    >::empty());
    assert(Seq::new(0nat, |k: int| sd_profile(Seq::<JsonV>::empty()[k])->0) =~= Seq::<
        ProfileV,
    >::empty());
}

/// Law: list decoding keeps wire order exactly: entry `k` of the decoded
/// sequence is the decoding of element `k` of the wire array.
pub proof fn lemma_app_page_order(
    body: Seq<char>,
    ms: Seq<(Seq<char>, JsonV)>,
    elems: Seq<JsonV>,
    pt: Option<Seq<char>>,
    items: Seq<AppInstanceV>,
)
    requires
        sp_document(body) == Some(JsonV::Obj(ms)),
        sv_get(ms, "result"@) == Some(JsonV::Arr(elems)),
        sd_app_page(body) == Some((pt, items)),
    ensures
        items.len() == elems.len(),
        forall|k: int| 0 <= k < elems.len() ==> #[trigger] sd_app_instance(elems[k]) == Some(
            items[k],
        ),
{
}

/// Law: profile list decoding keeps wire order, as `lemma_app_page_order`.
pub proof fn lemma_profile_page_order(
    body: Seq<char>,
    ms: Seq<(Seq<char>, JsonV)>,
    elems: Seq<JsonV>,
    pt: Option<Seq<char>>,
    items: Seq<ProfileV>,
)
    requires
        sp_document(body) == Some(JsonV::Obj(ms)),
        sv_get(ms, "result"@) == Some(JsonV::Arr(elems)),
        sd_profile_page(body) == Some((pt, items)),
    ensures
        items.len() == elems.len(),
        forall|k: int| 0 <= k < elems.len() ==> #[trigger] sd_profile(elems[k]) == Some(items[k]),
{
}

/// Law: a body outside the JSON grammar decodes to a failure for every
/// envelope; no operation falls back to a default value.
pub proof fn lemma_undecodable_body_fails(body: Seq<char>)
    requires
        sp_document(body) is None,
    ensures
        sd_token(body) is None,
        sd_app_page(body) is None,
        sd_profile_page(body) is None,
        sd_credentials(body) is None,
{
}

} // verus!
