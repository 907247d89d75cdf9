//! The client: credentials and endpoint, the request body with the project
//! fields, the signed request, and the reading of the API's answer.

use vstd::prelude::*;
use crate::crypto::{clock_reading, read_clock};
use crate::error::Error;
use crate::json::{JsonMap, JsonValue};
use crate::sign::{request_signature, sign_request_at};
use crate::text::{decimal, decimal_string, lemma_trimmed_idempotent, trim, trimmed};

verus! {

/// The base URL that a client posts to unless told otherwise.
pub open spec fn default_base_url() -> Seq<char> {
    "https://api.loopengine.dev"@
}

/// The path of the Ingest API endpoint.
pub open spec fn api_path() -> Seq<char> {
    "/feedback"@
}

/// Builds the HTTP client used when none is given, with
/// `reqwest::Client::builder().build()`: the default configuration, failing
/// with a `reqwest::Error` (rather than panicking, as `Client::default` does)
/// when no TLS backend can be initialised or the resolver cannot load the
/// system configuration. Nothing is claimed of the result.
#[verifier::external_body]
fn default_http_client() -> Result<reqwest::Client, reqwest::Error> {
    reqwest::Client::builder().build()
}

/// Builder for [`Client`]. Obtain one via [`Client::builder`].
pub struct ClientBuilder {
    project_key: String,
    project_secret: String,
    project_id: String,
    base_url: String,
    http_client: Option<reqwest::Client>,
}

/// Sends feedback to the LoopEngine Ingest API. Build with [`Client::new`] or
/// [`Client::builder`].
pub struct Client {
    project_key: String,
    project_secret: String,
    project_id: String,
    base_url: String,
    http_client: reqwest::Client,
}

/// A request ready to be posted: the URL, the headers in order, and the body.
#[derive(Debug)]
pub struct SignedRequest {
    pub url: String,
    pub headers: Vec<(String, String)>,
    pub body: Vec<u8>,
}

/// The headers `h` as pairs of character sequences.
pub open spec fn header_views(h: Seq<(String, String)>) -> Seq<(Seq<char>, Seq<char>)> {
    h.map_values(|p: (String, String)| (p.0@, p.1@))
}

/// The key under which the project ID travels in the body.
pub open spec fn project_id_key() -> Seq<char> {
    "project_id"@
}

/// The key of the device latitude.
pub open spec fn geo_lat_key() -> Seq<char> {
    "geo_lat"@
}

/// The key of the device longitude.
pub open spec fn geo_lon_key() -> Seq<char> {
    "geo_lon"@
}

/// Whether `after` is the object `before` with the project fields added: the
/// key `project_id` set to the string `project_id`, and, when both `lat` and
/// `lon` are given, `geo_lat` and `geo_lon` set to them; every other key keeps
/// its value.
pub open spec fn project_fields_added(
    before: Map<Seq<char>, JsonValue>,
    after: Map<Seq<char>, JsonValue>,
    project_id: Seq<char>,
    lat: Option<JsonValue>,
    lon: Option<JsonValue>,
) -> bool {
    let geo = lat is Some && lon is Some;
    &&& after.dom() == (if geo {
        before.dom().insert(project_id_key()).insert(geo_lat_key()).insert(geo_lon_key())
    } else {
        before.dom().insert(project_id_key())
    })
    &&& after[project_id_key()] matches JsonValue::String(s) && s@ == project_id
    &&& geo ==> after[geo_lat_key()] == lat->0 && after[geo_lon_key()] == lon->0
    &&& forall|k: Seq<char>|
        #![trigger before[k]]
        before.dom().contains(k) && k != project_id_key() && !(geo && (k == geo_lat_key() || k
            == geo_lon_key())) ==> after[k] == before[k]
}

/// Whether `body` is what is posted for `payload`: an object gets the project
/// fields, `null` becomes an object of the project fields alone, and any other
/// value (a scalar or an array, into which no field can go) is posted as it is.
pub open spec fn body_for_payload(
    payload: JsonValue,
    body: JsonValue,
    project_id: Seq<char>,
    lat: Option<JsonValue>,
    lon: Option<JsonValue>,
) -> bool {
    match payload {
        JsonValue::Object(m) => body matches JsonValue::Object(b) && project_fields_added(
            m@,
            b@,
            project_id,
            lat,
            lon,
        ),
        JsonValue::Null => body matches JsonValue::Object(b) && project_fields_added(
            Map::empty(),
            b@,
            project_id,
            lat,
            lon,
        ),
        _ => body == payload,
    }
}

/// The headers of a request signed at the timestamp `ts`: content type, project
/// key, timestamp and signature, in that order.
pub open spec fn request_headers(
    key: Seq<char>,
    secret: Seq<char>,
    ts: Seq<char>,
    body: Seq<u8>,
) -> Seq<(Seq<char>, Seq<char>)> {
    seq![
        ("Content-Type"@, "application/json"@),
        ("X-Project-Key"@, key),
        ("X-Timestamp"@, ts),
        ("X-Signature"@, request_signature(secret, "POST"@, api_path(), ts, body)),
    ]
}

/// Whether `status` is a success (2xx) status code.
pub fn is_success_status(status: u16) -> (b: bool)
    ensures
        b == (200 <= status <= 299),
{
    200 <= status && status <= 299
}

/// The outcome of the API's answer: `Ok` for a 2xx status, otherwise
/// [`Error::ApiError`] with the status and the trimmed response body.
pub fn response_result(status: u16, body_text: &str) -> (r: Result<(), Error>)
    ensures
        r is Ok <==> 200 <= status <= 299,
        r matches Err(e) ==> (e matches Error::ApiError { status: s, body } && s == status
            && body@ == trimmed(body_text@)),
{
    if is_success_status(status) {
        Ok(())
    } else {
        Err(api_error(status, body_text))
    }
}

/// The error for a non-2xx answer: [`Error::ApiError`] with the status and the
/// response body without leading and trailing whitespace.
pub fn api_error(status: u16, body_text: &str) -> (e: Error)
    ensures
        e matches Error::ApiError { status: s, body } && s == status && body@ == trimmed(
            body_text@,
        ),
{
    Error::ApiError { status, body: trim(body_text) }
}

impl ClientBuilder {
    /// Credentials are held without leading and trailing whitespace.
    #[verifier::type_invariant]
    spec fn credentials_trimmed(self) -> bool {
        &&& trimmed(self.project_key@) == self.project_key@
        &&& trimmed(self.project_secret@) == self.project_secret@
        &&& trimmed(self.project_id@) == self.project_id@
    }

    /// The project key.
    pub closed spec fn key(&self) -> Seq<char> {
        self.project_key@
    }

    /// The project secret.
    pub closed spec fn secret(&self) -> Seq<char> {
        self.project_secret@
    }

    /// The project ID.
    pub closed spec fn id(&self) -> Seq<char> {
        self.project_id@
    }

    /// The base URL.
    pub closed spec fn base(&self) -> Seq<char> {
        self.base_url@
    }

    /// The HTTP client that was given, if any.
    pub closed spec fn http(&self) -> Option<reqwest::Client> {
        self.http_client
    }

    /// Creates a new builder with the given credentials, each without leading
    /// and trailing whitespace, and the default base URL.
    pub fn new(project_key: &str, project_secret: &str, project_id: &str) -> (b: ClientBuilder)
        ensures
            b.key() == trimmed(project_key@),
            b.secret() == trimmed(project_secret@),
            b.id() == trimmed(project_id@),
            b.base() == default_base_url(),
            b.http() is None,
    {
        proof {
            lemma_trimmed_idempotent(project_key@);
            lemma_trimmed_idempotent(project_secret@);
            lemma_trimmed_idempotent(project_id@);
        }
        ClientBuilder {
            project_key: trim(project_key),
            project_secret: trim(project_secret),
            project_id: trim(project_id),
            base_url: "https://api.loopengine.dev".to_owned(),
            http_client: None,
        }
    }

    /// Sets a custom `reqwest::Client`, for instance to configure timeouts or
    /// a custom connector. If not set, a default one is used.
    pub fn with_http_client(self, client: reqwest::Client) -> (b: ClientBuilder)
        ensures
            b.key() == self.key(),
            b.secret() == self.secret(),
            b.id() == self.id(),
            b.base() == self.base(),
            b.http() == Some(client),
    {
        proof {
            use_type_invariant(&self);
        }
        ClientBuilder { http_client: Some(client), ..self }
    }

    /// Overrides the base URL (default: `https://api.loopengine.dev`).
    pub fn with_base_url(self, url: &str) -> (b: ClientBuilder)
        ensures
            b.key() == self.key(),
            b.secret() == self.secret(),
            b.id() == self.id(),
            b.base() == url@,
            b.http() == self.http(),
    {
        proof {
            use_type_invariant(&self);
        }
        ClientBuilder { base_url: url.to_owned(), ..self }
    }

    /// Consumes the builder and returns a [`Client`]; fails with
    /// [`Error::MissingCredentials`] when a credential is empty, and, when no
    /// HTTP client was given and the default one cannot be built (no TLS
    /// backend, or no resolver configuration), with [`Error::Http`].
    pub fn build(self) -> (r: Result<Client, Error>)
        ensures
            (r matches Err(e) && e is MissingCredentials) <==> !(self.key().len() > 0
                && self.secret().len() > 0 && self.id().len() > 0),
            r matches Err(e) && e is Http ==> self.http() is None,
            r matches Err(e) ==> e is MissingCredentials || e is Http,
            self.http() is Some && self.key().len() > 0 && self.secret().len() > 0
                && self.id().len() > 0 ==> r is Ok,
            r matches Ok(c) ==> {
                &&& c.key() == self.key()
                &&& c.secret() == self.secret()
                &&& c.id() == self.id()
                &&& c.base() == self.base()
                &&& (self.http() matches Some(h) ==> c.http() == h)
            },
    {
        proof {
            use_type_invariant(&self);
        }
        if self.project_key.as_str().is_empty() || self.project_secret.as_str().is_empty()
            || self.project_id.as_str().is_empty() {
            return Err(Error::MissingCredentials);
        }
        let http_client = match self.http_client {
            Some(h) => h,
            None => match default_http_client() {
                Ok(h) => h,
                Err(e) => {
                    return Err(Error::Http(e));
                },
            },
        };
        Ok(
            Client {
                project_key: self.project_key,
                project_secret: self.project_secret,
                project_id: self.project_id,
                base_url: self.base_url,
                http_client,
            },
        )
    }
}

impl Client {
    /// Credentials are non-empty and held without leading and trailing
    /// whitespace.
    #[verifier::type_invariant]
    spec fn credentials_valid(self) -> bool {
        &&& self.project_key@.len() > 0
        &&& self.project_secret@.len() > 0
        &&& self.project_id@.len() > 0
        &&& trimmed(self.project_key@) == self.project_key@
        &&& trimmed(self.project_secret@) == self.project_secret@
        &&& trimmed(self.project_id@) == self.project_id@
    }

    /// The project key.
    pub closed spec fn key(&self) -> Seq<char> {
        self.project_key@
    }

    /// The project secret.
    pub closed spec fn secret(&self) -> Seq<char> {
        self.project_secret@
    }

    /// The project ID.
    pub closed spec fn id(&self) -> Seq<char> {
        self.project_id@
    }

    /// The base URL.
    pub closed spec fn base(&self) -> Seq<char> {
        self.base_url@
    }

    /// The HTTP client.
    pub closed spec fn http(&self) -> reqwest::Client {
        self.http_client
    }

    /// Builds a `Client` from project credentials, each without leading and
    /// trailing whitespace; fails with [`Error::MissingCredentials`] when one
    /// of them is empty after trimming, and with [`Error::Http`] when the
    /// default HTTP client cannot be built.
    pub fn new(project_key: &str, project_secret: &str, project_id: &str) -> (r: Result<
        Client,
        Error,
    >)
        ensures
            (r matches Err(e) && e is MissingCredentials) <==> !(trimmed(project_key@).len() > 0
                && trimmed(project_secret@).len() > 0 && trimmed(project_id@).len() > 0),
            r matches Err(e) ==> e is MissingCredentials || e is Http,
            r matches Ok(c) ==> {
                &&& c.key() == trimmed(project_key@)
                &&& c.secret() == trimmed(project_secret@)
                &&& c.id() == trimmed(project_id@)
                &&& c.base() == default_base_url()
            },
    {
        ClientBuilder::new(project_key, project_secret, project_id).build()
    }

    /// Returns a [`ClientBuilder`] for configuring additional options before
    /// building the client.
    pub fn builder(project_key: &str, project_secret: &str, project_id: &str) -> (b:
        ClientBuilder)
        ensures
            b.key() == trimmed(project_key@),
            b.secret() == trimmed(project_secret@),
            b.id() == trimmed(project_id@),
            b.base() == default_base_url(),
            b.http() is None,
    {
        ClientBuilder::new(project_key, project_secret, project_id)
    }

    /// The project key.
    pub fn project_key(&self) -> (s: &str)
        ensures
            s@ == self.key(),
            s@.len() > 0,
            trimmed(s@) == s@,
    {
        proof {
            use_type_invariant(self);
        }
        self.project_key.as_str()
    }

    /// The project secret.
    pub fn project_secret(&self) -> (s: &str)
        ensures
            s@ == self.secret(),
            s@.len() > 0,
            trimmed(s@) == s@,
    {
        proof {
            use_type_invariant(self);
        }
        self.project_secret.as_str()
    }

    /// The project ID.
    pub fn project_id(&self) -> (s: &str)
        ensures
            s@ == self.id(),
            s@.len() > 0,
            trimmed(s@) == s@,
    {
        proof {
            use_type_invariant(self);
        }
        self.project_id.as_str()
    }

    /// The base URL.
    pub fn base_url(&self) -> (s: &str)
        ensures
            s@ == self.base(),
    {
        self.base_url.as_str()
    }

    /// The HTTP client.
    pub fn http_client(&self) -> (h: &reqwest::Client)
        ensures
            *h == self.http(),
    {
        &self.http_client
    }

    fn add_project_fields(&self, map: JsonMap, lat: Option<JsonValue>, lon: Option<JsonValue>) -> (m:
        JsonMap)
        ensures
            project_fields_added(map@, m@, self.id(), lat, lon),
    {
        proof {
            reveal_strlit("project_id");
            reveal_strlit("geo_lat");
            reveal_strlit("geo_lon");
        }
        let mut map = map;
        let ghost before = map@;
        map.insert("project_id".to_owned(), JsonValue::String(self.project_id.clone()));
        match (lat, lon) {
            (Some(a), Some(b)) => {
                map.insert("geo_lat".to_owned(), a);
                map.insert("geo_lon".to_owned(), b);
            },
            _ => {},
        }
        assert(project_id_key() != geo_lat_key() && project_id_key() != geo_lon_key()
            && geo_lat_key() != geo_lon_key()) by {
            assert(project_id_key().len() != geo_lat_key().len());
            assert(project_id_key().len() != geo_lon_key().len());
            assert(geo_lat_key()[5] != geo_lon_key()[5]);
        }
        assert(map@[project_id_key()] matches JsonValue::String(s) && s@ == self.id());
        assert(map@.dom() =~= (if lat is Some && lon is Some {
            before.dom().insert(project_id_key()).insert(geo_lat_key()).insert(geo_lon_key())
        } else {
            before.dom().insert(project_id_key())
        }));
        map
    }

    /// The request body for `payload`: the project ID is added to an object
    /// (and `geo_lat`/`geo_lon` when both coordinates are given), `null`
    /// becomes an object of those fields, and any other value is kept as it is.
    pub fn build_body_with_geo(
        &self,
        payload: JsonValue,
        lat: Option<JsonValue>,
        lon: Option<JsonValue>,
    ) -> (body: JsonValue)
        ensures
            body_for_payload(payload, body, self.id(), lat, lon),
    {
        match payload {
            JsonValue::Object(map) => JsonValue::Object(self.add_project_fields(map, lat, lon)),
            JsonValue::Null => JsonValue::Object(self.add_project_fields(JsonMap::new(), lat, lon)),
            other => other,
        }
    }

    /// The request that posts `body` to the Ingest API, signed as of `now_secs`
    /// seconds after the Unix epoch.
    pub fn signed_request_at(&self, body: Vec<u8>, now_secs: u64) -> (r: SignedRequest)
        ensures
            r.url@ == self.base() + api_path(),
            header_views(r.headers@) == request_headers(
                self.key(),
                self.secret(),
                decimal(now_secs as nat),
                body@,
            ),
            r.body@ == body@,
    {
        proof {
            reveal_strlit("/feedback");
        }
        let (timestamp, signature) = sign_request_at(
            self.project_secret.as_str(),
            "POST",
            "/feedback",
            body.as_slice(),
            now_secs,
        );
        let mut url = self.base_url.clone();
        url.append("/feedback");
        let mut headers: Vec<(String, String)> = Vec::new();
        headers.push(("Content-Type".to_owned(), "application/json".to_owned()));
        headers.push(("X-Project-Key".to_owned(), self.project_key.clone()));
        headers.push(("X-Timestamp".to_owned(), timestamp));
        headers.push(("X-Signature".to_owned(), signature));
        assert(header_views(headers@) =~= request_headers(
            self.key(),
            self.secret(),
            decimal(now_secs as nat),
            body@,
        ));
        SignedRequest { url, headers, body }
    }

    /// The request that posts `body` to the Ingest API, signed now: the
    /// timestamp is the reading of the system clock, in whole seconds since the
    /// Unix epoch, as it came back from the clock.
    pub fn signed_request(&self, body: Vec<u8>) -> (r: SignedRequest)
        ensures
            r.url@ == self.base() + api_path(),
            exists|now: nat|
                header_views(r.headers@) == request_headers(
                    self.key(),
                    self.secret(),
                    decimal(now),
                    body@,
                ),
            exists|now: u64|
                clock_reading(now) && header_views(r.headers@)
                    == request_headers(self.key(), self.secret(), decimal(now as nat), body@),
            r.body@ == body@,
    {
        let now = read_clock();
        self.signed_request_at(body, now)
    }
}

} // verus!
