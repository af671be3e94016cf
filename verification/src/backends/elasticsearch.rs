//! Elasticsearch-compatible clusters as source and as sink.

use crate::backends::common_config::{CommonSinkConfig, CommonSourceConfig};
use crate::text::{decimal, decimal_string, trim_trailing, without_trailing};
use vstd::prelude::*;
use vstd::string::StringExecFns;

verus! {

/// A cluster to read from.
#[derive(Debug, Clone)]
pub struct ElasticsearchSourceConfig {
    /// Base URL of the cluster.
    pub url: String,
    /// User for basic authentication.
    pub username: Option<String>,
    /// Password for basic authentication.
    pub password: Option<String>,
    /// API key; it takes precedence over user and password.
    pub api_key: Option<String>,
    /// Page limits.
    pub common_config: CommonSourceConfig,
}

/// A cluster to write to through its bulk endpoint.
#[derive(Debug, Clone)]
pub struct ElasticsearchSinkConfig {
    /// Base URL of the cluster.
    pub url: String,
    /// User for basic authentication.
    pub username: Option<String>,
    /// Password for basic authentication.
    pub password: Option<String>,
    /// API key; it takes precedence over user and password.
    pub api_key: Option<String>,
    /// Index that must exist before anything is sent.
    pub index: Option<String>,
    /// Request limit.
    pub common_config: CommonSinkConfig,
}

/// How a request to the cluster authenticates.
#[derive(Debug, Clone, PartialEq, Eq)]
pub enum Authorization {
    /// An `Authorization` header with the value [`api_key_header`].
    ApiKey(String),
    /// HTTP basic authentication.
    Basic { username: String, password: Option<String> },
    /// No `Authorization` header.
    Anonymous,
}

/// The base URL without the slashes at its end.
pub open spec fn base_url(url: Seq<char>) -> Seq<char> {
    without_trailing(url, '/')
}

/// The bulk endpoint of a cluster: `<base>/_bulk`.
pub open spec fn bulk_url_of(url: Seq<char>) -> Seq<char> {
    base_url(url) + "/_bulk"@
}

/// The URL of an index: `<base>/<index>`.
pub open spec fn index_url_of(url: Seq<char>, index: Seq<char>) -> Seq<char> {
    base_url(url) + seq!['/'] + index
}

/// The value of the `Authorization` header for an API key: `ApiKey <key>`.
pub open spec fn api_key_header_of(key: Seq<char>) -> Seq<char> {
    "ApiKey "@ + key
}

/// The media type of a bulk request body.
pub open spec fn bulk_content_type_of() -> Seq<char> {
    "application/x-ndjson"@
}

/// The value of the `Content-Type` header of a bulk request.
pub fn bulk_content_type() -> (value: &'static str)
    ensures
        value@ == bulk_content_type_of(),
{
    "application/x-ndjson"
}

/// Whether an HTTP status reports success: 200 to 299.
pub open spec fn is_success(status: u16) -> bool {
    200 <= status < 300
}

/// Seconds allowed for connecting to the cluster.
pub const CONNECT_TIMEOUT_SECS: u64 = 10;

/// Seconds allowed for one whole request.
pub const REQUEST_TIMEOUT_SECS: u64 = 30;

/// Why the cluster cannot be written to.
#[derive(Debug, Clone, PartialEq, Eq)]
pub enum SinkError {
    /// The configured index did not answer with success before anything was
    /// sent.
    IndexMissing { index_url: String },
    /// A bulk request was answered with something other than success.
    BulkRejected { status: u16, body: String },
}

/// The text of an error, for people.
pub open spec fn sink_error_message(e: SinkError) -> Seq<char> {
    match e {
        SinkError::IndexMissing { index_url } => "index '"@ + index_url@
            + "' did not answer with success"@,
        SinkError::BulkRejected { status, body } => "bulk request was answered with status "@
            + decimal(status as nat) + ": "@ + body@,
    }
}

impl SinkError {
    /// The text of the error: it names the index URL, or holds the status
    /// and body of the response.
    pub fn message(&self) -> (text: String)
        ensures
            text@ == sink_error_message(*self),
    {
        match self {
            SinkError::IndexMissing { index_url } => {
                let mut text = String::from_str("index '");
                text.append(index_url.as_str());
                text.append("' did not answer with success");
                text
            },
            SinkError::BulkRejected { status, body } => {
                let mut text = String::from_str("bulk request was answered with status ");
                let status_text = decimal_string(*status as u64);
                text.append(status_text.as_str());
                text.append(": ");
                text.append(body.as_str());
                text
            },
        }
    }
}

fn clone_optional(value: &Option<String>) -> (copy: Option<String>)
    ensures
        copy == *value,
{
    match value {
        Some(value) => Some(value.clone()),
        None => None,
    }
}

impl ElasticsearchSinkConfig {
    /// How requests for the index and to the bulk endpoint authenticate: the
    /// API key where there is one, else user and password where there is a
    /// user, else nothing.
    pub open spec fn spec_authorization(&self) -> Authorization {
        match self.api_key {
            Some(key) => Authorization::ApiKey(key),
            None => match self.username {
                Some(username) => Authorization::Basic { username, password: self.password },
                None => Authorization::Anonymous,
            },
        }
    }

    /// How the request that tests whether the cluster can be reached
    /// authenticates: always with user and password, an absent user as the
    /// empty name.
    pub open spec fn spec_reachability_authorization(&self, auth: Authorization) -> bool {
        match auth {
            Authorization::Basic { username, password } => {
                &&& password == self.password
                &&& username@ == match self.username {
                    Some(username) => username@,
                    None => Seq::<char>::empty(),
                }
            },
            _ => false,
        }
    }

    /// See [`Self::spec_authorization`].
    pub fn authorization(&self) -> (auth: Authorization)
        ensures
            auth == self.spec_authorization(),
    {
        match &self.api_key {
            Some(key) => Authorization::ApiKey(key.clone()),
            None => match &self.username {
                Some(username) => Authorization::Basic {
                    username: username.clone(),
                    password: clone_optional(&self.password),
                },
                None => Authorization::Anonymous,
            },
        }
    }

    /// See [`Self::spec_reachability_authorization`].
    pub fn reachability_authorization(&self) -> (auth: Authorization)
        ensures
            self.spec_reachability_authorization(auth),
    {
        let username = match &self.username {
            Some(username) => username.clone(),
            None => String::new(),
        };
        Authorization::Basic { username, password: clone_optional(&self.password) }
    }

    /// The URL that bulk requests are posted to.
    pub fn bulk_url(&self) -> (url: String)
        ensures
            url@ == bulk_url_of(self.url@),
    {
        let mut url = String::from_str(trim_trailing(self.url.as_str(), '/'));
        url.append("/_bulk");
        url
    }

    /// The URL of the configured index, where one is configured. The index
    /// must answer a GET with success before anything is sent.
    pub fn index_url(&self) -> (url: Option<String>)
        ensures
            match self.index {
                Some(index) => url is Some && url.unwrap()@ == index_url_of(self.url@, index@),
                None => url is None,
            },
    {
        match &self.index {
            Some(index) => {
                let mut url = String::from_str(trim_trailing(self.url.as_str(), '/'));
                url.append("/");
                url.append(index.as_str());
                proof {
                    reveal_strlit("/");
                }
                assert(url@ =~= index_url_of(self.url@, index@));
                Some(url)
            },
            None => None,
        }
    }
}

/// The value of the `Authorization` header for an API key.
pub fn api_key_header(key: &str) -> (value: String)
    ensures
        value@ == api_key_header_of(key@),
{
    let mut value = String::from_str("ApiKey ");
    value.append(key);
    value
}

/// Whether an HTTP status reports success.
pub fn status_is_success(status: u16) -> (success: bool)
    ensures
        success == is_success(status),
{
    200 <= status && status < 300
}

/// Judges the answer to the GET for the configured index: anything but
/// success means that the sink cannot be built.
pub fn check_index_response(status: u16, index_url: String) -> (r: Result<(), SinkError>)
    ensures
        is_success(status) ==> r is Ok,
        !is_success(status) ==> r == Err::<(), SinkError>(SinkError::IndexMissing { index_url }),
{
    if 200 <= status && status < 300 {
        Ok(())
    } else {
        Err(SinkError::IndexMissing { index_url })
    }
}

/// Judges the answer to a bulk request: anything but success fails the
/// send, with the status and the body of the response.
pub fn check_bulk_response(status: u16, body: String) -> (r: Result<(), SinkError>)
    ensures
        is_success(status) ==> r is Ok,
        !is_success(status) ==> r == Err::<(), SinkError>(SinkError::BulkRejected { status, body }),
{
    if 200 <= status && status < 300 {
        Ok(())
    } else {
        Err(SinkError::BulkRejected { status, body })
    }
}

} // verus!
