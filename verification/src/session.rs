//! The session client and the shape of the exchanges with the service: the
//! requests that the browser sends, the credential that the handshake yields,
//! and the errors of authentication and fetching.

use crate::text::{copy_all, texts, Text};
use vstd::prelude::*;

verus! {

/// Why an exchange with the service yielded no value.
#[derive(Debug, PartialEq, Eq)]
pub enum Failure {
    /// The call itself failed.
    Network { reason: String },
    /// A response came, and could not be read as the expected payload.
    BadPayload { reason: String },
}

/// The mathematical value of a [`Failure`].
pub enum FailureModel {
    Network { reason: Text },
    BadPayload { reason: Text },
}

impl View for Failure {
    type V = FailureModel;

    open spec fn view(&self) -> FailureModel {
        match self {
            Failure::Network { reason } => FailureModel::Network { reason: reason@ },
            Failure::BadPayload { reason } => FailureModel::BadPayload { reason: reason@ },
        }
    }
}

/// The configuration lacks what the browser cannot start without.
#[derive(Clone, Copy, Debug, PartialEq, Eq, Structural)]
pub enum ConfigError {
    /// No API key is configured.
    MissingCredential,
}

/// The handshake yielded no credential: the service could not be reached, or
/// its response held no session token, as it does for a key that the service
/// does not accept. A key that is not configured at all is a [`ConfigError`],
/// and ends the browser before any handshake.
#[derive(Debug, PartialEq, Eq)]
pub struct AuthError {
    pub cause: Failure,
}

/// A step of fetching the catalogue failed: the query for the identifiers,
/// or the request for their metadata.
#[derive(Debug, PartialEq, Eq)]
pub struct FetchError {
    pub cause: Failure,
}

/// The bearer token that the handshake yielded.
#[derive(Debug, PartialEq, Eq)]
pub struct Credential {
    token: String,
}

impl View for Credential {
    type V = Text;

    closed spec fn view(&self) -> Text {
        self.token@
    }
}

impl Credential {
    /// The token, to be attached to each authenticated request.
    pub fn token(&self) -> (t: &String)
        ensures
            t@ == self@,
    {
        &self.token
    }
}

/// The filters of a connection query.
#[derive(Debug, PartialEq, Eq)]
pub struct Filters {
    pub category: String,
    pub connection: String,
    pub kind: String,
}

/// The mathematical value of [`Filters`].
pub struct FiltersModel {
    pub category: Text,
    pub connection: Text,
    pub kind: Text,
}

impl View for Filters {
    type V = FiltersModel;

    open spec fn view(&self) -> FiltersModel {
        FiltersModel { category: self.category@, connection: self.connection@, kind: self.kind@ }
    }
}

impl Filters {
    /// Filters that match every category and every connection, of the given
    /// type; `*` matches every type.
    pub fn of_type(kind: &str) -> (f: Filters)
        ensures
            f@ == (FiltersModel { category: "*"@, connection: "*"@, kind: kind@ }),
    {
        Filters { category: "*".to_owned(), connection: "*".to_owned(), kind: kind.to_owned() }
    }
}

/// One request to the service. The token of an authenticated request goes
/// out as its bearer token, the other fields as its body.
#[derive(Debug, PartialEq, Eq)]
pub enum Request {
    Handshake { key: String, client: String },
    Query { token: String, category: String, connection: String, kind: String },
    Info { token: String, connections: Vec<String> },
    Terminal { token: String, connection: String, directory: String },
}

/// The mathematical value of a [`Request`].
pub enum RequestModel {
    Handshake { key: Text, client: Text },
    Query { token: Text, category: Text, connection: Text, kind: Text },
    Info { token: Text, connections: Seq<Text> },
    Terminal { token: Text, connection: Text, directory: Text },
}

impl View for Request {
    type V = RequestModel;

    open spec fn view(&self) -> RequestModel {
        match self {
            Request::Handshake { key, client } => RequestModel::Handshake {
                key: key@,
                client: client@,
            },
            Request::Query { token, category, connection, kind } => RequestModel::Query {
                token: token@,
                category: category@,
                connection: connection@,
                kind: kind@,
            },
            Request::Info { token, connections } => RequestModel::Info {
                token: token@,
                connections: texts(connections@),
            },
            Request::Terminal { token, connection, directory } => RequestModel::Terminal {
                token: token@,
                connection: connection@,
                directory: directory@,
            },
        }
    }
}

/// The environment variable that supplies the API key.
pub open spec fn credential_variable() -> Text {
    "XPIPE_API_KEY"@
}

/// The address at which the service listens.
pub open spec fn service_address() -> Text {
    "http://localhost:21721"@
}

/// The name under which the browser introduces itself to the service.
pub open spec fn client_name() -> Text {
    "xpcli"@
}

/// The directory in which a session opens.
pub open spec fn default_directory() -> Text {
    "/"@
}

/// The path of the endpoint that takes a request.
pub open spec fn endpoint(request: RequestModel) -> Text {
    match request {
        RequestModel::Handshake { .. } => "/handshake"@,
        RequestModel::Query { .. } => "/connection/query"@,
        RequestModel::Info { .. } => "/connection/info"@,
        RequestModel::Terminal { .. } => "/connection/terminal"@,
    }
}

/// The handshake for `key`: the browser as an API client with an API key.
pub open spec fn handshake_for(key: Text) -> RequestModel {
    RequestModel::Handshake { key, client: client_name() }
}

/// The query for the identifiers that match `filters`.
pub open spec fn query_for(token: Text, filters: FiltersModel) -> RequestModel {
    RequestModel::Query {
        token,
        category: filters.category,
        connection: filters.connection,
        kind: filters.kind,
    }
}

/// The request for the metadata of `ids`.
pub open spec fn info_for(token: Text, ids: Seq<Text>) -> RequestModel {
    RequestModel::Info { token, connections: ids }
}

/// The request that opens a session against `identifier`.
pub open spec fn terminal_for(token: Text, identifier: Text) -> RequestModel {
    RequestModel::Terminal { token, connection: identifier, directory: default_directory() }
}

impl Request {
    /// The address to which this request is posted: that of the service,
    /// then the path of the endpoint.
    pub fn url(&self) -> (u: String)
        ensures
            u@ == service_address() + endpoint(self@),
    {
        let mut u = "http://localhost:21721".to_owned();
        match self {
            Request::Handshake { .. } => u.append("/handshake"),
            Request::Query { .. } => u.append("/connection/query"),
            Request::Info { .. } => u.append("/connection/info"),
            Request::Terminal { .. } => u.append("/connection/terminal"),
        }
        u
    }

    /// The handshake for `key`.
    pub fn handshake(key: &String) -> (r: Request)
        ensures
            r@ == handshake_for(key@),
    {
        Request::Handshake { key: key.clone(), client: "xpcli".to_owned() }
    }

    /// The query for the identifiers that match `filters`.
    pub fn query(credential: &Credential, filters: &Filters) -> (r: Request)
        ensures
            r@ == query_for(credential@, filters@),
    {
        Request::Query {
            token: credential.token().clone(),
            category: filters.category.clone(),
            connection: filters.connection.clone(),
            kind: filters.kind.clone(),
        }
    }

    /// The request for the metadata of `ids`, in their order.
    pub fn info(credential: &Credential, ids: &Vec<String>) -> (r: Request)
        ensures
            r@ == info_for(credential@, texts(ids@)),
    {
        let connections = copy_all(ids);
        Request::Info { token: credential.token().clone(), connections }
    }

    /// The request that opens a session against `identifier`, in the default
    /// directory.
    pub fn terminal(credential: &Credential, identifier: &String) -> (r: Request)
        ensures
            r@ == terminal_for(credential@, identifier@),
    {
        Request::Terminal {
            token: credential.token().clone(),
            connection: identifier.clone(),
            directory: "/".to_owned(),
        }
    }
}

/// The key that the configuration supplies, or the error of a configuration
/// without one.
pub fn require_key(configured: Option<String>) -> (r: Result<String, ConfigError>)
    ensures
        match configured {
            Some(key) => r == Ok::<String, ConfigError>(key),
            None => r == Err::<String, ConfigError>(ConfigError::MissingCredential),
        },
{
    match configured {
        Some(key) => Ok(key),
        None => Err(ConfigError::MissingCredential),
    }
}

/// The outcome of the handshake, by the reply to [`Request::handshake`]: the
/// credential around the session token that the service sent, or the error
/// around the reason why it sent none.
pub fn authenticate(reply: Result<String, Failure>) -> (r: Result<Credential, AuthError>)
    ensures
        match reply {
            Ok(token) => r matches Ok(credential) && credential@ == token@,
            Err(cause) => r matches Err(error) && error.cause == cause,
        },
{
    match reply {
        Ok(token) => Ok(Credential { token }),
        Err(cause) => Err(AuthError { cause }),
    }
}

} // verus!
