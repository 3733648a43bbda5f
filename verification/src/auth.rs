//! Gateway errors and the authentication material bound to a provider.
use vstd::prelude::*;

use crate::json::JsonValue;
use crate::text::{concat, to_owned_string};

verus! {

/// Errors raised while preparing, sending or bridging a gateway request.
#[derive(Debug)]
pub enum GatewayError {
    /// The request or configuration is not acceptable.
    Validation(String),
    /// A provider payload could not be converted.
    Transform(String),
    /// A request or response cannot be bridged between formats.
    Bridge(String),
    /// A streaming protocol error.
    Stream(String),
    /// The provider does not support the native path of a format.
    NativeNotSupported { provider: String },
    /// An unexpected internal failure.
    Internal(String),
    /// The HTTP exchange with the provider failed.
    Http(String),
    /// The provider answered with an error status.
    Provider { status: u16, body: JsonValue, provider: String, retryable: bool },
    /// The provider offers no embeddings.
    EmbeddingsNotSupported { provider: String },
}

/// Static AWS credentials for SigV4 signing.
#[derive(Clone, Debug, PartialEq, Eq)]
pub struct AwsStaticCredentials {
    pub access_key_id: String,
    pub secret_access_key: String,
    pub session_token: Option<String>,
    pub region: String,
}

/// Authentication material bound to a provider instance at runtime.
pub enum ProviderAuth {
    ApiKey(String),
    AwsStatic(AwsStaticCredentials),
    Unset,
}

/// The message of the error for a missing API key.
pub open spec fn missing_api_key_message() -> Seq<char> {
    "missing ProviderAuth::ApiKey value"@
}

/// The message of the error for missing static AWS credentials.
pub open spec fn missing_aws_message() -> Seq<char> {
    "missing ProviderAuth::AwsStatic value"@
}

/// A message prefixed with the provider it concerns.
pub open spec fn provider_context(provider: Seq<char>, message: Seq<char>) -> Seq<char> {
    "provider "@ + provider + ": "@ + message
}

/// `message` with the provider name in front, as `provider <name>: <message>`.
pub fn with_provider_context(provider: &str, message: &str) -> (r: String)
    ensures
        r@ == provider_context(provider@, message@),
{
    let head = concat("provider ", provider);
    let head = concat(head.as_str(), ": ");
    concat(head.as_str(), message)
}

/// Adds the provider name to a validation error; other errors pass unchanged.
pub fn add_provider_context(error: GatewayError, provider: &str) -> (r: GatewayError)
    ensures
        error matches GatewayError::Validation(m) ==> (r matches GatewayError::Validation(n)
            && n@ == provider_context(provider@, m@)),
        !(error is Validation) ==> r == error,
{
    match error {
        GatewayError::Validation(message) => GatewayError::Validation(
            with_provider_context(provider, message.as_str()),
        ),
        other => other,
    }
}

impl ProviderAuth {
    /// The API key, when this is API key material.
    pub fn api_key(&self) -> (r: Result<&str, GatewayError>)
        ensures
            self matches ProviderAuth::ApiKey(k) ==> (r matches Ok(s) && s@ == k@),
            !(self is ApiKey) ==> (r matches Err(GatewayError::Validation(m)) && m@
                == missing_api_key_message()),
    {
        match self {
            ProviderAuth::ApiKey(api_key) => Ok(api_key.as_str()),
            _ => Err(
                GatewayError::Validation(to_owned_string("missing ProviderAuth::ApiKey value")),
            ),
        }
    }

    /// The API key, with the provider named in the error when there is none.
    pub fn api_key_for(&self, provider: &str) -> (r: Result<&str, GatewayError>)
        ensures
            self matches ProviderAuth::ApiKey(k) ==> (r matches Ok(s) && s@ == k@),
            !(self is ApiKey) ==> (r matches Err(GatewayError::Validation(m)) && m@
                == provider_context(provider@, missing_api_key_message())),
    {
        match self.api_key() {
            Ok(key) => Ok(key),
            Err(error) => Err(add_provider_context(error, provider)),
        }
    }

    /// The static AWS credentials, when this is such material.
    pub fn aws_static_credentials(&self) -> (r: Result<&AwsStaticCredentials, GatewayError>)
        ensures
            self matches ProviderAuth::AwsStatic(c) ==> (r matches Ok(d) && *d == c),
            !(self is AwsStatic) ==> (r matches Err(GatewayError::Validation(m)) && m@
                == missing_aws_message()),
    {
        match self {
            ProviderAuth::AwsStatic(credentials) => Ok(credentials),
            _ => Err(
                GatewayError::Validation(to_owned_string("missing ProviderAuth::AwsStatic value")),
            ),
        }
    }

    /// The static AWS credentials, with the provider named in the error when
    /// there are none.
    pub fn aws_static_credentials_for(&self, provider: &str) -> (r: Result<
        &AwsStaticCredentials,
        GatewayError,
    >)
        ensures
            self matches ProviderAuth::AwsStatic(c) ==> (r matches Ok(d) && *d == c),
            !(self is AwsStatic) ==> (r matches Err(GatewayError::Validation(m)) && m@
                == provider_context(provider@, missing_aws_message())),
    {
        match self.aws_static_credentials() {
            Ok(credentials) => Ok(credentials),
            Err(error) => Err(add_provider_context(error, provider)),
        }
    }

    /// The debug rendering of this material, which never shows a secret.
    pub fn debug_string(&self) -> (r: String)
        ensures
            r@ == (match self {
                ProviderAuth::ApiKey(_) => "ApiKey(REDACTED)"@,
                ProviderAuth::AwsStatic(_) => "AwsStatic(REDACTED)"@,
                ProviderAuth::Unset => "None"@,
            }),
    {
        match self {
            ProviderAuth::ApiKey(_) => to_owned_string("ApiKey(REDACTED)"),
            ProviderAuth::AwsStatic(_) => to_owned_string("AwsStatic(REDACTED)"),
            ProviderAuth::Unset => to_owned_string("None"),
        }
    }
}

} // verus!
