//! The gateway's deployment and server settings, and the checking of the
//! CORS values they list.
use vstd::prelude::*;

use crate::etcd;
use crate::provider::{check_header_value, header_value_ok};
use crate::text::{concat, str_eq, to_owned_string};

verus! {

/// A key that grants access to the admin API.
#[derive(Clone, Debug)]
pub struct AdminKey {
    pub key: String,
}

/// The admin settings of a deployment.
#[derive(Debug)]
pub struct DeploymentAdmin {
    pub admin_key: Vec<AdminKey>,
}

/// Where the gateway keeps its configuration, and who may administer it.
pub struct Deployment {
    pub etcd: etcd::Config,
    pub admin: DeploymentAdmin,
}

impl DeploymentAdmin {
    /// No admin key.
    pub fn new() -> (r: Self)
        ensures
            r.admin_key@.len() == 0,
    {
        DeploymentAdmin { admin_key: Vec::new() }
    }
}

impl Deployment {
    /// The default etcd settings and no admin key.
    pub fn new() -> (r: Self)
        ensures
            r.etcd.host@.len() == 1,
            r.etcd.host@[0]@ == "http://127.0.0.1:2379"@,
            r.etcd.prefix@ == "/aisix"@,
            r.etcd.timeout == 5,
            r.admin.admin_key@.len() == 0,
    {
        Deployment { etcd: etcd::Config::new(), admin: DeploymentAdmin::new() }
    }
}

/// Whether a server listener speaks TLS, and with which files.
#[derive(Debug)]
pub struct ServerCommonTls {
    pub enabled: bool,
    pub cert_file: Option<String>,
    pub key_file: Option<String>,
}

impl ServerCommonTls {
    /// TLS off, no files.
    pub fn new() -> (r: Self)
        ensures
            !r.enabled,
            r.cert_file is None,
            r.key_file is None,
    {
        ServerCommonTls { enabled: false, cert_file: None, key_file: None }
    }
}

/// The CORS policy of a server listener.
#[derive(Debug)]
pub struct ServerCommonCors {
    pub enabled: bool,
    pub allowed_origins: Option<Vec<String>>,
    pub allowed_methods: Option<Vec<String>>,
    pub allowed_headers: Option<Vec<String>>,
    pub exposed_headers: Option<Vec<String>>,
    pub allow_credentials: Option<bool>,
}

/// A character allowed in an HTTP token (a method or a header name).
pub open spec fn is_tchar(c: char) -> bool {
    ||| ('0' <= c <= '9')
    ||| ('a' <= c <= 'z')
    ||| ('A' <= c <= 'Z')
    ||| c == '!' || c == '#' || c == '$' || c == '%' || c == '&' || c == '\'' || c == '*'
    ||| c == '+' || c == '-' || c == '.' || c == '^' || c == '_' || c == '`' || c == '|' || c == '~'
}

/// Whether a text is a valid HTTP method.
pub open spec fn method_ok(s: Seq<char>) -> bool {
    s.len() > 0 && forall|i: int| 0 <= i < s.len() ==> is_tchar(#[trigger] s[i])
}

/// Whether a text is a valid HTTP header name.
pub open spec fn header_name_ok(s: Seq<char>) -> bool {
    0 < s.len() <= 65535 && forall|i: int| 0 <= i < s.len() ==> is_tchar(#[trigger] s[i])
}

/// Checks a method with `http::Method::from_str`.
///
/// Trusted: `from_str` accepts a non-empty text whose bytes are all token
/// characters, and nothing else.
#[verifier::external_body]
fn check_method(value: &str) -> (r: bool)
    ensures
        r == method_ok(value@),
{
    value.parse::<http::Method>().is_ok()
}

/// Checks a header name with `http::HeaderName::from_str`.
///
/// Trusted: `from_str` accepts a text of 1 to 65535 bytes that are all
/// token characters (upper-case letters included), and nothing else.
#[verifier::external_body]
fn check_header_name(value: &str) -> (r: bool)
    ensures
        r == header_name_ok(value@),
{
    value.parse::<http::HeaderName>().is_ok()
}

/// What a CORS value must be.
#[derive(Clone, Copy, Debug, PartialEq, Eq, Structural)]
pub enum CorsValueKind {
    /// A header value (an origin).
    HeaderValue,
    /// An HTTP method.
    Method,
    /// A header name.
    HeaderName,
}

/// Whether a value is valid as `kind`.
pub open spec fn cors_value_ok(kind: CorsValueKind, v: Seq<char>) -> bool {
    match kind {
        CorsValueKind::HeaderValue => header_value_ok(v),
        CorsValueKind::Method => method_ok(v),
        CorsValueKind::HeaderName => header_name_ok(v),
    }
}

/// The refusal of an invalid CORS value.
pub open spec fn invalid_cors_message(field: Seq<char>, value: Seq<char>) -> Seq<char> {
    "Invalid CORS "@ + field + ": "@ + value
}

/// Texts as character sequences.
pub open spec fn texts(v: Seq<String>) -> Seq<Seq<char>> {
    v.map_values(|s: String| s@)
}

/// The first value that is not valid as `kind`, if any.
pub open spec fn first_invalid(kind: CorsValueKind, vs: Seq<Seq<char>>) -> Option<Seq<char>>
    decreases vs.len(),
{
    if vs.len() == 0 {
        None
    } else if !cors_value_ok(kind, vs[0]) {
        Some(vs[0])
    } else {
        first_invalid(kind, vs.drop_first())
    }
}

/// The refusal a field's values earn, if any: that of their first invalid
/// value.
pub open spec fn cors_stage_error(field: Seq<char>, values: Option<Vec<String>>, kind: CorsValueKind) -> Option<Seq<char>> {
    match values {
        Some(v) => match first_invalid(kind, texts(v@)) {
            Some(x) => Some(invalid_cors_message(field, x)),
            None => None,
        },
        None => None,
    }
}

/// Whether the origins allow any origin.
pub open spec fn any_origin(origins: Vec<String>) -> bool {
    texts(origins@).contains("*"@)
}

/// The refusal a CORS policy earns, if any: the first of its origins,
/// methods, allowed headers and exposed headers that has an invalid value.
/// Origins that allow any origin are not checked.
pub open spec fn cors_plan_error(c: ServerCommonCors) -> Option<Seq<char>> {
    let origins = match c.allowed_origins {
        Some(o) => if any_origin(o) {
            None
        } else {
            cors_stage_error("allowed_origin"@, Some(o), CorsValueKind::HeaderValue)
        },
        None => None,
    };
    if origins is Some {
        origins
    } else if cors_stage_error("allowed_method"@, c.allowed_methods, CorsValueKind::Method) is Some {
        cors_stage_error("allowed_method"@, c.allowed_methods, CorsValueKind::Method)
    } else if cors_stage_error("allowed_header"@, c.allowed_headers, CorsValueKind::HeaderName) is Some {
        cors_stage_error("allowed_header"@, c.allowed_headers, CorsValueKind::HeaderName)
    } else {
        cors_stage_error("exposed_header"@, c.exposed_headers, CorsValueKind::HeaderName)
    }
}

/// The allowed origins of a CORS policy.
#[derive(Debug)]
pub enum CorsOrigins {
    /// Any origin.
    Any,
    /// These origins.
    List(Vec<String>),
}

/// A checked CORS policy, ready to be turned into a CORS layer.
#[derive(Debug)]
pub struct CorsPlan {
    pub allow_credentials: bool,
    pub origins: Option<CorsOrigins>,
    pub methods: Option<Vec<String>>,
    pub headers: Option<Vec<String>>,
    pub exposed_headers: Option<Vec<String>>,
}

/// Optional texts as optional character sequences.
pub open spec fn opt_texts(v: Option<Vec<String>>) -> Option<Seq<Seq<char>>> {
    match v {
        Some(x) => Some(texts(x@)),
        None => None,
    }
}

/// Whether `p` is the plan of the valid CORS policy `c`.
pub open spec fn plan_of(c: ServerCommonCors, p: CorsPlan) -> bool {
    &&& p.allow_credentials == (c.allow_credentials == Some(true))
    &&& match c.allowed_origins {
        None => p.origins is None,
        Some(o) => if any_origin(o) {
            p.origins matches Some(CorsOrigins::Any)
        } else {
            p.origins matches Some(CorsOrigins::List(l)) && texts(l@) == texts(o@)
        },
    }
    &&& opt_texts(p.methods) == opt_texts(c.allowed_methods)
    &&& opt_texts(p.headers) == opt_texts(c.allowed_headers)
    &&& opt_texts(p.exposed_headers) == opt_texts(c.exposed_headers)
}

impl ServerCommonCors {
    /// CORS off, nothing listed.
    pub fn new() -> (r: Self)
        ensures
            !r.enabled,
            r.allowed_origins is None,
            r.allowed_methods is None,
            r.allowed_headers is None,
            r.exposed_headers is None,
            r.allow_credentials is None,
    {
        ServerCommonCors {
            enabled: false,
            allowed_origins: None,
            allowed_methods: None,
            allowed_headers: None,
            exposed_headers: None,
            allow_credentials: None,
        }
    }

    /// Checks each CORS value of a field, refusing the first invalid one.
    pub fn parse_cors_values(field: &str, values: &Vec<String>, kind: CorsValueKind) -> (r: Result<Vec<String>, String>)
        ensures
            match first_invalid(kind, texts(values@)) {
                Some(x) => r matches Err(m) && m@ == invalid_cors_message(field@, x),
                None => r matches Ok(v) && texts(v@) == texts(values@),
            },
    {
        let ghost vs = texts(values@);
        let mut out: Vec<String> = Vec::new();
        let mut i: usize = 0;
        proof {
            assert(vs.skip(0) =~= vs);
        }
        while i < values.len()
            invariant
                0 <= i <= values@.len(),
                vs == texts(values@),
                texts(out@) == vs.take(i as int),
                first_invalid(kind, vs) == first_invalid(kind, vs.skip(i as int)),
            decreases values.len() - i,
        {
            let v = values[i].as_str();
            assert(vs[i as int] == v@);
            assert(vs.skip(i as int)[0] == v@);
            let ok = match kind {
                CorsValueKind::HeaderValue => check_header_value(v).is_ok(),
                CorsValueKind::Method => check_method(v),
                CorsValueKind::HeaderName => check_header_name(v),
            };
            if !ok {
                let head = concat("Invalid CORS ", field);
                let head = concat(head.as_str(), ": ");
                return Err(concat(head.as_str(), v));
            }
            let ghost before = out@;
            out.push(to_owned_string(v));
            proof {
                assert(texts(out@) =~= texts(before).push(v@));
                assert(vs.take(i + 1) =~= vs.take(i as int).push(vs[i as int]));
                assert(vs.skip(i as int).drop_first() =~= vs.skip(i + 1));
            }
            i += 1;
        }
        proof {
            assert(vs.take(i as int) =~= vs);
            assert(vs.skip(i as int) =~= Seq::<Seq<char>>::empty());
        }
        Ok(out)
    }

    /// Checks the policy's values, for turning it into a CORS layer:
    /// credentials are allowed only where set, a `*` among the origins
    /// allows any origin, and the first invalid value is refused.
    pub fn to_cors_plan(&self) -> (r: Result<CorsPlan, String>)
        ensures
            r is Err <==> cors_plan_error(*self) is Some,
            r matches Err(m) ==> cors_plan_error(*self) == Some(m@),
            r matches Ok(p) ==> plan_of(*self, p),
    {
        let allow_credentials = match self.allow_credentials {
            Some(b) => b,
            None => false,
        };
        let origins = match &self.allowed_origins {
            Some(o) => {
                if contains_text(o, "*") {
                    Some(CorsOrigins::Any)
                } else {
                    match Self::parse_cors_values("allowed_origin", o, CorsValueKind::HeaderValue) {
                        Ok(l) => Some(CorsOrigins::List(l)),
                        Err(m) => {
                            return Err(m);
                        },
                    }
                }
            },
            None => None,
        };
        let methods = match &self.allowed_methods {
            Some(v) => match Self::parse_cors_values("allowed_method", v, CorsValueKind::Method) {
                Ok(l) => Some(l),
                Err(m) => {
                    return Err(m);
                },
            },
            None => None,
        };
        let headers = match &self.allowed_headers {
            Some(v) => match Self::parse_cors_values("allowed_header", v, CorsValueKind::HeaderName) {
                Ok(l) => Some(l),
                Err(m) => {
                    return Err(m);
                },
            },
            None => None,
        };
        let exposed_headers = match &self.exposed_headers {
            Some(v) => match Self::parse_cors_values("exposed_header", v, CorsValueKind::HeaderName) {
                Ok(l) => Some(l),
                Err(m) => {
                    return Err(m);
                },
            },
            None => None,
        };
        Ok(CorsPlan { allow_credentials, origins, methods, headers, exposed_headers })
    }
}

/// Whether `v` holds the text `t`.
fn contains_text(v: &Vec<String>, t: &str) -> (r: bool)
    ensures
        r == texts(v@).contains(t@),
{
    let ghost vs = texts(v@);
    let mut i: usize = 0;
    while i < v.len()
        invariant
            0 <= i <= v@.len(),
            vs == texts(v@),
            forall|j: int| 0 <= j < i ==> vs[j] != t@,
        decreases v.len() - i,
    {
        assert(vs[i as int] == v@[i as int]@);
        if str_eq(v[i].as_str(), t) {
            return true;
        }
        i += 1;
    }
    false
}

} // verus!
