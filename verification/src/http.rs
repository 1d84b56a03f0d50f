//! The request description handed to the transport: a builder that
//! collects URL, method, headers, query pairs and the timeout
//! configuration as plain values.  Sending is not done here; a
//! transport reads the finished builder.

use vstd::prelude::*;
use crate::error::{Error, ErrorKind};
use crate::maps::{lookup, spec_lookup};
use crate::strutil::{dec_digits, dec_val, is_dec_text};

verus! {

/// An HTTP client to create a RequestBuilder.
pub struct HttpClient;

impl HttpClient {
    pub fn builder() -> (r: RequestBuilder)
        ensures
            r.url@ == Seq::<char>::empty(),
            r.method@ == Seq::<char>::empty(),
            r.headers is None,
            r.query is None,
            r.config is None,
    {
        RequestBuilder::new()
    }
}

/// An HTTP request builder to make requests.
pub struct RequestBuilder {
    pub url: String,
    pub method: String,
    pub headers: Option<Vec<(String, String)>>,
    pub query: Option<Vec<(String, String)>>,
    pub config: Option<HttpConfig>,
}

impl RequestBuilder {
    pub fn new() -> (r: Self)
        ensures
            r.url@ == Seq::<char>::empty(),
            r.method@ == Seq::<char>::empty(),
            r.headers is None,
            r.query is None,
            r.config is None,
    {
        Self { url: String::new(), method: String::new(), headers: None, query: None, config: None }
    }

    pub fn url(self, url: &str) -> (r: Self)
        ensures
            r.url@ == url@,
            r.method == self.method,
            r.headers == self.headers,
            r.query == self.query,
            r.config == self.config,
    {
        Self { url: url.to_owned(), ..self }
    }

    pub fn method(self, method: &str) -> (r: Self)
        ensures
            r.method@ == method@,
            r.url == self.url,
            r.headers == self.headers,
            r.query == self.query,
            r.config == self.config,
    {
        Self { method: method.to_owned(), ..self }
    }

    pub fn config(self, config: HttpConfig) -> (r: Self)
        ensures
            r.config == Some(config),
            r.url == self.url,
            r.method == self.method,
            r.headers == self.headers,
            r.query == self.query,
    {
        Self { config: Some(config), ..self }
    }

    pub fn headers(self, headers: Vec<(String, String)>) -> (r: Self)
        ensures
            r.headers == Some(headers),
            r.url == self.url,
            r.method == self.method,
            r.query == self.query,
            r.config == self.config,
    {
        Self { headers: Some(headers), ..self }
    }

    pub fn query(self, query: Vec<(String, String)>) -> (r: Self)
        ensures
            r.query == Some(query),
            r.url == self.url,
            r.method == self.method,
            r.headers == self.headers,
            r.config == self.config,
    {
        Self { query: Some(query), ..self }
    }
}

/// Configuration of an HTTP request: the two timeout values, in
/// milliseconds.
#[derive(Clone, Copy, Debug, PartialEq, Eq, Structural)]
pub struct HttpConfig {
    pub connect_timeout: Option<u64>,
    pub timeout: Option<u64>,
}

/// Whether a looked-up config entry is absent or holds a well-formed
/// decimal that fits in 64 bits.
pub open spec fn config_entry_ok(v: Option<Seq<char>>) -> bool {
    match v {
        Option::None => true,
        Option::Some(t) => is_dec_text(t) && dec_val(dec_digits(t)) <= u64::MAX,
    }
}

/// The numeric value of a looked-up config entry, when present.
pub open spec fn config_entry_val(v: Option<Seq<char>>) -> Option<u64> {
    match v {
        Option::None => Option::None,
        Option::Some(t) => Option::Some(dec_val(dec_digits(t)) as u64),
    }
}

impl HttpConfig {
    /// Reads `connect_timeout` and `timeout` out of a config pair list.
    /// Exactly when a present value is not a decimal number that fits,
    /// the result is a config error.
    pub fn from_map(config_map: &Vec<(String, String)>) -> (r: Result<Self, Error>)
        ensures
            ({
                let ct = spec_lookup(config_map.deep_view(), "connect_timeout"@);
                let t = spec_lookup(config_map.deep_view(), "timeout"@);
                match r {
                    Ok(c) => {
                        &&& config_entry_ok(ct)
                        &&& config_entry_ok(t)
                        &&& c.connect_timeout == config_entry_val(ct)
                        &&& c.timeout == config_entry_val(t)
                    },
                    Err(e) => {
                        &&& (!config_entry_ok(ct) || !config_entry_ok(t))
                        &&& e.kind == ErrorKind::Config
                    },
                }
            }),
    {
        let mut config = HttpConfig { connect_timeout: None, timeout: None };
        if let Some(connect_timeout) = lookup(config_map, "connect_timeout") {
            match crate::strutil::parse_u64(connect_timeout.as_str()) {
                Some(v) => {
                    config.connect_timeout = Some(v);
                },
                None => {
                    return Err(Error::config("invalid connect_timeout value".to_owned()));
                },
            }
        }
        if let Some(timeout) = lookup(config_map, "timeout") {
            match crate::strutil::parse_u64(timeout.as_str()) {
                Some(v) => {
                    config.timeout = Some(v);
                },
                None => {
                    return Err(Error::config("invalid timeout value".to_owned()));
                },
            }
        }
        Ok(config)
    }
}

} // verus!
