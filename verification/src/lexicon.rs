//! The fixed metadata vocabularies: HTTP request methods and argument
//! roles, with their wire spellings and token parsing.

use vstd::prelude::*;
use crate::strutil::{lower_seq, lower_string, str_eq};

verus! {

/// Http request method.
#[derive(Clone, Copy, Debug, PartialEq, Eq, Structural)]
pub enum Method {
    GET,
    POST,
    PUT,
    DELETE,
}

impl Method {
    /// The wire spelling of the method.
    pub open spec fn wire_str(self) -> Seq<char> {
        match self {
            Method::GET => "GET"@,
            Method::POST => "POST"@,
            Method::PUT => "PUT"@,
            Method::DELETE => "DELETE"@,
        }
    }

    /// The token that names the method, in lower case.
    pub open spec fn token(self) -> Seq<char> {
        match self {
            Method::GET => "get"@,
            Method::POST => "post"@,
            Method::PUT => "put"@,
            Method::DELETE => "delete"@,
        }
    }

    pub fn to_str(&self) -> (r: &str)
        ensures
            r@ == self.wire_str(),
    {
        match *self {
            Method::GET => "GET",
            Method::POST => "POST",
            Method::PUT => "PUT",
            Method::DELETE => "DELETE",
        }
    }

    /// Recognizes a method token, ignoring ASCII case.  On an unknown
    /// token the error message names it.
    pub fn from_str(s: &str) -> (r: Result<Method, String>)
        ensures
            r matches Ok(m) ==> lower_seq(s@) == m.token(),
            lower_seq(s@) == "get"@ ==> r == Ok::<Method, String>(Method::GET),
            lower_seq(s@) == "post"@ ==> r == Ok::<Method, String>(Method::POST),
            lower_seq(s@) == "put"@ ==> r == Ok::<Method, String>(Method::PUT),
            lower_seq(s@) == "delete"@ ==> r == Ok::<Method, String>(Method::DELETE),
            r matches Err(e) ==> {
                &&& forall|m: Method| lower_seq(s@) != #[trigger] m.token()
                &&& e@ == "unknown request method marker: "@ + s@
            },
    {
        proof {
            reveal_strlit("get");
            reveal_strlit("post");
            reveal_strlit("put");
            reveal_strlit("delete");
            assert("get"@[0] == 'g' && "put"@[0] == 'p');
            assert("get"@.len() == 3 && "post"@.len() == 4 && "put"@.len() == 3 && "delete"@.len()
                == 6);
            assert("get"@ != "post"@ && "get"@ != "put"@ && "get"@ != "delete"@);
            assert("post"@ != "put"@ && "post"@ != "delete"@ && "put"@ != "delete"@);
        }
        let l = lower_string(s);
        if str_eq(l.as_str(), "get") {
            Ok(Method::GET)
        } else if str_eq(l.as_str(), "post") {
            Ok(Method::POST)
        } else if str_eq(l.as_str(), "put") {
            Ok(Method::PUT)
        } else if str_eq(l.as_str(), "delete") {
            Ok(Method::DELETE)
        } else {
            let mut e = "unknown request method marker: ".to_owned();
            e.append(s);
            proof {
                assert forall|m: Method| lower_seq(s@) != #[trigger] m.token() by {
                    match m {
                        Method::GET => assert(lower_seq(s@) != "get"@),
                        Method::POST => assert(lower_seq(s@) != "post"@),
                        Method::PUT => assert(lower_seq(s@) != "put"@),
                        Method::DELETE => assert(lower_seq(s@) != "delete"@),
                    }
                }
            }
            Err(e)
        }
    }
}

/// Arg role: the wire position an argument maps to.
#[derive(Clone, Copy, Debug, PartialEq, Eq, Structural)]
pub enum ArgType {
    HEADER,
    PATH,
    QUERY,
    FORM,
    BODY,
    PARAM,
}

impl ArgType {
    /// The printed name of the role.
    pub open spec fn display_str(self) -> Seq<char> {
        match self {
            ArgType::HEADER => "header"@,
            ArgType::PATH => "path"@,
            ArgType::QUERY => "query"@,
            ArgType::FORM => "form"@,
            ArgType::BODY => "body"@,
            ArgType::PARAM => "PARAM"@,
        }
    }

    pub fn to_str(&self) -> (r: &str)
        ensures
            r@ == self.display_str(),
    {
        match *self {
            ArgType::HEADER => "header",
            ArgType::PATH => "path",
            ArgType::QUERY => "query",
            ArgType::FORM => "form",
            ArgType::BODY => "body",
            ArgType::PARAM => "PARAM",
        }
    }

    /// Whether a lower-cased token names the role; `url_path` is an
    /// accepted synonym for the path role.
    pub open spec fn token_names(self, t: Seq<char>) -> bool {
        match self {
            ArgType::HEADER => t == "header"@,
            ArgType::PATH => t == "path"@ || t == "url_path"@,
            ArgType::QUERY => t == "query"@,
            ArgType::FORM => t == "form"@,
            ArgType::BODY => t == "body"@,
            ArgType::PARAM => t == "param"@,
        }
    }

    /// Recognizes a role token, ignoring ASCII case.  On an unknown
    /// token the error message names it.
    pub fn from_str(s: &str) -> (r: Result<ArgType, String>)
        ensures
            r matches Ok(t) ==> t.token_names(lower_seq(s@)),
            r matches Err(e) ==> {
                &&& forall|t: ArgType| !#[trigger] t.token_names(lower_seq(s@))
                &&& e@ == "unknown arg type: "@ + s@
            },
            forall|t: ArgType| #[trigger] t.token_names(lower_seq(s@)) ==> r == Ok::<
                ArgType,
                String,
            >(t),
    {
        proof {
            reveal_strlit("header");
            reveal_strlit("path");
            reveal_strlit("url_path");
            reveal_strlit("query");
            reveal_strlit("form");
            reveal_strlit("body");
            reveal_strlit("param");
            assert("path"@[0] == 'p' && "form"@[0] == 'f' && "body"@[0] == 'b');
            assert("query"@[0] == 'q' && "param"@[0] == 'p');
            assert("header"@.len() == 6 && "path"@.len() == 4 && "url_path"@.len() == 8
                && "query"@.len() == 5 && "form"@.len() == 4 && "body"@.len() == 4
                && "param"@.len() == 5);
            assert("header"@ != "path"@ && "header"@ != "url_path"@ && "header"@ != "query"@
                && "header"@ != "form"@ && "header"@ != "body"@ && "header"@ != "param"@);
            assert("path"@ != "url_path"@ && "path"@ != "query"@ && "path"@ != "form"@ && "path"@
                != "body"@ && "path"@ != "param"@);
            assert("url_path"@ != "query"@ && "url_path"@ != "form"@ && "url_path"@ != "body"@
                && "url_path"@ != "param"@);
            assert("query"@ != "form"@ && "query"@ != "body"@ && "query"@ != "param"@);
            assert("form"@ != "body"@ && "form"@ != "param"@);
            assert("body"@ != "param"@);
        }
        let l = lower_string(s);
        if str_eq(l.as_str(), "header") {
            Ok(ArgType::HEADER)
        } else if str_eq(l.as_str(), "path") || str_eq(l.as_str(), "url_path") {
            Ok(ArgType::PATH)
        } else if str_eq(l.as_str(), "query") {
            Ok(ArgType::QUERY)
        } else if str_eq(l.as_str(), "form") {
            Ok(ArgType::FORM)
        } else if str_eq(l.as_str(), "body") {
            Ok(ArgType::BODY)
        } else if str_eq(l.as_str(), "param") {
            Ok(ArgType::PARAM)
        } else {
            let mut e = "unknown arg type: ".to_owned();
            e.append(s);
            proof {
                assert forall|t: ArgType| !#[trigger] t.token_names(lower_seq(s@)) by {
                    match t {
                        ArgType::HEADER => assert(lower_seq(s@) != "header"@),
                        ArgType::PATH => assert(lower_seq(s@) != "path"@ && lower_seq(s@)
                            != "url_path"@),
                        ArgType::QUERY => assert(lower_seq(s@) != "query"@),
                        ArgType::FORM => assert(lower_seq(s@) != "form"@),
                        ArgType::BODY => assert(lower_seq(s@) != "body"@),
                        ArgType::PARAM => assert(lower_seq(s@) != "param"@),
                    }
                }
            }
            Err(e)
        }
    }
}

} // verus!
