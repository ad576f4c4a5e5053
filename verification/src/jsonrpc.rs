//! JSON-RPC messages between the editor window and the services behind it.
//! Identifiers, parameters and results are held as JSON text.
use vstd::prelude::*;
use vstd::string::*;

use crate::text::{decimal, decimal_of};

verus! {

/// The protocol version of every message.
pub open spec fn version() -> Seq<char> {
    "2.0"@
}

/// The code of a message that is not valid JSON.
pub const PARSE_ERROR: i64 = -32700;
/// The code of a message that is not a valid request.
pub const INVALID_REQUEST: i64 = -32600;
/// The code of a request for a method that no service has.
pub const METHOD_NOT_FOUND: i64 = -32601;
/// The code of a request with invalid parameters.
pub const INVALID_PARAMS: i64 = -32602;
/// The code of any other error.
pub const INTERNAL_ERROR: i64 = -32603;

/// An error of a service.
#[derive(Debug, Clone)]
pub enum Error {
    /// No service has the method: its name and the request id.
    MethodNotFound { name: String, id: String },
    /// The parameters are invalid.
    InvalidParams,
    /// The parameters of a request are not what its method takes: what is
    /// wrong with them.
    ParamsExpected(String),
    /// A message is not valid JSON: the parser's message.
    Json(String),
    /// Another error: its message.
    Boxed(String),
}

/// The message of an error.
pub open spec fn error_message(e: Error) -> Seq<char> {
    match e {
        Error::MethodNotFound { name, id } => "JSON-RPC service method "@ + name@ + " not found (id: "@
            + id@ + ")"@,
        Error::InvalidParams => "Parameters are invalid"@,
        Error::ParamsExpected(m) => m@,
        Error::Json(m) => m@,
        Error::Boxed(m) => m@,
    }
}

/// The code an error is answered with: a method that is not found,
/// parameters that are not what the method takes, a message that is not
/// valid JSON, else an internal error.
pub open spec fn error_code_of(e: Error) -> i64 {
    match e {
        Error::MethodNotFound { .. } => METHOD_NOT_FOUND,
        Error::ParamsExpected(_) => INVALID_PARAMS,
        Error::Json(_) => PARSE_ERROR,
        _ => INTERNAL_ERROR,
    }
}

impl Error {
    /// The message of this error.
    pub fn message(&self) -> (r: String)
        ensures
            r@ == error_message(*self),
    {
        match self {
            Error::MethodNotFound { name, id } => {
                let mut m = String::from_str("JSON-RPC service method ");
                m.append(name.as_str());
                m.append(" not found (id: ");
                m.append(id.as_str());
                m.append(")");
                m
            },
            Error::InvalidParams => String::from_str("Parameters are invalid"),
            Error::ParamsExpected(m) => m.clone(),
            Error::Json(m) => m.clone(),
            Error::Boxed(m) => m.clone(),
        }
    }

    /// The code this error is answered with.
    pub fn code(&self) -> (r: i64)
        ensures
            r == error_code_of(*self),
    {
        match self {
            Error::MethodNotFound { .. } => METHOD_NOT_FOUND,
            Error::ParamsExpected(_) => INVALID_PARAMS,
            Error::Json(_) => PARSE_ERROR,
            _ => INTERNAL_ERROR,
        }
    }
}

/// The error part of a response.
#[derive(Debug, Clone)]
pub struct JsonRpcError {
    pub code: i64,
    pub message: String,
    pub data: Option<String>,
}

/// A request: the protocol version, the request id, the method and the
/// parameters.
#[derive(Debug, Clone)]
pub struct JsonRpcRequest {
    pub jsonrpc: String,
    pub id: String,
    pub method: String,
    pub params: Option<String>,
}

impl JsonRpcRequest {
    /// The request id.
    pub fn id(&self) -> (r: &String)
        ensures
            r == &self.id,
    {
        &self.id
    }

    /// The method.
    pub fn method(&self) -> (r: &str)
        ensures
            r@ == self.method@,
    {
        self.method.as_str()
    }

    /// Whether the request is for the method `name`.
    pub fn matches(&self, name: &str) -> (r: bool)
        ensures
            r == (name@ == self.method@),
    {
        crate::text::str_eq(name, self.method.as_str())
    }

    /// Take the parameters out of the request: an error when it has none.
    pub fn take_params(&mut self) -> (r: Result<String, Error>)
        ensures
            final(self).params is None,
            final(self).id == old(self).id,
            final(self).method == old(self).method,
            final(self).jsonrpc == old(self).jsonrpc,
            match old(self).params {
                Some(p) => r == Ok::<String, Error>(p),
                None => r matches Err(Error::InvalidParams),
            },
    {
        match self.params.take() {
            Some(p) => Ok(p),
            None => Err(Error::InvalidParams),
        }
    }
}

/// A response: the protocol version, the request id, and a result or an
/// error.
#[derive(Debug, Clone)]
pub struct JsonRpcResponse {
    pub jsonrpc: String,
    pub id: String,
    pub result: Option<String>,
    pub error: Option<JsonRpcError>,
}

/// A response as plain values.
pub struct ResponseView {
    pub jsonrpc: Seq<char>,
    pub id: Seq<char>,
    pub result: Option<Seq<char>>,
    pub error: Option<(i64, Seq<char>, Option<Seq<char>>)>,
}

/// The plain values of a response.
pub open spec fn response_view(r: JsonRpcResponse) -> ResponseView {
    ResponseView {
        jsonrpc: r.jsonrpc@,
        id: r.id@,
        result: match r.result {
            Some(v) => Some(v@),
            None => None,
        },
        error: match r.error {
            Some(e) => Some(
                (
                    e.code,
                    e.message@,
                    match e.data {
                        Some(d) => Some(d@),
                        None => None,
                    },
                ),
            ),
            None => None,
        },
    }
}

/// The error response with `message` and `code` to the request `id`.
pub open spec fn error_view(message: Seq<char>, code: i64, id: Seq<char>) -> ResponseView {
    ResponseView { jsonrpc: version(), id, result: None, error: Some((code, message, None)) }
}

/// The answer to a request for a method that no service has.
pub open spec fn not_found_view(req: JsonRpcRequest) -> ResponseView {
    error_view(
        error_message(Error::MethodNotFound { name: req.method, id: req.id }),
        METHOD_NOT_FOUND,
        req.id@,
    )
}

impl JsonRpcResponse {
    /// Reply to a request with a result.
    pub fn response(req: &JsonRpcRequest, result: Option<String>) -> (r: Self)
        ensures
            r.jsonrpc@ == version(),
            r.id == req.id,
            r.result == result,
            r.error is None,
    {
        JsonRpcResponse { jsonrpc: String::from_str("2.0"), result, error: None, id: req.id.clone() }
    }

    /// Reply to a request with neither result nor error.
    pub fn reply(req: &JsonRpcRequest) -> (r: Self)
        ensures
            r.jsonrpc@ == version(),
            r.id == req.id,
            r.result is None,
            r.error is None,
    {
        JsonRpcResponse::response(req, None)
    }

    /// Reply to the request `id` with an error.
    pub fn error(message: String, code: i64, id: String) -> (r: Self)
        ensures
            response_view(r) == error_view(message@, code, id@),
    {
        JsonRpcResponse {
            jsonrpc: String::from_str("2.0"),
            id,
            result: None,
            error: Some(JsonRpcError { code, message, data: None }),
        }
    }

    /// An empty response to the request with the numeric id `id`.
    pub fn for_id(id: u32) -> (r: Self)
        ensures
            r.jsonrpc@ == version(),
            r.id@ == decimal(id as nat),
            r.result is None,
            r.error is None,
    {
        JsonRpcResponse {
            id: decimal_of(id as u64),
            jsonrpc: String::from_str("2.0"),
            result: None,
            error: None,
        }
    }
}

impl Default for JsonRpcResponse {
    fn default() -> (r: Self)
        ensures
            response_view(r) == error_view("Unknown service method"@, 0, "null"@),
    {
        JsonRpcResponse::error(String::from_str("Unknown service method"), 0, String::from_str("null"))
    }
}

/// The answer to `req` that failed with `e`.
pub fn into_response(req: &JsonRpcRequest, e: Error) -> (r: JsonRpcResponse)
    ensures
        response_view(r) == error_view(error_message(e), error_code_of(e), req.id@),
{
    let code = e.code();
    JsonRpcResponse::error(e.message(), code, req.id.clone())
}

/// The answer to a request for a method that no service has.
pub fn not_found(req: &JsonRpcRequest) -> (r: JsonRpcResponse)
    ensures
        response_view(r) == not_found_view(*req),
{
    let err = Error::MethodNotFound { name: req.method.clone(), id: req.id.clone() };
    into_response(req, err)
}

/// A service that may answer requests.
pub trait Service {
    /// Whether the service, handed the request `before`, may leave it as
    /// `after` and give `answer`. It is a relation, not a function, as a
    /// service may answer one request differently each time (it may read
    /// files, or ask others). An implementation may narrow it to what its
    /// `handle` does; one that does not allows every outcome.
    open spec fn answers(
        &self,
        before: JsonRpcRequest,
        after: JsonRpcRequest,
        answer: Result<Option<JsonRpcResponse>, Error>,
    ) -> bool {
        true
    }

    /// The answer to the request, none when the service does not have the
    /// method.
    fn handle(&self, req: &mut JsonRpcRequest) -> (r: Result<Option<JsonRpcResponse>, Error>)
        ensures
            self.answers(*old(req), *final(req), r),
    ;
}

/// The first `m` services, handed the requests `reqs` in turn, each left
/// the request as the next one found it and answered that it does not have
/// the method.
pub open spec fn passed_on(
    services: Seq<&Box<dyn Service>>,
    reqs: Seq<JsonRpcRequest>,
    m: int,
) -> bool {
    &&& 0 <= m <= services.len()
    &&& reqs.len() == m + 1
    &&& forall|k: int|
        0 <= k < m ==> (#[trigger] services[k]).answers(
            reqs[k],
            reqs[k + 1],
            Ok::<Option<JsonRpcResponse>, Error>(None),
        )
}

/// What the broker gives after the first `m` services passed the request
/// on, the last of them leaving it as `at`: the not-found answer to `at`
/// when every service passed it on; else service `m` answered, leaving the
/// request as `after`, and `r` is its response or its error.
pub open spec fn settled(
    services: Seq<&Box<dyn Service>>,
    m: int,
    at: JsonRpcRequest,
    after: JsonRpcRequest,
    r: Result<JsonRpcResponse, Error>,
) -> bool {
    if m == services.len() {
        &&& after == at
        &&& r matches Ok(resp) && response_view(resp) == not_found_view(at)
    } else {
        match r {
            Ok(resp) => services[m].answers(
                at,
                after,
                Ok::<Option<JsonRpcResponse>, Error>(Some(resp)),
            ),
            Err(e) => services[m].answers(at, after, Err::<Option<JsonRpcResponse>, Error>(e)),
        }
    }
}

/// Calls services in turn and always answers.
#[derive(Debug, Clone, Copy)]
pub struct Broker;

impl Broker {
    /// Hands the request to each service in order: the answer of the first
    /// service that answers, the first error a service fails with, or the
    /// answer that no service has the method.
    pub fn handle(&self, services: &Vec<&Box<dyn Service>>, req: &mut JsonRpcRequest) -> (r: Result<
        JsonRpcResponse,
        Error,
    >)
        ensures
            exists|reqs: Seq<JsonRpcRequest>, m: int|
                #![trigger passed_on(services@, reqs, m)]
                passed_on(services@, reqs, m) && reqs[0] == *old(req) && settled(
                    services@,
                    m,
                    reqs[m],
                    *final(req),
                    r,
                ),
    {
        let ghost mut reqs: Seq<JsonRpcRequest> = seq![*req];
        let mut i: usize = 0;
        while i < services.len()
            invariant
                i <= services@.len(),
                passed_on(services@, reqs, i as int),
                reqs[0] == *old(req),
                reqs[i as int] == *req,
            decreases services@.len() - i,
        {
            let answer = services[i].handle(req);
            match answer {
                Ok(Some(result)) => {
                    proof {
                        assert(settled(services@, i as int, reqs[i as int], *req, Ok(result)));
                    }
                    return Ok(result);
                },
                Ok(None) => {},
                Err(e) => {
                    proof {
                        assert(settled(services@, i as int, reqs[i as int], *req, Err(e)));
                    }
                    return Err(e);
                },
            }
            proof {
                let ghost old_reqs = reqs;
                reqs = reqs.push(*req);
                assert forall|k: int| 0 <= k < i + 1 implies (#[trigger] services@[k]).answers(
                    reqs[k],
                    reqs[k + 1],
                    Ok::<Option<JsonRpcResponse>, Error>(None),
                ) by {
                    if k < i {
                        assert(reqs[k] == old_reqs[k]);
                        assert(reqs[k + 1] == old_reqs[k + 1]);
                    }
                }
            }
            i = i + 1;
        }
        let r = not_found(req);
        proof {
            assert(settled(services@, i as int, reqs[i as int], *req, Ok(r)));
        }
        Ok(r)
    }
}


/// A call of the project service: what it is asked to do, with the first
/// parameter of the request as JSON text where the method takes one.
#[derive(Debug, Clone)]
pub enum ProjectCall {
    /// `project.find`: the id of the project.
    Find(String),
    /// `project.create`: the project to create.
    Create(String),
    /// `project.list`.
    List,
    /// `project.add`: the manifest entry to add.
    Add(String),
    /// `project.remove`: the manifest entry to remove.
    Remove(String),
}

/// The message of a request for a project method that takes parameters but
/// has none.
pub open spec fn expects_parameters() -> Seq<char> {
    "Method expects parameters"@
}

/// What the project service does with a request for `method` whose
/// parameters, as a list, are `params`: nothing for a method it does not
/// have, the error that parameters are expected for a method that takes
/// one but got none, else the call with the first parameter.
pub open spec fn project_call_of(method: Seq<char>, params: Seq<String>) -> Option<
    Result<Option<Seq<char>>, Seq<char>>,
> {
    if method == "project.list"@ {
        Some(Ok(None))
    } else if method == "project.find"@ || method == "project.create"@ || method
        == "project.add"@ || method == "project.remove"@ {
        if params.len() == 0 {
            Some(Err(expects_parameters()))
        } else {
            Some(Ok(Some(params[0]@)))
        }
    } else {
        None
    }
}

/// The call the project service makes for a request for `method` whose
/// parameters are `params`: `None` for a method it does not have, an error
/// when a method that takes a parameter has none.
pub fn project_call(method: &str, params: &Vec<String>) -> (r: Result<Option<ProjectCall>, Error>)
    ensures
        project_call_of(method@, params@) is None ==> r matches Ok(None),
        project_call_of(method@, params@) matches Some(Err(m)) ==> (r matches Err(
            Error::ParamsExpected(e),
        ) && e@ == m),
        project_call_of(method@, params@) matches Some(Ok(None)) ==> (r matches Ok(Some(c)) && c is List),
        project_call_of(method@, params@) matches Some(Ok(Some(p))) ==> (r matches Ok(Some(c)) && match c {
            ProjectCall::Find(x) => method@ == "project.find"@ && x@ == p,
            ProjectCall::Create(x) => method@ == "project.create"@ && x@ == p,
            ProjectCall::Add(x) => method@ == "project.add"@ && x@ == p,
            ProjectCall::Remove(x) => method@ == "project.remove"@ && x@ == p,
            ProjectCall::List => false,
        }),
{
    if crate::text::str_eq(method, "project.list") {
        return Ok(Some(ProjectCall::List));
    }
    let find = crate::text::str_eq(method, "project.find");
    let create = crate::text::str_eq(method, "project.create");
    let add = crate::text::str_eq(method, "project.add");
    let remove = crate::text::str_eq(method, "project.remove");
    if !(find || create || add || remove) {
        return Ok(None);
    }
    if params.len() == 0 {
        proof {
            reveal_strlit("Method expects parameters");
        }
        return Err(Error::ParamsExpected(String::from_str("Method expects parameters")));
    }
    let p = params[0].clone();
    if find {
        Ok(Some(ProjectCall::Find(p)))
    } else if create {
        Ok(Some(ProjectCall::Create(p)))
    } else if add {
        Ok(Some(ProjectCall::Add(p)))
    } else {
        Ok(Some(ProjectCall::Remove(p)))
    }
}

} // verus!
