use vstd::prelude::*;
use crate::model::{Monitor, MonitorConfig};
use crate::monitor_state::{CheckOutcome, Status};
use crate::strings::str_eq;
use crate::text::{push_decimal, push_str};

verus! {

/// The HTTP methods a check or a webhook may use.
#[derive(Debug, Clone, Copy, PartialEq, Eq, Structural)]
pub enum HttpMethod {
    Get,
    Post,
    Put,
    Patch,
    Delete,
    Head,
    Options,
}

/// The method of an HTTP check: `GET` unless configured.
pub fn check_method(method: Option<HttpMethod>) -> (r: HttpMethod)
    ensures
        r == (match method {
            Some(m) => m,
            None => HttpMethod::Get,
        }),
{
    match method {
        Some(m) => m,
        None => HttpMethod::Get,
    }
}

/// The method of a webhook notification: `POST` unless configured.
pub fn webhook_method(method: Option<HttpMethod>) -> (r: HttpMethod)
    ensures
        r == (match method {
            Some(m) => m,
            None => HttpMethod::Post,
        }),
{
    match method {
        Some(m) => m,
        None => HttpMethod::Post,
    }
}

/// Whether a check that expects the codes `expected` accepts an answer with
/// status `code`: an empty list accepts any 2xx status, a non-empty one
/// exactly the codes it lists.
pub open spec fn accepts(expected: Seq<u16>, code: u16) -> bool {
    if expected.len() == 0 {
        200 <= code <= 299
    } else {
        expected.contains(code)
    }
}

/// With codes configured, a check accepts exactly the codes listed: a code
/// missing from the list is refused even when it is a 2xx. With none
/// configured, it accepts exactly the codes from 200 to 299.
pub proof fn lemma_accepts_listed_codes(expected: Seq<u16>, code: u16)
    ensures
        expected.len() > 0 ==> (accepts(expected, code) <==> exists|k: int|
            0 <= k < expected.len() && expected[k] == code),
        expected.len() == 0 ==> (accepts(expected, code) <==> 200 <= code && code < 300),
{
}

/// The status codes an HTTP check expects: the configured list, or, when
/// none is configured, the empty list, which accepts any 2xx status.
pub fn expected_status_or_default(expected: Option<Vec<u16>>) -> (r: Vec<u16>)
    ensures
        r@ == (match expected {
            Some(v) => v@,
            None => Seq::<u16>::empty(),
        }),
{
    match expected {
        Some(v) => v,
        None => Vec::new(),
    }
}

/// Judges the answer to an HTTP check: a response whose status code is
/// accepted (see [`accepts`]) is up; any other response, or a failed request
/// (`Err` with the error's text), is down with a message saying why.
pub fn classify_response(expected: &Vec<u16>, answer: Result<u16, String>, elapsed_ms: u64) -> (r:
    CheckOutcome)
    ensures
        r.response_time_ms == elapsed_ms,
        answer matches Ok(code) ==> (expected@.len() > 0 ==> (r.status == Status::Up <==> exists|
            k: int,
        | 0 <= k < expected@.len() && expected@[k] == code)),
        match answer {
            Ok(code) => if accepts(expected@, code) {
                r.status == Status::Up && r.status_code == Some(code) && r.error is None
            } else {
                &&& r.status == Status::Down
                &&& r.status_code == Some(code)
                &&& r.error matches Some(e) && e@ == "Unexpected status code: "@
                    + crate::text::dec(code as nat)
            },
            Err(msg) => {
                &&& r.status == Status::Down
                &&& r.status_code is None
                &&& r.error matches Some(e) && e@ == "Request failed: "@ + msg@
            },
        },
{
    match answer {
        Ok(code) => {
            let mut found = false;
            let mut i: usize = 0;
            while i < expected.len()
                invariant
                    i <= expected.len(),
                    found == (exists|k: int| 0 <= k < i && expected@[k] == code),
                decreases expected.len() - i,
            {
                if expected[i] == code {
                    found = true;
                }
                i = i + 1;
            }
            let ok = if expected.len() == 0 {
                200 <= code && code <= 299
            } else {
                found
            };
            if ok {
                CheckOutcome {
                    status: Status::Up,
                    status_code: Some(code),
                    response_time_ms: elapsed_ms,
                    error: None,
                }
            } else {
                let mut e = String::from_str("Unexpected status code: ");
                push_decimal(&mut e, code as u64);
                CheckOutcome {
                    status: Status::Down,
                    status_code: Some(code),
                    response_time_ms: elapsed_ms,
                    error: Some(e),
                }
            }
        },
        Err(msg) => {
            let mut e = String::from_str("Request failed: ");
            push_str(&mut e, msg.as_str());
            CheckOutcome {
                status: Status::Down,
                status_code: None,
                response_time_ms: elapsed_ms,
                error: Some(e),
            }
        },
    }
}

/// The method a stored method name stands for: its upper-case name.
pub open spec fn spec_method_named(name: Seq<char>) -> Option<HttpMethod> {
    if name == "GET"@ {
        Some(HttpMethod::Get)
    } else if name == "POST"@ {
        Some(HttpMethod::Post)
    } else if name == "PUT"@ {
        Some(HttpMethod::Put)
    } else if name == "PATCH"@ {
        Some(HttpMethod::Patch)
    } else if name == "DELETE"@ {
        Some(HttpMethod::Delete)
    } else if name == "HEAD"@ {
        Some(HttpMethod::Head)
    } else if name == "OPTIONS"@ {
        Some(HttpMethod::Options)
    } else {
        None
    }
}

/// Reads a method name as the API writes it (`GET`, `POST`, ...).
pub fn http_method_from_name(name: &str) -> (r: Option<HttpMethod>)
    ensures
        r == spec_method_named(name@),
{
    if str_eq(name, "GET") {
        Some(HttpMethod::Get)
    } else if str_eq(name, "POST") {
        Some(HttpMethod::Post)
    } else if str_eq(name, "PUT") {
        Some(HttpMethod::Put)
    } else if str_eq(name, "PATCH") {
        Some(HttpMethod::Patch)
    } else if str_eq(name, "DELETE") {
        Some(HttpMethod::Delete)
    } else if str_eq(name, "HEAD") {
        Some(HttpMethod::Head)
    } else if str_eq(name, "OPTIONS") {
        Some(HttpMethod::Options)
    } else {
        None
    }
}

/// How a worker checks a monitor.
#[derive(Debug, Clone, PartialEq, Eq)]
pub struct CheckPlan {
    pub url: String,
    pub method: HttpMethod,
    pub expected_status: Vec<u16>,
    /// Seconds to wait for an answer.
    pub timeout_secs: u32,
}

/// The check a worker runs for `m`: its URL with the configured method
/// (`GET` when none is set or the name is not a method) and its expected
/// status codes (none listed accepts any 2xx status).
pub fn check_plan(m: &Monitor) -> (r: CheckPlan)
    ensures
        r.timeout_secs == m.timeout,
        match m.config {
            MonitorConfig::Http { url, method, expected_status } => {
                &&& r.url@ == url@
                &&& r.method == (match method {
                    Some(name) => match spec_method_named(name@) {
                        Some(x) => x,
                        None => HttpMethod::Get,
                    },
                    None => HttpMethod::Get,
                })
                &&& r.expected_status@ == expected_status@
            },
        },
{
    match &m.config {
        MonitorConfig::Http { url, method, expected_status } => {
            let configured = match method {
                Some(name) => http_method_from_name(name.as_str()),
                None => None,
            };
            CheckPlan {
                url: url.clone(),
                method: check_method(configured),
                expected_status: expected_status.clone(),
                timeout_secs: m.timeout,
            }
        },
    }
}

} // verus!
