//! Endpoint matching: which endpoint, if any, handles a request.

use vstd::prelude::*;

use crate::config::EndpointConfiguration;
use crate::error::ApplicationError;
use crate::text::{clone_opt_string, eq_str, opt_view, push_char};

verus! {

/// Whether the regular expression pattern compiles.  The result depends on
/// the pattern alone.
pub uninterp spec fn regex_valid(pattern: Seq<char>) -> bool;

/// Whether the compiled pattern matches somewhere in the text (unanchored).
/// The result depends on pattern and text alone.
pub uninterp spec fn regex_matches(pattern: Seq<char>, text: Seq<char>) -> bool;

/// Relies on `regex::Regex::new`: compiling the same pattern succeeds or
/// fails deterministically.
#[verifier::external_body]
fn regex_compiles(pattern: &str) -> (r: bool)
    ensures
        r == regex_valid(pattern@),
{
    regex::Regex::new(pattern).is_ok()
}

/// Relies on `regex::Regex::new` and `regex::Regex::is_match`: the same
/// pattern and text always give the same answer, and the answer exists
/// exactly when the pattern compiles.
#[verifier::external_body]
fn regex_is_match(pattern: &str, text: &str) -> (r: Result<bool, ()>)
    ensures
        r is Ok <==> regex_valid(pattern@),
        r matches Ok(m) ==> m == regex_matches(pattern@, text@),
{
    match regex::Regex::new(pattern) {
        Ok(re) => Ok(re.is_match(text)),
        Err(_) => Err(()),
    }
}

/// The message a pattern that does not compile is reported with.
pub open spec fn pattern_error_message(p: Seq<char>) -> Seq<char> {
    "Error in regular expression "@ + p
}

/// An absent pattern is fine; a present one must compile.
pub open spec fn pattern_ok(regexp: Option<Seq<char>>) -> bool {
    match regexp {
        Option::Some(p) => regex_valid(p),
        Option::None => true,
    }
}

/// The predicate one optional pattern puts on optional data: an absent
/// pattern accepts everything, and so does absent data.
pub open spec fn check_spec(regexp: Option<Seq<char>>, data: Option<Seq<char>>) -> bool {
    match regexp {
        Option::None => true,
        Option::Some(p) => match data {
            Option::None => true,
            Option::Some(d) => regex_matches(p, d),
        },
    }
}

/// Evaluate one optional pattern against optional data; a pattern that does
/// not compile is an error even when there is no data to hold it against.
pub fn check_regexp(regexp: Option<String>, data: Option<String>) -> (r: Result<
    bool,
    ApplicationError,
>)
    ensures
        r is Ok <==> pattern_ok(opt_view(regexp)),
        r matches Ok(b) ==> b == check_spec(opt_view(regexp), opt_view(data)),
        r matches Err(e) ==> (opt_view(regexp) matches Some(pv) && e
            matches ApplicationError::ConfigurationError(m) && m@ == pattern_error_message(pv)),
{
    match regexp {
        Option::None => Ok(true),
        Option::Some(p) => {
            match data {
                Option::None => {
                    if regex_compiles(p.as_str()) {
                        Ok(true)
                    } else {
                        let mut message = "Error in regular expression ".to_owned();
                        message.append(p.as_str());
                        Err(ApplicationError::ConfigurationError(message))
                    }
                },
                Option::Some(d) => {
                    match regex_is_match(p.as_str(), d.as_str()) {
                        Ok(b) => Ok(b),
                        Err(()) => {
                            let mut message = "Error in regular expression ".to_owned();
                            message.append(p.as_str());
                            Err(ApplicationError::ConfigurationError(message))
                        },
                    }
                },
            }
        },
    }
}

/// The predicate the optional body pattern puts on the optional body: an
/// absent pattern accepts everything, but a present pattern rejects a
/// request without a body.
pub open spec fn body_check_spec(regexp: Option<Seq<char>>, body: Option<Seq<char>>) -> bool {
    match regexp {
        Option::None => true,
        Option::Some(p) => match body {
            Option::None => false,
            Option::Some(d) => regex_matches(p, d),
        },
    }
}

/// Both patterns of the endpoint compile.
pub open spec fn endpoint_ok(e: EndpointConfiguration) -> bool {
    &&& pattern_ok(opt_view(e.path_expression))
    &&& pattern_ok(opt_view(e.body_expression))
}

/// The message an endpoint whose pattern does not compile is reported
/// with: the path pattern's message when it is at fault, else the body
/// pattern's.
pub open spec fn endpoint_error_message(e: EndpointConfiguration) -> Seq<char> {
    if !pattern_ok(opt_view(e.path_expression)) {
        pattern_error_message(e.path_expression->Some_0@)
    } else {
        pattern_error_message(e.body_expression->Some_0@)
    }
}

/// The endpoint accepts the request: path, body and method predicates all
/// hold.
pub open spec fn endpoint_matches(
    e: EndpointConfiguration,
    path: Seq<char>,
    method: Seq<char>,
    body: Option<Seq<char>>,
) -> bool {
    &&& check_spec(opt_view(e.path_expression), Option::Some(path))
    &&& body_check_spec(opt_view(e.body_expression), body)
    &&& match e.method {
        Option::Some(m) => m@ == method,
        Option::None => true,
    }
}

/// Whether the endpoint accepts the request; a pattern that does not compile
/// is an error.
pub fn is_valid_endpoint(
    request_path: &str,
    request_method: &str,
    endpoint: &EndpointConfiguration,
    payload: &Option<String>,
) -> (r: Result<bool, ApplicationError>)
    ensures
        r is Ok <==> endpoint_ok(*endpoint),
        r matches Ok(b) ==> b == endpoint_matches(
            *endpoint,
            request_path@,
            request_method@,
            opt_view(*payload),
        ),
        r matches Err(e) ==> (e matches ApplicationError::ConfigurationError(m) && m@
            == endpoint_error_message(*endpoint)),
{
    let path_owned: Option<String> = Option::Some(request_path.to_owned());
    let path_result = check_regexp(clone_opt_string(&endpoint.path_expression), path_owned)?;
    let payload_result = match &endpoint.body_expression {
        Option::Some(p) => match payload {
            Option::Some(d) => match regex_is_match(p.as_str(), d.as_str()) {
                Ok(b) => b,
                Err(()) => {
                    let mut message = "Error in regular expression ".to_owned();
                    message.append(p.as_str());
                    return Err(ApplicationError::ConfigurationError(message));
                },
            },
            Option::None => {
                if regex_compiles(p.as_str()) {
                    false
                } else {
                    let mut message = "Error in regular expression ".to_owned();
                    message.append(p.as_str());
                    return Err(ApplicationError::ConfigurationError(message));
                }
            },
        },
        Option::None => true,
    };
    let method_result = match &endpoint.method {
        Option::Some(m) => eq_str(m.as_str(), request_method),
        Option::None => true,
    };
    Ok(path_result && payload_result && method_result)
}

/// The key a request is matched on: the path, with `?` and the query string
/// appended when the query is neither empty nor the bare string `=`.
pub open spec fn match_key_spec(path: Seq<char>, query: Seq<char>) -> Seq<char> {
    if query.len() > 0 && query != seq!['='] {
        path + seq!['?'] + query
    } else {
        path
    }
}

/// Compose the match key from path and query string.
pub fn match_key(path: &str, query: &str) -> (r: String)
    ensures
        r@ == match_key_spec(path@, query@),
{
    proof {
        reveal_strlit("=");
        assert("="@ =~= seq!['=']);
    }
    if query.unicode_len() > 0 && !eq_str(query, "=") {
        let mut out = path.to_owned();
        push_char(&mut out, '?');
        out.append(query);
        proof {
            assert(out@ =~= path@ + seq!['?'] + query@);
        }
        out
    } else {
        path.to_owned()
    }
}

/// `i` is the first endpoint whose pattern does not compile, every endpoint
/// before it being fine and not matching.
pub open spec fn first_invalid(
    es: Seq<EndpointConfiguration>,
    path: Seq<char>,
    method: Seq<char>,
    body: Option<Seq<char>>,
    i: int,
) -> bool {
    &&& 0 <= i < es.len()
    &&& !endpoint_ok(es[i])
    &&& forall|j: int|
        0 <= j < i ==> endpoint_ok(#[trigger] es[j]) && !endpoint_matches(
            es[j],
            path,
            method,
            body,
        )
}

/// What endpoint selection may return for a given endpoint list and request:
/// the first match, no match with every pattern fine, or a matcher error at
/// the first endpoint whose pattern does not compile, every endpoint before
/// it being fine and not matching.
pub open spec fn selection_spec(
    es: Seq<EndpointConfiguration>,
    path: Seq<char>,
    method: Seq<char>,
    body: Option<Seq<char>>,
    r: Result<Option<usize>, ApplicationError>,
) -> bool {
    match r {
        Result::Ok(o) => match o {
            Option::Some(i) => {
                &&& i < es.len()
                &&& endpoint_ok(es[i as int])
                &&& endpoint_matches(es[i as int], path, method, body)
                &&& forall|j: int|
                    0 <= j < i ==> endpoint_ok(#[trigger] es[j]) && !endpoint_matches(
                        es[j],
                        path,
                        method,
                        body,
                    )
            },
            Option::None => forall|j: int|
                0 <= j < es.len() ==> endpoint_ok(#[trigger] es[j]) && !endpoint_matches(
                    es[j],
                    path,
                    method,
                    body,
                ),
        },
        Result::Err(e) => exists|i: int|
            #[trigger] first_invalid(es, path, method, body, i) && (e
                matches ApplicationError::ConfigurationError(m) && m@ == endpoint_error_message(
                es[i],
            )),
    }
}

/// The selection outcome, computed from the front: the first endpoint whose
/// pattern does not compile is an error, the first that accepts the request
/// is picked, and a fully walked list picks none.
pub open spec fn select_from(
    es: Seq<EndpointConfiguration>,
    path: Seq<char>,
    method: Seq<char>,
    body: Option<Seq<char>>,
    i: int,
) -> Result<Option<int>, ()>
    decreases es.len() - i,
{
    if i < 0 || i >= es.len() {
        Result::Ok(Option::None)
    } else if !endpoint_ok(es[i]) {
        Result::Err(())
    } else if endpoint_matches(es[i], path, method, body) {
        Result::Ok(Option::Some(i))
    } else {
        select_from(es, path, method, body, i + 1)
    }
}

/// The selection outcome over the whole list.
pub open spec fn select_spec(
    es: Seq<EndpointConfiguration>,
    path: Seq<char>,
    method: Seq<char>,
    body: Option<Seq<char>>,
) -> Result<Option<int>, ()> {
    select_from(es, path, method, body, 0)
}

/// Walk the endpoints in declaration order and pick the first that accepts
/// the request; a pattern that does not compile stops the walk with an
/// error.
pub fn select_endpoint(
    endpoints: &Vec<EndpointConfiguration>,
    request_path: &str,
    request_method: &str,
    payload: &Option<String>,
) -> (r: Result<Option<usize>, ApplicationError>)
    ensures
        selection_spec(
            endpoints@,
            request_path@,
            request_method@,
            opt_view(*payload),
            r,
        ),
        r matches Ok(o) ==> select_spec(
            endpoints@,
            request_path@,
            request_method@,
            opt_view(*payload),
        ) == (match o {
            Option::Some(i) => Result::<Option<int>, ()>::Ok(Option::Some(i as int)),
            Option::None => Result::<Option<int>, ()>::Ok(Option::None),
        }),
        r is Err ==> select_spec(
            endpoints@,
            request_path@,
            request_method@,
            opt_view(*payload),
        ) is Err,
{
    let n = endpoints.len();
    let mut i: usize = 0;
    while i < n
        invariant
            i <= n,
            n == endpoints@.len(),
            select_spec(endpoints@, request_path@, request_method@, opt_view(*payload))
                == select_from(
                endpoints@,
                request_path@,
                request_method@,
                opt_view(*payload),
                i as int,
            ),
            forall|j: int|
                0 <= j < i ==> endpoint_ok(#[trigger] endpoints@[j]) && !endpoint_matches(
                    endpoints@[j],
                    request_path@,
                    request_method@,
                    opt_view(*payload),
                ),
        decreases n - i,
    {
        match is_valid_endpoint(request_path, request_method, &endpoints[i], payload) {
            Ok(true) => {
                return Ok(Option::Some(i));
            },
            Ok(false) => {},
            Err(e) => {
                proof {
                    assert(first_invalid(
                        endpoints@,
                        request_path@,
                        request_method@,
                        opt_view(*payload),
                        i as int,
                    ));
                }
                return Err(e);
            },
        }
        i = i + 1;
    }
    Ok(Option::None)
}

/// First-match determinism: two selections over the same endpoint list and
/// request agree; in particular, which endpoint handles a request does not
/// depend on anything besides the list and the request.
pub proof fn lemma_selection_deterministic(
    es: Seq<EndpointConfiguration>,
    path: Seq<char>,
    method: Seq<char>,
    body: Option<Seq<char>>,
    r1: Result<Option<usize>, ApplicationError>,
    r2: Result<Option<usize>, ApplicationError>,
)
    requires
        selection_spec(es, path, method, body, r1),
        selection_spec(es, path, method, body, r2),
    ensures
        r1 is Ok <==> r2 is Ok,
        r1 matches Ok(o1) ==> r2 matches Ok(o2) && o1 == o2,
{
    match (r1, r2) {
        (Result::Ok(Option::Some(i1)), Result::Ok(Option::Some(i2))) => {
            if i1 < i2 {
                assert(endpoint_matches(es[i1 as int], path, method, body));
                assert(!endpoint_matches(es[i1 as int], path, method, body));
            }
            if i2 < i1 {
                assert(endpoint_matches(es[i2 as int], path, method, body));
                assert(!endpoint_matches(es[i2 as int], path, method, body));
            }
        },
        (Result::Ok(Option::Some(i1)), Result::Ok(Option::None)) => {
            assert(endpoint_matches(es[i1 as int], path, method, body));
        },
        (Result::Ok(Option::None), Result::Ok(Option::Some(i2))) => {
            assert(endpoint_matches(es[i2 as int], path, method, body));
        },
        (Result::Ok(o1), Result::Err(e2)) => {
            let b = choose|i: int| #[trigger] first_invalid(es, path, method, body, i);
            match o1 {
                Option::Some(i1) => {
                    if i1 < b {
                        assert(endpoint_matches(es[i1 as int], path, method, body));
                    } else {
                        assert(endpoint_ok(es[b]));
                    }
                },
                Option::None => {
                    assert(endpoint_ok(es[b]));
                },
            }
        },
        (Result::Err(e1), Result::Ok(o2)) => {
            let b = choose|i: int| #[trigger] first_invalid(es, path, method, body, i);
            match o2 {
                Option::Some(i2) => {
                    if i2 < b {
                        assert(endpoint_matches(es[i2 as int], path, method, body));
                    } else {
                        assert(endpoint_ok(es[b]));
                    }
                },
                Option::None => {
                    assert(endpoint_ok(es[b]));
                },
            }
        },
        (Result::Err(e1), Result::Err(e2)) => {},
        (Result::Ok(Option::None), Result::Ok(Option::None)) => {},
    }
}

} // verus!
