//! Mock responses: building a concrete response from a mock template and
//! the resolved parameter bindings.

use vstd::prelude::*;

use crate::config::MockResponseConfiguration;
use crate::error::ApplicationError;
use crate::subst::{subst, subst_spec};
use crate::text::chars_of;

verus! {

/// The character is a decimal digit.
pub open spec fn is_digit(c: char) -> bool {
    48 <= c as u32 <= 57
}

/// Every character is a decimal digit.
pub open spec fn all_digits(s: Seq<char>) -> bool {
    forall|i: int| 0 <= i < s.len() ==> is_digit(#[trigger] s[i])
}

/// The number the digit string denotes.
pub open spec fn digits_val(s: Seq<char>) -> int
    decreases s.len(),
{
    if s.len() == 0 {
        0
    } else {
        digits_val(s.drop_last()) * 10 + (s.last() as u32 - 48)
    }
}

/// The string denotes an HTTP status code: digits only, value 100 to 999.
pub open spec fn valid_status(s: Seq<char>) -> bool {
    &&& s.len() > 0
    &&& all_digits(s)
    &&& 100 <= digits_val(s) <= 999
}

/// Parse a status string; success exactly on digit strings denoting 100 to
/// 999.
pub fn parse_status(s: &str) -> (r: Result<u16, ()>)
    ensures
        r is Ok <==> valid_status(s@),
        r matches Ok(v) ==> v == digits_val(s@),
{
    let cs = chars_of(s);
    let n = cs.len();
    if n == 0 {
        return Err(());
    }
    let mut acc: u32 = 0;
    let mut i: usize = 0;
    while i < n
        invariant
            i <= n,
            n == cs@.len(),
            cs@ == s@,
            n > 0,
            all_digits(s@.subrange(0, i as int)),
            acc <= 1000,
            acc < 1000 ==> acc == digits_val(s@.subrange(0, i as int)),
            acc == 1000 ==> digits_val(s@.subrange(0, i as int)) >= 1000,
        decreases n - i,
    {
        let c = cs[i];
        let code = c as u32;
        if code < 48 || code > 57 {
            proof {
                assert(!all_digits(s@)) by {
                    assert(s@[i as int] == c);
                }
            }
            return Err(());
        }
        let d = code - 48;
        let ghost pre = s@.subrange(0, i as int);
        let ghost cur = s@.subrange(0, i + 1);
        proof {
            assert(cur.drop_last() =~= pre);
            assert(cur.last() == s@[i as int]);
            assert(digits_val(cur) == digits_val(pre) * 10 + (s@[i as int] as u32 - 48));
            assert(all_digits(cur)) by {
                assert(forall|q: int| 0 <= q < i ==> cur[q] == pre[q]);
            }
        }
        if acc >= 100 {
            acc = 1000;
        } else {
            acc = acc * 10 + d;
        }
        i = i + 1;
    }
    proof {
        assert(s@.subrange(0, n as int) =~= s@);
    }
    if 100 <= acc && acc <= 999 {
        Ok(acc as u16)
    } else {
        Err(())
    }
}

/// A concrete response an HTTP server can send: status, headers in order,
/// and an optional body.
#[derive(Debug, PartialEq)]
pub struct MockResponse {
    /// The numeric status code.
    pub status: u16,
    /// The headers, in the template's order.
    pub headers: Vec<(String, String)>,
    /// The body, if the template has one.
    pub body: Option<String>,
}

/// The response is exactly what the template yields under the bindings.
pub open spec fn mock_response_matches(
    resp: MockResponse,
    mock: MockResponseConfiguration,
    params: Seq<(String, String)>,
) -> bool {
    &&& resp.status == digits_val(subst_spec(mock.status@, params))
    &&& resp.headers@.len() == mock.headers@.len()
    &&& forall|i: int|
        0 <= i < mock.headers@.len() ==> (#[trigger] resp.headers@[i]).0@ == subst_spec(
            mock.headers@[i].0@,
            params,
        ) && resp.headers@[i].1@ == subst_spec(mock.headers@[i].1@, params)
    &&& match mock.response {
        Option::Some(b) => resp.body matches Some(rb) && rb@ == subst_spec(b@, params),
        Option::None => resp.body is None,
    }
}

/// Build the response a mock template yields under the given bindings:
/// every part of the template is substituted, and the substituted status
/// must denote a numeric HTTP status.
pub fn generate_mock_response(
    mock: &MockResponseConfiguration,
    params: &Vec<(String, String)>,
) -> (r: Result<MockResponse, ApplicationError>)
    ensures
        r is Ok <==> valid_status(subst_spec(mock.status@, params@)),
        r matches Ok(resp) ==> mock_response_matches(resp, *mock, params@),
        r matches Err(e) ==> e is ConfigurationError,
{
    let status_text = subst(mock.status.as_str(), params);
    let status = match parse_status(status_text.as_str()) {
        Ok(v) => v,
        Err(()) => {
            return Err(
                ApplicationError::ConfigurationError("Invalid status code".to_owned()),
            );
        },
    };
    let entries = mock.headers.entries();
    let n = entries.len();
    let mut headers: Vec<(String, String)> = Vec::new();
    let mut i: usize = 0;
    while i < n
        invariant
            i <= n,
            n == mock.headers@.len(),
            entries@ == mock.headers@,
            headers@.len() == i,
            forall|j: int|
                0 <= j < i ==> (#[trigger] headers@[j]).0@ == subst_spec(
                    mock.headers@[j].0@,
                    params@,
                ) && headers@[j].1@ == subst_spec(mock.headers@[j].1@, params@),
        decreases n - i,
    {
        let key = subst(entries[i].0.as_str(), params);
        let value = subst(entries[i].1.as_str(), params);
        headers.push((key, value));
        i = i + 1;
    }
    let body = match &mock.response {
        Option::Some(b) => Option::Some(subst(b.as_str(), params)),
        Option::None => Option::None,
    };
    Ok(MockResponse { status, headers, body })
}

} // verus!
