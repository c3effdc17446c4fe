//! The responses the service gives over HTTP.
use vstd::prelude::*;
use vstd::string::*;

verus! {

/// Builder of the responses that every handler shares.
pub struct HttpResponse;

/// A response to the gateway that invoked a handler.
#[derive(Debug, PartialEq, Eq)]
pub struct ProxyResponse {
    pub status_code: i64,
    pub headers: Vec<(String, String)>,
    pub multi_value_headers: Vec<(String, Vec<String>)>,
    pub body: Option<String>,
    pub is_base64_encoded: bool,
}

/// What a `ProxyResponse` holds.
pub ghost struct ProxyResponseView {
    pub status_code: int,
    pub headers: Seq<(Seq<char>, Seq<char>)>,
    pub multi_value_headers: Seq<(Seq<char>, Seq<Seq<char>>)>,
    pub body: Option<Seq<char>>,
    pub is_base64_encoded: bool,
}

impl View for ProxyResponse {
    type V = ProxyResponseView;

    open spec fn view(&self) -> ProxyResponseView {
        ProxyResponseView {
            status_code: self.status_code as int,
            headers: self.headers.deep_view(),
            multi_value_headers: self.multi_value_headers.deep_view(),
            body: self.body.deep_view(),
            is_base64_encoded: self.is_base64_encoded,
        }
    }
}

/// A response of one of the request/response endpoints: a status and the
/// message that its body carries.
#[derive(Debug, PartialEq, Eq)]
pub struct ApiResponse {
    pub status: u16,
    pub headers: Vec<(String, String)>,
    pub message: String,
}

/// What an `ApiResponse` holds.
pub ghost struct ApiResponseView {
    pub status: int,
    pub headers: Seq<(Seq<char>, Seq<char>)>,
    pub message: Seq<char>,
}

impl View for ApiResponse {
    type V = ApiResponseView;

    open spec fn view(&self) -> ApiResponseView {
        ApiResponseView {
            status: self.status as int,
            headers: self.headers.deep_view(),
            message: self.message@,
        }
    }
}

/// The headers that open a response to callers from any origin.
pub open spec fn cors_headers_of() -> Seq<(Seq<char>, Seq<char>)> {
    seq![
        ("Access-Control-Allow-Headers"@, "Content-Type"@),
        ("Access-Control-Allow-Origin"@, "*"@),
        ("Access-Control-Allow-Methods"@, "*"@),
    ]
}

/// The same headers, each with its one value in a list.
pub open spec fn cors_multi_value_headers_of() -> Seq<(Seq<char>, Seq<Seq<char>>)> {
    seq![
        ("Access-Control-Allow-Headers"@, seq!["Content-Type"@]),
        ("Access-Control-Allow-Origin"@, seq!["*"@]),
        ("Access-Control-Allow-Methods"@, seq!["*"@]),
    ]
}

/// The response that tells the gateway a handler is done: status 200, the
/// cross-origin headers, no body.
pub open spec fn success_response_of() -> ProxyResponseView {
    ProxyResponseView {
        status_code: 200,
        headers: cors_headers_of(),
        multi_value_headers: cors_multi_value_headers_of(),
        body: None,
        is_base64_encoded: false,
    }
}

/// A header with one value.
fn header(name: &str, value: &str) -> (entry: (String, String))
    ensures
        entry.deep_view() == (name@, value@),
{
    (String::from_str(name), String::from_str(value))
}

/// A header with its one value in a list.
fn multi_value_header(name: &str, value: &str) -> (entry: (String, Vec<String>))
    ensures
        entry.deep_view() == (name@, seq![value@]),
{
    let mut values: Vec<String> = Vec::new();
    values.push(String::from_str(value));
    assert(values.deep_view() =~= seq![value@]);
    (String::from_str(name), values)
}

impl HttpResponse {
    /// The headers that open a response to callers from any origin.
    pub fn cors_headers() -> (headers: Vec<(String, String)>)
        ensures
            headers.deep_view() == cors_headers_of(),
    {
        let mut headers: Vec<(String, String)> = Vec::new();
        headers.push(header("Access-Control-Allow-Headers", "Content-Type"));
        headers.push(header("Access-Control-Allow-Origin", "*"));
        headers.push(header("Access-Control-Allow-Methods", "*"));
        assert(headers.deep_view() =~= cors_headers_of());
        headers
    }

    /// The response that tells the gateway a handler is done.
    pub fn build_success_response() -> (response: ProxyResponse)
        ensures
            response@ == success_response_of(),
    {
        let mut multi_value_headers: Vec<(String, Vec<String>)> = Vec::new();
        multi_value_headers.push(multi_value_header("Access-Control-Allow-Headers", "Content-Type"));
        multi_value_headers.push(multi_value_header("Access-Control-Allow-Origin", "*"));
        multi_value_headers.push(multi_value_header("Access-Control-Allow-Methods", "*"));
        assert(multi_value_headers.deep_view() =~= cors_multi_value_headers_of());
        ProxyResponse {
            status_code: 200,
            headers: Self::cors_headers(),
            multi_value_headers,
            body: None,
            is_base64_encoded: false,
        }
    }

    /// The response of an endpoint with a status and a message.
    pub fn message(status: u16, message: &str) -> (response: ApiResponse)
        ensures
            response@ == (ApiResponseView {
                status: status as int,
                headers: cors_headers_of(),
                message: message@,
            }),
    {
        ApiResponse { status, headers: Self::cors_headers(), message: String::from_str(message) }
    }
}

} // verus!
