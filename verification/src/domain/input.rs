//! The targets of a run: a host, a base path and the endpoints under it.

use crate::domain::target_url::{
    add_chars, add_pair_chars, pair_chars, pairs, parse_with_params, parsed, url_with_params,
    TargetUrl, TargetUrlView, UrlError, MAX_URL_CHARS, URL_TOO_LONG,
};
use crate::text::{
    lemma_trim_end_is_done, lemma_trim_start_is_done, opt_text, push_all, to_chars, to_text,
    trim_end, trim_end_chars, trim_start, trim_start_chars,
};
use vstd::prelude::*;

verus! {

/// The token that stands in a URL template where a dictionary value goes.
pub const FUZZ_TOKEN: &'static str = "{fuzz}";

/// What an expected response header holds.
pub struct ExpectedHeaderView {
    pub name: Seq<char>,
    pub value: Seq<char>,
}

/// A header that the response is expected to carry.
#[derive(Clone, Debug)]
pub struct ExpectedHeader {
    name: String,
    value: String,
}

impl View for ExpectedHeader {
    type V = ExpectedHeaderView;

    closed spec fn view(&self) -> ExpectedHeaderView {
        ExpectedHeaderView { name: self.name@, value: self.value@ }
    }
}

impl ExpectedHeader {
    pub fn new(name: String, value: String) -> (header: Self)
        ensures
            header@ == (ExpectedHeaderView { name: name@, value: value@ }),
    {
        Self { name, value }
    }

    pub fn name(&self) -> (name: &String)
        ensures
            name@ == self@.name,
    {
        &self.name
    }

    pub fn value(&self) -> (value: &String)
        ensures
            value@ == self@.value,
    {
        &self.value
    }
}

/// What a request header or a query parameter holds.
pub struct ParameterView {
    pub name: Seq<char>,
    pub value: Option<Seq<char>>,
    pub fuzz: bool,
}

/// A header of the request: fuzzed, or sent with its fixed value.
#[derive(Clone, Debug)]
pub struct HeaderParameter {
    name: String,
    value: Option<String>,
    fuzz: bool,
}

impl View for HeaderParameter {
    type V = ParameterView;

    closed spec fn view(&self) -> ParameterView {
        ParameterView { name: self.name@, value: opt_text(self.value), fuzz: self.fuzz }
    }
}

impl HeaderParameter {
    pub fn new(name: String, value: Option<String>, fuzz: bool) -> (header: Self)
        ensures
            header@ == (ParameterView { name: name@, value: opt_text(value), fuzz }),
    {
        Self { name, value, fuzz }
    }

    pub fn name(&self) -> (name: &String)
        ensures
            name@ == self@.name,
    {
        &self.name
    }

    pub fn value(&self) -> (value: &Option<String>)
        ensures
            opt_text(*value) == self@.value,
    {
        &self.value
    }

    pub fn fuzz(&self) -> (fuzz: bool)
        ensures
            fuzz == self@.fuzz,
    {
        self.fuzz
    }
}

/// The request method of an endpoint.
#[derive(Clone, Debug, PartialEq, Eq, Structural)]
pub enum HttpMethod {
    GET,
    POST,
    PUT,
    PATCH,
    DELETE,
    HEAD,
    OPTIONS,
}

/// A query parameter: fuzzed, or sent with its fixed value.
#[derive(Clone, Debug)]
pub struct QueryParameter {
    name: String,
    fuzz: bool,
    value: Option<String>,
}

impl View for QueryParameter {
    type V = ParameterView;

    closed spec fn view(&self) -> ParameterView {
        ParameterView { name: self.name@, value: opt_text(self.value), fuzz: self.fuzz }
    }
}

impl QueryParameter {
    pub fn new(name: String, fuzz: bool, value: Option<String>) -> (parameter: Self)
        ensures
            parameter@ == (ParameterView { name: name@, value: opt_text(value), fuzz }),
    {
        Self { name, fuzz, value }
    }

    pub fn name(&self) -> (name: &String)
        ensures
            name@ == self@.name,
    {
        &self.name
    }

    pub fn fuzz(&self) -> (fuzz: bool)
        ensures
            fuzz == self@.fuzz,
    {
        self.fuzz
    }

    pub fn value(&self) -> (value: &Option<String>)
        ensures
            opt_text(*value) == self@.value,
    {
        &self.value
    }
}

/// The contents of a list of expected headers.
pub open spec fn expected_headers(s: Seq<ExpectedHeader>) -> Seq<ExpectedHeaderView> {
    Seq::new(s.len(), |i: int| s[i]@)
}

/// The contents of a list of query parameters.
pub open spec fn query_parameters(s: Seq<QueryParameter>) -> Seq<ParameterView> {
    Seq::new(s.len(), |i: int| s[i]@)
}

/// The contents of a list of request headers.
pub open spec fn header_parameters(s: Seq<HeaderParameter>) -> Seq<ParameterView> {
    Seq::new(s.len(), |i: int| s[i]@)
}

/// What an endpoint description holds.
pub struct PathView {
    pub endpoint: Seq<char>,
    pub method: HttpMethod,
    pub expected_status: u16,
    pub expected_headers: Seq<ExpectedHeaderView>,
    pub expected_body: Seq<char>,
    pub query_parameters: Seq<ParameterView>,
    pub headers: Seq<ParameterView>,
    pub body: Seq<char>,
}

/// Host, base path and endpoint joined by single slashes: the slashes that
/// the host ends with, the base path starts or ends with, and the endpoint
/// starts with are dropped first.
pub open spec fn joined_url(host: Seq<char>, base_path: Seq<char>, endpoint: Seq<char>) -> Seq<
    char,
> {
    trim_end(host, '/') + seq!['/'] + trim_end(trim_start(base_path, '/'), '/') + seq!['/']
        + trim_start(endpoint, '/')
}

/// Whether the joined text of a template and its query pairs are few
/// enough characters for the URL parser.
pub open spec fn within_url_limit(joined: Seq<char>, params: Seq<(Seq<char>, Seq<char>)>) -> bool {
    joined.len() + pair_chars(params) <= MAX_URL_CHARS
}

/// The URL template of an endpoint: what the URL parser makes of host, base
/// path and endpoint joined, with the query pairs of the parameters; or the
/// fault that the template is too long, where what would be handed to the
/// parser is more characters than it is given.
pub open spec fn url_template(
    host: Seq<char>,
    base_path: Seq<char>,
    endpoint: Seq<char>,
    parameters: Seq<ParameterView>,
) -> Result<TargetUrlView, Seq<char>> {
    let joined = joined_url(host, base_path, endpoint);
    if within_url_limit(joined, rendered_parameters(parameters)) {
        url_with_params(joined, rendered_parameters(parameters))
    } else {
        Err(URL_TOO_LONG@)
    }
}

/// Slashes at the joints of host, base path and endpoint do not change the
/// URL template: with the parts trimmed beforehand it is the same.
pub proof fn lemma_joint_slashes_do_not_matter(
    host: Seq<char>,
    base_path: Seq<char>,
    endpoint: Seq<char>,
    parameters: Seq<ParameterView>,
)
    ensures
        joined_url(
            trim_end(host, '/'),
            trim_end(trim_start(base_path, '/'), '/'),
            trim_start(endpoint, '/'),
        ) == joined_url(host, base_path, endpoint),
        url_template(
            trim_end(host, '/'),
            trim_end(trim_start(base_path, '/'), '/'),
            trim_start(endpoint, '/'),
            parameters,
        ) == url_template(host, base_path, endpoint, parameters),
{
    let inner = trim_start(base_path, '/');
    let base = trim_end(inner, '/');
    lemma_trim_end_is_done(host, '/');
    lemma_trim_start_is_done(endpoint, '/');
    lemma_trim_start_is_done(base_path, '/');
    lemma_trim_end_is_done(inner, '/');
    if base.len() > 0 {
        assert(base[0] == inner[0]);
    }
    assert(trim_start(base, '/') == base);
}

/// The query pairs of a template: a fuzzed parameter carries the fuzz token,
/// a fixed one its value, and a fixed one without a value is left out.
pub open spec fn rendered_parameters(parameters: Seq<ParameterView>) -> Seq<
    (Seq<char>, Seq<char>),
>
    decreases parameters.len(),
{
    if parameters.len() == 0 {
        Seq::empty()
    } else {
        let before = rendered_parameters(parameters.drop_last());
        let last = parameters.last();
        if last.fuzz {
            before.push((last.name, FUZZ_TOKEN@))
        } else {
            match last.value {
                Some(value) => before.push((last.name, value)),
                None => before,
            }
        }
    }
}

/// One endpoint under test, with what is sent and what is expected back.
#[derive(Clone, Debug)]
pub struct Path {
    endpoint: String,
    method: HttpMethod,
    expected_status: u16,
    expected_headers: Vec<ExpectedHeader>,
    expected_body: String,
    query_parameters: Vec<QueryParameter>,
    headers: Vec<HeaderParameter>,
    body: String,
}

impl View for Path {
    type V = PathView;

    closed spec fn view(&self) -> PathView {
        PathView {
            endpoint: self.endpoint@,
            method: self.method,
            expected_status: self.expected_status,
            expected_headers: expected_headers(self.expected_headers@),
            expected_body: self.expected_body@,
            query_parameters: query_parameters(self.query_parameters@),
            headers: header_parameters(self.headers@),
            body: self.body@,
        }
    }
}

impl Path {
    pub fn new(
        endpoint: String,
        method: HttpMethod,
        expected_status: u16,
        expected_headers: Vec<ExpectedHeader>,
        expected_body: String,
        query_parameters: Vec<QueryParameter>,
        headers: Vec<HeaderParameter>,
        body: String,
    ) -> (path: Self)
        ensures
            path@ == (PathView {
                endpoint: endpoint@,
                method,
                expected_status,
                expected_headers: self::expected_headers(expected_headers@),
                expected_body: expected_body@,
                query_parameters: self::query_parameters(query_parameters@),
                headers: header_parameters(headers@),
                body: body@,
            }),
    {
        Self {
            endpoint,
            method,
            expected_status,
            expected_headers,
            expected_body,
            query_parameters,
            headers,
            body,
        }
    }

    pub fn endpoint(&self) -> (endpoint: &String)
        ensures
            endpoint@ == self@.endpoint,
    {
        &self.endpoint
    }

    pub fn method(&self) -> (method: &HttpMethod)
        ensures
            *method == self@.method,
    {
        &self.method
    }

    pub fn expected_status(&self) -> (expected_status: &u16)
        ensures
            *expected_status == self@.expected_status,
    {
        &self.expected_status
    }

    pub fn expected_headers(&self) -> (headers: &Vec<ExpectedHeader>)
        ensures
            self::expected_headers(headers@) == self@.expected_headers,
    {
        &self.expected_headers
    }

    pub fn expected_body(&self) -> (expected_body: &String)
        ensures
            expected_body@ == self@.expected_body,
    {
        &self.expected_body
    }

    pub fn headers(&self) -> (headers: &Vec<HeaderParameter>)
        ensures
            header_parameters(headers@) == self@.headers,
    {
        &self.headers
    }

    pub fn body(&self) -> (body: &String)
        ensures
            body@ == self@.body,
    {
        &self.body
    }

    pub fn query_parameters(&self) -> (parameters: &Vec<QueryParameter>)
        ensures
            self::query_parameters(parameters@) == self@.query_parameters,
    {
        &self.query_parameters
    }

    /// The URL template of this endpoint under `base_host` and `base_path`:
    /// the three joined by slashes, with the query parameters appended, the
    /// fuzzed ones carrying the fuzz token. Where that is more than the URL
    /// parser is given, the fault that the template is too long is returned.
    pub fn to_url(&self, base_host: &String, base_path: &String) -> (r: Result<
        TargetUrl,
        UrlError,
    >)
        ensures
            parsed(r) == url_template(
                base_host@,
                base_path@,
                self@.endpoint,
                self@.query_parameters,
            ),
    {
        let combined_path = join_url(base_host, base_path, &self.endpoint);
        let params_to_fuzz = render_parameters(&self.query_parameters);
        if fits_url_limit(combined_path.as_str(), &params_to_fuzz) {
            parse_with_params(combined_path.as_str(), &params_to_fuzz)
        } else {
            Err(UrlError::new(URL_TOO_LONG.to_owned()))
        }
    }
}

/// Whether the joined text of a template and its query pairs are few enough
/// characters for the URL parser.
pub fn fits_url_limit(joined: &str, params: &Vec<(String, String)>) -> (fits: bool)
    ensures
        fits == within_url_limit(joined@, pairs(params@)),
{
    match add_chars(0, joined.unicode_len()) {
        Some(sum) => add_pair_chars(sum, params).is_some(),
        None => false,
    }
}

/// Host, base path and endpoint joined by single slashes.
pub fn join_url(base_host: &String, base_path: &String, endpoint: &String) -> (joined: String)
    ensures
        joined@ == joined_url(base_host@, base_path@, endpoint@),
{
    let host = trim_end_chars(&to_chars(base_host.as_str()), '/');
    let base = trim_end_chars(&trim_start_chars(&to_chars(base_path.as_str()), '/'), '/');
    let tail = trim_start_chars(&to_chars(endpoint.as_str()), '/');
    let mut joined: Vec<char> = Vec::new();
    push_all(&mut joined, &host);
    joined.push('/');
    push_all(&mut joined, &base);
    joined.push('/');
    push_all(&mut joined, &tail);
    assert(joined@ =~= joined_url(base_host@, base_path@, endpoint@));
    to_text(&joined)
}

/// The query pairs of a template, in the order of its parameters.
pub fn render_parameters(parameters: &Vec<QueryParameter>) -> (rendered: Vec<(String, String)>)
    ensures
        pairs(rendered@) == rendered_parameters(query_parameters(parameters@)),
{
    let mut rendered: Vec<(String, String)> = Vec::new();
    let mut i: usize = 0;
    while i < parameters.len()
        invariant
            i <= parameters.len(),
            pairs(rendered@) == rendered_parameters(query_parameters(parameters@).take(i as int)),
        decreases parameters.len() - i,
    {
        let parameter = &parameters[i];
        let ghost before = rendered@;
        proof {
            let all = query_parameters(parameters@);
            assert(all.take(i + 1).drop_last() =~= all.take(i as int));
            assert(all.take(i + 1).last() == parameter@);
        }
        if parameter.fuzz {
            rendered.push((parameter.name.clone(), FUZZ_TOKEN.to_owned()));
            assert(pairs(rendered@) =~= pairs(before).push((parameter@.name, FUZZ_TOKEN@)));
        } else {
            match &parameter.value {
                Some(value) => {
                    rendered.push((parameter.name.clone(), value.clone()));
                    assert(pairs(rendered@) =~= pairs(before).push((parameter@.name, value@)));
                },
                None => {},
            }
        }
        i += 1;
    }
    assert(query_parameters(parameters@).take(i as int) =~= query_parameters(parameters@));
    rendered
}

/// What a run's input holds.
pub struct FuzzyInputView {
    pub host: Seq<char>,
    pub base_path: Seq<char>,
    pub paths: Seq<PathView>,
}

/// The contents of a list of endpoints.
pub open spec fn path_views(s: Seq<Path>) -> Seq<PathView> {
    Seq::new(s.len(), |i: int| s[i]@)
}

/// The targets of a run: the endpoints under one host and base path.
#[derive(Clone, Debug)]
pub struct FuzzyInput {
    host: String,
    base_path: String,
    paths: Vec<Path>,
}

impl View for FuzzyInput {
    type V = FuzzyInputView;

    closed spec fn view(&self) -> FuzzyInputView {
        FuzzyInputView {
            host: self.host@,
            base_path: self.base_path@,
            paths: path_views(self.paths@),
        }
    }
}

impl FuzzyInput {
    pub fn new(host: String, base_path: String, paths: Vec<Path>) -> (input: Self)
        ensures
            input@ == (FuzzyInputView {
                host: host@,
                base_path: base_path@,
                paths: path_views(paths@),
            }),
    {
        Self { host, base_path, paths }
    }

    pub fn host(&self) -> (host: &String)
        ensures
            host@ == self@.host,
    {
        &self.host
    }

    pub fn base_path(&self) -> (base_path: &String)
        ensures
            base_path@ == self@.base_path,
    {
        &self.base_path
    }

    pub fn paths(&self) -> (paths: &Vec<Path>)
        ensures
            path_views(paths@) == self@.paths,
    {
        &self.paths
    }
}

} // verus!
