//! Concrete targets, the requests made of them, and what became of each.

use crate::domain::dictionary::{
    case_views, cases, lemma_cases_len, total_values, FuzzCase, FuzzCaseView, FuzzyDataView,
    FuzzyDictionary,
};
use crate::domain::input::{
    path_views, url_template, FuzzyInput, FuzzyInputView, HttpMethod, Path, PathView,
};
use crate::domain::target_url::{pairs, parsed, TargetUrl, TargetUrlView, UrlError};
use crate::text::{
    clashes, contains, decimal, lemma_clash_leaves_some, lemma_replace_all_leaves_none, opt_text,
    push_all, push_decimal, replace_all, replace_chars, to_chars, to_text, unbordered,
};
use crate::fuzzer::dispatch::{lemma_finished_means_all_done, FuzzerView, Step};
use crate::fuzzer::headers::{
    fault_views, resolve_headers, resolved_headers, ConfigError, ConfigErrorView,
};
use vstd::prelude::*;
use vstd::std_specs::cmp::PartialEqSpecImpl;

verus! {

/// The fuzz token as it stands in a parsed URL's query.
pub const FUZZING_PLACEHOLDER: &'static str = "%7Bfuzz%7D";

/// What a concrete target holds.
pub struct FuzzedUrlView {
    pub url: Seq<char>,
    pub description: Seq<char>,
    pub id: Seq<char>,
}

/// One concrete target: a URL with a dictionary value in place, and the
/// dictionary entry that the value came from.
#[derive(Debug, PartialEq)]
pub struct FuzzedUrl {
    url: String,
    description: String,
    id: String,
}

impl View for FuzzedUrl {
    type V = FuzzedUrlView;

    closed spec fn view(&self) -> FuzzedUrlView {
        FuzzedUrlView { url: self.url@, description: self.description@, id: self.id@ }
    }
}

impl Clone for FuzzedUrl {
    fn clone(&self) -> (copy: Self)
        ensures
            copy@ == self@,
    {
        Self { url: self.url.clone(), description: self.description.clone(), id: self.id.clone() }
    }
}

impl FuzzedUrl {
    pub fn new(url: String, description: String, id: String) -> (target: Self)
        ensures
            target@ == (FuzzedUrlView { url: url@, description: description@, id: id@ }),
    {
        Self { url, description, id }
    }

    pub fn url(&self) -> (url: &String)
        ensures
            url@ == self@.url,
    {
        &self.url
    }

    pub fn description(&self) -> (description: &String)
        ensures
            description@ == self@.description,
    {
        &self.description
    }

    pub fn id(&self) -> (id: &String)
        ensures
            id@ == self@.id,
    {
        &self.id
    }
}

/// What came back for a request that was answered.
#[derive(Clone, Debug)]
pub struct ResponseSummary {
    status_code: u16,
    text: String,
}

/// What an answer holds.
pub struct ResponseView {
    pub status_code: u16,
    pub text: Seq<char>,
}

impl View for ResponseSummary {
    type V = ResponseView;

    closed spec fn view(&self) -> ResponseView {
        ResponseView { status_code: self.status_code, text: self.text@ }
    }
}

impl ResponseSummary {
    /// An answer with its status code and the text that a failure record
    /// shows of it.
    pub fn new(status_code: u16, text: String) -> (response: Self)
        ensures
            response@ == (ResponseView { status_code, text: text@ }),
    {
        Self { status_code, text }
    }

    pub fn status_code(&self) -> (status_code: u16)
        ensures
            status_code == self@.status_code,
    {
        self.status_code
    }

    pub fn text(&self) -> (text: &String)
        ensures
            text@ == self@.text,
    {
        &self.text
    }
}

/// What a failure holds.
pub struct FailureView {
    pub network_error: Option<Seq<char>>,
    pub status_code: Option<u16>,
    pub response: Option<Seq<char>>,
}

/// Why a request failed: no answer came, or one with an unexpected status.
#[derive(Debug)]
pub struct FuzzingFailure {
    network_error: Option<String>,
    status_code: Option<u16>,
    response: Option<String>,
}

impl View for FuzzingFailure {
    type V = FailureView;

    closed spec fn view(&self) -> FailureView {
        FailureView {
            network_error: opt_text(self.network_error),
            status_code: self.status_code,
            response: opt_text(self.response),
        }
    }
}

/// Two failures are alike where they have the same status code and agree on
/// whether a network error and a response are there.
pub open spec fn alike(a: FailureView, b: FailureView) -> bool {
    &&& (a.network_error is Some) == (b.network_error is Some)
    &&& a.status_code == b.status_code
    &&& (a.response is Some) == (b.response is Some)
}

impl PartialEq for FuzzingFailure {
    fn eq(&self, other: &Self) -> (alike: bool) {
        let neq = self.network_error.is_some() == other.network_error.is_some();
        let seq = match (self.status_code, other.status_code) {
            (Some(a), Some(b)) => a == b,
            (None, None) => true,
            _ => false,
        };
        let req = self.response.is_some() == other.response.is_some();
        neq && seq && req
    }
}

impl PartialEqSpecImpl for FuzzingFailure {
    open spec fn obeys_eq_spec() -> bool {
        true
    }

    open spec fn eq_spec(&self, other: &Self) -> bool {
        alike(self@, other@)
    }
}

/// `None`, or `Some(..)` around the text.
pub open spec fn optional_text(o: Option<Seq<char>>) -> Seq<char> {
    match o {
        Some(text) => "Some("@ + text + ")"@,
        None => "None"@,
    }
}

/// `None`, or `Some(..)` around the status code's numeral.
pub open spec fn optional_status(o: Option<u16>) -> Seq<char> {
    match o {
        Some(code) => "Some("@ + decimal(code as nat) + ")"@,
        None => "None"@,
    }
}

/// The record of a failure: one line without a line break of its own.
pub open spec fn failure_record(url: FuzzedUrlView, failure: FailureView) -> Seq<char> {
    "id: "@ + url.id + ", url: "@ + url.url + ", status_code: "@ + optional_status(
        failure.status_code,
    ) + ", response: "@ + optional_text(failure.response) + ", network_error: "@ + optional_text(
        failure.network_error,
    )
}

impl FuzzingFailure {
    pub fn new(
        network_error: Option<String>,
        status_code: Option<u16>,
        response: Option<String>,
    ) -> (failure: Self)
        ensures
            failure@ == (FailureView {
                network_error: opt_text(network_error),
                status_code,
                response: opt_text(response),
            }),
    {
        Self { network_error, status_code, response }
    }

    pub fn network_error(&self) -> (network_error: &Option<String>)
        ensures
            opt_text(*network_error) == self@.network_error,
    {
        &self.network_error
    }

    pub fn status_code(&self) -> (status_code: Option<u16>)
        ensures
            status_code == self@.status_code,
    {
        self.status_code
    }

    pub fn response(&self) -> (response: &Option<String>)
        ensures
            opt_text(*response) == self@.response,
    {
        &self.response
    }

    /// The record of this failure for the target `url`.
    pub fn failure_to_string(&self, url: FuzzedUrl) -> (record: String)
        ensures
            record@ == failure_record(url@, self@),
    {
        let mut record = to_chars("id: ");
        push_all(&mut record, &to_chars(url.id.as_str()));
        push_all(&mut record, &to_chars(", url: "));
        push_all(&mut record, &to_chars(url.url.as_str()));
        push_all(&mut record, &to_chars(", status_code: "));
        match self.status_code {
            Some(code) => {
                push_all(&mut record, &to_chars("Some("));
                push_decimal(&mut record, code as u64);
                push_all(&mut record, &to_chars(")"));
            },
            None => {
                push_all(&mut record, &to_chars("None"));
            },
        }
        push_all(&mut record, &to_chars(", response: "));
        push_optional_text(&mut record, &self.response);
        push_all(&mut record, &to_chars(", network_error: "));
        push_optional_text(&mut record, &self.network_error);
        assert(record@ =~= failure_record(url@, self@));
        to_text(&record)
    }
}

/// Appends `None`, or `Some(..)` around the text.
fn push_optional_text(out: &mut Vec<char>, o: &Option<String>)
    ensures
        final(out)@ == old(out)@ + optional_text(opt_text(*o)),
{
    match o {
        Some(text) => {
            push_all(out, &to_chars("Some("));
            push_all(out, &to_chars(text.as_str()));
            push_all(out, &to_chars(")"));
            assert(out@ =~= old(out)@ + optional_text(opt_text(*o)));
        },
        None => {
            push_all(out, &to_chars("None"));
        },
    }
}

/// What an outcome holds.
pub enum OutcomeView {
    Success(FuzzedUrlView),
    Failure(FuzzedUrlView, FailureView),
}

/// What became of one request.
#[derive(Debug, PartialEq)]
pub enum FuzzingResult {
    Success(FuzzedUrl),
    Failure(FuzzedUrl, FuzzingFailure),
}

impl View for FuzzingResult {
    type V = OutcomeView;

    open spec fn view(&self) -> OutcomeView {
        match self {
            FuzzingResult::Success(url) => OutcomeView::Success(url@),
            FuzzingResult::Failure(url, failure) => OutcomeView::Failure(url@, failure@),
        }
    }
}

/// The contents of a reply: the answer, or the network error's text.
pub open spec fn reply_view(reply: Result<ResponseSummary, String>) -> Result<
    ResponseView,
    Seq<char>,
> {
    match reply {
        Ok(response) => Ok(response@),
        Err(error) => Err(error@),
    }
}

/// The outcome of a request for `url` that expected the status `expected`:
/// a success where the answer has that status; a failure with the status and
/// the answer where it has another; a failure with the network error where no
/// answer came.
pub open spec fn outcome_of(
    reply: Result<ResponseView, Seq<char>>,
    url: FuzzedUrlView,
    expected: u16,
) -> OutcomeView {
    match reply {
        Ok(response) => if response.status_code != expected {
            OutcomeView::Failure(
                url,
                FailureView {
                    network_error: None,
                    status_code: Some(response.status_code),
                    response: Some(response.text),
                },
            )
        } else {
            OutcomeView::Success(url)
        },
        Err(error) => OutcomeView::Failure(
            url,
            FailureView { network_error: Some(error), status_code: None, response: None },
        ),
    }
}

impl FuzzingResult {
    /// The outcome of the request for `fuzzed_url` under `path`, given what
    /// came back for it.
    pub fn from_reply(
        reply: Result<ResponseSummary, String>,
        fuzzed_url: &FuzzedUrl,
        path: &Path,
    ) -> (outcome: Self)
        ensures
            outcome@ == outcome_of(reply_view(reply), fuzzed_url@, path@.expected_status),
    {
        Self::expecting(*path.expected_status(), reply, fuzzed_url)
    }

    /// The outcome of the request for `fuzzed_url` that expected the status
    /// `expected_status`, given what came back for it.
    pub fn expecting(
        expected_status: u16,
        reply: Result<ResponseSummary, String>,
        fuzzed_url: &FuzzedUrl,
    ) -> (outcome: Self)
        ensures
            outcome@ == outcome_of(reply_view(reply), fuzzed_url@, expected_status),
    {
        match reply {
            Ok(success) => {
                if success.status_code != expected_status {
                    let fuzzing_failure = FuzzingFailure::new(
                        None,
                        Some(success.status_code),
                        Some(success.text),
                    );
                    FuzzingResult::Failure(fuzzed_url.clone(), fuzzing_failure)
                } else {
                    FuzzingResult::Success(fuzzed_url.clone())
                }
            },
            Err(err) => {
                let fuzzing_failure = FuzzingFailure::new(Some(err), None, None);
                FuzzingResult::Failure(fuzzed_url.clone(), fuzzing_failure)
            },
        }
    }

    /// Whether the request got the expected status.
    pub fn is_success(&self) -> (success: bool)
        ensures
            success == (self@ is Success),
    {
        match self {
            FuzzingResult::Success(_) => true,
            FuzzingResult::Failure(_, _) => false,
        }
    }
}

/// The contents of a list of concrete targets.
pub open spec fn fuzzed_urls(s: Seq<FuzzedUrl>) -> Seq<FuzzedUrlView> {
    Seq::new(s.len(), |i: int| s[i]@)
}

/// The concrete target that a case makes of the URL template `text`: every
/// placeholder in it gives way to the case's value.
pub open spec fn fuzzed(text: Seq<char>, case: FuzzCaseView) -> FuzzedUrlView {
    FuzzedUrlView {
        url: replace_all(text, FUZZING_PLACEHOLDER@, case.value),
        description: case.description,
        id: case.id,
    }
}

/// The concrete targets of a URL template under a dictionary: one for each
/// value, in entry order and, within an entry, in value order.
pub open spec fn expansion(text: Seq<char>, dictionary: Seq<FuzzyDataView>) -> Seq<
    FuzzedUrlView,
> {
    Seq::new(cases(dictionary).len(), |k: int| fuzzed(text, cases(dictionary)[k]))
}

/// An expansion holds exactly one concrete target for each value of the
/// dictionary: as many as the entries hold values together.
pub proof fn lemma_expansion_len(text: Seq<char>, dictionary: Seq<FuzzyDataView>)
    ensures
        expansion(text, dictionary).len() == total_values(dictionary),
{
    lemma_cases_len(dictionary);
}

/// In a concrete target no placeholder is left, whatever the template,
/// where the value that went in does not clash with the placeholder.
pub proof fn lemma_expansion_substitutes(text: Seq<char>, dictionary: Seq<FuzzyDataView>, k: int)
    requires
        0 <= k < expansion(text, dictionary).len(),
        !clashes(cases(dictionary)[k].value, FUZZING_PLACEHOLDER@),
    ensures
        !contains(expansion(text, dictionary)[k].url, FUZZING_PLACEHOLDER@),
{
    reveal_strlit("%7Bfuzz%7D");
    lemma_replace_all_leaves_none(text, FUZZING_PLACEHOLDER@, cases(dictionary)[k].value);
}

/// The placeholder does not start as it ends.
pub proof fn lemma_placeholder_unbordered()
    ensures
        FUZZING_PLACEHOLDER@.len() == 10,
        unbordered(FUZZING_PLACEHOLDER@),
{
    reveal_strlit("%7Bfuzz%7D");
    let pat = FUZZING_PLACEHOLDER@;
    assert forall|n: int| 0 < n < pat.len() implies #[trigger] pat.take(n) != pat.skip(
        pat.len() - n,
    ) by {
        if n == 3 {
            assert(pat.take(n)[2] != pat.skip(pat.len() - n)[2]);
        } else {
            assert(pat.take(n)[0] != pat.skip(pat.len() - n)[0]);
        }
    }
}

/// The values that leave no placeholder behind in any template are exactly
/// those that do not clash with the placeholder.
pub proof fn lemma_values_that_leave_no_placeholder(value: Seq<char>)
    ensures
        !clashes(value, FUZZING_PLACEHOLDER@) <==> forall|text: Seq<char>|
            !contains(
                #[trigger] replace_all(text, FUZZING_PLACEHOLDER@, value),
                FUZZING_PLACEHOLDER@,
            ),
{
    lemma_placeholder_unbordered();
    let pat = FUZZING_PLACEHOLDER@;
    if clashes(value, pat) {
        lemma_clash_leaves_some(pat, value);
    } else {
        assert forall|text: Seq<char>| !contains(#[trigger] replace_all(text, pat, value), pat) by {
            lemma_replace_all_leaves_none(text, pat, value);
        }
    }
}

/// The URL template of an endpoint under the input's host and base path.
pub open spec fn template_of(input: FuzzyInputView, path: PathView) -> Result<
    TargetUrlView,
    Seq<char>,
> {
    url_template(input.host, input.base_path, path.endpoint, path.query_parameters)
}

/// What a request holds.
pub struct RequestView {
    pub target: FuzzedUrlView,
    pub expected_status: u16,
    pub headers: Seq<(Seq<char>, Seq<char>)>,
}

/// One request to issue: where it goes, what it carries, and the status
/// that counts as a success.
#[derive(Clone, Debug)]
pub struct FuzzRequest {
    target: FuzzedUrl,
    expected_status: u16,
    headers: Vec<(String, String)>,
}

impl View for FuzzRequest {
    type V = RequestView;

    closed spec fn view(&self) -> RequestView {
        RequestView {
            target: self.target@,
            expected_status: self.expected_status,
            headers: pairs(self.headers@),
        }
    }
}

impl FuzzRequest {
    pub fn new(target: FuzzedUrl, expected_status: u16, headers: Vec<(String, String)>) -> (request:
        Self)
        ensures
            request@ == (RequestView {
                target: target@,
                expected_status,
                headers: pairs(headers@),
            }),
    {
        Self { target, expected_status, headers }
    }

    pub fn target(&self) -> (target: &FuzzedUrl)
        ensures
            target@ == self@.target,
    {
        &self.target
    }

    pub fn expected_status(&self) -> (expected_status: u16)
        ensures
            expected_status == self@.expected_status,
    {
        self.expected_status
    }

    pub fn headers(&self) -> (headers: &Vec<(String, String)>)
        ensures
            pairs(headers@) == self@.headers,
    {
        &self.headers
    }

    /// The outcome of this request, given what came back for it.
    pub fn outcome(&self, reply: Result<ResponseSummary, String>) -> (outcome: FuzzingResult)
        ensures
            outcome@ == outcome_of(reply_view(reply), self@.target, self@.expected_status),
    {
        FuzzingResult::expecting(self.expected_status, reply, &self.target)
    }
}

/// The contents of a list of requests.
pub open spec fn request_views(s: Seq<FuzzRequest>) -> Seq<RequestView> {
    Seq::new(s.len(), |i: int| s[i]@)
}

/// What a case makes of an endpoint with the URL template `text`: the
/// request, or the fault that keeps it from being sent.
pub open spec fn request_of(text: Seq<char>, path: PathView, case: FuzzCaseView) -> Result<
    RequestView,
    ConfigErrorView,
> {
    match resolved_headers(path.headers, Some(case.value)) {
        Ok(headers) => Ok(
            RequestView {
                target: fuzzed(text, case),
                expected_status: path.expected_status,
                headers,
            },
        ),
        Err(fault) => Err(fault),
    }
}

/// The requests that the cases make of an endpoint, in the order of the
/// cases, without those that cannot be sent.
pub open spec fn sendable(text: Seq<char>, path: PathView, cases: Seq<FuzzCaseView>) -> Seq<
    RequestView,
>
    decreases cases.len(),
{
    if cases.len() == 0 {
        Seq::empty()
    } else {
        match request_of(text, path, cases.last()) {
            Ok(request) => sendable(text, path, cases.drop_last()).push(request),
            Err(_) => sendable(text, path, cases.drop_last()),
        }
    }
}

/// The faults of the requests that cannot be sent, in the order of the
/// cases.
pub open spec fn unsendable(text: Seq<char>, path: PathView, cases: Seq<FuzzCaseView>) -> Seq<
    ConfigErrorView,
>
    decreases cases.len(),
{
    if cases.len() == 0 {
        Seq::empty()
    } else {
        match request_of(text, path, cases.last()) {
            Ok(_) => unsendable(text, path, cases.drop_last()),
            Err(fault) => unsendable(text, path, cases.drop_last()).push(fault),
        }
    }
}

/// What is planned for an endpoint: the requests to issue, and the faults
/// that were found.
pub struct PlanView {
    pub requests: Seq<RequestView>,
    pub faults: Seq<ConfigErrorView>,
}

/// The contents of a plan.
pub open spec fn plan_view(plan: (Vec<FuzzRequest>, Vec<ConfigError>)) -> PlanView {
    PlanView { requests: request_views(plan.0@), faults: fault_views(plan.1@) }
}

/// The plan for an endpoint with the URL template `text`. Where the method
/// is `GET`, every case gives a request or a fault; for any other method
/// nothing is issued and nothing reported.
pub open spec fn target_plan(
    text: Seq<char>,
    path: PathView,
    dictionary: Seq<FuzzyDataView>,
) -> PlanView {
    if path.method == HttpMethod::GET {
        PlanView {
            requests: sendable(text, path, cases(dictionary)),
            faults: unsendable(text, path, cases(dictionary)),
        }
    } else {
        PlanView { requests: Seq::empty(), faults: Seq::empty() }
    }
}

/// The plan for an endpoint of `input`: that of its URL template, or no
/// request and the one fault that the template is malformed, with the
/// message of the URL parser.
pub open spec fn path_plan(
    input: FuzzyInputView,
    path: PathView,
    dictionary: Seq<FuzzyDataView>,
) -> PlanView {
    match template_of(input, path) {
        Ok(url) => target_plan(url.text, path, dictionary),
        Err(message) => PlanView {
            requests: Seq::empty(),
            faults: seq![ConfigErrorView::MalformedUrl(message)],
        },
    }
}

/// Every case of a `GET` endpoint gives one request or one fault.
pub proof fn lemma_every_case_is_planned(
    text: Seq<char>,
    path: PathView,
    cases: Seq<FuzzCaseView>,
)
    ensures
        sendable(text, path, cases).len() + unsendable(text, path, cases).len() == cases.len(),
    decreases cases.len(),
{
    if cases.len() > 0 {
        lemma_every_case_is_planned(text, path, cases.drop_last());
    }
}

/// Where no header of an endpoint has a fault, its requests go to the
/// concrete targets of its expansion, one to each, in their order.
pub proof fn lemma_requests_follow_expansion(
    text: Seq<char>,
    path: PathView,
    dictionary: Seq<FuzzyDataView>,
)
    requires
        path.method == HttpMethod::GET,
        target_plan(text, path, dictionary).faults.len() == 0,
    ensures
        target_plan(text, path, dictionary).requests.len() == expansion(text, dictionary).len(),
        forall|k: int|
            0 <= k < expansion(text, dictionary).len() ==> (#[trigger] target_plan(
                text,
                path,
                dictionary,
            ).requests[k]).target == expansion(text, dictionary)[k],
{
    lemma_sendable_targets(text, path, cases(dictionary));
}

proof fn lemma_sendable_targets(text: Seq<char>, path: PathView, cases: Seq<FuzzCaseView>)
    requires
        unsendable(text, path, cases).len() == 0,
    ensures
        sendable(text, path, cases).len() == cases.len(),
        forall|k: int|
            0 <= k < cases.len() ==> (#[trigger] sendable(text, path, cases)[k]).target == fuzzed(
                text,
                cases[k],
            ),
    decreases cases.len(),
{
    if cases.len() > 0 {
        lemma_sendable_targets(text, path, cases.drop_last());
    }
}

/// The contents of what `Fuzzer::expand` returns.
pub open spec fn expansion_result(r: Result<Vec<FuzzedUrl>, UrlError>) -> Result<
    Seq<FuzzedUrlView>,
    Seq<char>,
> {
    match r {
        Ok(urls) => Ok(fuzzed_urls(urls@)),
        Err(error) => Err(error@),
    }
}

/// The concrete target that `case` makes of the template `text`.
pub fn fuzzed_url(text: &Vec<char>, case: &FuzzCase) -> (target: FuzzedUrl)
    ensures
        target@ == fuzzed(text@, case@),
{
    let url = replace_chars(text, &to_chars(FUZZING_PLACEHOLDER), &to_chars(case.value().as_str()));
    FuzzedUrl { url: to_text(&url), description: case.description().clone(), id: case.id().clone() }
}

/// The requests of the first `n` endpoints of `input`, endpoint after
/// endpoint.
pub open spec fn planned_requests(
    input: FuzzyInputView,
    dictionary: Seq<FuzzyDataView>,
    n: int,
) -> Seq<RequestView>
    decreases n,
{
    if n <= 0 {
        Seq::empty()
    } else {
        planned_requests(input, dictionary, n - 1) + path_plan(
            input,
            input.paths[n - 1],
            dictionary,
        ).requests
    }
}

/// Where host and base path give a malformed URL template with every one of
/// the first `n` endpoints, nothing is issued for them, and each endpoint
/// has its one fault.
pub proof fn lemma_nothing_runs_on_malformed_templates(
    input: FuzzyInputView,
    dictionary: Seq<FuzzyDataView>,
    n: int,
)
    requires
        0 <= n <= input.paths.len(),
        forall|i: int| 0 <= i < n ==> (#[trigger] template_of(input, input.paths[i])) is Err,
    ensures
        planned_requests(input, dictionary, n).len() == 0,
        planned_errors(input, dictionary, n).len() == n,
    decreases n,
{
    if n > 0 {
        lemma_nothing_runs_on_malformed_templates(input, dictionary, n - 1);
        assert(template_of(input, input.paths[n - 1]) is Err);
    }
}

/// The faults, each with the index `index` of its endpoint.
pub open spec fn tagged(index: usize, faults: Seq<ConfigErrorView>) -> Seq<
    (usize, ConfigErrorView),
> {
    Seq::new(faults.len(), |k: int| (index, faults[k]))
}

/// The faults of the first `n` endpoints of `input`, each with the index of
/// its endpoint, endpoint after endpoint.
pub open spec fn planned_errors(
    input: FuzzyInputView,
    dictionary: Seq<FuzzyDataView>,
    n: int,
) -> Seq<(usize, ConfigErrorView)>
    decreases n,
{
    if n <= 0 {
        Seq::empty()
    } else {
        planned_errors(input, dictionary, n - 1) + tagged(
            (n - 1) as usize,
            path_plan(input, input.paths[n - 1], dictionary).faults,
        )
    }
}

/// The contents of a list of endpoint faults.
pub open spec fn error_views(s: Seq<(usize, ConfigError)>) -> Seq<(usize, ConfigErrorView)> {
    Seq::new(s.len(), |i: int| (s[i].0, s[i].1@))
}

/// Puts `faults` behind `errors`, each with the index `index` of its
/// endpoint.
fn tag_faults(index: usize, faults: Vec<ConfigError>, errors: &mut Vec<(usize, ConfigError)>)
    ensures
        error_views(final(errors)@) == error_views(old(errors)@) + tagged(
            index,
            fault_views(faults@),
        ),
{
    let ghost given = error_views(errors@);
    assert(given + tagged(index, fault_views(faults@)).take(0) =~= given);
    for fault in it: faults
        invariant
            error_views(errors@) == given + tagged(index, fault_views(it.seq())).take(
                it.index() as int,
            ),
    {
        let ghost before = error_views(errors@);
        errors.push((index, fault));
        proof {
            let all = tagged(index, fault_views(it.seq()));
            assert(all.take(it.index() + 1) =~= all.take(it.index() as int).push(
                all[it.index() as int],
            ));
            assert(error_views(errors@) =~= before.push((index, fault@)));
        }
    }
    proof {
        let all = tagged(index, fault_views(faults@));
        assert(all.take(all.len() as int) =~= all);
    }
}

/// `answer` is what `transport` gave for a request that reads as `request`.
pub open spec fn answer_to<T: Fn(&FuzzRequest) -> Result<ResponseSummary, String>>(
    transport: T,
    request: RequestView,
    answer: Result<ResponseSummary, String>,
) -> bool {
    exists|sent: FuzzRequest|
        sent@ == request && #[trigger] call_ensures(transport, (&sent,), answer)
}

/// `outcome` is the outcome of `request` for an answer that `transport`
/// gave for it.
pub open spec fn outcome_to<T: Fn(&FuzzRequest) -> Result<ResponseSummary, String>>(
    transport: T,
    request: RequestView,
    outcome: OutcomeView,
) -> bool {
    exists|answer: Result<ResponseSummary, String>|
        #[trigger] answer_to(transport, request, answer) && outcome == outcome_of(
            reply_view(answer),
            request.target,
            request.expected_status,
        )
}

/// There is one outcome for each request, in the order of the requests, and
/// it is the outcome for an answer that `transport` gave for that request.
pub open spec fn answered_by<T: Fn(&FuzzRequest) -> Result<ResponseSummary, String>>(
    transport: T,
    requests: Seq<RequestView>,
    outcomes: Seq<FuzzingResult>,
) -> bool {
    &&& outcomes.len() == requests.len()
    &&& forall|k: int|
        0 <= k < outcomes.len() ==> outcome_to(transport, requests[k], (#[trigger] outcomes[k])@)
}

/// The most requests that are in flight at once where `queued` requests are
/// issued as early as a limit of `limit` allows: all of them, or as many as
/// the limit.
pub open spec fn most_in_flight(limit: nat, queued: nat) -> nat {
    if queued <= limit {
        queued
    } else {
        limit
    }
}

/// What a run gave.
#[derive(Debug)]
pub struct FuzzRun {
    /// The outcome of every request, in the order in which they were issued.
    pub outcomes: Vec<FuzzingResult>,
    /// The faults that were found, each with the index of its endpoint.
    pub faults: Vec<(usize, ConfigError)>,
    /// The most requests that were in flight at once.
    pub peak_in_flight: usize,
}

/// The engine's dispatcher: it expands targets into requests, queues them,
/// and decides when each may be issued so that no more than `limit` are in
/// flight at once.
#[derive(Debug)]
pub struct Fuzzer {
    limit: usize,
    queue: Vec<FuzzRequest>,
    issued: usize,
    completed: usize,
}

impl View for Fuzzer {
    type V = FuzzerView;

    closed spec fn view(&self) -> FuzzerView {
        FuzzerView {
            limit: self.limit as nat,
            queue: request_views(self.queue@),
            issued: self.issued as nat,
            completed: self.completed as nat,
        }
    }
}

impl Fuzzer {
    #[verifier::type_invariant]
    spec fn always_well_formed(self) -> bool {
        self@.well_formed()
    }

    /// A dispatcher with an empty queue that allows
    /// `num_of_concurrent_requests` requests in flight.
    pub fn new(num_of_concurrent_requests: usize) -> (fuzzer: Self)
        ensures
            fuzzer@ == (FuzzerView {
                limit: num_of_concurrent_requests as nat,
                queue: Seq::empty(),
                issued: 0,
                completed: 0,
            }),
            fuzzer@.well_formed(),
    {
        let fuzzer = Fuzzer {
            limit: num_of_concurrent_requests,
            queue: Vec::new(),
            issued: 0,
            completed: 0,
        };
        assert(fuzzer@.queue =~= Seq::empty());
        fuzzer
    }

    /// The URL template of `path` under the input's host and base path.
    pub fn generate_url(&self, input_data: &FuzzyInput, path: &Path) -> (r: Result<
        TargetUrl,
        UrlError,
    >)
        ensures
            parsed(r) == template_of(input_data@, path@),
    {
        path.to_url(input_data.host(), input_data.base_path())
    }

    /// The concrete targets of the URL template `url` under `dict`.
    pub fn generate_fuzzed_urls(&self, url: &TargetUrl, dict: &FuzzyDictionary) -> (fuzzed_urls:
        Vec<FuzzedUrl>)
        ensures
            self::fuzzed_urls(fuzzed_urls@) == expansion(url@.text, dict@),
            fuzzed_urls@.len() == total_values(dict@),
    {
        let text = to_chars(url.as_str());
        let all = dict.cases();
        let mut fuzzed_urls: Vec<FuzzedUrl> = Vec::new();
        let mut k: usize = 0;
        while k < all.len()
            invariant
                k <= all.len(),
                text@ == url@.text,
                case_views(all@) == cases(dict@),
                self::fuzzed_urls(fuzzed_urls@) == expansion(url@.text, dict@).take(k as int),
            decreases all.len() - k,
        {
            let ghost before = self::fuzzed_urls(fuzzed_urls@);
            fuzzed_urls.push(fuzzed_url(&text, &all[k]));
            proof {
                let whole = expansion(url@.text, dict@);
                assert(case_views(all@)[k as int] == all@[k as int]@);
                assert(whole.take(k + 1) =~= whole.take(k as int).push(whole[k as int]));
                assert(self::fuzzed_urls(fuzzed_urls@) =~= before.push(fuzzed_urls@.last()@));
            }
            k += 1;
        }
        proof {
            assert(case_views(all@).len() == all@.len());
            assert(expansion(url@.text, dict@).take(k as int) =~= expansion(url@.text, dict@));
        }
        fuzzed_urls
    }

    /// The concrete targets of `path`: its URL template with each value of
    /// the dictionary in place, or the error that the template gave.
    pub fn expand(&self, input_data: &FuzzyInput, path: &Path, dict: &FuzzyDictionary) -> (r:
        Result<Vec<FuzzedUrl>, UrlError>)
        ensures
            expansion_result(r) == match template_of(input_data@, path@) {
                Ok(url) => Ok(expansion(url.text, dict@)),
                Err(message) => Err(message),
            },
            r matches Ok(urls) ==> urls@.len() == total_values(dict@),
    {
        match self.generate_url(input_data, path) {
            Ok(url) => Ok(self.generate_fuzzed_urls(&url, dict)),
            Err(error) => Err(error),
        }
    }

    /// The plan for `path`, whose URL template is `url`: where the method is
    /// `GET`, a request for each concrete target that can be sent, and the
    /// fault of each that cannot; nothing otherwise.
    pub fn requests_for(&self, url: &TargetUrl, path: &Path, dict: &FuzzyDictionary) -> (plan: (
        Vec<FuzzRequest>,
        Vec<ConfigError>,
    ))
        ensures
            plan_view(plan) == target_plan(url@.text, path@, dict@),
    {
        let mut requests: Vec<FuzzRequest> = Vec::new();
        let mut faults: Vec<ConfigError> = Vec::new();
        if *path.method() != HttpMethod::GET {
            assert(request_views(requests@) =~= Seq::empty());
            assert(fault_views(faults@) =~= Seq::empty());
            return (requests, faults);
        }
        let text = to_chars(url.as_str());
        let all = dict.cases();
        let mut k: usize = 0;
        assert(request_views(requests@) =~= Seq::empty());
        assert(fault_views(faults@) =~= Seq::empty());
        while k < all.len()
            invariant
                k <= all.len(),
                text@ == url@.text,
                case_views(all@) == cases(dict@),
                request_views(requests@) == sendable(url@.text, path@, cases(dict@).take(k as int)),
                fault_views(faults@) == unsendable(url@.text, path@, cases(dict@).take(k as int)),
            decreases all.len() - k,
        {
            let ghost queued = request_views(requests@);
            let ghost found = fault_views(faults@);
            let case = &all[k];
            proof {
                let whole = cases(dict@);
                assert(case_views(all@)[k as int] == case@);
                assert(whole.take(k + 1).drop_last() =~= whole.take(k as int));
                assert(whole.take(k + 1).last() == case@);
            }
            match resolve_headers(path.headers(), Some(case.value())) {
                Ok(headers) => {
                    requests.push(
                        FuzzRequest {
                            target: fuzzed_url(&text, case),
                            expected_status: *path.expected_status(),
                            headers,
                        },
                    );
                    assert(request_views(requests@) =~= queued.push(requests@.last()@));
                },
                Err(fault) => {
                    faults.push(fault);
                    assert(fault_views(faults@) =~= found.push(fault@));
                },
            }
            k += 1;
        }
        proof {
            assert(case_views(all@).len() == all@.len());
            assert(cases(dict@).take(k as int) =~= cases(dict@));
        }
        (requests, faults)
    }

    /// The plan for `path`: that of its URL template, or no request and the
    /// fault that the template is malformed.
    pub fn requests(&self, input_data: &FuzzyInput, path: &Path, dict: &FuzzyDictionary) -> (plan:
        (Vec<FuzzRequest>, Vec<ConfigError>))
        ensures
            plan_view(plan) == path_plan(input_data@, path@, dict@),
    {
        match self.generate_url(input_data, path) {
            Ok(url) => self.requests_for(&url, path, dict),
            Err(error) => {
                let requests: Vec<FuzzRequest> = Vec::new();
                let mut faults: Vec<ConfigError> = Vec::new();
                faults.push(ConfigError::MalformedUrl(error));
                assert(request_views(requests@) =~= Seq::empty());
                assert(fault_views(faults@) =~= seq![ConfigErrorView::MalformedUrl(error@)]);
                (requests, faults)
            },
        }
    }

    /// Runs a dispatcher of its own, with the limit of this one, over every
    /// endpoint of `input_data`: the requests are handed to `transport` as
    /// the dispatcher issues them, each answer is taken where the dispatcher
    /// waits, in the order of issue, and becomes the outcome of its request.
    /// Returns when nothing is in flight and nothing more can be issued:
    /// with a limit of at least one that is when every request has its
    /// outcome, with a limit of zero at once, with nothing issued.
    pub fn fuzz<T: Fn(&FuzzRequest) -> Result<ResponseSummary, String>>(
        &self,
        input_data: &FuzzyInput,
        dict: &FuzzyDictionary,
        transport: T,
    ) -> (run: FuzzRun)
        requires
            forall|request: &FuzzRequest| call_requires(transport, (request,)),
        ensures
            error_views(run.faults@) == planned_errors(
                input_data@,
                dict@,
                input_data@.paths.len() as int,
            ),
            run.peak_in_flight <= self@.limit,
            run.peak_in_flight == most_in_flight(
                self@.limit,
                planned_requests(input_data@, dict@, input_data@.paths.len() as int).len(),
            ),
            self@.limit == 0 ==> run.outcomes@.len() == 0,
            self@.limit >= 1 ==> answered_by(
                transport,
                planned_requests(input_data@, dict@, input_data@.paths.len() as int),
                run.outcomes@,
            ),
    {
        let mut dispatcher = Fuzzer::new(self.limit);
        let faults = dispatcher.plan(input_data, dict);
        let ghost requests = dispatcher@.queue;
        assert(requests =~= planned_requests(
            input_data@,
            dict@,
            input_data@.paths.len() as int,
        ));
        let mut outcomes: Vec<FuzzingResult> = Vec::new();
        let mut answers: Vec<Result<ResponseSummary, String>> = Vec::new();
        let mut peak_in_flight: usize = 0;
        let mut finished = false;
        while !finished
            invariant
                dispatcher@.well_formed(),
                dispatcher@.queue == requests,
                dispatcher@.limit == self@.limit,
                forall|request: &FuzzRequest| call_requires(transport, (request,)),
                peak_in_flight == most_in_flight(self@.limit, dispatcher@.issued),
                dispatcher@.completed > 0 ==> dispatcher@.issued >= self@.limit
                    || dispatcher@.issued == requests.len(),
                self@.limit == 0 ==> dispatcher@.issued == 0,
                answers@.len() == dispatcher@.in_flight(),
                outcomes@.len() == dispatcher@.completed,
                forall|m: int|
                    0 <= m < answers@.len() ==> answer_to(
                        transport,
                        requests[dispatcher@.completed + m],
                        #[trigger] answers@[m],
                    ),
                forall|k: int|
                    0 <= k < outcomes@.len() ==> outcome_to(
                        transport,
                        requests[k],
                        (#[trigger] outcomes@[k])@,
                    ),
                finished ==> dispatcher@.decision() is Finished,
            decreases
                    2 * requests.len() - dispatcher@.issued - dispatcher@.completed + if finished {
                        0int
                    } else {
                        1int
                    },
        {
            match dispatcher.next_step() {
                Step::Issue(index) => {
                    let request = match dispatcher.request(index) {
                        Some(request) => request,
                        None => unreached(),
                    };
                    let answer = transport(request);
                    assert(answer_to(transport, requests[index as int], answer));
                    answers.push(answer);
                    let in_flight = dispatcher.in_flight();
                    if in_flight > peak_in_flight {
                        peak_in_flight = in_flight;
                    }
                },
                Step::Wait => {
                    let oldest = dispatcher.completed();
                    let answer = answers.remove(0);
                    let ghost told = answer;
                    let request = match dispatcher.request(oldest) {
                        Some(request) => request,
                        None => unreached(),
                    };
                    let outcome = request.outcome(answer);
                    assert(answer_to(transport, requests[oldest as int], told));
                    outcomes.push(outcome);
                    dispatcher.complete();
                },
                Step::Finished => {
                    finished = true;
                },
            }
        }
        proof {
            if self@.limit >= 1 {
                lemma_finished_means_all_done(dispatcher@);
            }
        }
        FuzzRun { outcomes, faults, peak_in_flight }
    }

    /// How many requests may be in flight at once.
    pub fn limit(&self) -> (limit: usize)
        ensures
            limit == self@.limit,
    {
        self.limit
    }

    /// How many requests are queued, issued or not.
    pub fn queued(&self) -> (queued: usize)
        ensures
            queued == self@.queue.len(),
    {
        self.queue.len()
    }

    /// How many requests were issued and have not completed: never more
    /// than the limit.
    pub fn in_flight(&self) -> (in_flight: usize)
        ensures
            in_flight == self@.in_flight(),
            in_flight <= self@.limit,
            self@.well_formed(),
    {
        proof {
            use_type_invariant(self);
        }
        self.issued - self.completed
    }

    /// How many requests have completed.
    pub fn completed(&self) -> (completed: usize)
        ensures
            completed == self@.completed,
    {
        self.completed
    }

    /// The queued request at `index`, if there is one.
    pub fn request(&self, index: usize) -> (request: Option<&FuzzRequest>)
        ensures
            request is Some <==> index < self@.queue.len(),
            request matches Some(found) ==> found@ == self@.queue[index as int],
    {
        if index < self.queue.len() {
            Some(&self.queue[index])
        } else {
            None
        }
    }

    /// Puts `requests` at the end of the queue.
    pub fn enqueue(&mut self, requests: Vec<FuzzRequest>)
        ensures
            final(self)@ == (FuzzerView {
                queue: old(self)@.queue + request_views(requests@),
                ..old(self)@
            }),
            final(self)@.well_formed(),
    {
        proof {
            use_type_invariant(&*self);
        }
        let mut requests = requests;
        let ghost added = requests@;
        let mut before = Fuzzer::new(0);
        std::mem::swap(self, &mut before);
        let Fuzzer { limit, mut queue, issued, completed } = before;
        queue.append(&mut requests);
        assert(request_views(queue@) =~= old(self)@.queue + request_views(added));
        *self = Fuzzer { limit, queue, issued, completed };
    }

    /// Queues the requests of every endpoint of `input_data`, endpoint after
    /// endpoint, and returns the faults that were found, each with the
    /// index of its endpoint. A fault keeps the requests that it concerns
    /// out of the queue, and no others.
    pub fn plan(&mut self, input_data: &FuzzyInput, dict: &FuzzyDictionary) -> (errors: Vec<
        (usize, ConfigError),
    >)
        ensures
            final(self)@ == (FuzzerView {
                queue: old(self)@.queue + planned_requests(
                    input_data@,
                    dict@,
                    input_data@.paths.len() as int,
                ),
                ..old(self)@
            }),
            error_views(errors@) == planned_errors(
                input_data@,
                dict@,
                input_data@.paths.len() as int,
            ),
            final(self)@.well_formed(),
    {
        proof {
            use_type_invariant(&*self);
        }
        let paths = input_data.paths();
        let mut errors: Vec<(usize, ConfigError)> = Vec::new();
        let mut i: usize = 0;
        assert(old(self)@.queue + planned_requests(input_data@, dict@, 0) =~= old(self)@.queue);
        assert(error_views(errors@) =~= Seq::empty());
        while i < paths.len()
            invariant
                i <= paths.len(),
                path_views(paths@) == input_data@.paths,
                self@ == (FuzzerView {
                    queue: old(self)@.queue + planned_requests(input_data@, dict@, i as int),
                    ..old(self)@
                }),
                error_views(errors@) == planned_errors(input_data@, dict@, i as int),
                self@.well_formed(),
            decreases paths.len() - i,
        {
            let path = &paths[i];
            assert(input_data@.paths[i as int] == path@);
            let (requests, faults) = self.requests(input_data, path, dict);
            self.enqueue(requests);
            tag_faults(i, faults, &mut errors);
            assert(self@.queue =~= old(self)@.queue + planned_requests(input_data@, dict@, i + 1));
            i += 1;
        }
        errors
    }

    /// Decides what to do next; where that is to issue a request, the
    /// request counts as in flight from now on.
    pub fn next_step(&mut self) -> (step: Step)
        ensures
            step == old(self)@.decision(),
            final(self)@ == old(self)@.stepped(),
            final(self)@.well_formed(),
    {
        proof {
            use_type_invariant(&*self);
        }
        if self.issued < self.queue.len() && self.issued - self.completed < self.limit {
            let index = self.issued;
            self.issued = self.issued + 1;
            Step::Issue(index)
        } else if self.issued - self.completed > 0 {
            Step::Wait
        } else {
            Step::Finished
        }
    }

    /// Takes note that one request in flight has completed. Returns whether
    /// there was one; without one nothing changes.
    pub fn complete(&mut self) -> (noted: bool)
        ensures
            noted == (old(self)@.in_flight() > 0),
            final(self)@ == old(self)@.completed_one(),
            final(self)@.well_formed(),
    {
        proof {
            use_type_invariant(&*self);
        }
        if self.issued - self.completed > 0 {
            self.completed = self.completed + 1;
            true
        } else {
            false
        }
    }
}

} // verus!
