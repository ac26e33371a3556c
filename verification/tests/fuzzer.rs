use fuzzy::domain::dictionary::{FuzzCase, FuzzyData, FuzzyDictionary};
use fuzzy::domain::input::{FuzzyInput, HeaderParameter, HttpMethod, Path, QueryParameter};
use fuzzy::domain::target_url::{TargetUrl, MAX_URL_CHARS};
use fuzzy::fuzzer::dispatch::Step;
use fuzzy::fuzzer::fuzzy::{
    fuzzed_url, FuzzRequest, FuzzedUrl, Fuzzer, FuzzingFailure, FuzzingResult, ResponseSummary,
};
use fuzzy::fuzzer::headers::{resolve_headers, ConfigError};
use fuzzy::fuzzer::metrics::{labelled, Metrics};
use fuzzy::fuzzer::result_aggregator::{CountersFull, ResultAggregator};

fn s(text: &str) -> String {
    text.to_string()
}

fn get_path(endpoint: &str, query_parameters: Vec<QueryParameter>) -> Path {
    Path::new(s(endpoint), HttpMethod::GET, 200, vec![], s(""), query_parameters, vec![], s(""))
}

fn small_dictionary() -> FuzzyDictionary {
    FuzzyDictionary::new(vec![FuzzyData::new(s("1"), s("d"), vec![s("a"), s("b")])])
}

fn sample_url() -> FuzzedUrl {
    FuzzedUrl::new(s("http://test.com/test"), s("test"), s("test"))
}

fn sample_fuzzing_success_result() -> FuzzingResult {
    FuzzingResult::Success(sample_url())
}

fn sample_fuzzing_failure_result() -> FuzzingResult {
    FuzzingResult::Failure(sample_url(), FuzzingFailure::new(None, None, None))
}

#[test]
fn fuzzed_url_creation() {
    let url = FuzzedUrl::new("https://example.com".into(), "desc".into(), "id".into());
    assert_eq!(url.url(), "https://example.com");
    assert_eq!(url.description(), "desc");
    assert_eq!(url.id(), "id");
}

#[test]
fn fuzzing_failure_equality() {
    let failure_1 = FuzzingFailure::new(None, Some(404), None);
    let failure_2 = FuzzingFailure::new(None, Some(404), None);
    let failure_3 = FuzzingFailure::new(None, Some(500), None);

    assert_eq!(failure_1, failure_2);
    assert_ne!(failure_1, failure_3);
}

#[test]
fn failures_are_alike_whatever_the_texts_say() {
    let a = FuzzingFailure::new(Some(s("timeout")), None, Some(s("x")));
    let b = FuzzingFailure::new(Some(s("refused")), None, Some(s("y")));
    let c = FuzzingFailure::new(None, None, Some(s("x")));
    let d = FuzzingFailure::new(Some(s("timeout")), None, None);
    assert_eq!(a, b);
    assert_ne!(a, c);
    assert_ne!(a, d);
    assert_ne!(FuzzingFailure::new(None, Some(1), None), FuzzingFailure::new(None, None, None));
}

#[test]
fn test_generate_url() {
    let fuzzer = Fuzzer::new(1);
    let input_data = FuzzyInput::new("https://example.com".into(), "/base/path".into(), vec![]);
    let path = Path::new(
        "/test".into(),
        HttpMethod::GET,
        200,
        vec![],
        "".into(),
        vec![],
        vec![],
        "".into(),
    );

    let generated_url = fuzzer.generate_url(&input_data, &path);
    assert!(generated_url.is_ok());

    let actual_generated_url = generated_url.unwrap();
    assert!(actual_generated_url.has_host());
    assert_eq!(actual_generated_url.as_str(), "https://example.com/base/path/test?");
}

#[test]
fn test_generate_url_with_query_params() {
    let fuzzer = Fuzzer::new(1);
    let input_data = FuzzyInput::new("https://example.com".into(), "/base/path".into(), vec![]);
    let query_param_1 = QueryParameter::new("q1".into(), false, Option::Some("val1".into()));
    let query_param_2 = QueryParameter::new("q2".into(), false, Option::Some("val2".into()));
    let path = Path::new(
        "/test".into(),
        HttpMethod::GET,
        200,
        vec![],
        "".into(),
        vec![query_param_1, query_param_2],
        vec![],
        "".into(),
    );

    let generated_url = fuzzer.generate_url(&input_data, &path);
    assert!(generated_url.is_ok());

    let actual_generated_url = generated_url.unwrap();
    assert!(actual_generated_url.has_host());
    assert_eq!(
        actual_generated_url.as_str(),
        "https://example.com/base/path/test?q1=val1&q2=val2"
    );
}

#[test]
fn test_generate_url_with_fuzzed_query_param_values() {
    let fuzzer = Fuzzer::new(1);
    let input_data = FuzzyInput::new("https://example.com".into(), "/base/path".into(), vec![]);
    let query_param_1 = QueryParameter::new("q1".into(), false, Option::Some("val1".into()));
    let query_param_2 = QueryParameter::new("q2".into(), true, Option::None);
    let path = Path::new(
        "/test".into(),
        HttpMethod::GET,
        200,
        vec![],
        "".into(),
        vec![query_param_1, query_param_2],
        vec![],
        "".into(),
    );

    let generated_url = fuzzer.generate_url(&input_data, &path);
    assert!(generated_url.is_ok());

    let actual_generated_url = generated_url.unwrap();
    assert!(actual_generated_url.has_host());
    assert_eq!(
        actual_generated_url.as_str(),
        "https://example.com/base/path/test?q1=val1&q2=%7Bfuzz%7D"
    );
}

#[test]
fn expansion_of_one_fuzzed_parameter_over_two_values() {
    let fuzzer = Fuzzer::new(10);
    let input = FuzzyInput::new(s("http://example.com"), s("/api"), vec![]);
    let path = get_path("/test", vec![QueryParameter::new(s("q"), true, None)]);
    let urls = fuzzer.expand(&input, &path, &small_dictionary()).unwrap();
    let seen: Vec<&str> = urls.iter().map(|u| u.url().as_str()).collect();
    assert_eq!(seen, vec!["http://example.com/api/test?q=a", "http://example.com/api/test?q=b"]);
    assert_eq!(urls[0].id(), "1");
    assert_eq!(urls[0].description(), "d");
    assert_eq!(urls[1].id(), "1");
    assert_eq!(urls[1].description(), "d");
}

#[test]
fn expansion_has_one_target_for_each_value() {
    let fuzzer = Fuzzer::new(1);
    let dict = FuzzyDictionary::new(vec![
        FuzzyData::new(s("a"), s("three"), vec![s("1"), s("2"), s("3")]),
        FuzzyData::new(s("b"), s("none"), vec![]),
        FuzzyData::new(s("c"), s("two"), vec![s("4"), s("5")]),
    ]);
    let url = TargetUrl::new(s("http://h/p?x=%7Bfuzz%7D&y=%7Bfuzz%7D"), true);
    let urls = fuzzer.generate_fuzzed_urls(&url, &dict);
    assert_eq!(urls.len(), 5);
    let seen: Vec<(&str, &str)> =
        urls.iter().map(|u| (u.id().as_str(), u.url().as_str())).collect();
    assert_eq!(
        seen,
        vec![
            ("a", "http://h/p?x=1&y=1"),
            ("a", "http://h/p?x=2&y=2"),
            ("a", "http://h/p?x=3&y=3"),
            ("c", "http://h/p?x=4&y=4"),
            ("c", "http://h/p?x=5&y=5"),
        ]
    );
    for u in &urls {
        assert!(!u.url().contains("%7Bfuzz%7D"));
    }
}

#[test]
fn expansion_is_the_same_every_time() {
    let fuzzer = Fuzzer::new(1);
    let url = TargetUrl::new(s("http://h/?q=%7Bfuzz%7D"), true);
    let first = fuzzer.generate_fuzzed_urls(&url, &small_dictionary());
    let second = fuzzer.generate_fuzzed_urls(&url, &small_dictionary());
    assert_eq!(first, second);
}

#[test]
fn expansion_of_a_template_without_placeholder_repeats_the_url() {
    let fuzzer = Fuzzer::new(1);
    let url = TargetUrl::new(s("http://h/fixed"), true);
    let urls = fuzzer.generate_fuzzed_urls(&url, &small_dictionary());
    assert_eq!(urls.len(), 2);
    assert_eq!(urls[0].url(), "http://h/fixed");
    assert_eq!(urls[1].url(), "http://h/fixed");
}

#[test]
fn expansion_puts_the_value_in_as_it_is() {
    let case = FuzzCase::new(s("i"), s("d"), s("a b&<>"));
    let target = fuzzed_url(&"http://h/?q=%7Bfuzz%7D".chars().collect(), &case);
    assert_eq!(target.url(), "http://h/?q=a b&<>");
    assert_eq!(target.id(), "i");
    assert_eq!(target.description(), "d");
}

#[test]
fn a_value_that_holds_the_placeholder_leaves_it_behind() {
    let case = FuzzCase::new(s("i"), s("d"), s("%7Bfuzz%7D"));
    let target = fuzzed_url(&"http://h/?q=%7Bfuzz%7D".chars().collect(), &case);
    assert_eq!(target.url(), "http://h/?q=%7Bfuzz%7D");
}

#[test]
fn expand_reports_a_malformed_template() {
    let fuzzer = Fuzzer::new(1);
    let input = FuzzyInput::new(s("not a url"), s("/api"), vec![]);
    let error = fuzzer.expand(&input, &get_path("/t", vec![]), &small_dictionary()).unwrap_err();
    assert_eq!(error.message(), "relative URL without a base");
}

#[test]
fn an_unexpected_status_is_a_failure_with_the_status() {
    let path = get_path("/t", vec![]);
    let reply = Ok(ResponseSummary::new(404, s("Response { status: 404 }")));
    let outcome = FuzzingResult::from_reply(reply, &sample_url(), &path);
    assert!(!outcome.is_success());
    match &outcome {
        FuzzingResult::Failure(url, failure) => {
            assert_eq!(url, &sample_url());
            assert_eq!(failure.status_code(), Some(404));
            assert_eq!(failure.network_error(), &None);
            assert_eq!(failure.response(), &Some(s("Response { status: 404 }")));
        }
        FuzzingResult::Success(_) => panic!("a 404 is not the expected 200"),
    }

    let mut aggregator = ResultAggregator::new(Some(s("output.txt")), Metrics::new(0));
    let line = aggregator.process_result(&outcome).unwrap();
    assert_eq!(aggregator.metrics().failed_requests, 1);
    assert_eq!(aggregator.metrics().successful_requests, 0);
    assert_eq!(aggregator.metrics().total_requests, 1);
    assert_eq!(
        line,
        Some(s("id: test, url: http://test.com/test, status_code: Some(404), \
                response: Some(Response { status: 404 }), network_error: None"))
    );
}

#[test]
fn a_network_error_is_a_failure_without_a_status() {
    let path = get_path("/t", vec![]);
    let outcome = FuzzingResult::from_reply(Err(s("connection refused")), &sample_url(), &path);
    match &outcome {
        FuzzingResult::Failure(_, failure) => {
            assert_eq!(failure.status_code(), None);
            assert_eq!(failure.network_error(), &Some(s("connection refused")));
            assert_eq!(failure.response(), &None);
        }
        FuzzingResult::Success(_) => panic!("no answer is no success"),
    }
    let mut aggregator = ResultAggregator::new(None, Metrics::new(0));
    assert_eq!(aggregator.process_result(&outcome), Ok(None));
    assert_eq!(aggregator.metrics().failed_requests, 1);
    assert_eq!(aggregator.metrics().total_requests, 1);
}

#[test]
fn the_expected_status_is_a_success() {
    let path =
        Path::new(s("/t"), HttpMethod::GET, 204, vec![], s(""), vec![], vec![], s(""));
    let outcome =
        FuzzingResult::from_reply(Ok(ResponseSummary::new(204, s("r"))), &sample_url(), &path);
    assert_eq!(outcome, sample_fuzzing_success_result());
    assert!(outcome.is_success());
    let other =
        FuzzingResult::from_reply(Ok(ResponseSummary::new(200, s("r"))), &sample_url(), &path);
    assert!(!other.is_success());
}

#[test]
fn response_summary_getters() {
    let response = ResponseSummary::new(500, s("boom"));
    assert_eq!(response.status_code(), 500);
    assert_eq!(response.text(), "boom");
}

#[test]
fn failure_record_format() {
    let url = FuzzedUrl::new(s("http://h/?q=a"), s("desc"), s("7"));
    assert_eq!(
        FuzzingFailure::new(None, None, None).failure_to_string(url.clone()),
        "id: 7, url: http://h/?q=a, status_code: None, response: None, network_error: None"
    );
    assert_eq!(
        FuzzingFailure::new(Some(s("timed out")), None, None).failure_to_string(url.clone()),
        "id: 7, url: http://h/?q=a, status_code: None, response: None, \
         network_error: Some(timed out)"
    );
    assert_eq!(
        FuzzingFailure::new(None, Some(65535), Some(s(""))).failure_to_string(url),
        "id: 7, url: http://h/?q=a, status_code: Some(65535), response: Some(), \
         network_error: None"
    );
}

#[test]
fn headers_take_the_value_where_fuzzed() {
    let headers = vec![
        HeaderParameter::new(s("Accept"), Some(s("application/json")), false),
        HeaderParameter::new(s("X-Fuzz"), Some(s("unused")), true),
        HeaderParameter::new(s("X-None"), None, false),
        HeaderParameter::new(s("X-Also"), None, true),
    ];
    let resolved = resolve_headers(&headers, Some(&s("v"))).unwrap();
    assert_eq!(
        resolved,
        vec![(s("Accept"), s("application/json")), (s("X-Fuzz"), s("v")), (s("X-Also"), s("v"))]
    );
}

#[test]
fn a_fuzzed_header_without_a_value_is_a_configuration_error() {
    let headers = vec![
        HeaderParameter::new(s("Accept"), Some(s("application/json")), false),
        HeaderParameter::new(s("X-First"), None, true),
        HeaderParameter::new(s("X-Second"), None, true),
    ];
    match resolve_headers(&headers, None) {
        Err(ConfigError::UnresolvedHeader(name)) => assert_eq!(name, "X-First"),
        other => panic!("expected the first fuzzed header, got {:?}", other),
    }
}

#[test]
fn fixed_headers_need_no_value() {
    let headers = vec![HeaderParameter::new(s("Accept"), Some(s("*/*")), false)];
    assert_eq!(resolve_headers(&headers, None).unwrap(), vec![(s("Accept"), s("*/*"))]);
    assert!(resolve_headers(&vec![], None).unwrap().is_empty());
}

fn header_fault(name: &str, value: Option<&str>, fuzz: bool, sent: Option<&str>) -> ConfigError {
    let headers = vec![
        HeaderParameter::new(s("Accept"), Some(s("*/*")), false),
        HeaderParameter::new(s(name), value.map(s), fuzz),
        HeaderParameter::new(s("bad name"), Some(s("later")), false),
    ];
    let sent = sent.map(s);
    resolve_headers(&headers, sent.as_ref()).unwrap_err()
}

#[test]
fn a_header_name_that_cannot_be_sent_is_a_configuration_error() {
    for name in ["", "X Fuzz", "X:Fuzz", "Größe", "a\u{0}b", "(k)", "a/b", "a,b", "a=b", "{a}"] {
        match header_fault(name, Some("v"), false, None) {
            ConfigError::InvalidHeaderName(found) => assert_eq!(found, name),
            other => panic!("expected an invalid name for {:?}, got {:?}", name, other),
        }
    }
}

#[test]
fn header_names_may_hold_every_name_character() {
    let headers = vec![
        HeaderParameter::new(s("!\"#$%&'*+-.^_`|~"), Some(s("1")), false),
        HeaderParameter::new(s("abcxyzABCXYZ0189"), Some(s("2")), false),
    ];
    let resolved = resolve_headers(&headers, None).unwrap();
    assert_eq!(resolved[0], (s("!\"#$%&'*+-.^_`|~"), s("1")));
    assert_eq!(resolved[1], (s("abcxyzABCXYZ0189"), s("2")));
}

#[test]
fn header_names_have_a_longest_length() {
    let longest = "a".repeat(65535);
    let headers = vec![HeaderParameter::new(longest.clone(), Some(s("v")), false)];
    assert_eq!(resolve_headers(&headers, None).unwrap()[0].0, longest);
    let too_long = "a".repeat(65536);
    let headers = vec![HeaderParameter::new(too_long.clone(), Some(s("v")), false)];
    match resolve_headers(&headers, None) {
        Err(ConfigError::InvalidHeaderName(found)) => assert_eq!(found, too_long),
        other => panic!("expected an invalid name, got {:?}", other),
    }
}

#[test]
fn a_header_value_that_cannot_be_sent_is_a_configuration_error() {
    for value in ["a\nb", "\r", "\u{0}", "\u{7f}", "x\u{1f}"] {
        match header_fault("X-Fuzz", None, true, Some(value)) {
            ConfigError::InvalidHeaderValue(found) => assert_eq!(found, "X-Fuzz"),
            other => panic!("expected an invalid value for {:?}, got {:?}", value, other),
        }
        match header_fault("X-Fixed", Some(value), false, Some("fine")) {
            ConfigError::InvalidHeaderValue(found) => assert_eq!(found, "X-Fixed"),
            other => panic!("expected an invalid value for {:?}, got {:?}", value, other),
        }
    }
}

#[test]
fn header_values_may_hold_tabs_spaces_and_what_lies_beyond_ascii() {
    for value in ["", " ", "\t", "a b\tc", "~", "\u{80}", "é", "日本語", "\u{10ffff}"] {
        let headers = vec![HeaderParameter::new(s("X-Fuzz"), None, true)];
        let sent = s(value);
        assert_eq!(resolve_headers(&headers, Some(&sent)).unwrap(), vec![(s("X-Fuzz"), s(value))]);
    }
}

#[test]
fn every_character_is_told_apart_in_names_and_values() {
    let name_characters = "!\"#$%&'*+-.^_`|~";
    for code in (0..0x900u32).chain([0xd7ff, 0xe000, 0xffff, 0x10000, 0x10ffff]) {
        let c = char::from_u32(code).unwrap();
        let text = c.to_string();

        let in_name = c.is_ascii_alphanumeric() || name_characters.contains(c);
        let named = vec![HeaderParameter::new(text.clone(), Some(s("v")), false)];
        assert_eq!(resolve_headers(&named, None).is_ok(), in_name, "name {:?}", c);

        let in_value = c == '\t' || (code >= 32 && code != 127);
        let valued = vec![HeaderParameter::new(s("X"), Some(text.clone()), false)];
        assert_eq!(resolve_headers(&valued, None).is_ok(), in_value, "value {:?}", c);
    }
}

#[test]
fn the_first_header_with_a_fault_is_reported() {
    match header_fault("X-Fuzz", None, true, None) {
        ConfigError::UnresolvedHeader(found) => assert_eq!(found, "X-Fuzz"),
        other => panic!("expected an unresolved header, got {:?}", other),
    }
    match header_fault("X-Fine", Some("v"), false, None) {
        ConfigError::InvalidHeaderName(found) => assert_eq!(found, "bad name"),
        other => panic!("expected the later header, got {:?}", other),
    }
}

#[test]
fn a_header_that_is_left_out_is_not_looked_at() {
    let headers = vec![HeaderParameter::new(s("bad name"), None, false)];
    assert!(resolve_headers(&headers, Some(&s("v"))).unwrap().is_empty());
}

#[test]
fn requests_carry_target_status_and_headers() {
    let fuzzer = Fuzzer::new(2);
    let path = Path::new(
        s("/t"),
        HttpMethod::GET,
        201,
        vec![],
        s(""),
        vec![],
        vec![HeaderParameter::new(s("X-Fuzz"), None, true)],
        s(""),
    );
    let url = TargetUrl::new(s("http://h/t?q=%7Bfuzz%7D"), true);
    let (requests, faults) = fuzzer.requests_for(&url, &path, &small_dictionary());
    assert!(faults.is_empty());
    assert_eq!(requests.len(), 2);
    assert_eq!(requests[0].target().url(), "http://h/t?q=a");
    assert_eq!(requests[0].expected_status(), 201);
    assert_eq!(requests[0].headers(), &vec![(s("X-Fuzz"), s("a"))]);
    assert_eq!(requests[1].target().url(), "http://h/t?q=b");
    assert_eq!(requests[1].headers(), &vec![(s("X-Fuzz"), s("b"))]);
}

#[test]
fn a_value_that_no_header_can_carry_costs_one_request_only() {
    let fuzzer = Fuzzer::new(2);
    let path = Path::new(
        s("/t"),
        HttpMethod::GET,
        200,
        vec![],
        s(""),
        vec![],
        vec![HeaderParameter::new(s("X-Fuzz"), None, true)],
        s(""),
    );
    let dict = FuzzyDictionary::new(vec![FuzzyData::new(
        s("1"),
        s("d"),
        vec![s("a"), s("line\nbreak"), s("c"), s("\u{0}")],
    )]);
    let url = TargetUrl::new(s("http://h/t?q=%7Bfuzz%7D"), true);
    let (requests, faults) = fuzzer.requests_for(&url, &path, &dict);
    let sent: Vec<&str> = requests.iter().map(|r| r.target().url().as_str()).collect();
    assert_eq!(sent, vec!["http://h/t?q=a", "http://h/t?q=c"]);
    assert_eq!(faults.len(), 2);
    for fault in &faults {
        match fault {
            ConfigError::InvalidHeaderValue(name) => assert_eq!(name, "X-Fuzz"),
            other => panic!("expected an invalid value, got {:?}", other),
        }
    }

    let mut fuzzer = Fuzzer::new(2);
    let input = FuzzyInput::new(
        s("http://h"),
        s(""),
        vec![get_path("/plain", vec![QueryParameter::new(s("q"), true, None)]), path],
    );
    let errors = fuzzer.plan(&input, &dict);
    assert_eq!(fuzzer.queued(), 6);
    assert_eq!(errors.len(), 2);
    assert_eq!(errors[0].0, 1);
    assert_eq!(errors[1].0, 1);
}

#[test]
fn only_get_is_dispatched() {
    let fuzzer = Fuzzer::new(2);
    let url = TargetUrl::new(s("http://h/t?q=%7Bfuzz%7D"), true);
    for method in [
        HttpMethod::POST,
        HttpMethod::PUT,
        HttpMethod::PATCH,
        HttpMethod::DELETE,
        HttpMethod::HEAD,
        HttpMethod::OPTIONS,
    ] {
        let bad_header = HeaderParameter::new(s("bad name"), Some(s("v")), false);
        let path =
            Path::new(s("/t"), method, 200, vec![], s(""), vec![], vec![bad_header], s(""));
        let (requests, faults) = fuzzer.requests_for(&url, &path, &small_dictionary());
        assert!(requests.is_empty());
        assert!(faults.is_empty());
        assert_eq!(fuzzer.generate_fuzzed_urls(&url, &small_dictionary()).len(), 2);
    }
}

#[test]
fn a_malformed_target_does_not_stop_the_others() {
    let mut fuzzer = Fuzzer::new(3);
    let good = get_path("/ok", vec![QueryParameter::new(s("q"), true, None)]);
    let bad = get_path("/x", vec![]);
    let host_only_path = |p: Path| FuzzyInput::new(s("http://example.com"), s("api"), vec![p]);
    assert!(fuzzer.plan(&host_only_path(good), &small_dictionary()).is_empty());
    assert_eq!(fuzzer.queued(), 2);

    let broken = FuzzyInput::new(s("http://exa mple.com"), s("api"), vec![bad]);
    let errors = fuzzer.plan(&broken, &small_dictionary());
    assert_eq!(errors.len(), 1);
    assert_eq!(errors[0].0, 0);
    match &errors[0].1 {
        ConfigError::MalformedUrl(error) => {
            assert_eq!(error.message(), "invalid international domain name")
        }
        other => panic!("expected a malformed URL, got {:?}", other),
    }
    assert_eq!(fuzzer.queued(), 2);
}

#[test]
fn nothing_runs_where_no_template_can_be_parsed() {
    let mut fuzzer = Fuzzer::new(3);
    let input = FuzzyInput::new(
        s("example.com"),
        s("/api"),
        vec![
            get_path("/one", vec![QueryParameter::new(s("q"), true, None)]),
            get_path("/two", vec![]),
        ],
    );
    let errors = fuzzer.plan(&input, &small_dictionary());
    assert_eq!(errors.len(), 2);
    assert_eq!((errors[0].0, errors[1].0), (0, 1));
    assert_eq!(fuzzer.queued(), 0);
    assert_eq!(fuzzer.next_step(), Step::Finished);
}

#[test]
fn a_template_that_is_too_long_is_a_fault_of_its_endpoint_only() {
    let mut fuzzer = Fuzzer::new(3);
    let input = FuzzyInput::new(
        s("http://example.com"),
        s("api"),
        vec![
            get_path(&"a".repeat(MAX_URL_CHARS), vec![]),
            get_path("/ok", vec![QueryParameter::new(s("q"), true, None)]),
        ],
    );
    let errors = fuzzer.plan(&input, &small_dictionary());
    assert_eq!(errors.len(), 1);
    assert_eq!(errors[0].0, 0);
    match &errors[0].1 {
        ConfigError::MalformedUrl(error) => {
            assert_eq!(error.message(), "URL template of too many characters")
        }
        other => panic!("expected a malformed URL, got {:?}", other),
    }
    assert_eq!(fuzzer.queued(), 2);
}

#[test]
fn plan_queues_endpoint_after_endpoint() {
    let mut fuzzer = Fuzzer::new(3);
    let input = FuzzyInput::new(
        s("http://example.com"),
        s("/api/"),
        vec![
            get_path("/one", vec![QueryParameter::new(s("q"), true, None)]),
            Path::new(s("/post"), HttpMethod::POST, 200, vec![], s(""), vec![], vec![], s("")),
            get_path("two", vec![QueryParameter::new(s("r"), true, None)]),
        ],
    );
    let errors = fuzzer.plan(&input, &small_dictionary());
    assert!(errors.is_empty());
    assert_eq!(fuzzer.queued(), 4);
    let urls: Vec<&str> =
        (0..4).map(|i| fuzzer.request(i).unwrap().target().url().as_str()).collect();
    assert_eq!(
        urls,
        vec![
            "http://example.com/api/one?q=a",
            "http://example.com/api/one?q=b",
            "http://example.com/api/two?r=a",
            "http://example.com/api/two?r=b",
        ]
    );
    assert!(fuzzer.request(4).is_none());
}

fn two_endpoints() -> FuzzyInput {
    FuzzyInput::new(
        s("http://example.com"),
        s("api"),
        vec![
            get_path("/one", vec![QueryParameter::new(s("q"), true, None)]),
            Path::new(s("/put"), HttpMethod::PUT, 200, vec![], s(""), vec![], vec![], s("")),
            get_path("/two", vec![QueryParameter::new(s("r"), true, None)]),
        ],
    )
}

fn by_value(request: &FuzzRequest) -> Result<ResponseSummary, String> {
    if request.target().url().ends_with("=a") {
        Ok(ResponseSummary::new(200, s("fine")))
    } else if request.target().url().contains("/one") {
        Ok(ResponseSummary::new(404, s("not found")))
    } else {
        Err(s("connection refused"))
    }
}

#[test]
fn a_run_gives_one_outcome_for_each_request_in_the_order_of_issue() {
    let run = Fuzzer::new(2).fuzz(&two_endpoints(), &small_dictionary(), by_value);
    assert!(run.faults.is_empty());
    assert_eq!(run.peak_in_flight, 2);
    assert_eq!(run.outcomes.len(), 4);
    let seen: Vec<(&str, bool, Option<u16>, bool)> = run
        .outcomes
        .iter()
        .map(|outcome| match outcome {
            FuzzingResult::Success(url) => (url.url().as_str(), true, None, false),
            FuzzingResult::Failure(url, failure) => (
                url.url().as_str(),
                false,
                failure.status_code(),
                failure.network_error().is_some(),
            ),
        })
        .collect();
    assert_eq!(
        seen,
        vec![
            ("http://example.com/api/one?q=a", true, None, false),
            ("http://example.com/api/one?q=b", false, Some(404), false),
            ("http://example.com/api/two?r=a", true, None, false),
            ("http://example.com/api/two?r=b", false, None, true),
        ]
    );
}

#[test]
fn a_run_hands_every_request_to_the_transport_once() {
    for limit in 1..6usize {
        let handed = std::cell::RefCell::new(Vec::new());
        let run = Fuzzer::new(limit).fuzz(&two_endpoints(), &small_dictionary(), |request| {
            handed.borrow_mut().push(request.target().url().clone());
            by_value(request)
        });
        assert_eq!(
            handed.into_inner(),
            vec![
                s("http://example.com/api/one?q=a"),
                s("http://example.com/api/one?q=b"),
                s("http://example.com/api/two?r=a"),
                s("http://example.com/api/two?r=b"),
            ]
        );
        assert_eq!(run.outcomes.len(), 4);
        assert!(run.peak_in_flight <= limit);
        assert_eq!(run.peak_in_flight, limit.min(4));
    }
}

#[test]
fn a_run_keeps_the_answers_of_requests_in_flight_apart() {
    let asked = std::cell::Cell::new(0u16);
    let run = Fuzzer::new(3).fuzz(&two_endpoints(), &small_dictionary(), |_request| {
        asked.set(asked.get() + 1);
        Ok(ResponseSummary::new(500 + asked.get(), s("r")))
    });
    let statuses: Vec<Option<u16>> = run
        .outcomes
        .iter()
        .map(|outcome| match outcome {
            FuzzingResult::Failure(_, failure) => failure.status_code(),
            FuzzingResult::Success(_) => None,
        })
        .collect();
    assert_eq!(statuses, vec![Some(501), Some(502), Some(503), Some(504)]);
}

#[test]
fn a_run_without_permits_issues_nothing() {
    let run = Fuzzer::new(0).fuzz(&two_endpoints(), &small_dictionary(), by_value);
    assert!(run.outcomes.is_empty());
    assert_eq!(run.peak_in_flight, 0);
}

#[test]
fn a_run_reports_faults_and_goes_on() {
    let input = FuzzyInput::new(
        s("http://example.com"),
        s("api"),
        vec![
            get_path(&"a".repeat(MAX_URL_CHARS), vec![]),
            Path::new(
                s("/h"),
                HttpMethod::GET,
                200,
                vec![],
                s(""),
                vec![],
                vec![HeaderParameter::new(s("bad name"), Some(s("v")), false)],
                s(""),
            ),
            get_path("/ok", vec![]),
        ],
    );
    let run = Fuzzer::new(4).fuzz(&input, &small_dictionary(), by_value);
    let faulty: Vec<usize> = run.faults.iter().map(|fault| fault.0).collect();
    assert_eq!(faulty, vec![0, 1, 1]);
    assert_eq!(run.outcomes.len(), 2);
    assert_eq!(run.peak_in_flight, 2);
}

#[test]
fn two_runs_with_the_same_transport_agree() {
    let run = || {
        let run = Fuzzer::new(2).fuzz(&two_endpoints(), &small_dictionary(), by_value);
        let mut aggregator = ResultAggregator::new(Some(s("out")), Metrics::new(0));
        let lines = aggregator.process_results(&run.outcomes).unwrap();
        let m = *aggregator.metrics();
        (m.total_requests, m.successful_requests, m.failed_requests, lines, run.outcomes)
    };
    let first = run();
    assert_eq!(first, run());
    assert_eq!((first.0, first.1, first.2), (4, 2, 2));
    assert_eq!(
        first.3,
        vec![
            s("id: 1, url: http://example.com/api/one?q=b, status_code: Some(404), \
               response: Some(not found), network_error: None"),
            s("id: 1, url: http://example.com/api/two?r=b, status_code: None, \
               response: None, network_error: Some(connection refused)"),
        ]
    );
}

fn queue_of(n: usize) -> Vec<FuzzRequest> {
    (0..n)
        .map(|i| {
            let target = FuzzedUrl::new(format!("http://h/{}", i), s("d"), s("i"));
            FuzzRequest::new(target, 200, vec![])
        })
        .collect()
}

#[test]
fn never_more_in_flight_than_the_limit() {
    for limit in 1..5usize {
        let mut fuzzer = Fuzzer::new(limit);
        fuzzer.enqueue(queue_of(7));
        let mut issued = Vec::new();
        let mut steps = 0;
        loop {
            steps += 1;
            assert!(steps < 100);
            match fuzzer.next_step() {
                Step::Issue(index) => issued.push(index),
                Step::Wait => {
                    assert!(fuzzer.in_flight() > 0);
                    assert!(fuzzer.complete());
                }
                Step::Finished => break,
            }
            assert!(fuzzer.in_flight() <= limit);
        }
        assert_eq!(issued, (0..7).collect::<Vec<usize>>());
        assert_eq!(fuzzer.completed(), 7);
        assert_eq!(fuzzer.in_flight(), 0);
        assert_eq!(fuzzer.limit(), limit);
    }
}

#[test]
fn the_dispatcher_waits_when_every_permit_is_out() {
    let mut fuzzer = Fuzzer::new(2);
    fuzzer.enqueue(queue_of(3));
    assert_eq!(fuzzer.next_step(), Step::Issue(0));
    assert_eq!(fuzzer.next_step(), Step::Issue(1));
    assert_eq!(fuzzer.next_step(), Step::Wait);
    assert_eq!(fuzzer.in_flight(), 2);
    assert!(fuzzer.complete());
    assert_eq!(fuzzer.next_step(), Step::Issue(2));
    assert_eq!(fuzzer.next_step(), Step::Wait);
    assert!(fuzzer.complete());
    assert!(fuzzer.complete());
    assert!(!fuzzer.complete());
    assert_eq!(fuzzer.next_step(), Step::Finished);
    assert_eq!(fuzzer.completed(), 3);
}

#[test]
fn a_limit_of_nothing_issues_nothing() {
    let mut fuzzer = Fuzzer::new(0);
    fuzzer.enqueue(queue_of(2));
    assert_eq!(fuzzer.next_step(), Step::Finished);
    assert_eq!(fuzzer.in_flight(), 0);
    assert_eq!(fuzzer.completed(), 0);
}

#[test]
fn an_empty_queue_is_finished_at_once() {
    let mut fuzzer = Fuzzer::new(4);
    assert_eq!(fuzzer.next_step(), Step::Finished);
    assert!(!fuzzer.complete());
}

#[test]
fn test_metrics_initialization() {
    let metrics = Metrics::new(0);

    assert_eq!(metrics.successful_requests, 0);
    assert_eq!(metrics.failed_requests, 0);
    assert_eq!(metrics.total_requests, 0);
}

#[test]
fn test_display() {
    let mut metrics = Metrics::new(0);
    metrics.successful_requests = 10;
    metrics.failed_requests = 5;
    metrics.total_requests = 15;

    assert_eq!(
        metrics.display(),
        vec![
            s("============================================"),
            s("total requests: 15"),
            s("successful requests: 10"),
            s("failed requests: 5"),
        ]
    );
}

#[test]
fn record_counts_one_outcome_at_a_time() {
    let mut metrics = Metrics::new(0);
    assert!(metrics.can_record(true));
    metrics.record(true);
    metrics.record(false);
    metrics.record(false);
    assert_eq!(metrics.successful_requests, 1);
    assert_eq!(metrics.failed_requests, 2);
    assert_eq!(metrics.total_requests, 3);
}

#[test]
fn full_counters_have_no_room() {
    let full_total = Metrics {
        start_time: 0,
        successful_requests: 0,
        failed_requests: 0,
        total_requests: u64::MAX,
    };
    assert!(!full_total.can_record(true));
    assert!(!full_total.can_record(false));
    let full_failed = Metrics {
        start_time: 0,
        successful_requests: 0,
        failed_requests: u64::MAX,
        total_requests: 0,
    };
    assert!(full_failed.can_record(true));
    assert!(!full_failed.can_record(false));
    let full_successful = Metrics {
        start_time: 0,
        successful_requests: u64::MAX,
        failed_requests: 0,
        total_requests: 0,
    };
    assert!(!full_successful.can_record(true));
    assert!(full_successful.can_record(false));
}

#[test]
fn elapsed_time_is_counted_from_the_start() {
    let metrics = Metrics::new(1_000);
    assert_eq!(metrics.start_time, 1_000);
    assert_eq!(metrics.elapsed_millis(1_000), 0);
    assert_eq!(metrics.elapsed_millis(6_250), 5_250);
    assert_eq!(metrics.elapsed_millis(999), 0);
    assert_eq!(Metrics::new(0).elapsed_millis(u64::MAX), u64::MAX);
}

#[test]
fn labelled_lines() {
    assert_eq!(labelled("n: ", 0), "n: 0");
    assert_eq!(labelled("", 1234567890), "1234567890");
}

#[test]
fn test_result_aggregator_initialization() {
    let metrics = Metrics::new(0);
    let aggregator = ResultAggregator::new(None, metrics);

    assert_eq!(aggregator.metrics().successful_requests, 0);
    assert_eq!(aggregator.output_path(), &None);
}

#[test]
fn test_result_aggregator_process_results() {
    let metrics = Metrics::new(0);
    let mut aggregator = ResultAggregator::new(None, metrics);

    let lines = aggregator
        .process_results(&vec![sample_fuzzing_success_result(), sample_fuzzing_failure_result()])
        .unwrap();

    let m = aggregator.metrics();
    assert_eq!(m.successful_requests, 1);
    assert_eq!(m.failed_requests, 1);
    assert_eq!(m.total_requests, 2);
    assert!(lines.is_empty());
}

#[test]
fn every_failure_gives_one_record_in_order() {
    let mut aggregator = ResultAggregator::new(Some(s("output.txt")), Metrics::new(0));
    let outcomes = vec![
        FuzzingResult::Failure(
            FuzzedUrl::new(s("http://h/1"), s("d"), s("a")),
            FuzzingFailure::new(None, Some(500), Some(s("r"))),
        ),
        sample_fuzzing_success_result(),
        FuzzingResult::Failure(
            FuzzedUrl::new(s("http://h/2"), s("d"), s("b")),
            FuzzingFailure::new(Some(s("e")), None, None),
        ),
    ];
    let lines = aggregator.process_results(&outcomes).unwrap();
    assert_eq!(
        lines,
        vec![
            s("id: a, url: http://h/1, status_code: Some(500), response: Some(r), \
               network_error: None"),
            s("id: b, url: http://h/2, status_code: None, response: None, \
               network_error: Some(e)"),
        ]
    );
    let m = aggregator.metrics();
    assert_eq!((m.total_requests, m.successful_requests, m.failed_requests), (3, 1, 2));
    assert_eq!(m.total_requests, m.successful_requests + m.failed_requests);
    assert_eq!(aggregator.output_path(), &Some(s("output.txt")));
}

#[test]
fn two_runs_over_the_same_outcomes_agree() {
    let run = || {
        let mut fuzzer = Fuzzer::new(2);
        let input = FuzzyInput::new(
            s("http://example.com"),
            s("api"),
            vec![get_path("/t", vec![QueryParameter::new(s("q"), true, None)])],
        );
        fuzzer.plan(&input, &small_dictionary());
        let path = &input.paths()[0];
        let mut outcomes = Vec::new();
        while let Step::Issue(index) = fuzzer.next_step() {
            let request = fuzzer.request(index).unwrap();
            let status = if request.target().url().ends_with("q=a") { 200 } else { 404 };
            let reply = Ok(ResponseSummary::new(status, s("r")));
            outcomes.push(FuzzingResult::from_reply(reply, request.target(), path));
            fuzzer.complete();
        }
        let mut aggregator = ResultAggregator::new(Some(s("out")), Metrics::new(0));
        let lines = aggregator.process_results(&outcomes).unwrap();
        let m = *aggregator.metrics();
        (m.total_requests, m.successful_requests, m.failed_requests, lines)
    };
    let first = run();
    assert_eq!(first, run());
    assert_eq!((first.0, first.1, first.2), (2, 1, 1));
    assert_eq!(
        first.3,
        vec![s("id: 1, url: http://example.com/api/t?q=b, status_code: Some(404), \
                response: Some(r), network_error: None")]
    );
}

#[test]
fn counters_do_not_depend_on_the_order_of_arrival() {
    let outcome = |which: usize| match which {
        0 => sample_fuzzing_success_result(),
        1 => FuzzingResult::Failure(
            FuzzedUrl::new(s("http://h/1"), s("d"), s("a")),
            FuzzingFailure::new(None, Some(500), Some(s("r"))),
        ),
        _ => FuzzingResult::Failure(
            FuzzedUrl::new(s("http://h/2"), s("d"), s("b")),
            FuzzingFailure::new(Some(s("e")), None, None),
        ),
    };
    let run = |order: [usize; 4]| {
        let mut aggregator = ResultAggregator::new(Some(s("out")), Metrics::new(0));
        let outcomes: Vec<FuzzingResult> = order.iter().map(|w| outcome(*w)).collect();
        let mut lines = aggregator.process_results(&outcomes).unwrap();
        lines.sort();
        let m = *aggregator.metrics();
        (m.total_requests, m.successful_requests, m.failed_requests, lines)
    };
    let first = run([0, 1, 2, 1]);
    assert_eq!((first.0, first.1, first.2), (4, 1, 3));
    assert_eq!(first.3.len(), 3);
    assert_eq!(first, run([1, 1, 2, 0]));
    assert_eq!(first, run([2, 1, 0, 1]));
}

fn counters(successful: u64, failed: u64, total: u64) -> Metrics {
    Metrics {
        start_time: 0,
        successful_requests: successful,
        failed_requests: failed,
        total_requests: total,
    }
}

fn counts_of(aggregator: &ResultAggregator) -> (u64, u64, u64) {
    let m = aggregator.metrics();
    (m.successful_requests, m.failed_requests, m.total_requests)
}

#[test]
fn full_counters_count_nothing_more() {
    let mut aggregator = ResultAggregator::new(Some(s("out")), counters(1, u64::MAX - 1, u64::MAX));
    assert_eq!(aggregator.process_result(&sample_fuzzing_success_result()), Err(CountersFull));
    assert_eq!(aggregator.process_result(&sample_fuzzing_failure_result()), Err(CountersFull));
    let one_more = vec![sample_fuzzing_failure_result()];
    assert_eq!(aggregator.process_results(&one_more), Err(CountersFull));
    assert_eq!(counts_of(&aggregator), (1, u64::MAX - 1, u64::MAX));
    assert_eq!(aggregator.process_results(&vec![]), Ok(vec![]));

    let mut aggregator = ResultAggregator::new(None, counters(u64::MAX, 0, 0));
    assert_eq!(aggregator.process_result(&sample_fuzzing_success_result()), Err(CountersFull));
    assert_eq!(aggregator.process_result(&sample_fuzzing_failure_result()), Ok(None));
    assert_eq!(counts_of(&aggregator), (u64::MAX, 1, 1));
}

#[test]
fn a_batch_is_counted_whole_or_not_at_all() {
    let batch = || {
        vec![
            sample_fuzzing_success_result(),
            sample_fuzzing_failure_result(),
            sample_fuzzing_failure_result(),
        ]
    };
    let mut aggregator = ResultAggregator::new(None, counters(0, 0, u64::MAX - 2));
    assert!(!aggregator.can_process(&batch()));
    assert_eq!(aggregator.process_results(&batch()), Err(CountersFull));
    assert_eq!(counts_of(&aggregator), (0, 0, u64::MAX - 2));

    let mut aggregator = ResultAggregator::new(None, counters(0, u64::MAX - 1, 0));
    assert_eq!(aggregator.process_results(&batch()), Err(CountersFull));
    assert_eq!(counts_of(&aggregator), (0, u64::MAX - 1, 0));

    let mut aggregator =
        ResultAggregator::new(None, counters(u64::MAX - 1, u64::MAX - 2, u64::MAX - 3));
    assert!(aggregator.can_process(&batch()));
    assert_eq!(aggregator.process_results(&batch()), Ok(vec![]));
    assert_eq!(counts_of(&aggregator), (u64::MAX, u64::MAX, u64::MAX));
}

#[test]
fn counting_goes_on_from_the_counters_given() {
    let start = Metrics {
        start_time: 1_700_000_000_000,
        successful_requests: 3,
        failed_requests: 4,
        total_requests: 7,
    };
    let mut aggregator = ResultAggregator::new(None, start);
    assert!(aggregator.process_results(&vec![sample_fuzzing_failure_result()]).is_ok());
    assert_eq!(aggregator.process_results(&vec![]), Ok(vec![]));
    let m = aggregator.metrics();
    assert_eq!((m.total_requests, m.successful_requests, m.failed_requests), (8, 3, 5));
    assert_eq!(m.start_time, 1_700_000_000_000);
}
