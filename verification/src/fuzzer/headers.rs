//! The headers of a request: which are sent with which value, and the
//! faults that keep a request from being sent.

use crate::domain::input::{header_parameters, HeaderParameter, ParameterView};
use crate::domain::target_url::{pairs, UrlError};
use reqwest::header::{HeaderName, HeaderValue};
use std::str::FromStr;
use vstd::prelude::*;

verus! {

/// The characters that a header name may hold: letters, digits and
/// ``!"#$%&'*+-.^_`|~``.
pub open spec fn is_name_char(c: char) -> bool {
    ||| 'a' <= c <= 'z'
    ||| 'A' <= c <= 'Z'
    ||| '0' <= c <= '9'
    ||| c == '!'
    ||| c == '"'
    ||| c == '#'
    ||| c == '$'
    ||| c == '%'
    ||| c == '&'
    ||| c == '\''
    ||| c == '*'
    ||| c == '+'
    ||| c == '-'
    ||| c == '.'
    ||| c == '^'
    ||| c == '_'
    ||| c == '`'
    ||| c == '|'
    ||| c == '~'
}

/// A header name that can be sent: up to 65535 name characters, and at
/// least one.
pub open spec fn valid_header_name(name: Seq<char>) -> bool {
    &&& 0 < name.len() <= 65535
    &&& forall|i: int| 0 <= i < name.len() ==> is_name_char(#[trigger] name[i])
}

/// The characters that a header value may hold: the tab, and everything
/// from the space on but the delete character.
pub open spec fn is_value_char(c: char) -> bool {
    c == '\t' || (' ' <= c && c != '\u{7f}')
}

/// A header value that can be sent.
pub open spec fn valid_header_value(value: Seq<char>) -> bool {
    forall|i: int| 0 <= i < value.len() ==> is_value_char(#[trigger] value[i])
}

/// Whether `reqwest::header::HeaderName::from_str` takes `name`. It does
/// where `name` is from 1 to 65535 bytes long and each byte is a letter, a
/// digit or one of ``!"#$%&'*+-.^_`|~``; such a name has one byte for each
/// character.
#[verifier::external_body]
pub(crate) fn header_name_parses(name: &str) -> (accepted: bool)
    ensures
        accepted == valid_header_name(name@),
{
    HeaderName::from_str(name).is_ok()
}

/// Whether `reqwest::header::HeaderValue::from_str` takes `value`. It does
/// where each byte of `value` is the tab, or at least 32 and not 127; the
/// bytes of a character beyond ASCII are all above 127.
#[verifier::external_body]
pub(crate) fn header_value_parses(value: &str) -> (accepted: bool)
    ensures
        accepted == valid_header_value(value@),
{
    HeaderValue::from_str(value).is_ok()
}

/// A fault in how a target is configured. It keeps the requests that it
/// concerns from being sent, and no others.
#[derive(Clone, Debug)]
pub enum ConfigError {
    /// The URL template could not be parsed.
    MalformedUrl(UrlError),
    /// The named header is fuzzed, and there is no value to send in it.
    UnresolvedHeader(String),
    /// The name of this header cannot be sent.
    InvalidHeaderName(String),
    /// The value of the named header cannot be sent.
    InvalidHeaderValue(String),
}

/// What a configuration fault holds.
pub enum ConfigErrorView {
    MalformedUrl(Seq<char>),
    UnresolvedHeader(Seq<char>),
    InvalidHeaderName(Seq<char>),
    InvalidHeaderValue(Seq<char>),
}

impl View for ConfigError {
    type V = ConfigErrorView;

    open spec fn view(&self) -> ConfigErrorView {
        match self {
            ConfigError::MalformedUrl(error) => ConfigErrorView::MalformedUrl(error@),
            ConfigError::UnresolvedHeader(name) => ConfigErrorView::UnresolvedHeader(name@),
            ConfigError::InvalidHeaderName(name) => ConfigErrorView::InvalidHeaderName(name@),
            ConfigError::InvalidHeaderValue(name) => ConfigErrorView::InvalidHeaderValue(name@),
        }
    }
}

/// The contents of a list of faults.
pub open spec fn fault_views(s: Seq<ConfigError>) -> Seq<ConfigErrorView> {
    Seq::new(s.len(), |i: int| s[i]@)
}

/// What one header gives: nothing, where it is fixed and has no value; the
/// pair to send, where name and value can be sent; a fault otherwise. A
/// fuzzed header carries `value`, a fixed one its own value.
pub open spec fn header_of(header: ParameterView, value: Option<Seq<char>>) -> Result<
    Option<(Seq<char>, Seq<char>)>,
    ConfigErrorView,
> {
    let carried = if header.fuzz {
        value
    } else {
        header.value
    };
    match carried {
        None => if header.fuzz {
            Err(ConfigErrorView::UnresolvedHeader(header.name))
        } else {
            Ok(None)
        },
        Some(text) => if !valid_header_name(header.name) {
            Err(ConfigErrorView::InvalidHeaderName(header.name))
        } else if !valid_header_value(text) {
            Err(ConfigErrorView::InvalidHeaderValue(header.name))
        } else {
            Ok(Some((header.name, text)))
        },
    }
}

/// The headers of a request with the dictionary value `value`, in the order
/// of `headers`; or the fault of the first header that has one.
pub open spec fn resolved_headers(headers: Seq<ParameterView>, value: Option<Seq<char>>) -> Result<
    Seq<(Seq<char>, Seq<char>)>,
    ConfigErrorView,
>
    decreases headers.len(),
{
    if headers.len() == 0 {
        Ok(Seq::empty())
    } else {
        match resolved_headers(headers.drop_last(), value) {
            Err(fault) => Err(fault),
            Ok(before) => match header_of(headers.last(), value) {
                Err(fault) => Err(fault),
                Ok(None) => Ok(before),
                Ok(Some(pair)) => Ok(before.push(pair)),
            },
        }
    }
}

/// The contents of what `resolve_headers` returns.
pub open spec fn resolution(r: Result<Vec<(String, String)>, ConfigError>) -> Result<
    Seq<(Seq<char>, Seq<char>)>,
    ConfigErrorView,
> {
    match r {
        Ok(resolved) => Ok(pairs(resolved@)),
        Err(fault) => Err(fault@),
    }
}

/// A fault among the first `n` headers is the fault of them all.
pub proof fn lemma_first_fault_stays(
    headers: Seq<ParameterView>,
    value: Option<Seq<char>>,
    n: int,
)
    requires
        0 <= n <= headers.len(),
        resolved_headers(headers.take(n), value) is Err,
    ensures
        resolved_headers(headers, value) == resolved_headers(headers.take(n), value),
    decreases headers.len(),
{
    if n == headers.len() {
        assert(headers.take(n) =~= headers);
    } else {
        assert(headers.drop_last().take(n) =~= headers.take(n));
        lemma_first_fault_stays(headers.drop_last(), value, n);
    }
}

/// The headers to send with a request whose dictionary value is `value`,
/// or the fault of the first header that has one: it is fuzzed and there is
/// no value, or its name or its value cannot be sent.
pub fn resolve_headers(headers: &Vec<HeaderParameter>, value: Option<&String>) -> (r: Result<
    Vec<(String, String)>,
    ConfigError,
>)
    ensures
        resolution(r) == resolved_headers(
            header_parameters(headers@),
            match value {
                Some(text) => Some(text@),
                None => None,
            },
        ),
{
    let ghost all = header_parameters(headers@);
    let ghost filler: Option<Seq<char>> = match value {
        Some(text) => Some(text@),
        None => None,
    };
    let mut resolved: Vec<(String, String)> = Vec::new();
    let mut i: usize = 0;
    assert(pairs(resolved@) =~= Seq::empty());
    while i < headers.len()
        invariant
            i <= headers.len(),
            all == header_parameters(headers@),
            filler == match value {
                Some(text) => Some(text@),
                None => None::<Seq<char>>,
            },
            resolved_headers(all.take(i as int), filler) == Ok::<_, ConfigErrorView>(
                pairs(resolved@),
            ),
        decreases headers.len() - i,
    {
        let header = &headers[i];
        let ghost before = resolved@;
        proof {
            assert(all.take(i + 1).drop_last() =~= all.take(i as int));
            assert(all.take(i + 1).last() == header@);
        }
        let carried: Option<&String> = if header.fuzz() {
            value
        } else {
            header.value().as_ref()
        };
        match carried {
            None => {
                if header.fuzz() {
                    proof {
                        lemma_first_fault_stays(all, filler, i + 1);
                    }
                    return Err(ConfigError::UnresolvedHeader(header.name().clone()));
                }
            },
            Some(text) => {
                if !header_name_parses(header.name().as_str()) {
                    proof {
                        lemma_first_fault_stays(all, filler, i + 1);
                    }
                    return Err(ConfigError::InvalidHeaderName(header.name().clone()));
                }
                if !header_value_parses(text.as_str()) {
                    proof {
                        lemma_first_fault_stays(all, filler, i + 1);
                    }
                    return Err(ConfigError::InvalidHeaderValue(header.name().clone()));
                }
                resolved.push((header.name().clone(), text.clone()));
                assert(pairs(resolved@) =~= pairs(before).push((header@.name, text@)));
            },
        }
        i += 1;
    }
    assert(all.take(i as int) =~= all);
    Ok(resolved)
}

} // verus!
