//! Absolute URLs as the `url` crate parses and serialises them.

use vstd::prelude::*;

verus! {

/// What a parsed URL holds.
pub struct TargetUrlView {
    pub text: Seq<char>,
    pub has_host: bool,
}

/// A parsed absolute URL: its serialisation, and whether it names a host.
#[derive(Clone, Debug)]
pub struct TargetUrl {
    text: String,
    has_host: bool,
}

impl View for TargetUrl {
    type V = TargetUrlView;

    closed spec fn view(&self) -> TargetUrlView {
        TargetUrlView { text: self.text@, has_host: self.has_host }
    }
}

impl TargetUrl {
    pub fn new(text: String, has_host: bool) -> (url: Self)
        ensures
            url@ == (TargetUrlView { text: text@, has_host }),
    {
        Self { text, has_host }
    }

    pub fn as_str(&self) -> (text: &str)
        ensures
            text@ == self@.text,
    {
        self.text.as_str()
    }

    pub fn has_host(&self) -> (has_host: bool)
        ensures
            has_host == self@.has_host,
    {
        self.has_host
    }
}

/// Why a string could not be parsed as an absolute URL.
#[derive(Clone, Debug)]
pub struct UrlError {
    message: String,
}

impl View for UrlError {
    type V = Seq<char>;

    closed spec fn view(&self) -> Seq<char> {
        self.message@
    }
}

impl UrlError {
    pub fn new(message: String) -> (error: Self)
        ensures
            error@ == message@,
    {
        Self { message }
    }

    pub fn message(&self) -> (message: &String)
        ensures
            message@ == self@,
    {
        &self.message
    }
}

/// The contents of a list of name/value pairs.
pub open spec fn pairs(s: Seq<(String, String)>) -> Seq<(Seq<char>, Seq<char>)> {
    Seq::new(s.len(), |i: int| (s[i].0@, s[i].1@))
}

/// The contents of a parse result.
pub open spec fn parsed(r: Result<TargetUrl, UrlError>) -> Result<TargetUrlView, Seq<char>> {
    match r {
        Ok(url) => Ok(url@),
        Err(error) => Err(error@),
    }
}

/// The most characters that a URL template and its query pairs may hold
/// together, a pair counting two more than its name and value. The parser
/// indexes what it builds with 32 bits. It writes at most twelve bytes for
/// a character that it percent-encodes, four bytes of UTF-8 at three each.
/// It writes more where it rewrites an international host name: there one
/// character may stand for several, each of which takes several letters,
/// and every label gets a prefix, so that the host name of the single
/// character U+3300 comes out as thirteen bytes. A thousand bytes for a
/// character is well beyond all of that, and a thousand for each of this
/// many characters is still within the parser's reach.
pub const MAX_URL_CHARS: usize = 4_194_304;

/// The message for a URL template that is too long to hand to the parser.
pub const URL_TOO_LONG: &'static str = "URL template of too many characters";

/// The characters of the pairs, each pair counting two more than its name
/// and value: the `=` and the `&` or `?` that set it off.
pub open spec fn pair_chars(params: Seq<(Seq<char>, Seq<char>)>) -> nat
    decreases params.len(),
{
    if params.len() == 0 {
        0
    } else {
        pair_chars(params.drop_last()) + params.last().0.len() + params.last().1.len() + 2
    }
}

/// The first `n` pairs hold no more characters than all of them.
pub proof fn lemma_pair_chars_grow(params: Seq<(Seq<char>, Seq<char>)>, n: int)
    requires
        0 <= n <= params.len(),
    ensures
        pair_chars(params.take(n)) <= pair_chars(params),
    decreases params.len(),
{
    if n < params.len() {
        assert(params.drop_last().take(n) =~= params.take(n));
        lemma_pair_chars_grow(params.drop_last(), n);
    } else {
        assert(params.take(n) =~= params);
    }
}

/// What `url::Url::parse_with_params` makes of `input` and the query pairs
/// `params`: the URL, or the message of the parse error.
pub uninterp spec fn url_with_params(
    input: Seq<char>,
    params: Seq<(Seq<char>, Seq<char>)>,
) -> Result<TargetUrlView, Seq<char>>;

/// Calls `url::Url::parse_with_params`, which parses `input` as an absolute
/// URL and appends `params` to its query, form-urlencoded. The outcome
/// depends on the two arguments alone; it is handed back as the URL's
/// serialisation and `has_host`, or as the error's display text. The call
/// indexes the serialisation with 32 bits and, where a URL without a query
/// or with a fragment has outgrown them, does not return: input that could
/// grow so long is kept from it.
#[verifier::external_body]
pub(crate) fn parse_with_params(input: &str, params: &Vec<(String, String)>) -> (r: Result<
    TargetUrl,
    UrlError,
>)
    requires
        input@.len() + pair_chars(pairs(params@)) <= MAX_URL_CHARS,
    ensures
        parsed(r) == url_with_params(input@, pairs(params@)),
{
    match ::url::Url::parse_with_params(input, params) {
        Ok(url) => Ok(TargetUrl { has_host: url.has_host(), text: String::from(url) }),
        Err(error) => Err(UrlError { message: error.to_string() }),
    }
}

/// `total` and `more` together, where that is within the limit.
pub fn add_chars(total: usize, more: usize) -> (sum: Option<usize>)
    ensures
        sum == if total + more <= MAX_URL_CHARS {
            Some((total + more) as usize)
        } else {
            None
        },
{
    if total <= MAX_URL_CHARS && more <= MAX_URL_CHARS - total {
        Some(total + more)
    } else {
        None
    }
}

/// `start` and the characters of the pairs together, where that is within
/// the limit.
pub fn add_pair_chars(start: usize, params: &Vec<(String, String)>) -> (sum: Option<usize>)
    ensures
        sum == if start + pair_chars(pairs(params@)) <= MAX_URL_CHARS {
            Some((start + pair_chars(pairs(params@))) as usize)
        } else {
            None
        },
{
    let ghost all = pairs(params@);
    if start > MAX_URL_CHARS {
        return None;
    }
    let mut total: usize = start;
    let mut i: usize = 0;
    assert(all.take(0) =~= Seq::empty());
    while i < params.len()
        invariant
            i <= params.len(),
            all == pairs(params@),
            total == start + pair_chars(all.take(i as int)),
            total <= MAX_URL_CHARS,
        decreases params.len() - i,
    {
        proof {
            assert(all.take(i + 1).drop_last() =~= all.take(i as int));
            assert(all.take(i + 1).last() == all[i as int]);
            lemma_pair_chars_grow(all, i + 1);
        }
        let name = params[i].0.as_str().unicode_len();
        let value = params[i].1.as_str().unicode_len();
        let with_name = match add_chars(total, name) {
            Some(sum) => sum,
            None => {
                return None;
            },
        };
        let with_value = match add_chars(with_name, value) {
            Some(sum) => sum,
            None => {
                return None;
            },
        };
        total = match add_chars(with_value, 2) {
            Some(sum) => sum,
            None => {
                return None;
            },
        };
        i += 1;
    }
    assert(all.take(i as int) =~= all);
    Some(total)
}

} // verus!
