//! The parts of a URL, as the `url` crate reads it.

use url::Url;
use vstd::prelude::*;

verus! {

/// The parts of a URL.
pub struct UrlParts {
    pub scheme: String,
    pub username: String,
    pub password: Option<String>,
    pub host: Option<String>,
    pub path: String,
    pub query: Option<String>,
    pub fragment: Option<String>,
    pub query_pairs: Vec<(String, String)>,
}

/// The parts of a URL as text.
#[verifier::ext_equal]
pub struct UrlView {
    pub scheme: Seq<char>,
    pub username: Seq<char>,
    pub password: Option<Seq<char>>,
    pub host: Option<Seq<char>>,
    pub path: Seq<char>,
    pub query: Option<Seq<char>>,
    pub fragment: Option<Seq<char>>,
    pub query_pairs: Seq<(Seq<char>, Seq<char>)>,
}

/// Decoded query pairs as text.
pub open spec fn pair_views(pairs: Seq<(String, String)>) -> Seq<(Seq<char>, Seq<char>)> {
    Seq::new(pairs.len(), |i: int| (pairs[i].0@, pairs[i].1@))
}

impl View for UrlParts {
    type V = UrlView;

    open spec fn view(&self) -> UrlView {
        UrlView {
            scheme: self.scheme@,
            username: self.username@,
            password: crate::text::opt_text(self.password),
            host: crate::text::opt_text(self.host),
            path: self.path@,
            query: crate::text::opt_text(self.query),
            fragment: crate::text::opt_text(self.fragment),
            query_pairs: pair_views(self.query_pairs@),
        }
    }
}

/// Whether a path holds neither of the marks that end a path.
pub open spec fn unmarked(path: Seq<char>) -> bool {
    forall|i: int| 0 <= i < path.len() ==> #[trigger] path[i] != '?' && path[i] != '#'
}

/// The parts that `url::Url::parse` finds in a text, or nothing where it refuses
/// the text.
pub uninterp spec fn url_parsed(text: Seq<char>) -> Option<UrlView>;

/// `url::Url::parse` and its accessors `scheme`, `username`, `password`,
/// `host_str`, `path`, `query`, `fragment` and `query_pairs`: success and every
/// part are a function of the text alone, named [`url_parsed`]. The path of an `https`
/// URL ends before the first `?` or `#`, and its characters are percent-encoded with a
/// set that has both, so it holds neither.
#[verifier::external_body]
pub(crate) fn parse_url(text: &str) -> (parts: Option<UrlParts>)
    ensures
        match parts {
            Some(p) => url_parsed(text@) == Some(p@) && (p.scheme@ == "https"@ ==> unmarked(p.path@)),
            None => url_parsed(text@) is None,
        },
{
    let url = Url::parse(text).ok()?;
    Some(
        UrlParts {
            scheme: url.scheme().to_owned(),
            username: url.username().to_owned(),
            password: url.password().map(str::to_owned),
            host: url.host_str().map(str::to_owned),
            path: url.path().to_owned(),
            query: url.query().map(str::to_owned),
            fragment: url.fragment().map(str::to_owned),
            query_pairs: url.query_pairs().map(|(k, v)| (k.into_owned(), v.into_owned())).collect(),
        },
    )
}

/// Whether the database driver can be configured by a text.
pub uninterp spec fn connection_readable_of(text: Seq<char>) -> bool;

/// `tokio_postgres::Config::from_str`: whether the driver reads the text as a
/// configuration, named for the text. It refuses options and values that it does not
/// know. The name is that of a Unix system, which the authority runs on: elsewhere a
/// socket path that is not UTF-8 is refused too.
#[verifier::external_body]
pub(crate) fn connection_readable(text: &str) -> (r: bool)
    ensures
        r == connection_readable_of(text@),
{
    text.parse::<tokio_postgres::Config>().is_ok()
}

} // verus!
