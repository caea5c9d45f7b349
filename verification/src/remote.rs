//! Where the commits of a project are fetched from.

use vstd::prelude::*;
use vstd::string::*;

verus! {

/// What `Url::parse` of the `url` crate makes of `text`: the serialisation
/// of the URL that it reads, or `None` where it reads none.
pub uninterp spec fn url_normal_form(text: Seq<char>) -> Option<Seq<char>>;

/// Parses `text` with `url::Url::parse`, the parser behind `reqwest::Url`,
/// and gives the serialisation that the parsed URL holds.
///
/// The contract is taken on trust. It claims no more than that the result
/// depends on `text` alone: the parser reads nothing but its argument.
#[verifier::external_body]
fn parse_url(text: &str) -> (r: Option<String>)
    ensures
        match r {
            Some(url) => url_normal_form(text@) == Some(url@),
            None => url_normal_form(text@) is None,
        },
{
    match url::Url::parse(text) {
        Ok(url) => Some(String::from(url)),
        Err(_) => None,
    }
}

/// The address, before it is parsed, at which the remote service lists the
/// commits of the repository `repository`.
pub open spec fn commits_address(repository: Seq<char>) -> Seq<char> {
    "https://api.github.com/repos/"@ + repository + "/commits"@
}

/// The URL at which the remote service lists the commits of the repository
/// `repository`, or `None` where the address is no URL.
pub fn commits_url(repository: &str) -> (r: Option<String>)
    ensures
        match r {
            Some(url) => url_normal_form(commits_address(repository@)) == Some(url@),
            None => url_normal_form(commits_address(repository@)) is None,
        },
{
    let mut address = "https://api.github.com/repos/".to_string();
    address.append(repository);
    address.append("/commits");
    parse_url(address.as_str())
}

} // verus!
