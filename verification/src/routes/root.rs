//! The routes that need no token: the landing page, the version and the
//! statistics.

use vstd::prelude::*;
use vstd::string::*;
use crate::database::Database;
use crate::errors::UserError;
use crate::response::{reply_view, Body, BodyView, Response, ResponseView, VersionInfo};
use crate::settings::General;

verus! {

/// What the build knows of the package.
#[derive(Debug, PartialEq, Eq)]
pub struct Package {
    pub name: String,
    pub version: String,
    pub major: String,
    pub minor: String,
    pub patch: String,
    pub authors: String,
    pub description: String,
    pub repository: String,
}

/// A link that opens in a new tab and hands the opener to nobody.
pub open spec fn href(name: Seq<char>, url: Seq<char>) -> Seq<char> {
    "<a rel=\"noopener\" target=\"_blank\" href=\""@ + url + "\" class=\"white-no-dec-link\">"@
        + name + "</a>"@
}

/// The banner that a staging instance shows; nothing on any other.
pub open spec fn staging_banner(staging: bool) -> Seq<char> {
    if staging {
        "<h1 style='color: #DE935F'>Staging Instance. This is not the real API.</h1>"@
    } else {
        Seq::empty()
    }
}

/// The landing page.
pub open spec fn info_page(
    staging: bool,
    name: Seq<char>,
    version: Seq<char>,
    authors: Seq<char>,
    description: Seq<char>,
    repository: Seq<char>,
) -> Seq<char> {
    "\n        <style>* {font-family: monospace;}</style>\n        "@ + staging_banner(staging)
        + "\n        "@ + name + " v"@ + version + " by "@ + authors + "<br>"@ + description
        + "<br><br>"@ + href("GitHub"@, repository) + "<br>"@ + href(
        "Channel"@,
        "https://t.me/SpamWatch"@,
    ) + "<br>"@ + href("Documentation"@, "https://docs.spamwat.ch"@)
}

/// Writes a link to `url` that shows `name`, opens in a new tab and hands
/// the opener to nobody. Neither argument is escaped.
pub fn safe_href(name: &str, url: &str) -> (link: String)
    ensures
        link@ == href(name@, url@),
{
    let mut link = String::from_str("<a rel=\"noopener\" target=\"_blank\" href=\"");
    link.append(url);
    link.append("\" class=\"white-no-dec-link\">");
    link.append(name);
    link.append("</a>");
    link
}

/// The landing page: what the service is, in which version and by whom,
/// with links to its sources, channel and documentation. A staging instance
/// says so at the top.
pub fn info(general: &General, package: &Package) -> (response: Response)
    ensures
        response@ == ResponseView::ok(
            BodyView::Html(
                info_page(
                    general.staging,
                    package.name@,
                    package.version@,
                    package.authors@,
                    package.description@,
                    package.repository@,
                ),
            ),
        ),
{
    let mut page = String::from_str(
        "\n        <style>* {font-family: monospace;}</style>\n        ",
    );
    if general.staging {
        page.append("<h1 style='color: #DE935F'>Staging Instance. This is not the real API.</h1>");
    }
    assert(page@ =~= "\n        <style>* {font-family: monospace;}</style>\n        "@
        + staging_banner(general.staging));
    page.append("\n        ");
    page.append(package.name.as_str());
    page.append(" v");
    page.append(package.version.as_str());
    page.append(" by ");
    page.append(package.authors.as_str());
    page.append("<br>");
    page.append(package.description.as_str());
    page.append("<br><br>");
    page.append(safe_href("GitHub", package.repository.as_str()).as_str());
    page.append("<br>");
    page.append(safe_href("Channel", "https://t.me/SpamWatch").as_str());
    page.append("<br>");
    page.append(safe_href("Documentation", "https://docs.spamwat.ch").as_str());
    Response::ok(Body::Html(page))
}

/// The version of the service, whole and in its three parts.
pub fn version(package: &Package) -> (response: Response)
    ensures
        response@ == ResponseView::ok(
            BodyView::Version {
                version: package.version@,
                major: package.major@,
                minor: package.minor@,
                patch: package.patch@,
            },
        ),
{
    Response::ok(
        Body::Version(
            VersionInfo {
                version: package.version.clone(),
                major: package.major.clone(),
                minor: package.minor.clone(),
                patch: package.patch.clone(),
            },
        ),
    )
}

/// The statistics of the service: how many users are banned. Needs no
/// token.
pub fn stats(db: &Database) -> (reply: Result<Response, UserError>)
    ensures
        reply_view(reply) == Ok::<ResponseView, UserError>(
            ResponseView::ok(BodyView::Stats { total_ban_count: db@.bans.len() as int }),
        ),
{
    Ok(Response::ok(Body::Stats { total_ban_count: db.get_total_ban_count() }))
}

} // verus!
