//! What a route answers: a status code and a body, still as values. Turning
//! the body into bytes is left to the transport.

use vstd::prelude::*;
use crate::database::{
    ban_views, info_views, Ban, BanView, Token, TokenInfo, TokenInfoView, TokenView,
};
use crate::errors::{ErrorBody, UserError};

verus! {

/// The fields of the version document.
#[derive(Debug, PartialEq, Eq)]
pub struct VersionInfo {
    pub version: String,
    pub major: String,
    pub minor: String,
    pub patch: String,
}

/// The body of a response.
#[derive(Debug, PartialEq, Eq)]
pub enum Body {
    /// No content.
    Empty,
    /// An HTML page.
    Html(String),
    /// Plain text.
    Text(String),
    /// A token that was just created, secret included, as a JSON object.
    Created(Token),
    /// One token without its secret, as a JSON object.
    Token(TokenInfo),
    /// Tokens without their secrets, as a JSON array.
    Tokens(Vec<TokenInfo>),
    /// One ban, as a JSON object.
    Ban(Ban),
    /// Bans, as a JSON array.
    Bans(Vec<Ban>),
    /// The statistics document.
    Stats { total_ban_count: i64 },
    /// The version document.
    Version(VersionInfo),
    /// The description of an error.
    Error(ErrorBody),
}

/// What a `Body` holds, as mathematical values.
pub enum BodyView {
    Empty,
    Html(Seq<char>),
    Text(Seq<char>),
    Created(TokenView),
    Token(TokenInfoView),
    Tokens(Seq<TokenInfoView>),
    Ban(BanView),
    Bans(Seq<BanView>),
    Stats { total_ban_count: int },
    Version { version: Seq<char>, major: Seq<char>, minor: Seq<char>, patch: Seq<char> },
    Error(ErrorBody),
}

impl View for Body {
    type V = BodyView;

    open spec fn view(&self) -> BodyView {
        match *self {
            Body::Empty => BodyView::Empty,
            Body::Html(page) => BodyView::Html(page@),
            Body::Text(text) => BodyView::Text(text@),
            Body::Created(token) => BodyView::Created(token@),
            Body::Token(token) => BodyView::Token(token@),
            Body::Tokens(tokens) => BodyView::Tokens(info_views(tokens@)),
            Body::Ban(ban) => BodyView::Ban(ban@),
            Body::Bans(bans) => BodyView::Bans(ban_views(bans@)),
            Body::Stats { total_ban_count } => BodyView::Stats {
                total_ban_count: total_ban_count as int,
            },
            Body::Version(info) => BodyView::Version {
                version: info.version@,
                major: info.major@,
                minor: info.minor@,
                patch: info.patch@,
            },
            Body::Error(error) => BodyView::Error(error),
        }
    }
}

/// The answer of a route.
#[derive(Debug, PartialEq, Eq)]
pub struct Response {
    /// The HTTP status code.
    pub status: u16,
    pub body: Body,
}

/// What a `Response` holds, as mathematical values.
pub struct ResponseView {
    pub status: int,
    pub body: BodyView,
}

impl View for Response {
    type V = ResponseView;

    open spec fn view(&self) -> ResponseView {
        ResponseView { status: self.status as int, body: self.body@ }
    }
}

/// What a route answered, as mathematical values.
pub open spec fn reply_view(reply: Result<Response, UserError>) -> Result<
    ResponseView,
    UserError,
> {
    match reply {
        Ok(response) => Ok(response@),
        Err(e) => Err(e),
    }
}

impl ResponseView {
    /// `200 OK` with the given body.
    pub open spec fn ok(body: BodyView) -> ResponseView {
        ResponseView { status: 200, body }
    }

    /// `201 Created` with the given body.
    pub open spec fn created(body: BodyView) -> ResponseView {
        ResponseView { status: 201, body }
    }

    /// `204 No Content`.
    pub open spec fn no_content() -> ResponseView {
        ResponseView { status: 204, body: BodyView::Empty }
    }
}

impl Response {
    /// `200 OK` with the given body.
    pub fn ok(body: Body) -> (response: Response)
        ensures
            response@ == ResponseView::ok(body@),
    {
        Response { status: 200, body }
    }

    /// `201 Created` with the given body.
    pub fn created(body: Body) -> (response: Response)
        ensures
            response@ == ResponseView::created(body@),
    {
        Response { status: 201, body }
    }

    /// `204 No Content`.
    pub fn no_content() -> (response: Response)
        ensures
            response@ == ResponseView::no_content(),
    {
        Response { status: 204, body: Body::Empty }
    }
}

impl UserError {
    /// The response that tells the caller of the error: the status code of
    /// the error kind, and its description as the body.
    pub fn to_response(&self) -> (response: Response)
        ensures
            response.status == self.http_status(),
            response.body matches Body::Error(body) && self.described_by(body),
    {
        Response { status: self.status_code(), body: Body::Error(self.to_json()) }
    }
}

} // verus!
