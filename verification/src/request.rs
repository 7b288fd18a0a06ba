//! HTTP requests.
use crate::bytes::SLASH;
use crate::error::{Error, ErrorKind};
use crate::header::{field_views, HeaderField};
use httpcodec::HttpVersion;
use url::{ParseError, Url};
use vstd::prelude::*;
use vstd::string::StringSliceAdditionalSpecFns;

verus! {

/// `httpcodec::HttpVersion`.
#[verifier::external_type_specification]
pub struct ExHttpVersion(HttpVersion);

/// `url::Url`: a parsed URL.
#[verifier::external_type_specification]
#[verifier::external_body]
pub struct ExUrl(Url);

/// `url::ParseError`: why a string is no URL.
#[verifier::external_type_specification]
#[verifier::external_body]
pub struct ExParseError(ParseError);

/// The URL that `input` is parsed to, if it is an absolute URL.
pub uninterp spec fn parsed(input: Seq<char>) -> Option<Url>;

/// The URL that `input` is parsed to with `base` as the base URL.
pub uninterp spec fn joined(base: Url, input: Seq<char>) -> Option<Url>;

/// The path of `url`.
pub uninterp spec fn path_of(url: Url) -> Seq<char>;

/// `Url::parse`: parses an absolute URL.
#[verifier::external_body]
pub(crate) fn url_parse(input: &str) -> (r: Result<Url, ParseError>)
    ensures
        r matches Ok(url) ==> parsed(input@) == Some(url),
        r is Err ==> parsed(input@) is None,
{
    Url::parse(input)
}

/// `Url::join`: parses `input` with `base` as the base URL.
#[verifier::external_body]
fn url_join(base: &Url, input: &str) -> (r: Result<Url, ParseError>)
    ensures
        r matches Ok(url) ==> joined(*base, input@) == Some(url),
        r is Err ==> joined(*base, input@) is None,
{
    base.join(input)
}

/// `Url::path`.
#[verifier::external_body]
fn url_path(url: &Url) -> (path: &str)
    ensures
        path@ == path_of(*url),
{
    url.path()
}

/// HTTP request.
///
/// `T` is the type of the request body.
pub struct Req<T> {
    method: String,
    target: String,
    version: HttpVersion,
    header: Vec<HeaderField>,
    url: Url,
    body: T,
}

impl<T> Req<T> {
    /// The method of the request.
    pub closed spec fn spec_method(&self) -> Seq<char> {
        self.method@
    }

    /// The target of the request, as it was sent.
    pub closed spec fn spec_target(&self) -> Seq<char> {
        self.target@
    }

    /// The HTTP version of the request.
    pub closed spec fn spec_version(&self) -> HttpVersion {
        self.version
    }

    /// The header of the request.
    pub closed spec fn spec_header(&self) -> Seq<(Seq<char>, Seq<char>)> {
        field_views(self.header@)
    }

    /// The URL of the request.
    pub closed spec fn spec_url(&self) -> Url {
        self.url
    }

    /// The body of the request.
    pub closed spec fn spec_body(&self) -> T {
        self.body
    }

    /// Whether a request has the head of another.
    pub open spec fn same_head<U>(&self, other: &Req<U>) -> bool {
        &&& self.spec_method() == other.spec_method()
        &&& self.spec_target() == other.spec_target()
        &&& self.spec_version() == other.spec_version()
        &&& self.spec_header() == other.spec_header()
        &&& self.spec_url() == other.spec_url()
    }

    /// Makes a request of a decoded message. Its URL is the target of the
    /// message, resolved against `base_url`.
    ///
    /// # Errors
    ///
    /// An `ErrorKind::InvalidInput` error is returned where `target` does
    /// not begin with `/`, and where it cannot be resolved.
    pub fn new(
        method: &str,
        target: &str,
        version: HttpVersion,
        header: Vec<HeaderField>,
        body: T,
        base_url: &Url,
    ) -> (r: Result<Self, Error>)
        ensures
            r is Ok <==> target.spec_bytes().len() > 0 && target.spec_bytes()[0] == SLASH && joined(
                *base_url,
                target@,
            ) is Some,
            r matches Ok(req) ==> {
                &&& req.spec_method() == method@
                &&& req.spec_target() == target@
                &&& req.spec_version() == version
                &&& req.spec_header() == field_views(header@)
                &&& req.spec_body() == body
                &&& Some(req.spec_url()) == joined(*base_url, target@)
            },
            r matches Err(e) ==> e.spec_kind() == ErrorKind::InvalidInput,
    {
        let bytes = target.as_bytes();
        if bytes.len() == 0 || bytes[0] != SLASH {
            return Err(Error::invalid_input("the target of a request has to begin with '/'"));
        }
        match url_join(base_url, target) {
            Err(_) => Err(Error::invalid_input("the target of a request is no path of an URL")),
            Ok(url) => Ok(
                Req { method: method.to_owned(), target: target.to_owned(), version, header, url, body },
            ),
        }
    }

    /// Returns the method of the request.
    pub fn method(&self) -> (method: &str)
        ensures
            method@ == self.spec_method(),
    {
        self.method.as_str()
    }

    /// Returns the target of the request, as it was sent.
    pub fn target(&self) -> (target: &str)
        ensures
            target@ == self.spec_target(),
    {
        self.target.as_str()
    }

    /// Returns the URL of the request.
    ///
    /// Note that the address of the server socket stands for the host in the URL.
    pub fn url(&self) -> (url: &Url)
        ensures
            *url == self.spec_url(),
    {
        &self.url
    }

    /// Returns the path of the URL of the request.
    pub fn path(&self) -> (path: &str)
        ensures
            path@ == path_of(self.spec_url()),
    {
        url_path(&self.url)
    }

    /// Returns the HTTP version of the request.
    pub fn version(&self) -> (version: HttpVersion)
        ensures
            version == self.spec_version(),
    {
        self.version
    }

    /// Returns the header of the request.
    pub fn header(&self) -> (header: &Vec<HeaderField>)
        ensures
            field_views(header@) == self.spec_header(),
    {
        &self.header
    }

    /// Returns a reference to the body of the request.
    pub fn body(&self) -> (body: &T)
        ensures
            *body == self.spec_body(),
    {
        &self.body
    }

    /// Takes ownership of the request, and returns its body.
    pub fn into_body(self) -> (body: T)
        ensures
            body == self.spec_body(),
    {
        self.body
    }

    /// Splits the head part and the body part of the request.
    pub fn take_body(self) -> (r: (Req<()>, T))
        ensures
            r.0.same_head(&self),
            r.1 == self.spec_body(),
    {
        let Req { method, target, version, header, url, body } = self;
        (Req { method, target, version, header, url, body: () }, body)
    }

    /// Gives the request another body.
    pub fn with_body<U>(self, body: U) -> (r: Req<U>)
        ensures
            r.same_head(&self),
            r.spec_body() == body,
    {
        let Req { method, target, version, header, url, body: _ } = self;
        Req { method, target, version, header, url, body }
    }
}

} // verus!
