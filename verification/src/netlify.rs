//! The hosting provider's API as the publishing pipeline uses it: the
//! client's identity, the requests it makes, and how replies are read.

pub use crate::manifest::FileHashes;

use crate::driftwood::{site_path, SiteDetails};
use crate::manifest::{artifacts_view, build_manifest, index_path, manifest_entries, Artifact};
use crate::text::{decimal, decimal_string, join_text, same_text};
use vstd::prelude::*;

verus! {

/// Why a login attempt produced no authorization code.
#[derive(Debug)]
pub enum LoginError {
    /// The loopback listener could not be bound, or accepting failed.
    IoError(String),
    /// The system browser could not be opened on the login page.
    BrowserOpenError,
    /// The callback was malformed.
    ParseError,
    /// No callback arrived within the deadline.
    TimeoutError,
    /// The listener could not hand the callback over.
    ChannelError,
}

/// A [`LoginError`] as the contracts see it.
pub enum LoginErrorView {
    IoError(Seq<char>),
    BrowserOpenError,
    ParseError,
    TimeoutError,
    ChannelError,
}

impl View for LoginError {
    type V = LoginErrorView;

    open spec fn view(&self) -> LoginErrorView {
        match *self {
            LoginError::IoError(reason) => LoginErrorView::IoError(reason@),
            LoginError::BrowserOpenError => LoginErrorView::BrowserOpenError,
            LoginError::ParseError => LoginErrorView::ParseError,
            LoginError::TimeoutError => LoginErrorView::TimeoutError,
            LoginError::ChannelError => LoginErrorView::ChannelError,
        }
    }
}

impl LoginError {
    /// The error's name, with the reason in brackets where it carries one.
    pub open spec fn description(error: LoginErrorView) -> Seq<char> {
        match error {
            LoginErrorView::IoError(reason) => "IoError("@ + reason + ")"@,
            LoginErrorView::BrowserOpenError => "BrowserOpenError"@,
            LoginErrorView::ParseError => "ParseError"@,
            LoginErrorView::TimeoutError => "TimeoutError"@,
            LoginErrorView::ChannelError => "ChannelError"@,
        }
    }

    /// The error in words, for messages.
    pub fn describe(&self) -> (r: String)
        ensures
            r@ == Self::description(self@),
    {
        match self {
            LoginError::IoError(reason) => {
                let mut out = join_text("IoError(", reason.as_str());
                out.append(")");
                out
            },
            LoginError::BrowserOpenError => String::from_str("BrowserOpenError"),
            LoginError::ParseError => String::from_str("ParseError"),
            LoginError::TimeoutError => String::from_str("TimeoutError"),
            LoginError::ChannelError => String::from_str("ChannelError"),
        }
    }
}

/// A certificate to provision for a site, in the provider's terms.
#[derive(Debug)]
pub struct SslCert {
    pub cert: Option<String>,
    pub key: Option<String>,
    pub ca_cert: Option<String>,
}

/// Why a call of the provider's API gave no result.
#[derive(Debug)]
pub enum ApiError {
    /// The request was not sent, or no reply came back.
    Transport(String),
    /// The provider replied with a status outside 200 to 299.
    RemoteApi { status: u16, body: String },
    /// The provider's reply could not be read as what was asked for.
    Protocol,
}

/// An [`ApiError`] as the contracts see it.
pub enum ApiErrorView {
    Transport(Seq<char>),
    RemoteApi { status: u16, body: Seq<char> },
    Protocol,
}

impl ApiError {
    /// The error in words.
    pub open spec fn description(error: ApiErrorView) -> Seq<char> {
        match error {
            ApiErrorView::Transport(reason) => "> Request failed: "@ + reason,
            ApiErrorView::RemoteApi { status, body } => "> Request failed: "@ + decimal(
                status as nat,
            ),
            ApiErrorView::Protocol => "> Request failed: the reply could not be read"@,
        }
    }

    /// The error in words, for messages.
    pub fn describe(&self) -> (r: String)
        ensures
            r@ == Self::description(self@),
    {
        match self {
            ApiError::Transport(reason) => join_text("> Request failed: ", reason.as_str()),
            ApiError::RemoteApi { status, body } => join_text(
                "> Request failed: ",
                decimal_string(*status as usize).as_str(),
            ),
            ApiError::Protocol => String::from_str("> Request failed: the reply could not be read"),
        }
    }
}

impl View for ApiError {
    type V = ApiErrorView;

    open spec fn view(&self) -> ApiErrorView {
        match *self {
            ApiError::Transport(reason) => ApiErrorView::Transport(reason@),
            ApiError::RemoteApi { status, body } => ApiErrorView::RemoteApi { status, body: body@ },
            ApiError::Protocol => ApiErrorView::Protocol,
        }
    }
}

/// The method of a request.
#[derive(Debug, Clone, Copy, PartialEq, Eq, Structural)]
pub enum Method {
    Get,
    Post,
    Put,
    Patch,
    Delete,
}

/// What a request carries as its body.
#[derive(Debug)]
pub enum Payload {
    /// No body.
    Empty,
    /// The JSON value `null`.
    Null,
    /// This site, as JSON.
    Site(SiteDetails),
    /// This manifest, as JSON of the form
    /// `{"files": {<path>: <digest>, ...}}`.
    Manifest(FileHashes),
    /// The raw bytes of the local file at this path.
    File(String),
}

/// A request to the provider, ready to be sent with the client's token as
/// bearer and the client's user agent.
#[derive(Debug)]
pub struct ApiRequest {
    pub method: Method,
    pub url: String,
    pub payload: Payload,
    /// Whether the request declares its content as JSON.
    pub json_content_type: bool,
}

/// The client of the provider's API: who it says it is, the bearer token it
/// presents, and the base address of the API, which ends in a slash.
#[derive(Debug)]
pub struct Netlify {
    user_agent: String,
    token: String,
    url: String,
}

/// The user agent that the client presents.
pub open spec fn user_agent() -> Seq<char> {
    "driftwood/0.1.0"@
}

/// Whether the HTTP status `status` reports success.
pub open spec fn is_success(status: u16) -> bool {
    200 <= status <= 299
}

/// Whether the HTTP status `status` reports success.
pub fn status_is_success(status: u16) -> (r: bool)
    ensures
        r == is_success(status),
{
    200 <= status && status <= 299
}

/// The status by which the provider turns down, among others, a site name
/// that is already taken.
pub const UNPROCESSABLE_ENTITY: u16 = 422;

/// What is said of a local file that should be uploaded and is not there.
pub open spec fn missing_file_message(path: Seq<char>) -> Seq<char> {
    "> "@ + path + " not found"@
}

/// What is said of a site directory that holds no root document.
pub open spec fn missing_root_message(site_path: Seq<char>) -> Seq<char> {
    "> index.html not found in "@ + site_path
}

/// The local file that holds the artifact recorded under the manifest path
/// `file_path`, for the site named `site_name` with the identifier `site_id`.
pub open spec fn artifact_location(
    site_name: Seq<char>,
    site_id: Seq<char>,
    file_path: Seq<char>,
) -> Seq<char> {
    if file_path == index_path() {
        site_path(site_name, site_id) + "/index.html"@
    } else {
        site_path(site_name, site_id) + file_path
    }
}

impl Netlify {
    /// The user agent that the client presents.
    pub closed spec fn spec_user_agent(&self) -> Seq<char> {
        self.user_agent@
    }

    /// The bearer token that the client presents.
    pub closed spec fn spec_token(&self) -> Seq<char> {
        self.token@
    }

    /// The base address of the API.
    pub closed spec fn spec_url(&self) -> Seq<char> {
        self.url@
    }

    /// The client for the API at `base_url`, given what the login came to:
    /// the token, or why there is none.
    pub fn new(base_url: String, login: Result<String, String>) -> (r: Result<Netlify, String>)
        ensures
            match login {
                Ok(token) => r is Ok && r->Ok_0.spec_token() == token@ && r->Ok_0.spec_url()
                    == base_url@ && r->Ok_0.spec_user_agent() == user_agent(),
                Err(reason) => r is Err && r->Err_0@ == "> Failed to get token: "@ + reason@,
            },
    {
        match login {
            Ok(token) => Ok(
                Netlify { user_agent: String::from_str("driftwood/0.1.0"), token, url: base_url },
            ),
            Err(reason) => Err(join_text("> Failed to get token: ", reason.as_str())),
        }
    }

    /// The user agent that the client presents.
    pub fn user_agent(&self) -> (r: &String)
        ensures
            r@ == self.spec_user_agent(),
    {
        &self.user_agent
    }

    /// The bearer token that the client presents.
    pub fn token(&self) -> (r: &String)
        ensures
            r@ == self.spec_token(),
    {
        &self.token
    }

    /// The base address of the API.
    pub fn url(&self) -> (r: &String)
        ensures
            r@ == self.spec_url(),
    {
        &self.url
    }

    /// What a finished login attempt comes to for the caller: the token, or
    /// a message that says at which stage the attempt failed.
    pub fn attempt_login(
        login: Result<(), LoginError>,
        exchange: Result<String, String>,
    ) -> (r: Result<String, String>)
        ensures
            match (login, exchange) {
                (Err(error), _) => r is Err && r->Err_0@ == "Failed to trigger login: "@
                    + LoginError::description(error@),
                (Ok(_), Err(reason)) => r is Err && r->Err_0@
                    == "Failed to exchange code for token: "@ + reason@,
                (Ok(_), Ok(token)) => r is Ok && r->Ok_0@ == token@,
            },
    {
        match login {
            Err(error) => Err(join_text("Failed to trigger login: ", error.describe().as_str())),
            Ok(_) => match exchange {
                Ok(token) => Ok(token),
                Err(reason) => Err(join_text("Failed to exchange code for token: ", reason.as_str())),
            },
        }
    }

    /// The request that reads the site with the identifier `id`.
    pub fn get_site_details(&self, id: &str) -> (r: ApiRequest)
        ensures
            r.method == Method::Get,
            r.url@ == self.spec_url() + "sites/"@ + id@,
            r.payload is Empty,
            !r.json_content_type,
    {
        let mut url = join_text(self.url.as_str(), "sites/");
        url.append(id);
        ApiRequest {
            method: Method::Get,
            url,
            payload: Payload::Empty,
            json_content_type: false,
        }
    }

    /// The request that lists the user's sites.
    pub fn get_sites(&self) -> (r: ApiRequest)
        ensures
            r.method == Method::Get,
            r.url@ == self.spec_url() + "sites"@,
            r.payload is Empty,
            !r.json_content_type,
    {
        ApiRequest {
            method: Method::Get,
            url: join_text(self.url.as_str(), "sites"),
            payload: Payload::Empty,
            json_content_type: false,
        }
    }

    /// The request that creates the site `new_site`.
    pub fn create_site(&self, new_site: SiteDetails) -> (r: ApiRequest)
        ensures
            r.method == Method::Post,
            r.url@ == self.spec_url() + "sites"@,
            r.payload == Payload::Site(new_site),
            r.json_content_type,
    {
        ApiRequest {
            method: Method::Post,
            url: join_text(self.url.as_str(), "sites"),
            payload: Payload::Site(new_site),
            json_content_type: true,
        }
    }

    /// The request that gives the site `existing_site_details` the details
    /// `new_site_details`.
    pub fn update_site(
        &self,
        existing_site_details: &SiteDetails,
        new_site_details: SiteDetails,
    ) -> (r: ApiRequest)
        requires
            existing_site_details.id is Some,
        ensures
            r.method == Method::Patch,
            r.url@ == self.spec_url() + "sites/"@ + existing_site_details.id->0@,
            r.payload == Payload::Site(new_site_details),
            r.json_content_type,
    {
        let mut url = join_text(self.url.as_str(), "sites/");
        url.append(site_id(existing_site_details));
        ApiRequest {
            method: Method::Patch,
            url,
            payload: Payload::Site(new_site_details),
            json_content_type: true,
        }
    }

    /// The request that deletes the site `site_details`.
    pub fn delete_site(&self, site_details: &SiteDetails) -> (r: ApiRequest)
        requires
            site_details.id is Some,
        ensures
            r.method == Method::Delete,
            r.url@ == self.spec_url() + "sites/"@ + site_details.id->0@,
            r.payload is Null,
            r.json_content_type,
    {
        let mut url = join_text(self.url.as_str(), "sites/");
        url.append(site_id(site_details));
        ApiRequest {
            method: Method::Delete,
            url,
            payload: Payload::Null,
            json_content_type: true,
        }
    }

    /// The request that submits the manifest `file_hashes` for the site
    /// `site_details` and so opens a deploy.
    pub fn send_file_checksums(&self, site_details: &SiteDetails, file_hashes: &FileHashes) -> (r:
        ApiRequest)
        requires
            site_details.id is Some,
        ensures
            r.method == Method::Post,
            r.url@ == self.spec_url() + "sites/"@ + site_details.id->0@ + "/deploys"@,
            r.payload is Manifest,
            r.payload->Manifest_0.entries() == file_hashes.entries(),
            r.json_content_type,
    {
        let mut url = join_text(self.url.as_str(), "sites/");
        url.append(site_id(site_details));
        url.append("/deploys");
        ApiRequest {
            method: Method::Post,
            url,
            payload: Payload::Manifest(file_hashes.duplicate()),
            json_content_type: true,
        }
    }

    /// The local file that holds the artifact recorded under the manifest
    /// path `file_path`.
    pub fn artifact_path(site_name: &str, site_id: &str, file_path: &str) -> (r: String)
        ensures
            r@ == artifact_location(site_name@, site_id@, file_path@),
    {
        let mut local = join_text("sites/", site_name);
        local.append("_");
        local.append(site_id);
        if same_text(file_path, "/index.html") {
            local.append("/index.html");
        } else {
            local.append(file_path);
        }
        local
    }

    /// The request that uploads, into the deploy `deploy_id`, the artifact
    /// recorded under the manifest path `file_path`: where it goes, and which
    /// local file holds its bytes. `file_exists` tells whether that file, as
    /// [`Netlify::artifact_path`] names it, is there: where it is not, no
    /// request is made, and the error names the file.
    pub fn upload_file(
        &self,
        site_name: &str,
        site_id: &str,
        deploy_id: &str,
        file_path: &str,
        file_exists: bool,
    ) -> (r: Result<ApiRequest, String>)
        ensures
            match r {
                Ok(request) => {
                    &&& file_exists
                    &&& request.method == Method::Put
                    &&& request.url@ == self.spec_url() + "deploys/"@ + deploy_id@ + "/files"@
                        + file_path@
                    &&& request.payload is File
                    &&& request.payload->File_0@ == artifact_location(
                        site_name@,
                        site_id@,
                        file_path@,
                    )
                    &&& request.json_content_type
                },
                Err(message) => !file_exists && message@ == missing_file_message(
                    artifact_location(site_name@, site_id@, file_path@),
                ),
            },
    {
        let local = Self::artifact_path(site_name, site_id, file_path);
        if !file_exists {
            let mut message = join_text("> ", local.as_str());
            message.append(" not found");
            return Err(message);
        }
        let mut url = join_text(self.url.as_str(), "deploys/");
        url.append(deploy_id);
        url.append("/files");
        url.append(file_path);
        Ok(
            ApiRequest {
                method: Method::Put,
                url,
                payload: Payload::File(local),
                json_content_type: true,
            },
        )
    }

    /// The request that provisions the certificate `ssl_details` for the site
    /// `site_details`.
    pub fn provision_ssl(&self, site_details: &SiteDetails, ssl_details: &SslCert) -> (r:
        ApiRequest)
        requires
            site_details.id is Some,
            ssl_details.cert is Some,
            ssl_details.key is Some,
            ssl_details.ca_cert is Some,
        ensures
            r.method == Method::Post,
            r.url@ == self.spec_url() + "sites/"@ + site_details.id->0@ + "/ssl?certificate="@
                + ssl_details.cert->0@ + "&key="@ + ssl_details.key->0@ + "&ca_certificates="@
                + ssl_details.ca_cert->0@,
            r.payload is Null,
            r.json_content_type,
    {
        let mut url = join_text(self.url.as_str(), "sites/");
        url.append(site_id(site_details));
        url.append("/ssl?certificate=");
        url.append(text_or_empty(&ssl_details.cert));
        url.append("&key=");
        url.append(text_or_empty(&ssl_details.key));
        url.append("&ca_certificates=");
        url.append(text_or_empty(&ssl_details.ca_cert));
        ApiRequest {
            method: Method::Post,
            url,
            payload: Payload::Null,
            json_content_type: true,
        }
    }

    /// Reads the provider's reply to a request for one site: the site on a
    /// status of success and a body that parsed, else the error.
    pub fn read_object_response(
        reply: Result<(u16, String), String>,
        parsed: Option<SiteDetails>,
    ) -> (r: Result<SiteDetails, ApiError>)
        ensures
            match reply {
                Err(reason) => r is Err && r->Err_0@ == ApiErrorView::Transport(reason@),
                Ok((status, body)) => if !is_success(status) {
                    r is Err && r->Err_0@ == (ApiErrorView::RemoteApi { status, body: body@ })
                } else if parsed is None {
                    r is Err && r->Err_0@ == ApiErrorView::Protocol
                } else {
                    r == Ok::<SiteDetails, ApiError>(parsed->0)
                },
            },
    {
        match reply {
            Err(reason) => Err(ApiError::Transport(reason)),
            Ok((status, body)) => {
                if !status_is_success(status) {
                    Err(ApiError::RemoteApi { status, body })
                } else {
                    match parsed {
                        Some(site) => Ok(site),
                        None => Err(ApiError::Protocol),
                    }
                }
            },
        }
    }

    /// Reads the provider's reply to a request for a list of sites: the list
    /// on a status of success and a body that parsed, else the error.
    pub fn read_array_response(
        reply: Result<(u16, String), String>,
        parsed: Option<Vec<SiteDetails>>,
    ) -> (r: Result<Vec<SiteDetails>, ApiError>)
        ensures
            match reply {
                Err(reason) => r is Err && r->Err_0@ == ApiErrorView::Transport(reason@),
                Ok((status, body)) => if !is_success(status) {
                    r is Err && r->Err_0@ == (ApiErrorView::RemoteApi { status, body: body@ })
                } else if parsed is None {
                    r is Err && r->Err_0@ == ApiErrorView::Protocol
                } else {
                    r == Ok::<Vec<SiteDetails>, ApiError>(parsed->0)
                },
            },
    {
        match reply {
            Err(reason) => Err(ApiError::Transport(reason)),
            Ok((status, body)) => {
                if !status_is_success(status) {
                    Err(ApiError::RemoteApi { status, body })
                } else {
                    match parsed {
                        Some(sites) => Ok(sites),
                        None => Err(ApiError::Protocol),
                    }
                }
            },
        }
    }

    /// Reads the provider's reply to a request that provisions a certificate:
    /// `true` on a status of success and a body that is JSON, else the error.
    pub fn read_ssl_response(reply: Result<(u16, String), String>, body_is_json: bool) -> (r: Result<
        bool,
        ApiError,
    >)
        ensures
            match reply {
                Err(reason) => r is Err && r->Err_0@ == ApiErrorView::Transport(reason@),
                Ok((status, body)) => if !is_success(status) {
                    r is Err && r->Err_0@ == (ApiErrorView::RemoteApi { status, body: body@ })
                } else if !body_is_json {
                    r is Err && r->Err_0@ == ApiErrorView::Protocol
                } else {
                    r == Ok::<bool, ApiError>(true)
                },
            },
    {
        match reply {
            Err(reason) => Err(ApiError::Transport(reason)),
            Ok((status, body)) => {
                if !status_is_success(status) {
                    Err(ApiError::RemoteApi { status, body })
                } else if !body_is_json {
                    Err(ApiError::Protocol)
                } else {
                    Ok(true)
                }
            },
        }
    }

    /// The manifest of the rendered site in the directory `site_path`, from
    /// the bytes of its root document and the files of its posts directory.
    /// Where the site has no root document, `index` is `None`: no manifest is
    /// made, and the error names the document and the directory.
    pub fn generate_sha1_for_posts(site_path: &str, index: Option<&[u8]>, posts: &Vec<Artifact>) -> (r:
        Result<FileHashes, String>)
        ensures
            match index {
                Some(bytes) => r is Ok && r->Ok_0.wf() && r->Ok_0.entries() == manifest_entries(
                    bytes@,
                    artifacts_view(posts@),
                ),
                None => r is Err && r->Err_0@ == missing_root_message(site_path@),
            },
    {
        match index {
            Some(bytes) => Ok(build_manifest(bytes, posts)),
            None => Err(join_text("> index.html not found in ", site_path)),
        }
    }
}

/// The identifier of a site that has one.
fn site_id(site: &SiteDetails) -> (r: &str)
    requires
        site.id is Some,
    ensures
        r@ == site.id->0@,
{
    text_or_empty(&site.id)
}

/// The text that `text` holds, or the empty text.
fn text_or_empty(text: &Option<String>) -> (r: &str)
    ensures
        r@ == match *text {
            Some(t) => t@,
            None => Seq::<char>::empty(),
        },
{
    match text {
        Some(t) => t.as_str(),
        None => {
            let empty = "";
            proof {
                reveal_strlit("");
                assert(empty@ =~= Seq::<char>::empty());
            }
            empty
        },
    }
}

} // verus!
