//! What each route decides, from what the request carried and what the
//! store holds.

use crate::errors::{RequestError, Unauthorized};
use crate::generate::{generate_id_with, generate_unique_device_code, is_id};
use crate::io::{get_all_paste_ids, get_paste, store_paste, PasteStore};
use crate::model::{ids_newest_first, lookup, owners, stored};
use crate::params::{is_device_code, DeviceCode, HostHeader};
use crate::text::{head_before, head_of};
use gpw::PasswordGenerator;
use vstd::prelude::*;
use vstd::string::StringExecFns;

verus! {

/// One route of the service, as the index lists it.
pub struct ApiEndpoint {
    pub method: String,
    pub path: String,
    pub description: String,
}

/// What the index answers: a greeting and the routes.
pub struct IndexResponse {
    pub message: String,
    pub endpoints: Vec<ApiEndpoint>,
}

/// The three texts of a listed route.
pub struct Route {
    pub method: Seq<char>,
    pub path: Seq<char>,
    pub description: Seq<char>,
}

impl View for ApiEndpoint {
    type V = Route;

    open spec fn view(&self) -> Route {
        Route { method: self.method@, path: self.path@, description: self.description@ }
    }
}

/// The routes that the index lists, in this order.
pub open spec fn listed_routes() -> Seq<Route> {
    seq![
        Route { method: "GET"@, path: "/"@, description: "Get API information"@ },
        Route { method: "POST"@, path: "/"@, description: "Create a new paste (form data)"@ },
        Route { method: "PUT"@, path: "/"@, description: "Create a new paste (raw data)"@ },
        Route { method: "POST"@, path: "/device"@, description: "Generate a unique device code"@ },
        Route { method: "GET"@, path: "/all"@, description: "Get all paste IDs for your device"@ },
        Route { method: "GET"@, path: "/{paste}"@, description: "Get paste content by ID"@ },
    ]
}

fn endpoint(method: &str, path: &str, description: &str) -> (listed: ApiEndpoint)
    ensures
        listed@ == (Route { method: method@, path: path@, description: description@ }),
{
    ApiEndpoint {
        method: method.to_owned(),
        path: path.to_owned(),
        description: description.to_owned(),
    }
}

/// The answer to a request for the index.
pub fn index() -> (response: IndexResponse)
    ensures
        response.message@ == "Bin API - A pastebin service"@,
        response.endpoints@.map_values(|e: ApiEndpoint| e@) == listed_routes(),
{
    let mut endpoints: Vec<ApiEndpoint> = Vec::new();
    endpoints.push(endpoint("GET", "/", "Get API information"));
    endpoints.push(endpoint("POST", "/", "Create a new paste (form data)"));
    endpoints.push(endpoint("PUT", "/", "Create a new paste (raw data)"));
    endpoints.push(endpoint("POST", "/device", "Generate a unique device code"));
    endpoints.push(endpoint("GET", "/all", "Get all paste IDs for your device"));
    endpoints.push(endpoint("GET", "/{paste}", "Get paste content by ID"));
    assert(endpoints@.map_values(|e: ApiEndpoint| e@) =~= listed_routes());
    IndexResponse { message: "Bin API - A pastebin service".to_owned(), endpoints }
}

/// Whether a request that carries the password `provided` may be served
/// where the password `required` is set: a service without a password
/// serves everyone, one with a password those who carry it.
pub open spec fn is_authorized(provided: Option<Seq<char>>, required: Option<Seq<char>>) -> bool {
    required is Some ==> provided == required
}

/// Checks the password that a request carries against the one that is set.
pub fn check_auth(provided_password: Option<&str>, required_password: Option<&str>) -> (outcome:
    Result<(), Unauthorized>)
    ensures
        outcome is Ok <==> is_authorized(
            provided_password.deep_view(),
            required_password.deep_view(),
        ),
{
    match required_password {
        Some(password) => {
            match provided_password {
                Some(provided) => {
                    if *provided == *password {
                        return Ok(());
                    }
                },
                None => {},
            }
            Err(Unauthorized)
        },
        None => Ok(()),
    }
}

/// The device on whose behalf a request is served, or why it is not served:
/// the password is looked at first, then the device code.
pub open spec fn sender(
    provided: Option<Seq<char>>,
    required: Option<Seq<char>>,
    device_code: Option<Seq<char>>,
) -> Result<Seq<char>, RequestError> {
    if !is_authorized(provided, required) {
        Err(RequestError::Unauthorized)
    } else if device_code is None {
        Err(RequestError::BadRequest)
    } else {
        Ok(device_code->0)
    }
}

/// Finds the device on whose behalf a request is served, as [`sender`] says.
pub fn identify<'a>(
    provided_password: Option<&str>,
    required_password: Option<&str>,
    device_code: &'a DeviceCode,
) -> (outcome: Result<&'a str, RequestError>)
    ensures
        match sender(
            provided_password.deep_view(),
            required_password.deep_view(),
            device_code.0.deep_view(),
        ) {
            Ok(code) => outcome matches Ok(found) && found@ == code,
            Err(e) => outcome == Err::<&str, RequestError>(e),
        },
{
    match check_auth(provided_password, required_password) {
        Ok(()) => {},
        Err(_) => {
            return Err(RequestError::Unauthorized);
        },
    }
    match &device_code.0 {
        Some(code) => Ok(code.as_str()),
        None => Err(RequestError::BadRequest),
    }
}

/// Issues a device code that no stored paste is owned by, to a request that
/// may be served.
pub fn generate_device_code(
    provided_password: Option<&str>,
    required_password: Option<&str>,
    store: &PasteStore,
) -> (outcome: Result<String, RequestError>)
    ensures
        match outcome {
            Ok(code) => {
                &&& is_authorized(provided_password.deep_view(), required_password.deep_view())
                &&& is_device_code(code@)
                &&& !owners(store@).contains(code@)
            },
            Err(e) => e == if is_authorized(
                provided_password.deep_view(),
                required_password.deep_view(),
            ) {
                RequestError::InternalServerError
            } else {
                RequestError::Unauthorized
            },
        },
{
    match check_auth(provided_password, required_password) {
        Ok(()) => {},
        Err(_) => {
            return Err(RequestError::Unauthorized);
        },
    }
    match generate_unique_device_code(store) {
        Some(device_code) => Ok(device_code),
        None => Err(RequestError::InternalServerError),
    }
}

/// Lists the identifiers of the sender's pastes, newest first.
pub fn list_all_pastes(
    provided_password: Option<&str>,
    required_password: Option<&str>,
    device_code: &DeviceCode,
    store: &PasteStore,
) -> (outcome: Result<Vec<String>, RequestError>)
    ensures
        match sender(
            provided_password.deep_view(),
            required_password.deep_view(),
            device_code.0.deep_view(),
        ) {
            Ok(code) => outcome matches Ok(ids) && ids.deep_view() == ids_newest_first(
                store@,
                code,
            ),
            Err(e) => outcome == Err::<Vec<String>, RequestError>(e),
        },
{
    match identify(provided_password, required_password, device_code) {
        Ok(code) => Ok(get_all_paste_ids(store, code)),
        Err(e) => Err(e),
    }
}

/// Where a paste is found: its identifier behind a `/`.
pub open spec fn location_of(id: Seq<char>) -> Seq<char> {
    "/"@ + id
}

/// The line that answers a raw submission: where the paste is found, with
/// the host before it where the request named one.
pub open spec fn address_of(host: Option<Seq<char>>, id: Seq<char>) -> Seq<char> {
    match host {
        Some(host) => "https://"@ + host + "/"@ + id + "\n"@,
        None => "/"@ + id + "\n"@,
    }
}

/// Where the paste filed under `id` is found.
pub fn paste_location(id: &str) -> (uri: String)
    ensures
        uri@ == location_of(id@),
{
    let mut uri = "/".to_owned();
    uri.append(id);
    uri
}

/// The line that tells where the paste filed under `id` is found.
pub fn paste_address(host: &HostHeader, id: &str) -> (uri: String)
    ensures
        uri@ == address_of(host.0.deep_view(), id@),
{
    match &host.0 {
        Some(host) => {
            let mut uri = "https://".to_owned();
            uri.append(host.as_str());
            uri.append("/");
            uri.append(id);
            uri.append("\n");
            uri
        },
        None => {
            let mut uri = "/".to_owned();
            uri.append(id);
            uri.append("\n");
            uri
        },
    }
}

/// Files the content of a form submission under a new identifier and tells
/// where it is found. Nothing is filed for a request that is turned away.
pub fn submit(
    provided_password: Option<&str>,
    required_password: Option<&str>,
    device_code: &DeviceCode,
    content: Vec<u8>,
    store: &mut PasteStore,
    generator: &mut PasswordGenerator,
) -> (outcome: Result<String, RequestError>)
    ensures
        match sender(
            provided_password.deep_view(),
            required_password.deep_view(),
            device_code.0.deep_view(),
        ) {
            Ok(code) => outcome matches Ok(uri) && exists|id: Seq<char>|
                {
                    &&& is_id(id)
                    &&& uri@ == location_of(id)
                    &&& final(store)@ == #[trigger] stored(old(store)@, id, content@, code)
                },
            Err(e) => outcome == Err::<String, RequestError>(e) && final(store)@ == old(store)@,
        },
{
    match identify(provided_password, required_password, device_code) {
        Ok(code) => {
            let id = generate_id_with(generator);
            let uri = paste_location(id.as_str());
            store_paste(store, id, content, code.to_owned());
            Ok(uri)
        },
        Err(e) => Err(e),
    }
}

/// Files the body of a raw submission under a new identifier and tells in
/// one line where it is found. Nothing is filed for a request that is turned
/// away.
pub fn submit_raw(
    provided_password: Option<&str>,
    required_password: Option<&str>,
    content: Vec<u8>,
    host: &HostHeader,
    device_code: &DeviceCode,
    store: &mut PasteStore,
    generator: &mut PasswordGenerator,
) -> (outcome: Result<String, RequestError>)
    ensures
        match sender(
            provided_password.deep_view(),
            required_password.deep_view(),
            device_code.0.deep_view(),
        ) {
            Ok(code) => outcome matches Ok(uri) && exists|id: Seq<char>|
                {
                    &&& is_id(id)
                    &&& uri@ == address_of(host.0.deep_view(), id)
                    &&& final(store)@ == #[trigger] stored(old(store)@, id, content@, code)
                },
            Err(e) => outcome == Err::<String, RequestError>(e) && final(store)@ == old(store)@,
        },
{
    match identify(provided_password, required_password, device_code) {
        Ok(code) => {
            let id = generate_id_with(generator);
            let uri = paste_address(host, id.as_str());
            store_paste(store, id, content, code.to_owned());
            Ok(uri)
        },
        Err(e) => Err(e),
    }
}

/// The content of the paste that a path names, for its owner. The path is
/// the paste's identifier, with or without an extension behind a `.`; the
/// extension plays no part. A paste that is not there and one that is
/// another device's are refused alike.
pub fn show_paste(
    provided_password: Option<&str>,
    required_password: Option<&str>,
    key: &str,
    device_code: &DeviceCode,
    store: &PasteStore,
) -> (outcome: Result<Vec<u8>, RequestError>)
    ensures
        match sender(
            provided_password.deep_view(),
            required_password.deep_view(),
            device_code.0.deep_view(),
        ) {
            Ok(code) => match lookup(store@, head_of(key@, '.'), code) {
                Some(content) => outcome matches Ok(body) && body@ == content,
                None => outcome == Err::<Vec<u8>, RequestError>(RequestError::Unauthorized),
            },
            Err(e) => outcome == Err::<Vec<u8>, RequestError>(e),
        },
{
    match identify(provided_password, required_password, device_code) {
        Ok(code) => {
            let id = head_before(key, '.');
            match get_paste(store, id, code) {
                Some(entry) => Ok(entry),
                None => Err(RequestError::Unauthorized),
            }
        },
        Err(e) => Err(e),
    }
}

} // verus!
