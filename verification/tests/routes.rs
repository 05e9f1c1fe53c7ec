use pastebin::errors::RequestError;
use pastebin::io::{get_all_paste_ids, get_paste, store_paste, PasteStore};
use pastebin::params::{valid_device_code, DeviceCode, HostHeader};
use pastebin::routes::{
    check_auth, generate_device_code, identify, index, list_all_pastes, paste_address,
    paste_location, show_paste, submit, submit_raw,
};

fn device(code: &str) -> DeviceCode {
    DeviceCode(Some(code.to_string()))
}

#[test]
fn no_password_set_serves_everyone() {
    assert!(check_auth(None, None).is_ok());
    assert!(check_auth(Some("anything"), None).is_ok());
}

#[test]
fn password_set_serves_those_who_carry_it() {
    assert!(check_auth(Some("secret"), Some("secret")).is_ok());
    assert!(check_auth(Some(""), Some("")).is_ok());
}

#[test]
fn password_set_turns_the_others_away() {
    assert!(check_auth(None, Some("secret")).is_err());
    assert!(check_auth(Some("Secret"), Some("secret")).is_err());
    assert!(check_auth(Some("secret "), Some("secret")).is_err());
    assert!(check_auth(Some(""), Some("secret")).is_err());
}

#[test]
fn index_lists_the_six_routes() {
    let response = index();
    assert_eq!(response.message, "Bin API - A pastebin service");
    let listed: Vec<(&str, &str, &str)> = response
        .endpoints
        .iter()
        .map(|e| (e.method.as_str(), e.path.as_str(), e.description.as_str()))
        .collect();
    assert_eq!(
        listed,
        vec![
            ("GET", "/", "Get API information"),
            ("POST", "/", "Create a new paste (form data)"),
            ("PUT", "/", "Create a new paste (raw data)"),
            ("POST", "/device", "Generate a unique device code"),
            ("GET", "/all", "Get all paste IDs for your device"),
            ("GET", "/{paste}", "Get paste content by ID"),
        ]
    );
}

#[test]
fn identify_looks_at_the_password_first() {
    let none = DeviceCode(None);
    assert_eq!(identify(None, Some("pw"), &none), Err(RequestError::Unauthorized));
    assert_eq!(identify(Some("no"), Some("pw"), &device("DEVICE01")), Err(RequestError::Unauthorized));
    assert_eq!(identify(Some("pw"), Some("pw"), &none), Err(RequestError::BadRequest));
    assert_eq!(identify(None, None, &none), Err(RequestError::BadRequest));
    assert_eq!(identify(Some("pw"), Some("pw"), &device("DEVICE01")), Ok("DEVICE01"));
    assert_eq!(identify(None, None, &device("DEVICE01")), Ok("DEVICE01"));
}

#[test]
fn device_code_is_issued_to_the_authorized() {
    let store = PasteStore::new();
    let code = generate_device_code(Some("pw"), Some("pw"), &store).unwrap();
    assert!(valid_device_code(&code));
    let open = generate_device_code(None, None, &store).unwrap();
    assert!(valid_device_code(&open));
}

#[test]
fn device_code_is_refused_to_the_unauthorized() {
    let store = PasteStore::new();
    assert_eq!(generate_device_code(None, Some("pw"), &store), Err(RequestError::Unauthorized));
    assert_eq!(
        generate_device_code(Some("wrong"), Some("pw"), &store),
        Err(RequestError::Unauthorized)
    );
}

#[test]
fn listing_needs_password_and_device_code() {
    let mut store = PasteStore::new();
    store_paste(&mut store, "a".to_string(), vec![1], "DEVICE01".to_string());
    store_paste(&mut store, "b".to_string(), vec![2], "DEVICE01".to_string());
    assert_eq!(
        list_all_pastes(None, None, &device("DEVICE01"), &store),
        Ok(vec!["b".to_string(), "a".to_string()])
    );
    assert_eq!(list_all_pastes(None, None, &device("DEVICE02"), &store), Ok(Vec::new()));
    assert_eq!(
        list_all_pastes(None, Some("pw"), &device("DEVICE01"), &store),
        Err(RequestError::Unauthorized)
    );
    assert_eq!(
        list_all_pastes(Some("pw"), Some("pw"), &DeviceCode(None), &store),
        Err(RequestError::BadRequest)
    );
}

#[test]
fn paste_location_is_the_id_behind_a_slash() {
    assert_eq!(paste_location("abc"), "/abc");
    assert_eq!(paste_location(""), "/");
}

#[test]
fn paste_address_names_the_host_when_there_is_one() {
    let host = HostHeader(Some("bin.example.org".to_string()));
    assert_eq!(paste_address(&host, "abc"), "https://bin.example.org/abc\n");
    assert_eq!(paste_address(&HostHeader(None), "abc"), "/abc\n");
    assert_eq!(paste_address(&HostHeader(Some(String::new())), "x"), "https:///x\n");
}

#[test]
fn submit_files_the_content_and_tells_where() {
    let mut store = PasteStore::new();
    let mut generator = gpw::PasswordGenerator::default();
    let uri = submit(None, None, &device("DEVICE01"), b"hello".to_vec(), &mut store, &mut generator)
        .unwrap();
    assert!(uri.starts_with('/'));
    let id = &uri[1..];
    assert_eq!(get_all_paste_ids(&store, "DEVICE01"), vec![id.to_string()]);
    assert_eq!(get_paste(&store, id, "DEVICE01"), Some(b"hello".to_vec()));
}

#[test]
fn submit_files_nothing_for_a_request_turned_away() {
    let mut store = PasteStore::new();
    let mut generator = gpw::PasswordGenerator::default();
    let unauthorized = submit(
        None,
        Some("pw"),
        &device("DEVICE01"),
        b"hello".to_vec(),
        &mut store,
        &mut generator,
    );
    assert_eq!(unauthorized, Err(RequestError::Unauthorized));
    let nameless =
        submit(Some("pw"), Some("pw"), &DeviceCode(None), b"hello".to_vec(), &mut store, &mut generator);
    assert_eq!(nameless, Err(RequestError::BadRequest));
    assert_eq!(get_all_paste_ids(&store, "DEVICE01"), Vec::<String>::new());
    assert_eq!(pastebin::io::known_owners(&store), Vec::<String>::new());
}

#[test]
fn submit_raw_answers_with_one_line() {
    let mut store = PasteStore::new();
    let mut generator = gpw::PasswordGenerator::default();
    let host = HostHeader(Some("bin.example.org".to_string()));
    let line = submit_raw(
        Some("pw"),
        Some("pw"),
        b"raw bytes".to_vec(),
        &host,
        &device("DEVICE01"),
        &mut store,
        &mut generator,
    )
    .unwrap();
    let ids = get_all_paste_ids(&store, "DEVICE01");
    assert_eq!(ids.len(), 1);
    assert_eq!(line, format!("https://bin.example.org/{}\n", ids[0]));
    assert_eq!(get_paste(&store, &ids[0], "DEVICE01"), Some(b"raw bytes".to_vec()));

    let bare = submit_raw(
        None,
        None,
        b"more".to_vec(),
        &HostHeader(None),
        &device("DEVICE02"),
        &mut store,
        &mut generator,
    )
    .unwrap();
    let ids = get_all_paste_ids(&store, "DEVICE02");
    assert_eq!(bare, format!("/{}\n", ids[0]));
}

#[test]
fn submit_raw_files_nothing_for_a_request_turned_away() {
    let mut store = PasteStore::new();
    let mut generator = gpw::PasswordGenerator::default();
    let refused = submit_raw(
        Some("no"),
        Some("pw"),
        b"raw".to_vec(),
        &HostHeader(None),
        &device("DEVICE01"),
        &mut store,
        &mut generator,
    );
    assert_eq!(refused, Err(RequestError::Unauthorized));
    let nameless = submit_raw(
        None,
        None,
        b"raw".to_vec(),
        &HostHeader(None),
        &DeviceCode(None),
        &mut store,
        &mut generator,
    );
    assert_eq!(nameless, Err(RequestError::BadRequest));
    assert_eq!(pastebin::io::known_owners(&store), Vec::<String>::new());
}

#[test]
fn show_paste_ignores_the_extension() {
    let mut store = PasteStore::new();
    store_paste(&mut store, "abc".to_string(), b"fn main() {}".to_vec(), "DEVICE01".to_string());
    let me = device("DEVICE01");
    assert_eq!(show_paste(None, None, "abc", &me, &store), Ok(b"fn main() {}".to_vec()));
    assert_eq!(show_paste(None, None, "abc.rs", &me, &store), Ok(b"fn main() {}".to_vec()));
    assert_eq!(show_paste(None, None, "abc.tar.gz", &me, &store), Ok(b"fn main() {}".to_vec()));
    assert_eq!(show_paste(None, None, "abc.", &me, &store), Ok(b"fn main() {}".to_vec()));
}

#[test]
fn show_paste_refuses_strangers_and_unknown_ids_alike() {
    let mut store = PasteStore::new();
    store_paste(&mut store, "abc".to_string(), b"data".to_vec(), "DEVICE01".to_string());
    let stranger = device("DEVICE02");
    assert_eq!(show_paste(None, None, "abc", &stranger, &store), Err(RequestError::Unauthorized));
    assert_eq!(show_paste(None, None, "nope", &stranger, &store), Err(RequestError::Unauthorized));
    assert_eq!(
        show_paste(None, None, "ab", &device("DEVICE01"), &store),
        Err(RequestError::Unauthorized)
    );
}

#[test]
fn show_paste_needs_password_and_device_code() {
    let mut store = PasteStore::new();
    store_paste(&mut store, "abc".to_string(), b"data".to_vec(), "DEVICE01".to_string());
    assert_eq!(
        show_paste(None, Some("pw"), "abc", &device("DEVICE01"), &store),
        Err(RequestError::Unauthorized)
    );
    assert_eq!(
        show_paste(Some("pw"), Some("pw"), "abc", &DeviceCode(None), &store),
        Err(RequestError::BadRequest)
    );
    assert_eq!(
        show_paste(Some("pw"), Some("pw"), "abc", &device("DEVICE01"), &store),
        Ok(b"data".to_vec())
    );
}
