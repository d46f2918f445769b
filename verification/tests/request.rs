use renet2::request::{
    connect_query, extract_client_connection_req, split_after, RequestError, HTTP_CONNECT_REQ,
};
use renet2::web_socket;

#[test]
fn key_of_requests() {
    assert_eq!(HTTP_CONNECT_REQ, "creq");
}

#[test]
fn queries_are_percent_encoded() {
    assert_eq!(connect_query(&[]), "creq=");
    assert_eq!(connect_query(b"aZ09-._~"), "creq=aZ09-._~");
    assert_eq!(connect_query(&[0, 32, 37, 255, 171]), "creq=%00%20%25%FF%AB");
}

#[test]
fn requests_come_through() {
    let request: Vec<u8> = (0..=255).collect();
    let path = format!("/page?{}", connect_query(&request));
    assert_eq!(extract_client_connection_req(&path), Ok(request));
}

#[test]
fn request_is_behind_the_first_key() {
    assert_eq!(extract_client_connection_req("/?x=1&creq=ab"), Ok(b"ab".to_vec()));
    assert_eq!(extract_client_connection_req("/?creq=a&creq=b"), Ok(b"a&creq=b".to_vec()));
    assert_eq!(extract_client_connection_req("?creq="), Ok(Vec::new()));
    assert_eq!(extract_client_connection_req("/\u{e4}?creq=%41"), Ok(b"A".to_vec()));
}

#[test]
fn broken_escapes_stand_for_themselves() {
    assert_eq!(extract_client_connection_req("?creq=%4"), Ok(b"%4".to_vec()));
    assert_eq!(extract_client_connection_req("?creq=%%41+%4g%"), Ok(b"%A+%4g%".to_vec()));
    assert_eq!(extract_client_connection_req("?creq=%e4%E4"), Ok(vec![0xe4, 0xe4]));
}

#[test]
fn paths_without_request_are_refused() {
    assert_eq!(extract_client_connection_req("/creq=1"), Err(RequestError::MissingQuery));
    assert_eq!(extract_client_connection_req(""), Err(RequestError::MissingQuery));
    assert_eq!(extract_client_connection_req("/?"), Err(RequestError::MissingRequest));
    assert_eq!(extract_client_connection_req("/?cre=1"), Err(RequestError::MissingRequest));
    assert_eq!(extract_client_connection_req("/?creq"), Err(RequestError::MissingRequest));
    assert_eq!(extract_client_connection_req("/?creqs=1"), Err(RequestError::MissingRequest));
}

#[test]
fn splitting_finds_the_first_occurrence() {
    assert_eq!(split_after(b"abcabd", b"ab"), Some(&b"cabd"[..]));
    assert_eq!(split_after(b"aab", b"ab"), Some(&b""[..]));
    assert_eq!(split_after(b"a", b"ab"), None);
    assert_eq!(split_after(b"abc", b"x"), None);
    assert_eq!(split_after(b"abc", b""), Some(&b"abc"[..]));
}

#[test]
fn socket_requests_are_json() {
    assert_eq!(
        web_socket::extract_client_connection_req("ws://127.0.0.1/?creq=%5B1,2,255%5D"),
        Ok(vec![1, 2, 255])
    );
    assert_eq!(web_socket::extract_client_connection_req("/?creq=%5B%5D"), Ok(Vec::new()));
    // The key does not matter, and neither do further pairs.
    assert_eq!(web_socket::extract_client_connection_req("/?x=%5B7%5D&creq=%5B8%5D"), Ok(vec![7]));
}

#[test]
fn socket_addresses_without_request_are_refused() {
    assert_eq!(
        web_socket::extract_client_connection_req("ws://127.0.0.1/"),
        Err(RequestError::MissingQuery)
    );
    assert_eq!(web_socket::extract_client_connection_req("/?"), Err(RequestError::MissingRequest));
    assert_eq!(
        web_socket::extract_client_connection_req("/?creq=1"),
        Err(RequestError::MalformedRequest)
    );
    assert_eq!(
        web_socket::extract_client_connection_req("/?creq=%5B256%5D"),
        Err(RequestError::MalformedRequest)
    );
}

#[test]
fn request_decisions() {
    assert_eq!(web_socket::decide_request(false, true, Some(vec![1])), Err(RequestError::MissingQuery));
    assert_eq!(web_socket::decide_request(true, false, Some(vec![1])), Err(RequestError::MissingRequest));
    assert_eq!(web_socket::decide_request(true, true, None), Err(RequestError::MalformedRequest));
    assert_eq!(web_socket::decide_request(true, true, Some(vec![1])), Ok(vec![1]));
}
