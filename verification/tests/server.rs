use base64::Engine;
use diaryx_sync_extism::config::{Settings, SyncExtismConfig};
use diaryx_sync_extism::http::{
    auth_headers, content_headers, http_error, parse_http_body, parse_http_body_bytes,
    parse_http_body_json, parse_http_status, HttpBody, HttpRequest, HttpResponse,
};
use diaryx_sync_extism::json::{parse, JsonValue};
use diaryx_sync_extism::server_api::{
    conclude, create_namespace, create_session, delete_object, delete_session, get_object,
    get_session, list_namespaces, list_objects, object_bytes, put_object, ApiCall,
};

fn settings(token: Option<&str>) -> Settings {
    Settings {
        config: SyncExtismConfig {
            server_url: Some("http://s/".to_string()),
            auth_token: token.map(String::from),
            workspace_id: None,
        },
        runtime: None,
    }
}

fn no_settings() -> Settings {
    Settings {
        config: SyncExtismConfig::empty(),
        runtime: None,
    }
}

fn response(status: u16, body: &str) -> Result<HttpResponse, String> {
    Ok(HttpResponse {
        status,
        body: body.to_string(),
        body_base64: None,
    })
}

fn params() -> JsonValue {
    parse("{}").unwrap()
}

fn line(request: &HttpRequest) -> String {
    format!("{} {}", request.method, request.url)
}

#[test]
fn error_messages() {
    assert_eq!(http_error(500, ""), "HTTP 500");
    assert_eq!(http_error(404, "no"), "HTTP 404: no");
}

#[test]
fn responses_are_read_back() {
    let r = HttpResponse {
        status: 207,
        body: "[1]".to_string(),
        body_base64: Some("AQI=".to_string()),
    };
    let json = r.to_json();
    assert_eq!(parse_http_status(&json), 207);
    assert_eq!(parse_http_body(&json), "[1]");
    assert_eq!(parse_http_body_json(&json).unwrap().as_array().unwrap().len(), 1);
    assert_eq!(parse_http_body_bytes(&json).unwrap(), vec![1, 2]);
    assert_eq!(
        json.into_text(),
        "{\"body\":\"[1]\",\"body_base64\":\"AQI=\",\"status\":207}"
    );
    let plain = response(200, "é").unwrap().to_json();
    assert_eq!(parse_http_body_bytes(&plain).unwrap(), vec![0xC3, 0xA9]);
    assert!(parse_http_body_json(&plain).is_none());
    let empty = HttpResponse {
        status: 200,
        body: "x".to_string(),
        body_base64: Some("".to_string()),
    }
    .to_json();
    assert!(parse_http_body_bytes(&empty).unwrap().is_empty());
    assert!(parse_http_body_json(&response(200, "").unwrap().to_json()).is_none());
    let nothing = parse("[]").unwrap();
    assert_eq!(parse_http_status(&nothing), 0);
    assert_eq!(parse_http_body(&nothing), "");
}

#[test]
fn bad_base64_is_reported() {
    let r = HttpResponse {
        status: 200,
        body: String::new(),
        body_base64: Some("???".to_string()),
    };
    let expected = base64::engine::general_purpose::STANDARD
        .decode("???")
        .unwrap_err();
    assert_eq!(
        parse_http_body_bytes(&r.to_json()).unwrap_err(),
        format!("Invalid HTTP response body_base64: {expected}")
    );
}

#[test]
fn tokens_are_shown() {
    let pair = |a: &str, b: &str| (a.to_string(), b.to_string());
    assert_eq!(
        auth_headers(&Some("t".to_string())),
        vec![
            pair("Content-Type", "application/json"),
            pair("Authorization", "Bearer t"),
        ]
    );
    assert_eq!(auth_headers(&None), vec![pair("Content-Type", "application/json")]);
    assert_eq!(
        auth_headers(&Some(" ".to_string())),
        vec![pair("Content-Type", "application/json")]
    );
    assert_eq!(
        content_headers("image/png", &Some(" ".to_string())),
        vec![
            pair("Content-Type", "image/png"),
            pair("Authorization", "Bearer  "),
        ]
    );
}

#[test]
fn requests() {
    let s = settings(Some("t"));
    let p = params();
    let request = create_namespace(&p, &s, "ns\"1").unwrap();
    assert_eq!(line(&request), "POST http://s/namespaces");
    assert!(matches!(&request.body, HttpBody::Text(t) if t == "{\"id\":\"ns\\\"1\"}"));
    assert_eq!(request.headers.len(), 2);
    assert_eq!(line(&list_namespaces(&p, &s).unwrap()), "GET http://s/namespaces");
    let put = put_object(&p, &s, "ns", "files/a.md", vec![1, 2], "text/markdown").unwrap();
    assert_eq!(line(&put), "PUT http://s/namespaces/ns/objects/files/a.md");
    assert!(matches!(&put.body, HttpBody::Bytes(b) if b == &[1, 2]));
    assert_eq!(put.headers[0].1, "text/markdown");
    assert_eq!(
        line(&get_object(&p, &s, "ns", "k").unwrap()),
        "GET http://s/namespaces/ns/objects/k"
    );
    assert_eq!(
        line(&delete_object(&p, &s, "ns", "k").unwrap()),
        "DELETE http://s/namespaces/ns/objects/k"
    );
    assert_eq!(
        line(&list_objects(&p, &s, "ns").unwrap()),
        "GET http://s/namespaces/ns/objects"
    );
    let session = create_session(&p, &s, "ns", true).unwrap();
    assert_eq!(line(&session), "POST http://s/sessions");
    assert!(matches!(
        &session.body,
        HttpBody::Text(t) if t == "{\"namespace_id\":\"ns\",\"read_only\":true}"
    ));
    assert_eq!(line(&get_session(&p, &s, "c").unwrap()), "GET http://s/sessions/c");
    assert_eq!(line(&delete_session(&p, &s, "c").unwrap()), "DELETE http://s/sessions/c");
}

#[test]
fn requests_need_a_server() {
    let s = no_settings();
    let p = params();
    for result in [
        create_namespace(&p, &s, "n"),
        list_namespaces(&p, &s),
        put_object(&p, &s, "n", "k", vec![], "t"),
        get_object(&p, &s, "n", "k"),
        delete_object(&p, &s, "n", "k"),
        list_objects(&p, &s, "n"),
        create_session(&p, &s, "n", false),
        get_session(&p, &s, "c"),
        delete_session(&p, &s, "c"),
    ] {
        assert_eq!(result.unwrap_err(), "Missing server_url");
    }
}

#[test]
fn answers() {
    let text = |call: ApiCall, status: u16, body: &str| {
        conclude(call, response(status, body)).map(|v| v.into_text())
    };
    assert_eq!(text(ApiCall::CreateNamespace, 201, "{\"id\":1}").unwrap(), "{\"id\":1}");
    assert_eq!(text(ApiCall::CreateNamespace, 200, "{\"id\":1}").unwrap(), "{\"id\":1}");
    assert_eq!(
        text(ApiCall::CreateNamespace, 200, "").unwrap_err(),
        "Invalid namespace response"
    );
    assert_eq!(text(ApiCall::ListNamespaces, 201, "[]").unwrap_err(), "HTTP 201: []");
    assert_eq!(text(ApiCall::ListNamespaces, 200, "x").unwrap_err(), "Invalid response");
    assert_eq!(text(ApiCall::PutObject, 200, "{}").unwrap(), "{}");
    assert_eq!(text(ApiCall::GetObject, 404, "no").unwrap(), "null");
    assert_eq!(text(ApiCall::GetObject, 200, "xy").unwrap(), "[120,121]");
    assert_eq!(text(ApiCall::GetObject, 200, "").unwrap(), "[]");
    assert_eq!(text(ApiCall::GetObject, 500, "").unwrap_err(), "HTTP 500");
    assert_eq!(text(ApiCall::DeleteObject, 204, "").unwrap(), "null");
    assert_eq!(text(ApiCall::DeleteObject, 404, "").unwrap_err(), "HTTP 404");
    assert_eq!(text(ApiCall::ListObjects, 404, "").unwrap_err(), "HTTP 404");
    assert_eq!(text(ApiCall::CreateSession, 200, "{}").unwrap(), "{}");
    assert_eq!(text(ApiCall::GetSession, 404, "").unwrap(), "null");
    assert_eq!(text(ApiCall::GetSession, 200, "{}").unwrap(), "{}");
    assert_eq!(text(ApiCall::DeleteSession, 200, "").unwrap(), "null");
    assert_eq!(
        conclude(ApiCall::ListObjects, Err("down".to_string())).unwrap_err(),
        "down"
    );
}

#[test]
fn objects_are_their_bytes() {
    let encoded = |status: u16, body: &str| {
        Ok(HttpResponse {
            status,
            body: "text".to_string(),
            body_base64: Some(body.to_string()),
        })
    };
    assert_eq!(object_bytes(encoded(200, "AQL/")), Ok(Some(vec![1, 2, 255])));
    assert_eq!(object_bytes(encoded(200, "")), Ok(Some(vec![])));
    assert_eq!(object_bytes(response(200, "é")), Ok(Some(vec![0xC3, 0xA9])));
    assert_eq!(object_bytes(encoded(404, "AQL/")), Ok(None));
    assert_eq!(object_bytes(encoded(403, "AQL/")), Err("HTTP 403: text".to_string()));
    assert_eq!(object_bytes(Err("down".to_string())), Err("down".to_string()));
    let e = base64::engine::general_purpose::STANDARD.decode("?").unwrap_err();
    let invalid = format!("Invalid HTTP response body_base64: {e}");
    assert_eq!(object_bytes(encoded(200, "?")), Err(invalid.clone()));
    assert_eq!(
        conclude(ApiCall::GetObject, encoded(200, "AQL/")).unwrap().into_text(),
        "[1,2,255]"
    );
    assert_eq!(
        conclude(ApiCall::GetObject, encoded(200, "?")).unwrap_err(),
        invalid
    );
}

#[test]
fn what_is_put_is_got() {
    let bytes: Vec<u8> = (0..=255).collect();
    let put = put_object(&params(), &settings(None), "n", "k", bytes.clone(), "t").unwrap();
    let stored = match put.body {
        HttpBody::Bytes(stored) => stored,
        other => panic!("{other:?}"),
    };
    let got = object_bytes(Ok(HttpResponse {
        status: 200,
        body: String::new(),
        body_base64: Some(base64::engine::general_purpose::STANDARD.encode(&stored)),
    }));
    assert_eq!(got, Ok(Some(bytes)));
}
