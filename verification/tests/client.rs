use collab_duplicator::client::{Body, Client, Method, Request, CREATE_COLLAB_TIMEOUT_SECS};

fn client() -> Client {
    Client { base_url: "https://host".to_string() }
}

fn s(text: &str) -> String {
    text.to_string()
}

#[test]
fn create_collab_posts_compressed_with_a_minute_of_patience() {
    assert_eq!(CREATE_COLLAB_TIMEOUT_SECS, 60);
    assert_eq!(client().create_collab(&s("w"), &s("o")), Request {
        method: Method::Post,
        url: s("https://host/api/workspace/w/collab/o"),
        body: Body::Compressed,
        timeout_secs: Some(60),
    });
}

#[test]
fn update_and_delete_share_the_address_of_the_collab() {
    assert_eq!(client().update_collab(&s("w"), &s("o")), Request {
        method: Method::Put,
        url: s("https://host/api/workspace/w/collab/o"),
        body: Body::Json,
        timeout_secs: None,
    });
    assert_eq!(client().delete_collab(&s("w"), &s("o")), Request {
        method: Method::Delete,
        url: s("https://host/api/workspace/w/collab/o"),
        body: Body::Json,
        timeout_secs: None,
    });
}

#[test]
fn update_web_collab_posts_to_the_web_update_address() {
    assert_eq!(client().update_web_collab(&s("w"), &s("o")), Request {
        method: Method::Post,
        url: s("https://host/api/workspace/v1/w/collab/o/web-update"),
        body: Body::Json,
        timeout_secs: None,
    });
}

#[test]
fn batch_requests_go_to_the_collab_list() {
    let url = s("https://host/api/workspace/w/collab_list");
    assert_eq!(client().batch_post_collab(&s("w")), Request {
        method: Method::Post,
        url: url.clone(),
        body: Body::Json,
        timeout_secs: None,
    });
    assert_eq!(client().batch_get_collab(&s("w")), Request {
        method: Method::Get,
        url: url.clone(),
        body: Body::Json,
        timeout_secs: None,
    });
    assert_eq!(client().send_batch_collab_request(Method::Put, &s("w")).method, Method::Put);
}

#[test]
fn list_databases_gets_without_a_body() {
    assert_eq!(client().list_databases(&s("w")), Request {
        method: Method::Get,
        url: s("https://host/api/workspace/w/database"),
        body: Body::Empty,
        timeout_secs: None,
    });
}
