use cid_digest::service::{
    check_status, finish_request, payload, respond_failure, respond_with_digest, start_request,
    Failure, FetchError, Payload, Reply, Response, Step,
};

const HELLO_TEXT: &str = "mAVUSICzyTbpfsKMOJug7KsW54p4bFh5cH6dCXnMEM2KTi5gk";

#[test]
fn request_with_url_is_fetched() {
    let step = start_request(Some("https://example.test/ok".to_string()));
    assert_eq!(step, Step::Fetch("https://example.test/ok".to_string()));
}

#[test]
fn request_without_url_is_bad_request() {
    let step = start_request(None);
    match step {
        Step::Respond(r) => {
            assert_eq!(r.status, 400);
            assert_eq!(r.reply, Reply::Failure(Failure::MissingUrl));
            assert_eq!(
                payload(&r),
                Payload::Error("Missing required field: url".to_string())
            );
        }
        Step::Fetch(_) => panic!("a request without a URL must not be fetched"),
    }
}

#[test]
fn fetched_hello_gives_its_digest() {
    let r = finish_request(Ok(b"hello".to_vec()));
    assert_eq!(
        r,
        Response {
            status: 200,
            reply: Reply::Digest(HELLO_TEXT.to_string())
        }
    );
    assert_eq!(payload(&r), Payload::DigestMultibase(HELLO_TEXT.to_string()));
}

#[test]
fn not_found_is_a_fetch_failure() {
    assert_eq!(check_status(404), Err(FetchError::Status(404)));
    let r = finish_request(Err(FetchError::Status(404)));
    assert_eq!(r.status, 500);
    assert_eq!(r.reply, Reply::Failure(Failure::FetchFailed));
    assert_eq!(
        payload(&r),
        Payload::DigestMultibase("Error fetching URL".to_string())
    );
}

#[test]
fn unreachable_host_is_a_fetch_failure() {
    let r = finish_request(Err(FetchError::Transport));
    assert_eq!(r.status, 500);
    assert_eq!(r.reply, Reply::Failure(Failure::FetchFailed));
}

#[test]
fn body_read_error_is_a_fetch_failure() {
    let r = finish_request(Err(FetchError::Body));
    assert_eq!(r, respond_failure(Failure::FetchFailed));
}

#[test]
fn success_statuses_pass() {
    assert_eq!(check_status(200), Ok(()));
    assert_eq!(check_status(204), Ok(()));
    assert_eq!(check_status(299), Ok(()));
}

#[test]
fn other_statuses_fail() {
    assert_eq!(check_status(199), Err(FetchError::Status(199)));
    assert_eq!(check_status(300), Err(FetchError::Status(300)));
    assert_eq!(check_status(301), Err(FetchError::Status(301)));
    assert_eq!(check_status(500), Err(FetchError::Status(500)));
}

#[test]
fn too_long_digest_is_an_encode_failure() {
    let r = respond_with_digest(&[0u8; 65]);
    assert_eq!(r.status, 500);
    assert_eq!(r.reply, Reply::Failure(Failure::EncodeFailed));
    assert_eq!(
        payload(&r),
        Payload::DigestMultibase("Error converting multihash to base64".to_string())
    );
}

#[test]
fn digest_response_for_short_digest() {
    let r = respond_with_digest(&[1, 2, 3]);
    assert_eq!(r.status, 200);
    assert_eq!(r.reply, Reply::Digest("mAVUSAwECAw".to_string()));
}

#[test]
fn failure_statuses_and_messages() {
    assert_eq!(Failure::MissingUrl.status(), 400);
    assert_eq!(Failure::FetchFailed.status(), 500);
    assert_eq!(Failure::EncodeFailed.status(), 500);
    assert_eq!(Failure::FetchFailed.message(), "Error fetching URL");
}

#[test]
fn requests_do_not_share_state() {
    let a = finish_request(Ok(b"first".to_vec()));
    let b = finish_request(Err(FetchError::Transport));
    let c = finish_request(Ok(b"second".to_vec()));
    assert_eq!(a, finish_request(Ok(b"first".to_vec())));
    assert_eq!(b, finish_request(Err(FetchError::Transport)));
    assert_ne!(a, c);
}
