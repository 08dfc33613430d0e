use torii_indexing::body::{BodyChunk, LimitedBody, MAX_REQUEST_BODY_BYTES};
use torii_indexing::response::error_response;

#[test]
fn chunks_add_up() {
    let mut body = LimitedBody::new();
    assert!(body.read_chunk(BodyChunk::Data(vec![1, 2])));
    assert!(body.read_chunk(BodyChunk::Data(vec![])));
    assert!(body.read_chunk(BodyChunk::Data(vec![3])));
    assert_eq!(body.finish(), Ok(vec![1, 2, 3]));
    assert_eq!(LimitedBody::new().finish(), Ok(vec![]));
}

#[test]
fn bodies_up_to_the_limit_are_read() {
    assert_eq!(MAX_REQUEST_BODY_BYTES, 4096);
    let mut body = LimitedBody::new();
    assert!(body.read_chunk(BodyChunk::Data(vec![0; 4000])));
    assert!(body.read_chunk(BodyChunk::Data(vec![1; 96])));
    assert_eq!(body.finish().unwrap().len(), 4096);
}

#[test]
fn bodies_over_the_limit_are_refused() {
    let mut body = LimitedBody::new();
    assert!(body.read_chunk(BodyChunk::Data(vec![0; 4000])));
    assert!(!body.read_chunk(BodyChunk::Data(vec![0; 97])));
    assert_eq!(
        body.finish(),
        Err(error_response(413, "body_too_large", "request body exceeds 4 KiB"))
    );
}

#[test]
fn unreadable_bodies_are_refused() {
    let mut body = LimitedBody::new();
    assert!(!body.read_chunk(BodyChunk::Failed));
    assert_eq!(
        body.finish(),
        Err(error_response(400, "invalid_body", "failed to read request body"))
    );
}

#[test]
fn first_refusal_stands() {
    let mut body = LimitedBody::new();
    assert!(!body.read_chunk(BodyChunk::Failed));
    assert!(!body.read_chunk(BodyChunk::Data(vec![0; 5000])));
    assert!(!body.read_chunk(BodyChunk::Data(vec![1])));
    assert_eq!(
        body.finish(),
        Err(error_response(400, "invalid_body", "failed to read request body"))
    );
}
