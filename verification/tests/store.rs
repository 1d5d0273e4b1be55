use std::io::Write;

use mingit::errors::GitError;
use mingit::object::GitObject;
use mingit::repo::GitRepository;
use mingit::store::{read_object, serialize_frame, write_object};

fn zlib(data: &[u8]) -> Vec<u8> {
    let mut enc = flate2::write::ZlibEncoder::new(Vec::new(), flate2::Compression::best());
    enc.write_all(data).unwrap();
    enc.finish().unwrap()
}

fn repo() -> GitRepository {
    GitRepository::new("/tmp/r", true, false).unwrap()
}

#[test]
fn blob_identity_known_value() {
    let obj = GitObject::Blob(b"hello".to_vec());
    let (identity, path, _compressed) = write_object(&repo(), &obj);
    assert_eq!(identity, "b6fc4c620b67d95f953a5c1c1230aaab5db5a1b0");
    assert_eq!(
        path,
        "/tmp/r/.git/objects/b6/fc4c620b67d95f953a5c1c1230aaab5db5a1b0"
    );
}

#[test]
fn write_then_read_round_trip() {
    let r = repo();
    let payload = b"some payload\x00with a null".to_vec();
    let objects = vec![
        GitObject::Blob(payload.clone()),
        GitObject::Tree(payload.clone()),
        GitObject::Commit(payload.clone()),
        GitObject::Tag(payload.clone()),
    ];
    for obj in objects {
        let token = obj.type_token();
        let (identity, _path, compressed) = write_object(&r, &obj);
        let back = read_object(Some(compressed.as_slice()), &identity).unwrap();
        assert_eq!(back.type_token(), token);
        assert_eq!(back.serialize(), &payload);
    }
}

#[test]
fn identity_is_deterministic() {
    let r = repo();
    let a = GitObject::Commit(b"tree abc\n\nmessage".to_vec());
    let b = GitObject::Commit(b"tree abc\n\nmessage".to_vec());
    let (id_a, path_a, bytes_a) = write_object(&r, &a);
    let (id_b, path_b, bytes_b) = write_object(&r, &b);
    assert_eq!(id_a, id_b);
    assert_eq!(path_a, path_b);
    assert_eq!(bytes_a, bytes_b);
}

#[test]
fn frame_layout_is_exact() {
    let obj = GitObject::Blob(b"hello".to_vec());
    assert_eq!(serialize_frame(&obj), b"blob 5\0hello".to_vec());
    let empty = GitObject::Tag(Vec::new());
    assert_eq!(serialize_frame(&empty), b"tag 0\0".to_vec());
}

#[test]
fn length_mismatch_is_detected() {
    let corrupted = zlib(b"blob 6\0hello");
    let r = read_object(Some(corrupted.as_slice()), "0123456789012345678901234567890123456789");
    match r {
        Err(GitError::LengthMismatch { identity }) => {
            assert_eq!(identity, "0123456789012345678901234567890123456789");
        }
        other => panic!("expected a length mismatch, got {:?}", other),
    }
}

#[test]
fn unknown_type_is_rejected_on_decode() {
    let r = GitObject::new(b"anything".to_vec(), "widget");
    assert!(matches!(r, Err(GitError::UnknownObjectType)));
}

#[test]
fn unknown_type_is_rejected_on_read() {
    let stored = zlib(b"widget 3\0abc");
    let r = read_object(Some(stored.as_slice()), "0123456789012345678901234567890123456789");
    assert!(matches!(r, Err(GitError::UnknownObjectType)));
}

#[test]
fn missing_space_is_malformed() {
    let stored = zlib(b"blobhello");
    let r = read_object(Some(stored.as_slice()), "0123456789012345678901234567890123456789");
    assert!(matches!(r, Err(GitError::MalformedHeader)));
}

#[test]
fn missing_null_is_malformed() {
    let stored = zlib(b"blob 5hello");
    let r = read_object(Some(stored.as_slice()), "0123456789012345678901234567890123456789");
    assert!(matches!(r, Err(GitError::MalformedHeader)));
}

#[test]
fn non_digit_length_is_malformed() {
    let stored = zlib(b"blob x\0hello");
    let r = read_object(Some(stored.as_slice()), "0123456789012345678901234567890123456789");
    assert!(matches!(r, Err(GitError::MalformedHeader)));
}

#[test]
fn empty_length_is_malformed() {
    let stored = zlib(b"blob \0hello");
    let r = read_object(Some(stored.as_slice()), "0123456789012345678901234567890123456789");
    assert!(matches!(r, Err(GitError::MalformedHeader)));
}

#[test]
fn leading_zeros_in_length_are_accepted() {
    let stored = zlib(b"blob 005\0hello");
    let r = read_object(Some(stored.as_slice()), "0123456789012345678901234567890123456789");
    let obj = r.unwrap();
    assert_eq!(obj.type_token(), "blob");
    assert_eq!(obj.serialize(), &b"hello".to_vec());
}

#[test]
fn corrupt_stream_is_reported() {
    let r = read_object(
        Some(b"this is not a zlib stream".as_slice()),
        "0123456789012345678901234567890123456789",
    );
    assert!(matches!(r, Err(GitError::CorruptCompression)));
}

#[test]
fn absent_file_is_reported() {
    let r = read_object(None, "0123456789012345678901234567890123456789");
    assert!(matches!(r, Err(GitError::ObjectNotFound)));
}

#[test]
fn codec_wraps_and_unwraps() {
    let data = b"payload".to_vec();
    let obj = GitObject::new(data.clone(), "tree").unwrap();
    assert!(matches!(obj, GitObject::Tree(_)));
    assert_eq!(obj.type_token(), "tree");
    assert_eq!(obj.serialize(), &data);

    let borrowed = GitObject::deserialize("tag", b"payload").unwrap();
    assert!(matches!(borrowed, GitObject::Tag(_)));
    assert_eq!(borrowed.serialize(), &data);

    let commit = GitObject::new(Vec::new(), "commit").unwrap();
    assert_eq!(commit.type_token(), "commit");

    let blob = GitObject::new(Vec::new(), "blob").unwrap();
    assert_eq!(blob.type_token(), "blob");
}

#[test]
fn compression_actually_shrinks_repetition() {
    let obj = GitObject::Blob(vec![b'a'; 4096]);
    let (_identity, _path, compressed) = write_object(&repo(), &obj);
    assert!(compressed.len() < 4096);
    let back = read_object(Some(compressed.as_slice()), "").unwrap_or_else(|_| panic!());
    assert_eq!(back.serialize().len(), 4096);
}
