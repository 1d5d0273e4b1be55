//! The object store: reading an object from its decompressed-and-parsed
//! file bytes, and preparing the identity, path and compressed bytes of a
//! write. The caller only opens, probes and writes files.

use vstd::prelude::*;

use crate::digest::{hex_chars_of, hex_encode, lemma_hex_chars_ascii, sha1_digest, sha1_of};
use crate::errors::GitError;
use crate::frame::{
    encode_frame, format_dec, parse_frame, split_frame, FrameFail, NULL_BYTE, SPACE_BYTE,
};
use crate::object::{is_valid_token_bytes, GitObject};
use crate::repo::GitRepository;
use crate::zlib::{deflate_of, inflate_of, zlib_compress, zlib_decompress};

verus! {

/// The exact byte sequence an object is hashed and stored as.
pub open spec fn frame_of(o: GitObject) -> Seq<u8> {
    encode_frame(o.token_bytes(), o.payload_spec())
}

/// An object's identity: the lowercase hex SHA-1 of its frame.
pub open spec fn identity_chars(o: GitObject) -> Seq<char> {
    hex_chars_of(sha1_of(frame_of(o)))
}

/// Where the object named by the 40-character `identity` lives: the first two
/// hex characters name a subdirectory of `objects`, the remaining 38 the file.
pub open spec fn object_path_chars(gitdir: Seq<char>, identity: Seq<char>) -> Seq<char> {
    gitdir + "/objects/"@ + identity.subrange(0, 2) + "/"@ + identity.subrange(
        2,
        identity.len() as int,
    )
}

/// Builds the frame `"<token> <decimal-length>\0<payload>"` of `obj`.
pub fn serialize_frame(obj: &GitObject) -> (r: Vec<u8>)
    ensures
        r@ == frame_of(*obj),
{
    let mut r = obj.token_vec();
    r.push(SPACE_BYTE);
    let mut digits = format_dec(obj.serialize().len());
    r.append(&mut digits);
    r.push(NULL_BYTE);
    let payload = obj.serialize();
    let mut i: usize = 0;
    let ghost head = r@;
    while i < payload.len()
        invariant
            i <= payload@.len(),
            r@ == head + payload@.subrange(0, i as int),
        decreases payload@.len() - i,
    {
        r.push(payload[i]);
        proof {
            assert(head + payload@.subrange(0, i + 1int) =~= (head + payload@.subrange(
                0,
                i as int,
            )).push(payload@[i as int]));
        }
        i = i + 1;
    }
    proof {
        assert(payload@.subrange(0, payload@.len() as int) =~= payload@);
        assert(r@ =~= frame_of(*obj));
    }
    r
}

/// Wraps `payload` in the variant whose header token is `token`, rejecting
/// any token outside the fixed four-token set.
fn decode_token_bytes(token: &Vec<u8>, payload: Vec<u8>) -> (r: Result<GitObject, GitError>)
    ensures
        is_valid_token_bytes(token@) ==> (r matches Ok(o) && o.token_bytes() == token@
            && o.payload_spec() == payload@),
        !is_valid_token_bytes(token@) ==> r == Err::<GitObject, GitError>(
            GitError::UnknownObjectType,
        ),
{
    if token.len() == 6 && token[0] == 99 && token[1] == 111 && token[2] == 109 && token[3] == 109
        && token[4] == 105 && token[5] == 116 {
        proof {
            assert(token@ =~= seq![99u8, 111, 109, 109, 105, 116]);
        }
        Ok(GitObject::Commit(payload))
    } else if token.len() == 4 && token[0] == 116 && token[1] == 114 && token[2] == 101 && token[3]
        == 101 {
        proof {
            assert(token@ =~= seq![116u8, 114, 101, 101]);
        }
        Ok(GitObject::Tree(payload))
    } else if token.len() == 3 && token[0] == 116 && token[1] == 97 && token[2] == 103 {
        proof {
            assert(token@ =~= seq![116u8, 97, 103]);
        }
        Ok(GitObject::Tag(payload))
    } else if token.len() == 4 && token[0] == 98 && token[1] == 108 && token[2] == 111 && token[3]
        == 98 {
        proof {
            assert(token@ =~= seq![98u8, 108, 111, 98]);
        }
        Ok(GitObject::Blob(payload))
    } else {
        proof {
            if is_valid_token_bytes(token@) {
                assert(false);
            }
        }
        Err(GitError::UnknownObjectType)
    }
}

/// Reads an object from the contents of its file: `None` stands for a file
/// that does not exist at the identity's path. The bytes are inflated, the
/// frame parsed, the declared length checked against the actual payload
/// size, and the type token dispatched.
pub fn read_object(file_bytes: Option<&[u8]>, identity: &str) -> (r: Result<GitObject, GitError>)
    ensures
        file_bytes is None ==> r == Err::<GitObject, GitError>(GitError::ObjectNotFound),
        file_bytes matches Some(c) ==> match inflate_of(c@) {
            Option::None => r == Err::<GitObject, GitError>(GitError::CorruptCompression),
            Option::Some(d) => match parse_frame(d) {
                Result::Err(FrameFail::Malformed) => r == Err::<GitObject, GitError>(
                    GitError::MalformedHeader,
                ),
                Result::Err(FrameFail::WrongLength) => r matches Err(e) && e matches
                    GitError::LengthMismatch { identity: id } && id@ == identity@,
                Result::Ok(tp) => if is_valid_token_bytes(tp.0) {
                    r matches Ok(o) && o.token_bytes() == tp.0 && o.payload_spec() == tp.1
                } else {
                    r == Err::<GitObject, GitError>(GitError::UnknownObjectType)
                },
            },
        },
{
    let compressed = match file_bytes {
        None => {
            return Err(GitError::ObjectNotFound);
        },
        Some(c) => c,
    };
    let data = match zlib_decompress(compressed) {
        None => {
            return Err(GitError::CorruptCompression);
        },
        Some(d) => d,
    };
    let (token, payload) = match split_frame(data.as_slice()) {
        Err(FrameFail::Malformed) => {
            return Err(GitError::MalformedHeader);
        },
        Err(FrameFail::WrongLength) => {
            return Err(GitError::LengthMismatch { identity: identity.to_owned() });
        },
        Ok(tp) => tp,
    };
    decode_token_bytes(&token, payload)
}

/// The on-disk location of the object named by `identity`, under the
/// repository's metadata directory.
pub fn object_path(repo: &GitRepository, identity: &str) -> (r: String)
    requires
        identity@.len() == 40,
        identity.is_ascii(),
    ensures
        r@ == object_path_chars(repo.gitdir@, identity@),
{
    let head = identity.substring_ascii(0, 2);
    let tail = identity.substring_ascii(2, 40);
    let r = repo.gitdir.clone().concat("/objects/").concat(head).concat("/").concat(tail);
    proof {
        assert(r@ =~= object_path_chars(repo.gitdir@, identity@));
    }
    r
}

/// Prepares a write: the object's identity, the file path derived from it,
/// and the zlib-compressed frame. The caller writes the bytes to the path
/// only if no file is there already; the identity is correct either way.
pub fn write_object(repo: &GitRepository, obj: &GitObject) -> (r: (String, String, Vec<u8>))
    ensures
        r.0@ == identity_chars(*obj),
        r.0@.len() == 40,
        r.1@ == object_path_chars(repo.gitdir@, identity_chars(*obj)),
        r.2@ == deflate_of(frame_of(*obj)),
        inflate_of(r.2@) == Some(frame_of(*obj)),
{
    let frame = serialize_frame(obj);
    let digest = sha1_digest(frame.as_slice());
    let identity = hex_encode(digest.as_slice());
    proof {
        lemma_hex_chars_ascii(digest@);
    }
    let compressed = zlib_compress(frame.as_slice());
    let path = object_path(repo, identity.as_str());
    (identity, path, compressed)
}

/// **Round trip.** Parsing the frame of any object yields exactly its token
/// and payload, and that token is one of the four valid tokens: a stored
/// object that inflates back to its frame is read back as itself.
pub proof fn lemma_store_round_trip(o: GitObject)
    ensures
        parse_frame(frame_of(o)) == Result::Ok::<_, FrameFail>((o.token_bytes(), o.payload_spec())),
        is_valid_token_bytes(o.token_bytes()),
{
    o.lemma_token_bytes_wf();
    crate::frame::lemma_parse_encode_frame(o.token_bytes(), o.payload_spec());
}

/// **Round trip, through the store.** The compressed bytes a write produces
/// inflate back to the object's frame (`write_object` ensures it), and any
/// stored bytes with that property are read back as the object itself: by
/// `read_object`'s contract, a read of them returns `Ok` of an object with
/// the same token and the same payload.
pub proof fn lemma_read_of_write(o: GitObject, stored: Seq<u8>)
    requires
        inflate_of(stored) == Some(frame_of(o)),
    ensures
        inflate_of(stored) matches Some(d) && parse_frame(d) == Result::Ok::<_, FrameFail>(
            (o.token_bytes(), o.payload_spec()),
        ),
        is_valid_token_bytes(o.token_bytes()),
{
    lemma_store_round_trip(o);
}

/// **Content addressing.** The identity is a function of the object's kind
/// and payload alone: two objects that agree on both get the same identity,
/// whenever and wherever they are written.
pub proof fn lemma_identity_deterministic(a: GitObject, b: GitObject)
    requires
        a.token_bytes() == b.token_bytes(),
        a.payload_spec() == b.payload_spec(),
    ensures
        identity_chars(a) == identity_chars(b),
{
}

} // verus!
