//! The four-variant stored object: a type token and an owned payload buffer.
//!
//! At this layer decoding is a direct wrap: the payload of a tree, commit or
//! tag is kept opaque, and only the framing contract is stated.

use vstd::prelude::*;

use crate::errors::GitError;
use crate::frame::{NULL_BYTE, SPACE_BYTE};

verus! {

/// The unit of content-addressable storage: one of four kinds, each wrapping
/// an owned payload buffer. The kind is fixed at construction.
#[derive(Debug)]
pub enum GitObject {
    Commit(Vec<u8>),
    Tree(Vec<u8>),
    Tag(Vec<u8>),
    Blob(Vec<u8>),
}

/// The four fixed type tokens, as character strings.
pub open spec fn is_valid_token_chars(t: Seq<char>) -> bool {
    t == "commit"@ || t == "tree"@ || t == "tag"@ || t == "blob"@
}

/// The four fixed type tokens, as the bytes that stand in an object header.
pub open spec fn is_valid_token_bytes(t: Seq<u8>) -> bool {
    t == seq![99u8, 111, 109, 109, 105, 116] || t == seq![116u8, 114, 101, 101] || t
        == seq![116u8, 97, 103] || t == seq![98u8, 108, 111, 98]
}

impl GitObject {
    /// The payload bytes this object owns.
    pub open spec fn payload_spec(&self) -> Seq<u8> {
        match self {
            GitObject::Commit(d) => d@,
            GitObject::Tree(d) => d@,
            GitObject::Tag(d) => d@,
            GitObject::Blob(d) => d@,
        }
    }

    /// This object's type token, as header bytes.
    pub open spec fn token_bytes(&self) -> Seq<u8> {
        match self {
            GitObject::Commit(_) => seq![99u8, 111, 109, 109, 105, 116],
            GitObject::Tree(_) => seq![116u8, 114, 101, 101],
            GitObject::Tag(_) => seq![116u8, 97, 103],
            GitObject::Blob(_) => seq![98u8, 108, 111, 98],
        }
    }

    /// This object's type token, as a character string.
    pub open spec fn token_chars(&self) -> Seq<char> {
        match self {
            GitObject::Commit(_) => "commit"@,
            GitObject::Tree(_) => "tree"@,
            GitObject::Tag(_) => "tag"@,
            GitObject::Blob(_) => "blob"@,
        }
    }

    /// Decodes: wraps `data` in the variant named by `object_type`, and
    /// rejects any token outside the fixed four-token set.
    pub fn new(data: Vec<u8>, object_type: &str) -> (r: Result<GitObject, GitError>)
        ensures
            object_type@ == "commit"@ ==> r == Ok::<GitObject, GitError>(GitObject::Commit(data)),
            object_type@ == "tree"@ ==> r == Ok::<GitObject, GitError>(GitObject::Tree(data)),
            object_type@ == "tag"@ ==> r == Ok::<GitObject, GitError>(GitObject::Tag(data)),
            object_type@ == "blob"@ ==> r == Ok::<GitObject, GitError>(GitObject::Blob(data)),
            !is_valid_token_chars(object_type@) ==> r == Err::<GitObject, GitError>(
                GitError::UnknownObjectType,
            ),
    {
        proof {
            reveal_strlit("commit");
            reveal_strlit("tree");
            reveal_strlit("tag");
            reveal_strlit("blob");
            assert("commit"@.len() == 6 && "tree"@.len() == 4 && "tag"@.len() == 3 && "blob"@.len()
                == 4);
            assert("tree"@[0] == 't' && "blob"@[0] == 'b');
        }
        if str_eq(object_type, "commit") {
            Ok(GitObject::Commit(data))
        } else if str_eq(object_type, "tree") {
            Ok(GitObject::Tree(data))
        } else if str_eq(object_type, "tag") {
            Ok(GitObject::Tag(data))
        } else if str_eq(object_type, "blob") {
            Ok(GitObject::Blob(data))
        } else {
            Err(GitError::UnknownObjectType)
        }
    }

    /// Decodes from a borrowed payload: the same dispatch as `new`, over a
    /// copy of `data`.
    pub fn deserialize(object_type: &str, data: &[u8]) -> (r: Result<GitObject, GitError>)
        ensures
            is_valid_token_chars(object_type@) ==> (r matches Ok(o) && o.token_chars()
                == object_type@ && o.payload_spec() == data@),
            !is_valid_token_chars(object_type@) ==> r == Err::<GitObject, GitError>(
                GitError::UnknownObjectType,
            ),
    {
        GitObject::new(vstd::slice::slice_to_vec(data), object_type)
    }

    /// Encodes: serialization at this layer is the identity on the payload.
    pub fn serialize(&self) -> (r: &Vec<u8>)
        ensures
            r@ == self.payload_spec(),
    {
        match self {
            GitObject::Commit(d) => d,
            GitObject::Tree(d) => d,
            GitObject::Tag(d) => d,
            GitObject::Blob(d) => d,
        }
    }

    /// The fixed token naming this object's kind.
    pub fn type_token(&self) -> (r: &'static str)
        ensures
            r@ == self.token_chars(),
    {
        match self {
            GitObject::Commit(_) => "commit",
            GitObject::Tree(_) => "tree",
            GitObject::Tag(_) => "tag",
            GitObject::Blob(_) => "blob",
        }
    }

    /// This object's token, as the bytes that stand in its header.
    pub fn token_vec(&self) -> (r: Vec<u8>)
        ensures
            r@ == self.token_bytes(),
    {
        let mut r: Vec<u8> = Vec::new();
        match self {
            GitObject::Commit(_) => {
                r.push(99);
                r.push(111);
                r.push(109);
                r.push(109);
                r.push(105);
                r.push(116);
            },
            GitObject::Tree(_) => {
                r.push(116);
                r.push(114);
                r.push(101);
                r.push(101);
            },
            GitObject::Tag(_) => {
                r.push(116);
                r.push(97);
                r.push(103);
            },
            GitObject::Blob(_) => {
                r.push(98);
                r.push(108);
                r.push(111);
                r.push(98);
            },
        }
        proof {
            assert(r@ =~= self.token_bytes());
        }
        r
    }

    /// Every object's token is non-empty, holds neither the space nor the
    /// null separator, and is one of the four fixed tokens.
    pub proof fn lemma_token_bytes_wf(&self)
        ensures
            self.token_bytes().len() > 0,
            !self.token_bytes().contains(SPACE_BYTE),
            !self.token_bytes().contains(NULL_BYTE),
            is_valid_token_bytes(self.token_bytes()),
    {
        let t = self.token_bytes();
        assert(forall|j: int| 0 <= j < t.len() ==> 97 <= #[trigger] t[j] <= 122);
    }
}

/// Character-for-character equality of two strings.
pub fn str_eq(a: &str, b: &str) -> (r: bool)
    ensures
        r == (a@ == b@),
{
    let alen = a.unicode_len();
    let blen = b.unicode_len();
    if alen != blen {
        return false;
    }
    let mut i: usize = 0;
    while i < alen
        invariant
            alen == a@.len(),
            alen == b@.len(),
            i <= alen,
            forall|j: int| 0 <= j < i ==> a@[j] == b@[j],
        decreases alen - i,
    {
        if a.get_char(i) != b.get_char(i) {
            return false;
        }
        i = i + 1;
    }
    proof {
        assert(a@ =~= b@);
    }
    true
}

} // verus!
