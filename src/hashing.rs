//! Deterministic hashes and decoding of source bytes, through std.
use vstd::prelude::*;
use vstd::utf8::{decode_utf8, valid_utf8};
use crate::model::{NodeId, NodeKind};

verus! {

/// What std's default hasher gives for (file path, kind code, qualified name).
pub uninterp spec fn node_hash(path: Seq<char>, kind: u8, qualified_name: Seq<char>) -> u64;

/// What std's default hasher gives for a file's content.
pub uninterp spec fn content_hash(content: Seq<char>) -> u64;

/// Relies on `std::hash::DefaultHasher` (created by `new`, which always starts
/// from the same keys): the hash of the tuple depends on its values alone.
#[verifier::external_body]
fn hash_node_key(path: &str, kind: u8, qualified_name: &str) -> (r: u64)
    ensures
        r == node_hash(path@, kind, qualified_name@),
{
    let mut h = std::hash::DefaultHasher::new();
    std::hash::Hash::hash(&(path, kind, qualified_name), &mut h);
    std::hash::Hasher::finish(&h)
}

/// Relies on `std::hash::DefaultHasher` (created by `new`, which always starts
/// from the same keys): the hash of a string depends on its characters alone.
#[verifier::external_body]
fn hash_content(content: &str) -> (r: u64)
    ensures
        r == content_hash(content@),
{
    let mut h = std::hash::DefaultHasher::new();
    std::hash::Hash::hash(content, &mut h);
    std::hash::Hasher::finish(&h)
}

/// Relies on `std::str::from_utf8`: it succeeds exactly on valid UTF-8, and the
/// string it gives holds the characters that the bytes encode.
#[verifier::external_body]
fn utf8_decode(bytes: &[u8]) -> (r: Option<String>)
    ensures
        r is Some <==> valid_utf8(bytes@),
        r is Some ==> r.unwrap()@ == decode_utf8(bytes@),
{
    match std::str::from_utf8(bytes) {
        Ok(s) => Some(s.to_owned()),
        Err(_) => None,
    }
}

/// A stable number for each node kind, used in node hashes.
pub open spec fn kind_code(k: NodeKind) -> u8 {
    match k {
        NodeKind::Directory => 0,
        NodeKind::File => 1,
        NodeKind::Module => 2,
        NodeKind::Class => 3,
        NodeKind::Struct => 4,
        NodeKind::Enum => 5,
        NodeKind::Interface => 6,
        NodeKind::Function => 7,
        NodeKind::Method => 8,
        NodeKind::Constant => 9,
        NodeKind::TypeAlias => 10,
        NodeKind::ConfigBlock => 11,
        NodeKind::ConfigKey => 12,
        NodeKind::EnvVariable => 13,
        NodeKind::Route => 14,
        NodeKind::Migration => 15,
        NodeKind::CIJob => 16,
        NodeKind::DockerService => 17,
        NodeKind::WorkspaceRoot => 18,
        NodeKind::Package => 19,
        NodeKind::Unknown => 20,
    }
}

fn kind_number(k: NodeKind) -> (r: u8)
    ensures
        r == kind_code(k),
{
    match k {
        NodeKind::Directory => 0,
        NodeKind::File => 1,
        NodeKind::Module => 2,
        NodeKind::Class => 3,
        NodeKind::Struct => 4,
        NodeKind::Enum => 5,
        NodeKind::Interface => 6,
        NodeKind::Function => 7,
        NodeKind::Method => 8,
        NodeKind::Constant => 9,
        NodeKind::TypeAlias => 10,
        NodeKind::ConfigBlock => 11,
        NodeKind::ConfigKey => 12,
        NodeKind::EnvVariable => 13,
        NodeKind::Route => 14,
        NodeKind::Migration => 15,
        NodeKind::CIJob => 16,
        NodeKind::DockerService => 17,
        NodeKind::WorkspaceRoot => 18,
        NodeKind::Package => 19,
        NodeKind::Unknown => 20,
    }
}

impl NodeId {
    /// A content-derived id for a definition: the hash of its file, kind and
    /// qualified name.
    pub fn new(file_path: &str, kind: NodeKind, qualified_name: &str) -> (r: NodeId)
        ensures
            r.0 == node_hash(file_path@, kind_code(kind), qualified_name@),
    {
        NodeId(hash_node_key(file_path, kind_number(kind), qualified_name))
    }
}

/// A hash of a file's content, for cache invalidation.
pub fn compute_content_hash(content: &str) -> (r: u64)
    ensures
        r == content_hash(content@),
{
    hash_content(content)
}

/// Why source bytes could not be turned into text.
#[derive(Clone, Copy, Debug, PartialEq, Eq, Structural)]
pub enum SourceError {
    InvalidUtf8,
}

/// The text of a source file: an error exactly when the bytes are not UTF-8.
pub fn decode_source(bytes: &Vec<u8>) -> (r: Result<String, SourceError>)
    ensures
        r is Ok <==> valid_utf8(bytes@),
        r is Ok ==> r.unwrap()@ == decode_utf8(bytes@),
        r is Err ==> r == Err::<String, SourceError>(SourceError::InvalidUtf8),
{
    match utf8_decode(bytes.as_slice()) {
        Some(s) => Ok(s),
        None => Err(SourceError::InvalidUtf8),
    }
}

} // verus!
