//! Identifiers, one type for each kind of row, so that the identifier of a
//! group is never taken for that of a profile. Each wraps the 128-bit
//! big-endian value of a UUID; fresh ones are version 7, whose leading bits
//! are the time of creation.

use crate::outside::{fresh_uuid, hyphenated, is_v7, parse_uuid, uuid_parse, uuid_text};
use vstd::prelude::*;

verus! {

/// A text that is no UUID.
#[derive(Clone, Copy, Debug, PartialEq, Eq, Structural, Hash)]
pub struct ParseError;

/// The value a text stands for, given what the UUID parser made of it.
pub fn parsed_value(outcome: Result<u128, uuid::Error>) -> (r: Result<u128, ParseError>)
    ensures
        r == match outcome {
            Ok(v) => Ok::<u128, ParseError>(v),
            Err(_) => Err::<u128, ParseError>(ParseError),
        },
{
    match outcome {
        Ok(v) => Ok(v),
        Err(_) => Err(ParseError),
    }
}

/// Identifies a profile.
#[derive(Clone, Copy, Debug, PartialEq, Eq, Structural, PartialOrd, Ord, Hash)]
pub struct ProfileId(pub u128);

impl ProfileId {
    /// A fresh version 7 identifier, drawn from the clock and random bits.
    pub fn new() -> (r: ProfileId)
        ensures
            is_v7(r.0),
    {
        ProfileId(fresh_uuid())
    }

    pub fn from_u128(value: u128) -> (r: ProfileId)
        ensures
            r == ProfileId(value),
    {
        ProfileId(value)
    }

    pub fn as_u128(&self) -> (r: u128)
        ensures
            r == self.0,
    {
        self.0
    }

    /// Reads an identifier from any of the textual forms of a UUID. The
    /// hyphenated form that `to_string` gives is always read back as the
    /// identifier it was written from.
    pub fn parse_str(text: &str) -> (r: Result<ProfileId, ParseError>)
        ensures
            r == match uuid_parse(text@) {
                Some(v) => Ok::<ProfileId, ParseError>(ProfileId(v)),
                None => Err::<ProfileId, ParseError>(ParseError),
            },
            forall|id: ProfileId| text@ == hyphenated(id.0) ==> r == Ok::<ProfileId, ParseError>(id),
    {
        match parsed_value(parse_uuid(text)) {
            Ok(v) => Ok(ProfileId(v)),
            Err(e) => Err(e),
        }
    }

    /// The hyphenated lower-case text of the identifier.
    pub fn to_string(&self) -> (r: String)
        ensures
            r@ == hyphenated(self.0),
    {
        uuid_text(self.0)
    }
}

/// Identifies a group.
#[derive(Clone, Copy, Debug, PartialEq, Eq, Structural, PartialOrd, Ord, Hash)]
pub struct GroupId(pub u128);

impl GroupId {
    /// A fresh version 7 identifier, drawn from the clock and random bits.
    pub fn new() -> (r: GroupId)
        ensures
            is_v7(r.0),
    {
        GroupId(fresh_uuid())
    }

    pub fn from_u128(value: u128) -> (r: GroupId)
        ensures
            r == GroupId(value),
    {
        GroupId(value)
    }

    pub fn as_u128(&self) -> (r: u128)
        ensures
            r == self.0,
    {
        self.0
    }

    /// Reads an identifier from any of the textual forms of a UUID. The
    /// hyphenated form that `to_string` gives is always read back as the
    /// identifier it was written from.
    pub fn parse_str(text: &str) -> (r: Result<GroupId, ParseError>)
        ensures
            r == match uuid_parse(text@) {
                Some(v) => Ok::<GroupId, ParseError>(GroupId(v)),
                None => Err::<GroupId, ParseError>(ParseError),
            },
            forall|id: GroupId| text@ == hyphenated(id.0) ==> r == Ok::<GroupId, ParseError>(id),
    {
        match parsed_value(parse_uuid(text)) {
            Ok(v) => Ok(GroupId(v)),
            Err(e) => Err(e),
        }
    }

    /// The hyphenated lower-case text of the identifier.
    pub fn to_string(&self) -> (r: String)
        ensures
            r@ == hyphenated(self.0),
    {
        uuid_text(self.0)
    }
}

/// Identifies a membership.
#[derive(Clone, Copy, Debug, PartialEq, Eq, Structural, PartialOrd, Ord, Hash)]
pub struct UserId(pub u128);

impl UserId {
    /// A fresh version 7 identifier, drawn from the clock and random bits.
    pub fn new() -> (r: UserId)
        ensures
            is_v7(r.0),
    {
        UserId(fresh_uuid())
    }

    pub fn from_u128(value: u128) -> (r: UserId)
        ensures
            r == UserId(value),
    {
        UserId(value)
    }

    pub fn as_u128(&self) -> (r: u128)
        ensures
            r == self.0,
    {
        self.0
    }

    /// Reads an identifier from any of the textual forms of a UUID. The
    /// hyphenated form that `to_string` gives is always read back as the
    /// identifier it was written from.
    pub fn parse_str(text: &str) -> (r: Result<UserId, ParseError>)
        ensures
            r == match uuid_parse(text@) {
                Some(v) => Ok::<UserId, ParseError>(UserId(v)),
                None => Err::<UserId, ParseError>(ParseError),
            },
            forall|id: UserId| text@ == hyphenated(id.0) ==> r == Ok::<UserId, ParseError>(id),
    {
        match parsed_value(parse_uuid(text)) {
            Ok(v) => Ok(UserId(v)),
            Err(e) => Err(e),
        }
    }

    /// The hyphenated lower-case text of the identifier.
    pub fn to_string(&self) -> (r: String)
        ensures
            r@ == hyphenated(self.0),
    {
        uuid_text(self.0)
    }
}

/// Identifies a topic.
#[derive(Clone, Copy, Debug, PartialEq, Eq, Structural, PartialOrd, Ord, Hash)]
pub struct TopicId(pub u128);

impl TopicId {
    /// A fresh version 7 identifier, drawn from the clock and random bits.
    pub fn new() -> (r: TopicId)
        ensures
            is_v7(r.0),
    {
        TopicId(fresh_uuid())
    }

    pub fn from_u128(value: u128) -> (r: TopicId)
        ensures
            r == TopicId(value),
    {
        TopicId(value)
    }

    pub fn as_u128(&self) -> (r: u128)
        ensures
            r == self.0,
    {
        self.0
    }

    /// Reads an identifier from any of the textual forms of a UUID. The
    /// hyphenated form that `to_string` gives is always read back as the
    /// identifier it was written from.
    pub fn parse_str(text: &str) -> (r: Result<TopicId, ParseError>)
        ensures
            r == match uuid_parse(text@) {
                Some(v) => Ok::<TopicId, ParseError>(TopicId(v)),
                None => Err::<TopicId, ParseError>(ParseError),
            },
            forall|id: TopicId| text@ == hyphenated(id.0) ==> r == Ok::<TopicId, ParseError>(id),
    {
        match parsed_value(parse_uuid(text)) {
            Ok(v) => Ok(TopicId(v)),
            Err(e) => Err(e),
        }
    }

    /// The hyphenated lower-case text of the identifier.
    pub fn to_string(&self) -> (r: String)
        ensures
            r@ == hyphenated(self.0),
    {
        uuid_text(self.0)
    }
}

/// Identifies a post.
#[derive(Clone, Copy, Debug, PartialEq, Eq, Structural, PartialOrd, Ord, Hash)]
pub struct PostId(pub u128);

impl PostId {
    /// A fresh version 7 identifier, drawn from the clock and random bits.
    pub fn new() -> (r: PostId)
        ensures
            is_v7(r.0),
    {
        PostId(fresh_uuid())
    }

    pub fn from_u128(value: u128) -> (r: PostId)
        ensures
            r == PostId(value),
    {
        PostId(value)
    }

    pub fn as_u128(&self) -> (r: u128)
        ensures
            r == self.0,
    {
        self.0
    }

    /// Reads an identifier from any of the textual forms of a UUID. The
    /// hyphenated form that `to_string` gives is always read back as the
    /// identifier it was written from.
    pub fn parse_str(text: &str) -> (r: Result<PostId, ParseError>)
        ensures
            r == match uuid_parse(text@) {
                Some(v) => Ok::<PostId, ParseError>(PostId(v)),
                None => Err::<PostId, ParseError>(ParseError),
            },
            forall|id: PostId| text@ == hyphenated(id.0) ==> r == Ok::<PostId, ParseError>(id),
    {
        match parsed_value(parse_uuid(text)) {
            Ok(v) => Ok(PostId(v)),
            Err(e) => Err(e),
        }
    }

    /// The hyphenated lower-case text of the identifier.
    pub fn to_string(&self) -> (r: String)
        ensures
            r@ == hyphenated(self.0),
    {
        uuid_text(self.0)
    }
}

/// The public key of a network participant: 32 bytes, compared byte by byte.
#[derive(Clone, Copy, Debug, PartialEq, Eq, PartialOrd, Ord, Hash)]
pub struct NodeId(pub [u8; 32]);

impl View for NodeId {
    type V = Seq<u8>;

    open spec fn view(&self) -> Seq<u8> {
        self.0@
    }
}

impl NodeId {
    pub fn from_bytes(bytes: [u8; 32]) -> (r: NodeId)
        ensures
            r == NodeId(bytes),
    {
        NodeId(bytes)
    }

    /// The key that a run of bytes holds, if there are exactly 32 of them.
    pub fn from_slice(bytes: &[u8]) -> (r: Option<NodeId>)
        ensures
            r is Some <==> bytes@.len() == 32,
            r matches Some(id) ==> id@ == bytes@,
    {
        if bytes.len() != 32 {
            return None;
        }
        let mut key: [u8; 32] = [0u8; 32];
        let mut i: usize = 0;
        while i < 32
            invariant
                0 <= i <= 32,
                bytes@.len() == 32,
                forall|k: int| 0 <= k < i ==> key@[k] == bytes@[k],
            decreases 32 - i,
        {
            key[i] = bytes[i];
            i += 1;
        }
        assert(key@ =~= bytes@);
        Some(NodeId(key))
    }

    pub fn as_bytes(&self) -> (r: &[u8; 32])
        ensures
            *r == self.0,
    {
        &self.0
    }

    /// Whether two keys hold the same bytes.
    pub fn same(&self, other: &NodeId) -> (r: bool)
        ensures
            r == (*self == *other),
            r == (self@ == other@),
    {
        let mut i: usize = 0;
        while i < 32
            invariant
                0 <= i <= 32,
                forall|k: int| 0 <= k < i ==> self.0[k] == other.0[k],
            decreases 32 - i,
        {
            if self.0[i] != other.0[i] {
                return false;
            }
            i += 1;
        }
        assert(self.0 =~= other.0);
        true
    }
}

} // verus!
