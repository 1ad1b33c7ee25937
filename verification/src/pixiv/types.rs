//! Identifiers and metadata of illustrations.

use crate::text::{decimal, digits_value, is_u32_text, parse_u32, unsigned_digits};
use std::ops::{Add, Sub};
use vstd::prelude::*;
use vstd::std_specs::convert::FromSpecImpl;
use vstd::std_specs::ops::{AddSpecImpl, SubSpecImpl};

verus! {

/// Identifies one animated illustration.
#[derive(Clone, Copy, Debug, PartialEq, Eq, Hash, Structural)]
pub struct IllustId(pub u32);

/// Identifies an owner whose illustrations can be listed.
#[derive(Clone, Copy, Debug, PartialEq, Eq, Hash, Structural)]
pub struct ProfileId(pub u32);

/// How long one frame is shown, in milliseconds.
#[derive(Clone, Copy, Debug, PartialEq, Eq, PartialOrd, Ord, Hash, Structural)]
pub struct UgoiraDelay(pub u32);

impl From<u32> for IllustId {
    fn from(value: u32) -> (id: IllustId) {
        IllustId(value)
    }
}

impl FromSpecImpl<u32> for IllustId {
    open spec fn obeys_from_spec() -> bool {
        true
    }

    open spec fn from_spec(value: u32) -> IllustId {
        IllustId(value)
    }
}

impl From<IllustId> for u32 {
    fn from(id: IllustId) -> (value: u32) {
        id.0
    }
}

impl FromSpecImpl<IllustId> for u32 {
    open spec fn obeys_from_spec() -> bool {
        true
    }

    open spec fn from_spec(id: IllustId) -> u32 {
        id.0
    }
}

impl From<u32> for ProfileId {
    fn from(value: u32) -> (id: ProfileId) {
        ProfileId(value)
    }
}

impl FromSpecImpl<u32> for ProfileId {
    open spec fn obeys_from_spec() -> bool {
        true
    }

    open spec fn from_spec(value: u32) -> ProfileId {
        ProfileId(value)
    }
}

impl From<ProfileId> for u32 {
    fn from(id: ProfileId) -> (value: u32) {
        id.0
    }
}

impl FromSpecImpl<ProfileId> for u32 {
    open spec fn obeys_from_spec() -> bool {
        true
    }

    open spec fn from_spec(id: ProfileId) -> u32 {
        id.0
    }
}

impl From<u32> for UgoiraDelay {
    fn from(value: u32) -> (delay: UgoiraDelay) {
        UgoiraDelay(value)
    }
}

impl FromSpecImpl<u32> for UgoiraDelay {
    open spec fn obeys_from_spec() -> bool {
        true
    }

    open spec fn from_spec(value: u32) -> UgoiraDelay {
        UgoiraDelay(value)
    }
}

impl From<UgoiraDelay> for u32 {
    fn from(delay: UgoiraDelay) -> (value: u32) {
        delay.0
    }
}

impl FromSpecImpl<UgoiraDelay> for u32 {
    open spec fn obeys_from_spec() -> bool {
        true
    }

    open spec fn from_spec(delay: UgoiraDelay) -> u32 {
        delay.0
    }
}

impl Add for UgoiraDelay {
    type Output = UgoiraDelay;

    fn add(self, rhs: UgoiraDelay) -> (sum: UgoiraDelay) {
        UgoiraDelay(self.0 + rhs.0)
    }
}

impl AddSpecImpl for UgoiraDelay {
    open spec fn obeys_add_spec() -> bool {
        true
    }

    open spec fn add_req(self, rhs: UgoiraDelay) -> bool {
        self.0 + rhs.0 <= u32::MAX
    }

    open spec fn add_spec(self, rhs: UgoiraDelay) -> UgoiraDelay {
        UgoiraDelay((self.0 + rhs.0) as u32)
    }
}

impl Sub for UgoiraDelay {
    type Output = UgoiraDelay;

    fn sub(self, rhs: UgoiraDelay) -> (difference: UgoiraDelay) {
        UgoiraDelay(self.0 - rhs.0)
    }
}

impl SubSpecImpl for UgoiraDelay {
    open spec fn obeys_sub_spec() -> bool {
        true
    }

    open spec fn sub_req(self, rhs: UgoiraDelay) -> bool {
        self.0 >= rhs.0
    }

    open spec fn sub_spec(self, rhs: UgoiraDelay) -> UgoiraDelay {
        UgoiraDelay((self.0 - rhs.0) as u32)
    }
}

impl IllustId {
    /// The identifier in decimal, as it stands in addresses and file names.
    pub fn to_string(&self) -> (s: String)
        ensures
            s@ == decimal(self.0 as nat),
    {
        crate::text::decimal_string(self.0 as u64)
    }
}

impl ProfileId {
    /// The identifier in decimal, as it stands in addresses.
    pub fn to_string(&self) -> (s: String)
        ensures
            s@ == decimal(self.0 as nat),
    {
        crate::text::decimal_string(self.0 as u64)
    }
}

impl UgoiraDelay {
    /// The number of milliseconds in decimal.
    pub fn to_string(&self) -> (s: String)
        ensures
            s@ == decimal(self.0 as nat),
    {
        crate::text::decimal_string(self.0 as u64)
    }
}

/// Everything an owner has published.
#[derive(Debug)]
pub struct Profile {
    pub illusts: Vec<IllustId>,
}

/// Where the frames of an illustration are stored, and how they play.
#[derive(Debug)]
pub struct UgoiraMeta {
    pub original_src: String,
    pub frames: Vec<UgoiraMetaFrame>,
}

/// One frame as the metadata describes it: the name of its entry in the
/// archive and its delay.
#[derive(Debug)]
pub struct UgoiraMetaFrame {
    pub file: String,
    pub delay: UgoiraDelay,
}

/// A key of a profile listing that is no identifier.
#[derive(Debug)]
pub struct IllustKeyError {
    /// The place of the key among those given.
    pub index: usize,
    /// What the number parser said of it.
    pub reason: String,
}

/// The identifier that the key `key` of a profile listing names.
pub open spec fn key_id(key: Seq<char>) -> IllustId {
    IllustId(digits_value(unsigned_digits(key)) as u32)
}

impl Profile {
    /// Reads a profile listing, which names each illustration in a key.
    ///
    /// Every key has to be the decimal text of an identifier; the first one
    /// that is not fails the whole listing. The identifiers keep the order
    /// of their keys.
    pub fn from_keys(keys: &Vec<String>) -> (result: Result<Profile, IllustKeyError>)
        ensures
            match result {
                Ok(profile) => {
                    &&& forall|i: int| 0 <= i < keys@.len() ==> is_u32_text(#[trigger] keys@[i]@)
                    &&& profile.illusts@ == Seq::new(keys@.len(), |i: int| key_id(keys@[i]@))
                },
                Err(e) => {
                    &&& e.index < keys@.len()
                    &&& !is_u32_text(keys@[e.index as int]@)
                    &&& forall|i: int| 0 <= i < e.index ==> is_u32_text(#[trigger] keys@[i]@)
                },
            },
    {
        let mut illusts: Vec<IllustId> = Vec::new();
        let mut index: usize = 0;
        while index < keys.len()
            invariant
                index <= keys@.len(),
                forall|i: int| 0 <= i < index ==> is_u32_text(#[trigger] keys@[i]@),
                illusts@ == Seq::new(index as nat, |i: int| key_id(keys@[i]@)),
            decreases keys@.len() - index,
        {
            match parse_u32(keys[index].as_str()) {
                Ok(value) => {
                    illusts.push(IllustId::from(value));
                    assert(illusts@ =~= Seq::new((index + 1) as nat, |i: int| key_id(keys@[i]@)));
                },
                Err(reason) => {
                    return Err(IllustKeyError { index, reason });
                },
            }
            index += 1;
        }
        Ok(Profile { illusts })
    }
}

} // verus!
