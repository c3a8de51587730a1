use vstd::prelude::*;

use crate::advertisement::Condition;
use crate::country::Country;
use crate::gender::Gender;
use crate::platform::Platform;

verus! {

/// The limit a read request falls back to when it names none.
pub fn default_limit() -> (r: usize)
    ensures
        r == 1,
{
    1
}

/// A decoded read request: the filter values plus pagination. This is
/// also the cache key: two requests are interchangeable exactly when
/// every field matches, an absent filter being distinct from every
/// present one.
#[derive(Clone, Copy)]
pub struct Params {
    pub offset: usize,
    pub limit: usize,
    pub age: Option<i32>,
    pub country: Option<Country>,
    pub platform: Option<Platform>,
    pub gender: Option<Gender>,
}

impl Params {
    /// Structural equality of two keys.
    pub fn key_eq(&self, other: &Params) -> (r: bool)
        ensures
            r == (*self == *other),
    {
        let age_eq = match (self.age, other.age) {
            (Some(a), Some(b)) => a == b,
            (None, None) => true,
            _ => false,
        };
        let country_eq = match (self.country, other.country) {
            (Some(a), Some(b)) => a == b,
            (None, None) => true,
            _ => false,
        };
        let platform_eq = match (self.platform, other.platform) {
            (Some(a), Some(b)) => a == b,
            (None, None) => true,
            _ => false,
        };
        let gender_eq = match (self.gender, other.gender) {
            (Some(a), Some(b)) => a == b,
            (None, None) => true,
            _ => false,
        };
        let r = self.offset == other.offset && self.limit == other.limit && age_eq && country_eq
            && platform_eq && gender_eq;
        proof {
            if r {
                assert(self.age == other.age);
                assert(self.country == other.country);
                assert(self.platform == other.platform);
                assert(self.gender == other.gender);
                assert(*self == *other);
            }
        }
        r
    }

    /// The filter part of the request.
    pub fn condition(&self) -> (c: Condition)
        ensures
            c.age == self.age,
            c.country == self.country,
            c.platform == self.platform,
            c.gender == self.gender,
    {
        Condition {
            age: self.age,
            country: self.country,
            platform: self.platform,
            gender: self.gender,
        }
    }
}

/// What a read request amounts to before anything else runs.
#[derive(Clone, Copy, Debug, PartialEq, Eq, Structural)]
pub enum ReadPlan {
    /// `limit = 0` means "no results requested": answer with an empty
    /// sequence at once, touching neither the cache nor the store.
    Empty,
    /// Go through the read-through cache.
    Fetch,
}

/// Decides a read request: the degenerate `limit = 0` short-circuits
/// before any store interaction.
pub fn plan_read(p: &Params) -> (r: ReadPlan)
    ensures
        (r == ReadPlan::Empty) <==> p.limit == 0,
        (r == ReadPlan::Fetch) <==> p.limit != 0,
{
    if p.limit == 0 {
        ReadPlan::Empty
    } else {
        ReadPlan::Fetch
    }
}

} // verus!
