use vstd::prelude::*;

use crate::country::Country;
use crate::gender::Gender;
use crate::platform::Platform;
use crate::time::{parse_datetime, parsed_timestamp_of};

verus! {

/// A campaign as a writer submits it. Immutable once inserted. `end_at`
/// is seconds since the Unix epoch and is exclusive: the advertisement is
/// active while `end_at > now`.
pub struct Advertisement {
    pub title: String,
    pub age_range: (i32, i32),
    pub country: Option<Country>,
    pub platform: Option<Platform>,
    pub gender: Option<Gender>,
    pub end_at: i64,
}

/// The read-side projection of an advertisement: only what a consumer
/// needs, never the targeting predicate.
pub struct PartialAdvertisement {
    pub id: i32,
    pub title: String,
    pub end_at: i64,
}

/// The read-side filter. Each field is independently present or absent;
/// absence constrains nothing. Every read is additionally constrained by
/// `end_at > now`.
pub struct Condition {
    pub age: Option<i32>,
    pub country: Option<Country>,
    pub platform: Option<Platform>,
    pub gender: Option<Gender>,
}

/// Why a decoded write request was rejected.
#[derive(Clone, Copy, Debug, PartialEq, Eq, Structural)]
pub enum AdvertisementError {
    /// The title is empty.
    EmptyTitle,
    /// The lower age bound exceeds the upper one.
    InvertedAgeRange,
    /// The expiry text is not a `YYYY-MM-DD hh:mm:ss` timestamp.
    BadTimestamp,
}

impl Advertisement {
    /// A well-formed advertisement: non-empty title and an ordered,
    /// inclusive age range.
    pub open spec fn wf(self) -> bool {
        &&& self.title@.len() > 0
        &&& self.age_range.0 <= self.age_range.1
    }

    /// Builds an advertisement from the plain fields of a decoded write
    /// request, rejecting an empty title, an inverted age range, and an
    /// expiry text that does not parse. A past expiry is accepted: it
    /// means "already expired, never returned by reads".
    pub fn new(
        title: String,
        from_age: i32,
        to_age: i32,
        country: Option<Country>,
        platform: Option<Platform>,
        gender: Option<Gender>,
        end_at_text: &str,
    ) -> (r: Result<Advertisement, AdvertisementError>)
        ensures
            match r {
                Ok(ad) => {
                    &&& ad.wf()
                    &&& ad.title@ == title@
                    &&& ad.age_range == (from_age, to_age)
                    &&& ad.country == country
                    &&& ad.platform == platform
                    &&& ad.gender == gender
                    &&& parsed_timestamp_of(end_at_text@) == Some(ad.end_at)
                },
                Err(AdvertisementError::EmptyTitle) => title@.len() == 0,
                Err(AdvertisementError::InvertedAgeRange) => title@.len() > 0
                    && from_age > to_age,
                Err(AdvertisementError::BadTimestamp) => title@.len() > 0
                    && from_age <= to_age
                    && parsed_timestamp_of(end_at_text@) is None,
            },
    {
        if title.as_str().is_empty() {
            return Err(AdvertisementError::EmptyTitle);
        }
        if from_age > to_age {
            return Err(AdvertisementError::InvertedAgeRange);
        }
        match parse_datetime(end_at_text) {
            Some(end_at) => Ok(Advertisement {
                title,
                age_range: (from_age, to_age),
                country,
                platform,
                gender,
                end_at,
            }),
            None => Err(AdvertisementError::BadTimestamp),
        }
    }
}

/// Whether an advertisement satisfies every present filter of a condition
/// and is still active at `now`: a present `age` must lie inside the
/// inclusive `age_range`, present enum filters must equal the stored
/// attribute (an advertisement without the attribute never matches a
/// present filter), and `end_at` must be strictly in the future.
pub open spec fn cond_matches(ad: Advertisement, c: Condition, now: int) -> bool {
    &&& match c.age {
        Some(a) => ad.age_range.0 <= a && a <= ad.age_range.1,
        None => true,
    }
    &&& match c.country {
        Some(x) => ad.country == Some(x),
        None => true,
    }
    &&& match c.platform {
        Some(x) => ad.platform == Some(x),
        None => true,
    }
    &&& match c.gender {
        Some(x) => ad.gender == Some(x),
        None => true,
    }
    &&& ad.end_at > now
}

/// Decides `cond_matches` for one advertisement.
pub fn matches_condition(ad: &Advertisement, c: &Condition, now: i64) -> (r: bool)
    ensures
        r == cond_matches(*ad, *c, now as int),
{
    let age_ok = match c.age {
        Some(a) => ad.age_range.0 <= a && a <= ad.age_range.1,
        None => true,
    };
    let country_ok = match (c.country, ad.country) {
        (Some(x), Some(y)) => x == y,
        (Some(_), None) => false,
        (None, _) => true,
    };
    let platform_ok = match (c.platform, ad.platform) {
        (Some(x), Some(y)) => x == y,
        (Some(_), None) => false,
        (None, _) => true,
    };
    let gender_ok = match (c.gender, ad.gender) {
        (Some(x), Some(y)) => x == y,
        (Some(_), None) => false,
        (None, _) => true,
    };
    age_ok && country_ok && platform_ok && gender_ok && ad.end_at > now
}

/// Field-wise equality of two projections; `PartialAdvertisement` holds a
/// `String`, whose abstract value is its character sequence.
pub open spec fn partial_eq(x: PartialAdvertisement, y: PartialAdvertisement) -> bool {
    &&& x.id == y.id
    &&& x.title@ == y.title@
    &&& x.end_at == y.end_at
}

/// Field-wise equality of two sequences of projections.
pub open spec fn rows_eq(a: Seq<PartialAdvertisement>, b: Seq<PartialAdvertisement>) -> bool {
    &&& a.len() == b.len()
    &&& forall|i: int| 0 <= i < a.len() ==> partial_eq(#[trigger] a[i], b[i])
}

impl PartialAdvertisement {
    /// A field-wise copy.
    pub fn duplicate(&self) -> (r: PartialAdvertisement)
        ensures
            partial_eq(r, *self),
    {
        PartialAdvertisement { id: self.id, title: self.title.clone(), end_at: self.end_at }
    }
}

/// A field-wise copy of a whole result.
pub fn duplicate_rows(rows: &Vec<PartialAdvertisement>) -> (r: Vec<PartialAdvertisement>)
    ensures
        rows_eq(r@, rows@),
{
    let mut out: Vec<PartialAdvertisement> = Vec::new();
    let mut i: usize = 0;
    while i < rows.len()
        invariant
            i <= rows@.len(),
            out@.len() == i,
            forall|j: int| 0 <= j < i ==> partial_eq(#[trigger] out@[j], rows@[j]),
        decreases rows@.len() - i,
    {
        out.push(rows[i].duplicate());
        i = i + 1;
    }
    out
}

} // verus!
