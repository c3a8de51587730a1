use vstd::prelude::*;

verus! {

use vstd::string::StringSliceAdditionalSpecFns;

/// What `isocountry::CountryCode::for_alpha2_caseless` resolves a
/// two-letter code to, as the country's numeric identifier.
pub uninterp spec fn alpha2_id_of(s: Seq<char>) -> Option<u32>;

/// What `isocountry::CountryCode::for_alpha3_caseless` resolves a
/// three-letter code to, as the country's numeric identifier.
pub uninterp spec fn alpha3_id_of(s: Seq<char>) -> Option<u32>;

/// The ISO 3166-1 English short name that `isocountry` assigns to a
/// numeric identifier, or `None` where no country carries it.
pub uninterp spec fn country_name_of(id: u32) -> Option<Seq<char>>;

/// Relies on `isocountry::CountryCode::for_alpha2_caseless` to resolve a
/// two-letter code, and on `numeric_id` to read the resolved country's
/// numeric identifier; the outcome depends on the characters alone.
#[verifier::external_body]
fn lookup_alpha2(s: &str) -> (r: Option<u32>)
    ensures
        r == alpha2_id_of(s@),
{
    isocountry::CountryCode::for_alpha2_caseless(s).ok().map(|c| c.numeric_id())
}

/// Relies on `isocountry::CountryCode::for_alpha3_caseless` to resolve a
/// three-letter code, and on `numeric_id` to read the resolved country's
/// numeric identifier; the outcome depends on the characters alone.
#[verifier::external_body]
fn lookup_alpha3(s: &str) -> (r: Option<u32>)
    ensures
        r == alpha3_id_of(s@),
{
    isocountry::CountryCode::for_alpha3_caseless(s).ok().map(|c| c.numeric_id())
}

/// Relies on `isocountry::CountryCode::for_id` to resolve a numeric
/// identifier, and on `name` to read the country's English short name;
/// both depend on the identifier alone.
#[verifier::external_body]
fn lookup_name(id: u32) -> (r: Option<String>)
    ensures
        match r {
            Some(n) => country_name_of(id) matches Some(v) && n@ == v,
            None => country_name_of(id) is None,
        },
{
    isocountry::CountryCode::for_id(id).ok().map(|c| c.name().to_string())
}

/// Why a string was rejected as a country code.
#[derive(Clone, Copy, Debug, PartialEq, Eq, Structural)]
pub enum CountryParseError {
    /// The text is neither two nor three bytes long.
    InvalidLength,
    /// The text has a valid length but names no country.
    UnknownCode,
}

/// A country targeting attribute, held as its ISO 3166-1 numeric
/// identifier. Values come from `parse`, so they always name a country
/// known to the code table.
#[derive(Clone, Copy, Debug, PartialEq, Eq, Structural)]
pub struct Country {
    pub id: u32,
}

impl Country {
    /// Resolves a textual country code: two bytes are read as an
    /// alpha-2 code, three bytes as an alpha-3 code, case-insensitively;
    /// any other length is rejected without a lookup.
    pub fn parse(s: &str) -> (r: Result<Country, CountryParseError>)
        ensures
            match r {
                Ok(c) => {
                    ||| s.spec_bytes().len() == 2 && alpha2_id_of(s@) == Some(c.id)
                    ||| s.spec_bytes().len() == 3 && alpha3_id_of(s@) == Some(c.id)
                },
                Err(CountryParseError::InvalidLength) => s.spec_bytes().len() != 2
                    && s.spec_bytes().len() != 3,
                Err(CountryParseError::UnknownCode) => {
                    ||| s.spec_bytes().len() == 2 && alpha2_id_of(s@) is None
                    ||| s.spec_bytes().len() == 3 && alpha3_id_of(s@) is None
                },
            },
    {
        let n = s.as_bytes().len();
        if n == 2 {
            match lookup_alpha2(s) {
                Some(id) => Ok(Country { id }),
                None => Err(CountryParseError::UnknownCode),
            }
        } else if n == 3 {
            match lookup_alpha3(s) {
                Some(id) => Ok(Country { id }),
                None => Err(CountryParseError::UnknownCode),
            }
        } else {
            Err(CountryParseError::InvalidLength)
        }
    }

    /// A country straight from its numeric identifier, for callers that
    /// already hold one (for instance a row read back from the store).
    pub fn from_id(id: u32) -> (r: Country)
        ensures
            r.id == id,
    {
        Country { id }
    }

    /// The English short name of the country, or `None` where the held
    /// identifier names no country in the code table.
    pub fn into_code(self) -> (r: Option<String>)
        ensures
            match r {
                Some(n) => country_name_of(self.id) matches Some(v) && n@ == v,
                None => country_name_of(self.id) is None,
            },
    {
        lookup_name(self.id)
    }

    /// The numeric identifier bound as a statement parameter.
    pub fn into_id(self) -> (r: u32)
        ensures
            r == self.id,
    {
        self.id
    }
}

impl Default for Country {
    /// The numeric identifier of the United States, the fallback
    /// country.
    fn default() -> (r: Self)
        ensures
            r.id == 840,
    {
        Country { id: 840 }
    }
}

} // verus!
