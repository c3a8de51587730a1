use vstd::prelude::*;

use crate::advertisement::{Advertisement, Condition};

verus! {

use vstd::string::StringExecFns;

/// Which of the four optional filters a read request carries. One
/// prepared statement exists per combination.
#[derive(Clone, Copy, Debug, PartialEq, Eq, Structural)]
pub struct FilterShape {
    pub country: bool,
    pub platform: bool,
    pub age: bool,
    pub gender: bool,
}

pub open spec fn b2i(b: bool) -> int {
    if b {
        1
    } else {
        0
    }
}

impl FilterShape {
    /// The matrix index of this combination: one bit per filter, in the
    /// canonical order country, platform, age, gender.
    pub open spec fn index_spec(self) -> int {
        b2i(self.country) + 2 * b2i(self.platform) + 4 * b2i(self.age) + 8 * b2i(self.gender)
    }

    /// How many filters are present.
    pub open spec fn count_spec(self) -> int {
        b2i(self.country) + b2i(self.platform) + b2i(self.age) + b2i(self.gender)
    }

    /// The combination a condition falls under.
    pub open spec fn of_condition_spec(c: Condition) -> FilterShape {
        FilterShape {
            country: c.country is Some,
            platform: c.platform is Some,
            age: c.age is Some,
            gender: c.gender is Some,
        }
    }

    /// Reads the combination off a condition.
    pub fn of_condition(c: &Condition) -> (r: FilterShape)
        ensures
            r == Self::of_condition_spec(*c),
    {
        FilterShape {
            country: c.country.is_some(),
            platform: c.platform.is_some(),
            age: c.age.is_some(),
            gender: c.gender.is_some(),
        }
    }

    /// The matrix index, computed.
    pub fn index(&self) -> (r: usize)
        ensures
            r == self.index_spec(),
            r < 16,
    {
        let mut idx: usize = 0;
        if self.country {
            idx = idx + 1;
        }
        if self.platform {
            idx = idx + 2;
        }
        if self.age {
            idx = idx + 4;
        }
        if self.gender {
            idx = idx + 8;
        }
        idx
    }
}

/// The combination stored at a matrix index, decoding one bit per filter.
pub open spec fn shape_of_index(i: int) -> FilterShape {
    FilterShape {
        country: i % 2 == 1,
        platform: (i / 2) % 2 == 1,
        age: (i / 4) % 2 == 1,
        gender: (i / 8) % 2 == 1,
    }
}

/// Encoding a combination and decoding it again is the identity, so each
/// combination owns exactly one matrix slot.
pub proof fn lemma_shape_index_roundtrip(s: FilterShape)
    ensures
        shape_of_index(s.index_spec()) == s,
{
}

/// The positional parameter marker for parameter `n`. A read statement
/// binds at most six parameters: four filters, limit and offset.
pub open spec fn param_lit(n: int) -> Seq<char> {
    if n == 1 {
        "$1"@
    } else if n == 2 {
        "$2"@
    } else if n == 3 {
        "$3"@
    } else if n == 4 {
        "$4"@
    } else if n == 5 {
        "$5"@
    } else {
        "$6"@
    }
}

fn param_str(n: u8) -> (r: &'static str)
    requires
        1 <= n <= 6,
    ensures
        r@ == param_lit(n as int),
{
    match n {
        1 => "$1",
        2 => "$2",
        3 => "$3",
        4 => "$4",
        5 => "$5",
        _ => "$6",
    }
}

pub open spec fn country_part(s: FilterShape) -> Seq<char> {
    if s.country {
        "country = "@ + param_lit(1) + " AND "@
    } else {
        Seq::empty()
    }
}

pub open spec fn platform_part(s: FilterShape) -> Seq<char> {
    if s.platform {
        "platform = "@ + param_lit(1 + b2i(s.country)) + " AND "@
    } else {
        Seq::empty()
    }
}

pub open spec fn age_part(s: FilterShape) -> Seq<char> {
    if s.age {
        param_lit(1 + b2i(s.country) + b2i(s.platform)) + " <@ age_range AND "@
    } else {
        Seq::empty()
    }
}

pub open spec fn gender_part(s: FilterShape) -> Seq<char> {
    if s.gender {
        "gender = "@ + param_lit(1 + b2i(s.country) + b2i(s.platform) + b2i(s.age)) + " AND "@
    } else {
        Seq::empty()
    }
}

/// The text of the read statement for one filter combination: the fixed
/// projection, each present filter clause in the canonical order with
/// sequentially numbered parameters, the unconditional expiry clause, a
/// deterministic ordering by primary key, and limit and offset numbered
/// after all filter parameters.
pub open spec fn query_sql_spec(s: FilterShape) -> Seq<char> {
    "SELECT id, title, end_at FROM advertisement WHERE "@ + country_part(s) + platform_part(s)
        + age_part(s) + gender_part(s) + "end_at > now() ORDER BY id LIMIT "@ + param_lit(
        s.count_spec() + 1,
    ) + " OFFSET "@ + param_lit(s.count_spec() + 2)
}

/// The text of the single insert statement. The column order matches the
/// field order of `Advertisement`, and the age range is written as an
/// inclusive range of both bounds.
pub open spec fn insert_sql_spec() -> Seq<char> {
    "INSERT INTO advertisement (title, age_range, country, platform, gender, end_at) VALUES ($1, int4range($2, $3, '[]'), $4, $5, $6, $7)"@
}

/// Builds the read statement text for one filter combination.
#[verifier::rlimit(60)]
pub fn build_query_sql(s: &FilterShape) -> (q: String)
    ensures
        q@ == query_sql_spec(*s),
{
    let ghost base = "SELECT id, title, end_at FROM advertisement WHERE "@;
    let mut q = String::from_str("SELECT id, title, end_at FROM advertisement WHERE ");
    let mut n: u8 = 1;
    if s.country {
        q.append("country = ");
        q.append(param_str(n));
        q.append(" AND ");
        n = n + 1;
    }
    assert(n == 1 + b2i(s.country));
    assert(q@ =~= base + country_part(*s));
    if s.platform {
        q.append("platform = ");
        q.append(param_str(n));
        q.append(" AND ");
        n = n + 1;
    }
    assert(n == 1 + b2i(s.country) + b2i(s.platform));
    assert(q@ =~= base + country_part(*s) + platform_part(*s));
    if s.age {
        q.append(param_str(n));
        q.append(" <@ age_range AND ");
        n = n + 1;
    }
    assert(n == 1 + b2i(s.country) + b2i(s.platform) + b2i(s.age));
    assert(q@ =~= base + country_part(*s) + platform_part(*s) + age_part(*s));
    if s.gender {
        q.append("gender = ");
        q.append(param_str(n));
        q.append(" AND ");
        n = n + 1;
    }
    assert(n == 1 + s.count_spec());
    let ghost mid = base + country_part(*s) + platform_part(*s) + age_part(*s) + gender_part(*s);
    assert(q@ =~= mid);
    q.append("end_at > now() ORDER BY id LIMIT ");
    q.append(param_str(n));
    q.append(" OFFSET ");
    q.append(param_str(n + 1));
    proof {
        assert(q@ =~= query_sql_spec(*s));
    }
    q
}

/// The full statement matrix: the single insert statement and one read
/// statement per filter combination, indexed by `FilterShape::index`.
/// Built once at startup and immutable thereafter.
pub struct Queries {
    pub insert_sql: String,
    pub query_sql: Vec<String>,
}

impl Queries {
    /// Every slot of the matrix holds exactly the statement of its
    /// combination.
    pub open spec fn wf(self) -> bool {
        &&& self.insert_sql@ == insert_sql_spec()
        &&& self.query_sql@.len() == 16
        &&& forall|i: int|
            0 <= i < 16 ==> (#[trigger] self.query_sql@[i])@ == query_sql_spec(shape_of_index(i))
    }

    /// Builds the whole matrix. The texts are handed to the store for
    /// preparation by the caller; a failure there fails startup as a
    /// whole, so no partially initialized matrix is ever used.
    pub fn new() -> (r: Queries)
        ensures
            r.wf(),
    {
        let insert_sql = String::from_str(
            "INSERT INTO advertisement (title, age_range, country, platform, gender, end_at) VALUES ($1, int4range($2, $3, '[]'), $4, $5, $6, $7)",
        );
        let mut query_sql: Vec<String> = Vec::new();
        let mut i: usize = 0;
        while i < 16
        invariant
                i <= 16,
                query_sql@.len() == i,
                forall|j: int|
                    0 <= j < i ==> (#[trigger] query_sql@[j])@ == query_sql_spec(
                        shape_of_index(j),
                    ),
            decreases 16 - i,
        {
            let shape = FilterShape {
                country: i % 2 == 1,
                platform: (i / 2) % 2 == 1,
                age: (i / 4) % 2 == 1,
                gender: (i / 8) % 2 == 1,
            };
            assert(shape == shape_of_index(i as int));
            query_sql.push(build_query_sql(&shape));
            i = i + 1;
        }
        Queries { insert_sql, query_sql }
    }

    /// Hands out the read statement for the given filter presences:
    /// a direct index into the matrix, no string work at request time.
    pub fn get_query_stmt(
        &self,
        country: bool,
        platform: bool,
        age: bool,
        gender: bool,
    ) -> (r: &String)
        requires
            self.wf(),
        ensures
            r@ == query_sql_spec(FilterShape { country, platform, age, gender }),
    {
        let shape = FilterShape { country, platform, age, gender };
        let idx = shape.index();
        proof {
            lemma_shape_index_roundtrip(shape);
        }
        &self.query_sql[idx]
    }
}

/// One positional parameter, typed as it goes over the wire. A `Timestamp`
/// carries seconds since the Unix epoch; the caller turns it into the
/// store's own time value at the call.
pub enum SqlParam {
    Text(String),
    Int4(i32),
    NullableInt4(Option<i32>),
    Int8(i64),
    Timestamp(i64),
}

/// Field-wise equality of two parameters; `Text` compares the characters.
pub open spec fn sql_param_eq(x: SqlParam, y: SqlParam) -> bool {
    match (x, y) {
        (SqlParam::Text(a), SqlParam::Text(b)) => a@ == b@,
        (SqlParam::Int4(a), SqlParam::Int4(b)) => a == b,
        (SqlParam::NullableInt4(a), SqlParam::NullableInt4(b)) => a == b,
        (SqlParam::Int8(a), SqlParam::Int8(b)) => a == b,
        (SqlParam::Timestamp(a), SqlParam::Timestamp(b)) => a == b,
        _ => false,
    }
}

pub open spec fn params_eq(a: Seq<SqlParam>, b: Seq<SqlParam>) -> bool {
    &&& a.len() == b.len()
    &&& forall|i: int| 0 <= i < a.len() ==> sql_param_eq(#[trigger] a[i], b[i])
}

/// The parameters a read binds, in the same canonical order the clauses
/// were numbered in at construction time: the present filter values, then
/// limit, then offset.
pub open spec fn condition_params_spec(c: Condition, limit: usize, offset: usize) -> Seq<
    SqlParam,
> {
    (match c.country {
        Some(x) => seq![SqlParam::Int4(x.id as i32)],
        None => Seq::empty(),
    }) + (match c.platform {
        Some(x) => seq![SqlParam::Int4(x.code_spec() as i32)],
        None => Seq::empty(),
    }) + (match c.age {
        Some(a) => seq![SqlParam::Int4(a)],
        None => Seq::empty(),
    }) + (match c.gender {
        Some(x) => seq![SqlParam::Int4(x.code_spec() as i32)],
        None => Seq::empty(),
    }) + seq![SqlParam::Int8(limit as i64), SqlParam::Int8(offset as i64)]
}

/// Binds the present filter values of a condition, then limit and offset.
pub fn bind_condition_params(c: &Condition, limit: usize, offset: usize) -> (r: Vec<SqlParam>)
    ensures
        params_eq(r@, condition_params_spec(*c, limit, offset)),
        r@.len() == FilterShape::of_condition_spec(*c).count_spec() + 2,
{
    let mut r: Vec<SqlParam> = Vec::new();
    if let Some(x) = c.country {
        r.push(SqlParam::Int4(x.into_id() as i32));
    }
    if let Some(x) = c.platform {
        r.push(SqlParam::Int4(x.code()));
    }
    if let Some(a) = c.age {
        r.push(SqlParam::Int4(a));
    }
    if let Some(x) = c.gender {
        r.push(SqlParam::Int4(x.code()));
    }
    r.push(SqlParam::Int8(limit as i64));
    r.push(SqlParam::Int8(offset as i64));
    proof {
        let m = condition_params_spec(*c, limit, offset);
        assert(r@.len() == m.len());
        assert forall|i: int| 0 <= i < r@.len() implies sql_param_eq(#[trigger] r@[i], m[i]) by {
        }
    }
    r
}

/// The parameters the insert binds, one per column, in the column order
/// of the insert statement, which is the field order of `Advertisement`:
/// title, both age bounds, the country's numeric identifier (0 when no
/// country is targeted), the platform and gender codes (absent filters
/// stay null), and the expiry timestamp.
pub open spec fn insert_params_spec(ad: Advertisement) -> Seq<SqlParam> {
    seq![
        SqlParam::Text(ad.title),
        SqlParam::Int4(ad.age_range.0),
        SqlParam::Int4(ad.age_range.1),
        SqlParam::Int4(
            match ad.country {
                Some(x) => x.id as i32,
                None => 0,
            },
        ),
        SqlParam::NullableInt4(
            match ad.platform {
                Some(x) => Some(x.code_spec() as i32),
                None => None,
            },
        ),
        SqlParam::NullableInt4(
            match ad.gender {
                Some(x) => Some(x.code_spec() as i32),
                None => None,
            },
        ),
        SqlParam::Timestamp(ad.end_at),
    ]
}

/// Binds all advertisement fields positionally for the insert statement.
pub fn bind_insert_params(ad: &Advertisement) -> (r: Vec<SqlParam>)
    ensures
        params_eq(r@, insert_params_spec(*ad)),
{
    let mut r: Vec<SqlParam> = Vec::new();
    r.push(SqlParam::Text(ad.title.clone()));
    r.push(SqlParam::Int4(ad.age_range.0));
    r.push(SqlParam::Int4(ad.age_range.1));
    r.push(SqlParam::Int4(match ad.country {
        Some(x) => x.into_id() as i32,
        None => 0,
    }));
    r.push(SqlParam::NullableInt4(match ad.platform {
        Some(x) => Some(x.code()),
        None => None,
    }));
    r.push(SqlParam::NullableInt4(match ad.gender {
        Some(x) => Some(x.code()),
        None => None,
    }));
    r.push(SqlParam::Timestamp(ad.end_at));
    r
}

/// How many positional-parameter markers a statement text holds.
pub open spec fn dollar_count(s: Seq<char>) -> int
    decreases s.len(),
{
    if s.len() == 0 {
        0
    } else {
        (if s[0] == '$' {
            1int
        } else {
            0int
        }) + dollar_count(s.drop_first())
    }
}

/// A text without any marker.
pub open spec fn no_dollar(s: Seq<char>) -> bool {
    forall|i: int| 0 <= i < s.len() ==> s[i] != '$'
}

proof fn lemma_dollar_append(a: Seq<char>, b: Seq<char>)
    ensures
        dollar_count(a + b) == dollar_count(a) + dollar_count(b),
    decreases a.len(),
{
    if a.len() == 0 {
        assert(a + b =~= b);
    } else {
        assert((a + b).drop_first() =~= a.drop_first() + b);
        assert((a + b)[0] == a[0]);
        lemma_dollar_append(a.drop_first(), b);
    }
}

proof fn lemma_no_dollar_count(s: Seq<char>)
    requires
        no_dollar(s),
    ensures
        dollar_count(s) == 0,
    decreases s.len(),
{
    if s.len() > 0 {
        assert(forall|i: int|
            0 <= i < s.drop_first().len() ==> s.drop_first()[i] == s[i + 1]);
        lemma_no_dollar_count(s.drop_first());
    }
}

proof fn lemma_one_dollar_count(s: Seq<char>)
    requires
        s.len() >= 1,
        s[0] == '$',
        no_dollar(s.drop_first()),
    ensures
        dollar_count(s) == 1,
{
    lemma_no_dollar_count(s.drop_first());
}

/// Every parameter marker holds exactly one `$`.
proof fn lemma_marker_count(n: int)
    ensures
        dollar_count(param_lit(n)) == 1,
{
    reveal_strlit("$1");
    reveal_strlit("$2");
    reveal_strlit("$3");
    reveal_strlit("$4");
    reveal_strlit("$5");
    reveal_strlit("$6");
    lemma_one_dollar_count(param_lit(n));
}

proof fn lemma_dollar_country(s: FilterShape)
    ensures
        dollar_count(country_part(s)) == b2i(s.country),
{
    if s.country {
        reveal_strlit("country = ");
        reveal_strlit(" AND ");
        lemma_no_dollar_count("country = "@);
        lemma_no_dollar_count(" AND "@);
        lemma_marker_count(1);
        lemma_dollar_append("country = "@, param_lit(1));
        lemma_dollar_append("country = "@ + param_lit(1), " AND "@);
    }
}

proof fn lemma_dollar_platform(s: FilterShape)
    ensures
        dollar_count(platform_part(s)) == b2i(s.platform),
{
    if s.platform {
        reveal_strlit("platform = ");
        reveal_strlit(" AND ");
        let n = 1 + b2i(s.country);
        lemma_no_dollar_count("platform = "@);
        lemma_no_dollar_count(" AND "@);
        lemma_marker_count(n);
        lemma_dollar_append("platform = "@, param_lit(n));
        lemma_dollar_append("platform = "@ + param_lit(n), " AND "@);
    }
}

proof fn lemma_dollar_age(s: FilterShape)
    ensures
        dollar_count(age_part(s)) == b2i(s.age),
{
    if s.age {
        reveal_strlit(" <@ age_range AND ");
        let n = 1 + b2i(s.country) + b2i(s.platform);
        lemma_no_dollar_count(" <@ age_range AND "@);
        lemma_marker_count(n);
        lemma_dollar_append(param_lit(n), " <@ age_range AND "@);
    }
}

proof fn lemma_dollar_gender(s: FilterShape)
    ensures
        dollar_count(gender_part(s)) == b2i(s.gender),
{
    if s.gender {
        reveal_strlit("gender = ");
        reveal_strlit(" AND ");
        let n = 1 + b2i(s.country) + b2i(s.platform) + b2i(s.age);
        lemma_no_dollar_count("gender = "@);
        lemma_no_dollar_count(" AND "@);
        lemma_marker_count(n);
        lemma_dollar_append("gender = "@, param_lit(n));
        lemma_dollar_append("gender = "@ + param_lit(n), " AND "@);
    }
}

/// Each of the sixteen read statements holds exactly one positional
/// parameter marker per present filter, plus the two for limit and
/// offset, and nothing else: the parameter count is the number of
/// present filters plus two.
pub proof fn lemma_query_param_count(s: FilterShape)
    ensures
        dollar_count(query_sql_spec(s)) == s.count_spec() + 2,
{
    let base = "SELECT id, title, end_at FROM advertisement WHERE "@;
    let t1 = "end_at > now() ORDER BY id LIMIT "@;
    let t2 = " OFFSET "@;
    reveal_strlit("SELECT id, title, end_at FROM advertisement WHERE ");
    reveal_strlit("end_at > now() ORDER BY id LIMIT ");
    reveal_strlit(" OFFSET ");
    lemma_no_dollar_count(base);
    lemma_no_dollar_count(t1);
    lemma_no_dollar_count(t2);
    lemma_dollar_country(s);
    lemma_dollar_platform(s);
    lemma_dollar_age(s);
    lemma_dollar_gender(s);
    lemma_marker_count(s.count_spec() + 1);
    lemma_marker_count(s.count_spec() + 2);
    let u1 = base + country_part(s);
    let u2 = u1 + platform_part(s);
    let u3 = u2 + age_part(s);
    let u4 = u3 + gender_part(s);
    let u5 = u4 + t1;
    let u6 = u5 + param_lit(s.count_spec() + 1);
    let u7 = u6 + t2;
    lemma_dollar_append(base, country_part(s));
    lemma_dollar_append(u1, platform_part(s));
    lemma_dollar_append(u2, age_part(s));
    lemma_dollar_append(u3, gender_part(s));
    lemma_dollar_append(u4, t1);
    lemma_dollar_append(u5, param_lit(s.count_spec() + 1));
    lemma_dollar_append(u6, t2);
    lemma_dollar_append(u7, param_lit(s.count_spec() + 2));
}

} // verus!
