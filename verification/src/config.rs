use vstd::prelude::*;

verus! {

use vstd::string::StringExecFns;

/// The decimal digit character for one digit value.
pub open spec fn dec_digit(d: int) -> char {
    if d == 0 {
        '0'
    } else if d == 1 {
        '1'
    } else if d == 2 {
        '2'
    } else if d == 3 {
        '3'
    } else if d == 4 {
        '4'
    } else if d == 5 {
        '5'
    } else if d == 6 {
        '6'
    } else if d == 7 {
        '7'
    } else if d == 8 {
        '8'
    } else {
        '9'
    }
}

/// The decimal rendering of a non-negative number, most significant
/// digit first, without leading zeroes (a single zero for 0).
pub open spec fn dec_str(n: int) -> Seq<char>
    recommends
        n >= 0,
    decreases n,
{
    if n < 10 {
        seq![dec_digit(n)]
    } else {
        dec_str(n / 10).push(dec_digit(n % 10))
    }
}

fn digit_str(d: u16) -> (r: &'static str)
    requires
        d < 10,
    ensures
        r@ == seq![dec_digit(d as int)],
{
    if d == 0 {
        proof {
            reveal_strlit("0");
            assert("0"@ =~= seq![dec_digit(0)]);
        }
        "0"
    } else if d == 1 {
        proof {
            reveal_strlit("1");
            assert("1"@ =~= seq![dec_digit(1)]);
        }
        "1"
    } else if d == 2 {
        proof {
            reveal_strlit("2");
            assert("2"@ =~= seq![dec_digit(2)]);
        }
        "2"
    } else if d == 3 {
        proof {
            reveal_strlit("3");
            assert("3"@ =~= seq![dec_digit(3)]);
        }
        "3"
    } else if d == 4 {
        proof {
            reveal_strlit("4");
            assert("4"@ =~= seq![dec_digit(4)]);
        }
        "4"
    } else if d == 5 {
        proof {
            reveal_strlit("5");
            assert("5"@ =~= seq![dec_digit(5)]);
        }
        "5"
    } else if d == 6 {
        proof {
            reveal_strlit("6");
            assert("6"@ =~= seq![dec_digit(6)]);
        }
        "6"
    } else if d == 7 {
        proof {
            reveal_strlit("7");
            assert("7"@ =~= seq![dec_digit(7)]);
        }
        "7"
    } else if d == 8 {
        proof {
            reveal_strlit("8");
            assert("8"@ =~= seq![dec_digit(8)]);
        }
        "8"
    } else {
        proof {
            reveal_strlit("9");
            assert("9"@ =~= seq![dec_digit(9)]);
        }
        "9"
    }
}

/// Appends the decimal rendering of `n`.
fn push_dec(n: u16, out: &mut String)
    ensures
        final(out)@ == old(out)@ + dec_str(n as int),
    decreases n,
{
    if n >= 10 {
        push_dec(n / 10, out);
        out.append(digit_str(n % 10));
        proof {
            assert(out@ =~= old(out)@ + dec_str(n as int));
        }
    } else {
        out.append(digit_str(n));
        proof {
            assert(out@ =~= old(out)@ + dec_str(n as int));
        }
    }
}

/// Where and as whom to connect one pool: host, port, user, password and
/// database name.
pub struct Config {
    pub host: String,
    pub port: u16,
    pub user: String,
    pub password: String,
    pub db: String,
}

/// The key/value connection text a configuration amounts to.
pub open spec fn conn_string_spec(c: Config) -> Seq<char> {
    "host="@ + c.host@ + " port="@ + dec_str(c.port as int) + " user="@ + c.user@ + " password="@
        + c.password@ + " dbname="@ + c.db@
}

impl Default for Config {
    /// The local development connection.
    fn default() -> (r: Self)
        ensures
            r.host@ == "localhost"@,
            r.port == 5432,
            r.user@ == "eason"@,
            r.password@ == "postgres"@,
            r.db@ == "ad-server"@,
    {
        Config {
            host: String::from_str("localhost"),
            port: 5432,
            user: String::from_str("eason"),
            password: String::from_str("postgres"),
            db: String::from_str("ad-server"),
        }
    }
}

impl Config {
    /// The same configuration pointed at another host.
    pub fn with_host(self, host: &str) -> (r: Self)
        ensures
            r.host@ == host@,
            r.port == self.port,
            r.user@ == self.user@,
            r.password@ == self.password@,
            r.db@ == self.db@,
    {
        Config { host: String::from_str(host), ..self }
    }

    /// The same configuration with another password.
    pub fn with_password(self, password: &str) -> (r: Self)
        ensures
            r.password@ == password@,
            r.host@ == self.host@,
            r.port == self.port,
            r.user@ == self.user@,
            r.db@ == self.db@,
    {
        Config { password: String::from_str(password), ..self }
    }

    /// Renders the configuration as the key/value connection text a
    /// connection manager is built from.
    pub fn to_stringlike(&self) -> (r: String)
        ensures
            r@ == conn_string_spec(*self),
    {
        let mut out = String::from_str("host=");
        out.append(self.host.as_str());
        out.append(" port=");
        push_dec(self.port, &mut out);
        out.append(" user=");
        out.append(self.user.as_str());
        out.append(" password=");
        out.append(self.password.as_str());
        out.append(" dbname=");
        out.append(self.db.as_str());
        proof {
            assert(out@ =~= conn_string_spec(*self));
        }
        out
    }
}

} // verus!
