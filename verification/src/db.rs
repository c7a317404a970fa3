use vstd::prelude::*;

verus! {

/// Hands out database clients. The MongoDB driver pools connections itself,
/// so the pool holds no state of its own.
pub struct DbPool {}

impl DbPool {
    /// A new pool.
    pub fn new() -> (pool: DbPool)
        ensures
            pool == (DbPool {}),
    {
        DbPool {}
    }
}

/// Whether `c` is one of the ASCII digits `0` to `9`.
pub open spec fn is_decimal_digit(c: char) -> bool {
    '0' as int <= c as int && c as int <= '9' as int
}

/// Whether every character of `s` is an ASCII digit.
pub open spec fn all_decimal_digits(s: Seq<char>) -> bool {
    forall|i: int| 0 <= i < s.len() ==> #[trigger] is_decimal_digit(s[i])
}

/// The number that the decimal digits `s` spell, most significant first.
pub open spec fn decimal_value(s: Seq<char>) -> int
    decreases s.len(),
{
    if s.len() == 0 {
        0
    } else {
        decimal_value(s.drop_last()) * 10 + (s.last() as int - '0' as int)
    }
}

/// The digits of an unsigned number: the text without one leading `+`.
pub open spec fn unsigned_digits(s: Seq<char>) -> Seq<char> {
    if s.len() > 0 && s[0] == '+' {
        s.drop_first()
    } else {
        s
    }
}

/// What reading `s` as a `u16` gives: an optional `+`, then at least one
/// decimal digit, spelling a number no larger than `u16::MAX`.
pub open spec fn spec_parse_port(s: Seq<char>) -> Option<u16> {
    let d = unsigned_digits(s);
    if d.len() > 0 && all_decimal_digits(d) && decimal_value(d) <= u16::MAX {
        Some(decimal_value(d) as u16)
    } else {
        None
    }
}

proof fn lemma_decimal_value_nonneg(s: Seq<char>)
    requires
        all_decimal_digits(s),
    ensures
        decimal_value(s) >= 0,
    decreases s.len(),
{
    if s.len() > 0 {
        assert(is_decimal_digit(s[s.len() - 1]));
        assert(all_decimal_digits(s.drop_last())) by {
            assert forall|i: int| 0 <= i < s.drop_last().len() implies #[trigger] is_decimal_digit(
                s.drop_last()[i],
            ) by {
                assert(is_decimal_digit(s[i]));
            }
        }
        lemma_decimal_value_nonneg(s.drop_last());
    }
}

/// Appending digits never makes the value smaller.
proof fn lemma_decimal_value_prefix(s: Seq<char>, k: int)
    requires
        all_decimal_digits(s),
        0 <= k <= s.len(),
    ensures
        decimal_value(s.subrange(0, k)) <= decimal_value(s),
    decreases s.len(),
{
    if k < s.len() {
        let t = s.drop_last();
        assert(all_decimal_digits(t)) by {
            assert forall|i: int| 0 <= i < t.len() implies #[trigger] is_decimal_digit(t[i]) by {
                assert(is_decimal_digit(s[i]));
            }
        }
        lemma_decimal_value_prefix(t, k);
        assert(t.subrange(0, k) =~= s.subrange(0, k));
        lemma_decimal_value_nonneg(t);
        assert(is_decimal_digit(s[s.len() - 1]));
    } else {
        assert(s.subrange(0, k) =~= s);
    }
}

/// Reads a port number as `str::parse::<u16>` does: an optional `+`, then
/// one or more decimal digits whose value fits in a `u16`.
pub fn parse_port(s: &str) -> (port: Option<u16>)
    ensures
        port == spec_parse_port(s@),
{
    let n = s.unicode_len();
    let start: usize = if n > 0 && s.get_char(0) == '+' {
        1
    } else {
        0
    };
    let ghost d = unsigned_digits(s@);
    assert(d =~= s@.subrange(start as int, n as int));
    if start == n {
        return None;
    }
    let mut acc: u32 = 0;
    let mut i: usize = start;
    while i < n
        invariant
            n == s@.len(),
            start < n,
            start <= i <= n,
            d == s@.subrange(start as int, n as int),
            d == unsigned_digits(s@),
            all_decimal_digits(s@.subrange(start as int, i as int)),
            acc as int == decimal_value(s@.subrange(start as int, i as int)),
            acc <= 65535,
        decreases n - i,
    {
        let c = s.get_char(i);
        if !('0' <= c && c <= '9') {
            assert(!is_decimal_digit(d[i - start]));
            return None;
        }
        let ghost prev = s@.subrange(start as int, i as int);
        let ghost next = s@.subrange(start as int, i + 1);
        assert(next.drop_last() =~= prev);
        assert(all_decimal_digits(next)) by {
            assert forall|j: int| 0 <= j < next.len() implies #[trigger] is_decimal_digit(next[j]) by {
                if j < prev.len() {
                    assert(next[j] == prev[j]);
                }
            }
        }
        acc = acc * 10 + (c as u32 - '0' as u32);
        if acc > 65535 {
            proof {
                if all_decimal_digits(d) {
                    assert(d.subrange(0, i + 1 - start) =~= next);
                    lemma_decimal_value_prefix(d, i + 1 - start);
                }
            }
            return None;
        }
        i = i + 1;
    }
    assert(s@.subrange(start as int, n as int) =~= d);
    Some(acc as u16)
}


/// Where the database lives and how to log in to it.
pub struct DbSettings {
    pub hostname: String,
    pub port: u16,
    pub username: String,
    pub password: String,
}

/// Why the database settings could not be read from the environment.
#[derive(Debug, PartialEq, Eq, Structural)]
pub enum DbSettingsError {
    MissingHostname,
    MissingPort,
    InvalidPort,
    MissingUsername,
    MissingPassword,
}

/// The text of an optional string.
pub open spec fn opt_view(s: Option<String>) -> Option<Seq<char>> {
    match s {
        Some(t) => Some(t@),
        None => None,
    }
}

/// The first problem with the environment values, checked in the order
/// host name, port (present, then a number), user name, password.
pub open spec fn spec_settings_error(
    hostname: Option<Seq<char>>,
    port: Option<Seq<char>>,
    username: Option<Seq<char>>,
    password: Option<Seq<char>>,
) -> Option<DbSettingsError> {
    if hostname is None {
        Some(DbSettingsError::MissingHostname)
    } else if port is None {
        Some(DbSettingsError::MissingPort)
    } else if spec_parse_port(port->0) is None {
        Some(DbSettingsError::InvalidPort)
    } else if username is None {
        Some(DbSettingsError::MissingUsername)
    } else if password is None {
        Some(DbSettingsError::MissingPassword)
    } else {
        None
    }
}

/// Builds the database settings from the values of the variables
/// `DB_HOSTNAME`, `DB_PORT`, `DB_USERNAME` and `DB_PASSWORD` (`None` where a
/// variable is unset or not valid Unicode). The port must read as a `u16`.
pub fn db_settings_from_env(
    hostname: Option<String>,
    port: Option<String>,
    username: Option<String>,
    password: Option<String>,
) -> (res: Result<DbSettings, DbSettingsError>)
    ensures
        ({
            let err = spec_settings_error(
                opt_view(hostname),
                opt_view(port),
                opt_view(username),
                opt_view(password),
            );
            match res {
                Ok(settings) => {
                    &&& err is None
                    &&& settings.hostname@ == hostname->0@
                    &&& Some(settings.port) == spec_parse_port(port->0@)
                    &&& settings.username@ == username->0@
                    &&& settings.password@ == password->0@
                },
                Err(e) => err == Some(e),
            }
        }),
        (hostname is Some && port is Some && spec_parse_port(port->0@) is Some && username is Some
            && password is Some) <==> res is Ok,
        res matches Err(e) ==> match e {
            DbSettingsError::MissingHostname => hostname is None,
            DbSettingsError::MissingPort => hostname is Some && port is None,
            DbSettingsError::InvalidPort => hostname is Some && port is Some && spec_parse_port(
                port->0@,
            ) is None,
            DbSettingsError::MissingUsername => hostname is Some && port is Some
                && spec_parse_port(port->0@) is Some && username is None,
            DbSettingsError::MissingPassword => hostname is Some && port is Some
                && spec_parse_port(port->0@) is Some && username is Some && password is None,
        },
{
    let hostname = match hostname {
        Some(h) => h,
        None => return Err(DbSettingsError::MissingHostname),
    };
    let port_text = match port {
        Some(p) => p,
        None => return Err(DbSettingsError::MissingPort),
    };
    let port = match parse_port(port_text.as_str()) {
        Some(p) => p,
        None => return Err(DbSettingsError::InvalidPort),
    };
    let username = match username {
        Some(u) => u,
        None => return Err(DbSettingsError::MissingUsername),
    };
    let password = match password {
        Some(p) => p,
        None => return Err(DbSettingsError::MissingPassword),
    };
    Ok(DbSettings { hostname, port, username, password })
}

/// The text that a settings error is reported with.
pub open spec fn spec_settings_error_message(e: DbSettingsError) -> Seq<char> {
    match e {
        DbSettingsError::MissingHostname => "Environment variable 'DB_HOSTNAME' not present or invalid."@,
        DbSettingsError::MissingPort => "Environment variable 'DB_PORT' not present or invalid."@,
        DbSettingsError::InvalidPort => "Environment variable 'DB_PORT' should be a number, but it isn't."@,
        DbSettingsError::MissingUsername => "Environment variable 'DB_USERNAME' not present or invalid."@,
        DbSettingsError::MissingPassword => "Environment variable 'DB_PASSWORD' not present or invalid."@,
    }
}

impl DbSettingsError {
    /// The text this error is reported with.
    pub fn message(&self) -> (m: String)
        ensures
            m@ == spec_settings_error_message(*self),
    {
        match self {
            DbSettingsError::MissingHostname => String::from_str(
                "Environment variable 'DB_HOSTNAME' not present or invalid.",
            ),
            DbSettingsError::MissingPort => String::from_str(
                "Environment variable 'DB_PORT' not present or invalid.",
            ),
            DbSettingsError::InvalidPort => String::from_str(
                "Environment variable 'DB_PORT' should be a number, but it isn't.",
            ),
            DbSettingsError::MissingUsername => String::from_str(
                "Environment variable 'DB_USERNAME' not present or invalid.",
            ),
            DbSettingsError::MissingPassword => String::from_str(
                "Environment variable 'DB_PASSWORD' not present or invalid.",
            ),
        }
    }
}


/// The decimal digit character for `d`, where `0 <= d <= 9`.
pub open spec fn digit_char(d: int) -> char {
    if d == 0 {
        '0'
    } else if d == 1 {
        '1'
    } else if d == 2 {
        '2'
    } else if d == 3 {
        '3'
    } else if d == 4 {
        '4'
    } else if d == 5 {
        '5'
    } else if d == 6 {
        '6'
    } else if d == 7 {
        '7'
    } else if d == 8 {
        '8'
    } else {
        '9'
    }
}

/// How `n` is written in decimal, without leading zeros.
pub open spec fn decimal_text(n: nat) -> Seq<char>
    decreases n,
{
    if n < 10 {
        seq![digit_char(n as int)]
    } else {
        decimal_text(n / 10).push(digit_char((n % 10) as int))
    }
}

proof fn lemma_decimal_text(n: nat)
    ensures
        decimal_text(n).len() > 0,
        all_decimal_digits(decimal_text(n)),
        decimal_value(decimal_text(n)) == n,
    decreases n,
{
    if n < 10 {
        let t = decimal_text(n);
        assert(t.drop_last() =~= Seq::<char>::empty());
        assert(is_decimal_digit(t[0]));
        assert(digit_char(n as int) as int - '0' as int == n);
        assert(decimal_value(t.drop_last()) == 0);
        assert(t.last() == digit_char(n as int));
    } else {
        let t = decimal_text(n);
        let d = (n % 10) as int;
        lemma_decimal_text(n / 10);
        assert(t.drop_last() =~= decimal_text(n / 10));
        assert(is_decimal_digit(digit_char(d)));
        assert(all_decimal_digits(t)) by {
            assert forall|i: int| 0 <= i < t.len() implies #[trigger] is_decimal_digit(t[i]) by {
                if i < t.len() - 1 {
                    assert(t[i] == decimal_text(n / 10)[i]);
                }
            }
        }
        assert(digit_char(d) as int - '0' as int == d);
        assert(t.last() == digit_char(d));
        assert(n == (n / 10) * 10 + n % 10);
        assert(decimal_value(t) == decimal_value(t.drop_last()) * 10 + (t.last() as int - '0' as int));
    }
}

/// Every port number reads back as itself, written in decimal with or
/// without a leading `+`: no `u16` is refused as a port.
pub proof fn lemma_every_port_number_reads_back(n: u16)
    ensures
        spec_parse_port(decimal_text(n as nat)) == Some(n),
        spec_parse_port(seq!['+'] + decimal_text(n as nat)) == Some(n),
{
    lemma_decimal_text(n as nat);
    let t = decimal_text(n as nat);
    assert(is_decimal_digit(t[0]));
    assert(unsigned_digits(t) == t);
    assert((seq!['+'] + t).drop_first() =~= t);
    assert(unsigned_digits(seq!['+'] + t) == t);
}

/// A complete environment is always accepted: whatever the host name, user
/// name and password are, when all four values are present and the port text
/// reads as a `u16`, no problem is reported.
pub proof fn lemma_complete_environment_is_accepted(
    hostname: Seq<char>,
    port: Seq<char>,
    username: Seq<char>,
    password: Seq<char>,
)
    requires
        spec_parse_port(port) is Some,
    ensures
        spec_settings_error(Some(hostname), Some(port), Some(username), Some(password)) is None,
{
}

/// A reported problem is always a real one: a missing value, or a port text
/// that does not read as a `u16`, and the values checked before it are fine.
pub proof fn lemma_settings_error_is_a_real_problem(
    hostname: Option<Seq<char>>,
    port: Option<Seq<char>>,
    username: Option<Seq<char>>,
    password: Option<Seq<char>>,
)
    ensures
        spec_settings_error(hostname, port, username, password) matches Some(e) ==> match e {
            DbSettingsError::MissingHostname => hostname is None,
            DbSettingsError::MissingPort => hostname is Some && port is None,
            DbSettingsError::InvalidPort => hostname is Some && port is Some && spec_parse_port(
                port->0,
            ) is None,
            DbSettingsError::MissingUsername => hostname is Some && port is Some
                && spec_parse_port(port->0) is Some && username is None,
            DbSettingsError::MissingPassword => hostname is Some && port is Some
                && spec_parse_port(port->0) is Some && username is Some && password is None,
        },
{
}

} // verus!
