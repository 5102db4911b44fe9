//! The SMTP settings of the snapshot mailer, read from its environment
//! variables.
use vstd::prelude::*;

verus! {

/// Where and as whom snapshot mails are sent.
pub struct SmtpConfig {
    pub host: String,
    pub port: u16,
    pub user: String,
    pub pass: String,
    pub from: String,
}

/// The mailer's environment variables, as set (`None` when unset).
pub struct SmtpEnv {
    /// `TODO_SMTP_HOST`
    pub host: Option<String>,
    /// `TODO_SMTP_PORT`
    pub port: Option<String>,
    /// `TODO_SMTP_USER`
    pub user: Option<String>,
    /// `TODO_SMTP_PASS`
    pub pass: Option<String>,
    /// `TODO_SMTP_FROM`
    pub from: Option<String>,
}

/// Why the SMTP settings are unusable.
#[derive(Clone, Copy, PartialEq, Eq, Debug, Structural)]
pub enum SmtpConfigError {
    BadPort,
    MissingUser,
    MissingPass,
}

impl SmtpConfigError {
    pub open spec fn message_spec(self) -> Seq<char> {
        match self {
            SmtpConfigError::BadPort => "TODO_SMTP_PORT must be u16"@,
            SmtpConfigError::MissingUser => "TODO_SMTP_USER not set"@,
            SmtpConfigError::MissingPass => "TODO_SMTP_PASS not set (Gmail: use an App Password, not your account password)"@,
        }
    }

    /// The user-facing description.
    pub fn message(&self) -> (m: String)
        ensures
            m@ == self.message_spec(),
    {
        match self {
            SmtpConfigError::BadPort => String::from_str("TODO_SMTP_PORT must be u16"),
            SmtpConfigError::MissingUser => String::from_str("TODO_SMTP_USER not set"),
            SmtpConfigError::MissingPass => String::from_str(
                "TODO_SMTP_PASS not set (Gmail: use an App Password, not your account password)",
            ),
        }
    }
}

pub open spec fn is_digit(c: char) -> bool {
    '0' <= c && c <= '9'
}

/// The number the decimal digits `ds` write.
pub open spec fn digits_value(ds: Seq<char>) -> nat
    decreases ds.len(),
{
    if ds.len() == 0 {
        0
    } else {
        10 * digits_value(ds.drop_last()) + ((ds.last() as u32) - ('0' as u32)) as nat
    }
}

/// `s` without a leading `+`.
pub open spec fn digits_part(s: Seq<char>) -> Seq<char> {
    if s.len() > 0 && s[0] == '+' {
        s.drop_first()
    } else {
        s
    }
}

/// What `str::parse::<u16>` gives: an optional `+`, then one or more
/// decimal digits, for a value that fits.
pub open spec fn parse_u16_spec(s: Seq<char>) -> Option<u16> {
    let ds = digits_part(s);
    if ds.len() == 0 || exists|i: int| 0 <= i < ds.len() && !is_digit(#[trigger] ds[i]) {
        None
    } else if digits_value(ds) <= 65535 {
        Some(digits_value(ds) as u16)
    } else {
        None
    }
}

proof fn lemma_digits_value_grows(ds: Seq<char>, i: int)
    requires
        0 <= i <= ds.len(),
        forall|k: int| 0 <= k < ds.len() ==> is_digit(#[trigger] ds[k]),
    ensures
        digits_value(ds.take(i)) <= digits_value(ds),
    decreases ds.len() - i,
{
    if i < ds.len() {
        lemma_digits_value_grows(ds, i + 1);
        assert(ds.take(i + 1).drop_last() =~= ds.take(i));
    } else {
        assert(ds.take(i) =~= ds);
    }
}

/// Parses a port number as `str::parse::<u16>` does.
pub fn parse_u16(s: &str) -> (r: Option<u16>)
    ensures
        r == parse_u16_spec(s@),
{
    let v = crate::text::str_chars(s);
    let start: usize = if v.len() > 0 && v[0] == '+' {
        1
    } else {
        0
    };
    let ghost ds = digits_part(s@);
    assert(ds =~= v@.subrange(start as int, v@.len() as int));
    if start == v.len() {
        return None;
    }
    let mut k = start;
    while k < v.len()
        invariant
            start <= k <= v@.len(),
            ds == v@.subrange(start as int, v@.len() as int),
            ds == digits_part(s@),
            forall|q: int| 0 <= q < k - start ==> is_digit(#[trigger] ds[q]),
        decreases v.len() - k,
    {
        if !('0' <= v[k] && v[k] <= '9') {
            assert(ds[k - start] == v@[k as int]);
            assert(!is_digit(ds[k - start]));
            assert(exists|q: int| 0 <= q < ds.len() && !is_digit(#[trigger] ds[q]));
            return None;
        }
        k = k + 1;
    }
    assert(forall|q: int| 0 <= q < ds.len() ==> is_digit(#[trigger] ds[q]));
    assert(ds.take(0) =~= Seq::<char>::empty());
    let mut value: u32 = 0;
    let mut i = start;
    while i < v.len()
        invariant
            start <= i <= v@.len(),
            ds == v@.subrange(start as int, v@.len() as int),
            ds == digits_part(s@),
            forall|q: int| 0 <= q < ds.len() ==> is_digit(#[trigger] ds[q]),
            ds.len() > 0,
            value == digits_value(ds.take(i - start)),
            value <= 65535,
        decreases v.len() - i,
    {
        assert(ds[i - start] == v@[i as int]);
        assert(is_digit(ds[i - start]));
        let d = (v[i] as u32) - ('0' as u32);
        assert(ds.take(i - start + 1).drop_last() =~= ds.take(i - start));
        assert(ds.take(i - start + 1).last() == v@[i as int]);
        let next = value * 10 + d;
        if next > 65535 {
            proof {
                lemma_digits_value_grows(ds, i - start + 1);
            }
            return None;
        }
        value = next;
        i = i + 1;
    }
    assert(ds.take(i - start) =~= ds);
    Some(value as u16)
}

/// The settings from the environment: host `smtp.gmail.com` and port 465
/// unless set; user and password required; sender defaults to the user.
pub open spec fn smtp_spec(env: SmtpEnv) -> Result<(Seq<char>, u16, Seq<char>, Seq<char>, Seq<char>), SmtpConfigError> {
    let port = match env.port {
        None => Some(465u16),
        Some(p) => parse_u16_spec(p@),
    };
    match port {
        None => Err(SmtpConfigError::BadPort),
        Some(port) => match env.user {
            None => Err(SmtpConfigError::MissingUser),
            Some(user) => match env.pass {
                None => Err(SmtpConfigError::MissingPass),
                Some(pass) => Ok(
                    (
                        match env.host {
                            Some(h) => h@,
                            None => "smtp.gmail.com"@,
                        },
                        port,
                        user@,
                        pass@,
                        match env.from {
                            Some(f) => f@,
                            None => user@,
                        },
                    ),
                ),
            },
        },
    }
}

impl SmtpConfig {
    /// The SMTP settings from the mailer's environment variables.
    pub fn from_env_values(env: SmtpEnv) -> (r: Result<SmtpConfig, SmtpConfigError>)
        ensures
            match (r, smtp_spec(env)) {
                (Ok(c), Ok((h, p, u, pw, f))) => c.host@ == h && c.port == p && c.user@ == u && c.pass@ == pw
                    && c.from@ == f,
                (Err(e), Err(se)) => e == se,
                _ => false,
            },
    {
        let ghost spec_env = env;
        let SmtpEnv { host, port, user, pass, from } = env;
        let port = match port {
            None => 465u16,
            Some(p) => match parse_u16(p.as_str()) {
                Some(n) => n,
                None => return Err(SmtpConfigError::BadPort),
            },
        };
        let user = match user {
            Some(u) => u,
            None => return Err(SmtpConfigError::MissingUser),
        };
        let pass = match pass {
            Some(p) => p,
            None => return Err(SmtpConfigError::MissingPass),
        };
        let host = match host {
            Some(h) => h,
            None => String::from_str("smtp.gmail.com"),
        };
        let from = match from {
            Some(f) => f,
            None => user.clone(),
        };
        Ok(SmtpConfig { host, port, user, pass, from })
    }
}

} // verus!
