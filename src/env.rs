//! The server's configuration: one immutable value, built once at startup from
//! environment-style variables and validated there.
use crate::canvas::dims_fit;
use vstd::prelude::*;

verus! {

/// Canvas width when none is configured.
pub const DEFAULT_CANVAS_WIDTH: usize = 128;

/// Canvas height when none is configured.
pub const DEFAULT_CANVAS_HEIGHT: usize = 128;

/// Changes between two snapshots when no interval is configured.
pub const DEFAULT_SNAPSHOT_INTERVAL: usize = 100;

/// Seconds between two saves of the history when no interval is configured.
pub const DEFAULT_AUTOSAVE_INTERVAL_SECS: usize = 60;

/// Why a configuration was refused.
#[derive(Clone, Copy, Debug, PartialEq, Eq, Structural)]
pub enum ConfigError {
    /// No admin token, or an empty one, was given; it has no default.
    MissingAdminToken,
    /// The canvas dimensions cannot hold a canvas.
    InvalidCanvasDimensions { width: usize, height: usize },
    /// A snapshot interval of zero changes.
    ZeroSnapshotInterval,
    /// An autosave interval of zero seconds.
    ZeroAutosaveInterval,
}

pub open spec fn is_digit(c: char) -> bool {
    '0' <= c && c <= '9'
}

/// The number written by a string of decimal digits.
pub open spec fn digits_value(s: Seq<char>) -> nat
    decreases s.len(),
{
    if s.len() == 0 {
        0
    } else {
        digits_value(s.drop_last()) * 10 + (s.last() as nat - '0' as nat) as nat
    }
}

pub open spec fn all_digits(s: Seq<char>) -> bool {
    forall|i: int| 0 <= i < s.len() ==> is_digit(#[trigger] s[i])
}

/// The text after an optional leading `+`.
pub open spec fn unsigned_part(s: Seq<char>) -> Seq<char> {
    if s.len() > 0 && s[0] == '+' {
        s.drop_first()
    } else {
        s
    }
}

/// The unsigned number that a text writes: an optional `+`, then one or more
/// decimal digits, of a value that fits in a `usize`.
pub open spec fn parsed_usize(s: Seq<char>) -> Option<usize> {
    let d = unsigned_part(s);
    if d.len() > 0 && all_digits(d) && digits_value(d) <= usize::MAX {
        Some(digits_value(d) as usize)
    } else {
        None
    }
}

/// The text of a variable that may be unset.
pub open spec fn text_of(v: Option<String>) -> Option<Seq<char>> {
    match v {
        Some(s) => Some(s@),
        None => None,
    }
}

/// The configured number, or the default when the variable is absent or does
/// not hold a number.
pub open spec fn number_or(v: Option<Seq<char>>, default: usize) -> usize {
    match v {
        Some(s) => match parsed_usize(s) {
            Some(n) => n,
            None => default,
        },
        None => default,
    }
}

proof fn lemma_digits_value_grows(s: Seq<char>, i: int)
    requires
        0 <= i <= s.len(),
        forall|j: int| 0 <= j < s.len() ==> is_digit(#[trigger] s[j]),
    ensures
        digits_value(s.take(i)) <= digits_value(s),
    decreases s.len() - i,
{
    if i < s.len() {
        lemma_digits_value_grows(s, i + 1);
        assert(s.take(i + 1).drop_last() =~= s.take(i));
    } else {
        assert(s.take(i) =~= s);
    }
}

/// Reads an unsigned decimal number: an optional `+`, then digits only.
pub fn parse_usize(s: &str) -> (r: Option<usize>)
    ensures
        r == parsed_usize(s@),
{
    let cs = crate::text::chars_of(s);
    let ghost d = unsigned_part(s@);
    let start: usize = if cs.len() > 0 && cs[0] == '+' {
        1
    } else {
        0
    };
    assert(d =~= s@.subrange(start as int, s@.len() as int));
    if start >= cs.len() {
        return None;
    }
    let mut value: usize = 0;
    let mut i: usize = start;
    while i < cs.len()
        invariant
            cs@ == s@,
            start <= i <= cs@.len(),
            d == unsigned_part(s@),
            d == cs@.subrange(start as int, cs@.len() as int),
            forall|j: int| start <= j < i ==> is_digit(#[trigger] cs@[j]),
            value == digits_value(d.take(i - start)),
        decreases cs@.len() - i,
    {
        let c = cs[i];
        if !('0' <= c && c <= '9') {
            assert(!is_digit(d[i - start]));
            assert(!all_digits(d));
            return None;
        }
        let digit = (c as u32 - '0' as u32) as usize;
        assert(d.take(i + 1 - start).drop_last() =~= d.take(i - start));
        let next = match value.checked_mul(10) {
            Some(v) => v.checked_add(digit),
            None => None,
        };
        match next {
            Some(v) => {
                value = v;
            },
            None => {
                proof {
                    assert(d.take(i + 1 - start).last() == c);
                    assert(digits_value(d.take(i + 1 - start)) == value * 10 + digit);
                    if all_digits(d) {
                        lemma_digits_value_grows(d, i + 1 - start);
                    }
                }
                return None;
            },
        }
        i = i + 1;
    }
    assert(d.take(d.len() as int) =~= d);
    Some(value)
}

/// The server's settings.
#[derive(Debug)]
pub struct Config {
    admin_token: String,
    canvas_width: usize,
    canvas_height: usize,
    snapshot_interval: usize,
    persistence_path: String,
    autosave_interval_secs: usize,
}

pub struct ConfigModel {
    pub admin_token: Seq<char>,
    pub canvas_width: usize,
    pub canvas_height: usize,
    pub snapshot_interval: usize,
    pub persistence_path: Seq<char>,
    pub autosave_interval_secs: usize,
}

impl ConfigModel {
    /// Canvas dimensions that a canvas can have, and positive intervals.
    pub open spec fn wf(self) -> bool {
        &&& dims_fit(self.canvas_width as int, self.canvas_height as int)
        &&& self.snapshot_interval > 0
        &&& self.autosave_interval_secs > 0
    }
}

impl View for Config {
    type V = ConfigModel;

    closed spec fn view(&self) -> ConfigModel {
        ConfigModel {
            admin_token: self.admin_token@,
            canvas_width: self.canvas_width,
            canvas_height: self.canvas_height,
            snapshot_interval: self.snapshot_interval,
            persistence_path: self.persistence_path@,
            autosave_interval_secs: self.autosave_interval_secs,
        }
    }
}

impl Config {
    #[verifier::type_invariant]
    spec fn inv(self) -> bool {
        self@.wf()
    }

    /// The configuration from the variables' values, `None` where a variable is
    /// not set. A number that is absent or unreadable takes its default; the
    /// admin token has none and may not be empty, and zero intervals and impossible canvas
    /// dimensions are refused.
    pub fn from_vars(
        admin_token: Option<String>,
        canvas_width: Option<String>,
        canvas_height: Option<String>,
        snapshot_interval: Option<String>,
        persistence_path: Option<String>,
        autosave_interval_secs: Option<String>,
    ) -> (r: Result<Config, ConfigError>)
        ensures
            ({
                let w = number_or(text_of(canvas_width), DEFAULT_CANVAS_WIDTH);
                let h = number_or(text_of(canvas_height), DEFAULT_CANVAS_HEIGHT);
                let k = number_or(text_of(snapshot_interval), DEFAULT_SNAPSHOT_INTERVAL);
                let a = number_or(
                    text_of(autosave_interval_secs),
                    DEFAULT_AUTOSAVE_INTERVAL_SECS,
                );
                if admin_token is None || admin_token->0@.len() == 0 {
                    r == Err::<Config, ConfigError>(ConfigError::MissingAdminToken)
                } else if !dims_fit(w as int, h as int) {
                    r == Err::<Config, ConfigError>(
                        ConfigError::InvalidCanvasDimensions { width: w, height: h },
                    )
                } else if k == 0 {
                    r == Err::<Config, ConfigError>(ConfigError::ZeroSnapshotInterval)
                } else if a == 0 {
                    r == Err::<Config, ConfigError>(ConfigError::ZeroAutosaveInterval)
                } else {
                    r matches Ok(c) && c@ == (ConfigModel {
                        admin_token: admin_token->0@,
                        canvas_width: w,
                        canvas_height: h,
                        snapshot_interval: k,
                        persistence_path: match persistence_path {
                            Some(p) => p@,
                            None => "history.bin"@,
                        },
                        autosave_interval_secs: a,
                    })
                }
            }),
    {
        let admin_token = match admin_token {
            Some(t) => t,
            None => {
                return Err(ConfigError::MissingAdminToken);
            },
        };
        if admin_token.as_str().is_empty() {
            return Err(ConfigError::MissingAdminToken);
        }
        let w = number_or_default(&canvas_width, DEFAULT_CANVAS_WIDTH);
        let h = number_or_default(&canvas_height, DEFAULT_CANVAS_HEIGHT);
        let k = number_or_default(&snapshot_interval, DEFAULT_SNAPSHOT_INTERVAL);
        let a = number_or_default(&autosave_interval_secs, DEFAULT_AUTOSAVE_INTERVAL_SECS);
        if w == 0 || h == 0 || w.checked_mul(h).is_none() {
            return Err(ConfigError::InvalidCanvasDimensions { width: w, height: h });
        }
        if k == 0 {
            return Err(ConfigError::ZeroSnapshotInterval);
        }
        if a == 0 {
            return Err(ConfigError::ZeroAutosaveInterval);
        }
        let persistence_path = match persistence_path {
            Some(p) => p,
            None => "history.bin".to_owned(),
        };
        Ok(
            Config {
                admin_token,
                canvas_width: w,
                canvas_height: h,
                snapshot_interval: k,
                persistence_path,
                autosave_interval_secs: a,
            },
        )
    }

    /// Seconds between two saves of the history.
    pub fn autosave_interval_secs(&self) -> (r: usize)
        ensures
            r == self@.autosave_interval_secs,
            r > 0,
    {
        proof {
            use_type_invariant(self);
        }
        self.autosave_interval_secs
    }
}

fn number_or_default(v: &Option<String>, default: usize) -> (r: usize)
    ensures
        r == number_or(text_of(*v), default),
{
    match v {
        Some(s) => match parse_usize(s.as_str()) {
            Some(n) => n,
            None => default,
        },
        None => default,
    }
}

/// The secret that makes a connection an admin.
pub fn admin_token(config: &Config) -> (r: &str)
    ensures
        r@ == config@.admin_token,
{
    config.admin_token.as_str()
}

pub fn default_canvas_width(config: &Config) -> (r: usize)
    ensures
        r == config@.canvas_width,
        dims_fit(r as int, config@.canvas_height as int),
{
    proof {
        use_type_invariant(config);
    }
    config.canvas_width
}

pub fn default_canvas_height(config: &Config) -> (r: usize)
    ensures
        r == config@.canvas_height,
        dims_fit(config@.canvas_width as int, r as int),
{
    proof {
        use_type_invariant(config);
    }
    config.canvas_height
}

pub fn default_snapshot_interval(config: &Config) -> (r: usize)
    ensures
        r == config@.snapshot_interval,
        r > 0,
{
    proof {
        use_type_invariant(config);
    }
    config.snapshot_interval
}

/// Where the history is stored.
pub fn persistence_path(config: &Config) -> (r: &str)
    ensures
        r@ == config@.persistence_path,
{
    config.persistence_path.as_str()
}

} // verus!
