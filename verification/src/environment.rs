//! The environment-variable registry: which variables the program knows,
//! their defaults, and verified parsing of their values.  Reading the real
//! process environment is the caller's business; every function here works
//! on the values it is handed.

use vstd::prelude::*;

use crate::errors::ClearModelError;
use crate::text::{eq_ci, str_eq, str_eq_ci};

verus! {

/// One known environment variable and its validation rule.
#[derive(Debug, Clone)]
pub struct EnvVarConfig {
    pub required: bool,
    pub description: String,
    pub default: String,
}

/// The registry of known environment variables, in a fixed order.
#[derive(Debug)]
pub struct EnvRegistry {
    pub entries: Vec<(String, EnvVarConfig)>,
}

/// The first registry entry under `key`, if any.
pub open spec fn lookup_spec(es: Seq<(String, EnvVarConfig)>, key: Seq<char>) -> Option<
    EnvVarConfig,
>
    decreases es.len(),
{
    if es.len() == 0 {
        None
    } else if es[0].0@ == key {
        Some(es[0].1)
    } else {
        lookup_spec(es.drop_first(), key)
    }
}

/// When no entry among the first `i` matches, the lookup is decided by the
/// remainder.
proof fn lemma_lookup_skip(es: Seq<(String, EnvVarConfig)>, key: Seq<char>, i: int)
    requires
        0 <= i <= es.len(),
        forall|j: int| 0 <= j < i ==> (#[trigger] es[j]).0@ != key,
    ensures
        lookup_spec(es, key) == lookup_spec(es.skip(i), key),
    decreases i,
{
    if i > 0 {
        assert forall|j: int| 0 <= j < i - 1 implies (#[trigger] es.drop_first()[j]).0@ != key by {
            assert(es.drop_first()[j] == es[j + 1]);
        }
        lemma_lookup_skip(es.drop_first(), key, i - 1);
        assert(es.drop_first().skip(i - 1) =~= es.skip(i));
        assert(es.len() > 0);
        assert(es[0].0@ != key);
        assert(lookup_spec(es, key) == lookup_spec(es.drop_first(), key));
        assert(lookup_spec(es.drop_first(), key) == lookup_spec(es.drop_first().skip(i - 1), key));
    } else {
        assert(es.skip(0) =~= es);
    }
}

/// The text a variable resolves to: the ambient value when the environment
/// holds one, else the registry default when that is nonempty.
pub open spec fn env_text(
    es: Seq<(String, EnvVarConfig)>,
    key: Seq<char>,
    ambient: Option<String>,
) -> Option<Seq<char>> {
    match ambient {
        Some(a) => Some(a@),
        None => match lookup_spec(es, key) {
            Some(c) => if c.default@.len() > 0 {
                Some(c.default@)
            } else {
                None
            },
            None => None,
        },
    }
}

/// A decimal digit.
pub open spec fn is_digit(c: char) -> bool {
    '0' <= c && c <= '9'
}

/// The value of a digit character.
pub open spec fn digit_val(c: char) -> int {
    c as int - 48
}

/// The value of a digit string, most significant first.
pub open spec fn digits_val(s: Seq<char>) -> int
    decreases s.len(),
{
    if s.len() == 0 {
        0
    } else {
        digits_val(s.drop_last()) * 10 + digit_val(s.last())
    }
}

/// Every character is a digit.
pub open spec fn all_digits(s: Seq<char>) -> bool {
    forall|i: int| 0 <= i < s.len() ==> is_digit(#[trigger] s[i])
}

/// What parsing a signed 32-bit integer from text yields: an optional sign,
/// then at least one digit, and a value within range; anything else is
/// rejected.
pub open spec fn parse_i32_spec(s: Seq<char>) -> Option<i32> {
    let negative = s.len() > 0 && s[0] == '-';
    let ds = if s.len() > 0 && (s[0] == '-' || s[0] == '+') {
        s.drop_first()
    } else {
        s
    };
    if ds.len() > 0 && all_digits(ds) {
        let v = if negative {
            -digits_val(ds)
        } else {
            digits_val(ds)
        };
        if i32::MIN <= v <= i32::MAX {
            Some(v as i32)
        } else {
            None
        }
    } else {
        None
    }
}

/// A digit string's value never shrinks as digits are appended.
proof fn lemma_digits_nonneg(s: Seq<char>)
    requires
        all_digits(s),
    ensures
        digits_val(s) >= 0,
    decreases s.len(),
{
    if s.len() > 0 {
        assert(all_digits(s.drop_last()));
        lemma_digits_nonneg(s.drop_last());
    }
}

/// Parse a signed 32-bit integer from text, exactly as the specification
/// describes.
pub fn parse_i32(s: &str) -> (r: Option<i32>)
    ensures
        r == parse_i32_spec(s@),
{
    let n = s.unicode_len();
    if n == 0 {
        return None;
    }
    let first = s.get_char(0);
    let negative = first == '-';
    let start: usize = if first == '-' || first == '+' {
        1
    } else {
        0
    };
    let ghost ds = if first == '-' || first == '+' {
        s@.drop_first()
    } else {
        s@
    };
    if start == n {
        return None;
    }
    let mut mag: u64 = 0;
    let mut i: usize = start;
    while i < n
        invariant
            n == s@.len(),
            start <= i <= n,
            start == (if s@[0] == '-' || s@[0] == '+' {
                1int
            } else {
                0int
            }),
            n > start,
            ds == s@.subrange(start as int, n as int),
            all_digits(ds.take(i - start)),
            mag <= 0x1_0000_0000,
            mag <= 0xFFFF_FFFF ==> mag == digits_val(ds.take(i - start)),
            mag == 0x1_0000_0000 ==> digits_val(ds.take(i - start)) >= 0x1_0000_0000,
        decreases n - i,
    {
        let c = s.get_char(i);
        if c < '0' || c > '9' {
            proof {
                assert(ds[i - start] == s@[i as int]);
                assert(!is_digit(ds[i - start]));
                assert(!all_digits(ds));
            }
            return None;
        }
        let d: u64 = (c as u32 as u64) - 48;
        proof {
            assert(ds.take(i - start + 1).drop_last() =~= ds.take(i - start));
            assert(ds.take(i - start + 1).last() == ds[i - start]);
            assert(ds[i - start] == s@[i as int]);
            lemma_digits_nonneg(ds.take(i - start));
        }
        if mag <= 0xFFFF_FFFF {
            let t: u64 = mag * 10 + d;
            if t <= 0xFFFF_FFFF {
                mag = t;
            } else {
                mag = 0x1_0000_0000;
            }
        } else {
            proof {
                assert(digits_val(ds.take(i - start + 1)) == digits_val(ds.take(i - start)) * 10
                    + digit_val(ds[i - start]));
            }
        }
        i = i + 1;
    }
    proof {
        assert(ds.take(n - start) =~= ds);
    }
    if negative {
        if mag <= 2147483648 {
            proof {
                assert(-(mag as int) >= i32::MIN);
            }
            if mag == 2147483648 {
                Some(i32::MIN)
            } else {
                Some(-(mag as i32))
            }
        } else {
            None
        }
    } else {
        if mag <= 2147483647 {
            Some(mag as i32)
        } else {
            None
        }
    }
}

impl EnvRegistry {
    /// The registry of variables this program understands, with their
    /// defaults.
    pub fn create_env_registry() -> (r: EnvRegistry)
        ensures
            r.entries@.len() == 5,
            r.entries@[0].0@ == "SUDO_PASSWORD"@ && !r.entries@[0].1.required
                && r.entries@[0].1.default@ == ""@,
            r.entries@[1].0@ == "DEBUG"@ && !r.entries@[1].1.required && r.entries@[1].1.default@
                == "false"@,
            r.entries@[2].0@ == "LOG_LEVEL"@ && !r.entries@[2].1.required
                && r.entries@[2].1.default@ == "INFO"@,
            r.entries@[3].0@ == "MAX_PARALLEL_OPERATIONS"@ && !r.entries@[3].1.required
                && r.entries@[3].1.default@ == "10"@,
            r.entries@[4].0@ == "CACHE_RETENTION_DAYS"@ && !r.entries@[4].1.required
                && r.entries@[4].1.default@ == "7"@,
    {
        let mut entries: Vec<(String, EnvVarConfig)> = Vec::new();
        entries.push(
            (
                "SUDO_PASSWORD".to_owned(),
                EnvVarConfig {
                    required: false,
                    description:
                        "Password for sudo operations (will be prompted if not provided)".to_owned(),
                    default: "".to_owned(),
                },
            ),
        );
        entries.push(
            (
                "DEBUG".to_owned(),
                EnvVarConfig {
                    required: false,
                    description: "Enable debug mode".to_owned(),
                    default: "false".to_owned(),
                },
            ),
        );
        entries.push(
            (
                "LOG_LEVEL".to_owned(),
                EnvVarConfig {
                    required: false,
                    description: "Logging level configuration".to_owned(),
                    default: "INFO".to_owned(),
                },
            ),
        );
        entries.push(
            (
                "MAX_PARALLEL_OPERATIONS".to_owned(),
                EnvVarConfig {
                    required: false,
                    description: "Maximum number of parallel cache operations".to_owned(),
                    default: "10".to_owned(),
                },
            ),
        );
        entries.push(
            (
                "CACHE_RETENTION_DAYS".to_owned(),
                EnvVarConfig {
                    required: false,
                    description: "Number of days to retain cache files".to_owned(),
                    default: "7".to_owned(),
                },
            ),
        );
        EnvRegistry { entries }
    }

    /// The registry entry under `key`, if the variable is known.
    pub fn get(&self, key: &str) -> (r: Option<&EnvVarConfig>)
        ensures
            match r {
                Some(c) => lookup_spec(self.entries@, key@) == Some(*c),
                None => lookup_spec(self.entries@, key@) is None,
            },
    {
        let mut i: usize = 0;
        while i < self.entries.len()
            invariant
                0 <= i <= self.entries.len(),
                forall|j: int| 0 <= j < i ==> (#[trigger] self.entries@[j]).0@ != key@,
            decreases self.entries.len() - i,
        {
            if str_eq(self.entries[i].0.as_str(), key) {
                proof {
                    lemma_lookup_skip(self.entries@, key@, i as int);
                    assert(self.entries@.skip(i as int)[0] == self.entries@[i as int]);
                    assert(lookup_spec(self.entries@.skip(i as int), key@) == Some(
                        self.entries@[i as int].1,
                    ));
                }
                return Some(&self.entries[i].1);
            }
            i = i + 1;
        }
        proof {
            lemma_lookup_skip(self.entries@, key@, self.entries@.len() as int);
            assert(self.entries@.skip(self.entries@.len() as int) =~= Seq::<
                (String, EnvVarConfig),
            >::empty());
        }
        None
    }

    /// The value of a variable: the ambient value the caller read from the
    /// environment, else the registry default when that is nonempty.
    pub fn get_env_var(&self, key: &str, ambient: Option<String>) -> (r: Option<String>)
        ensures
            match env_text(self.entries@, key@, ambient) {
                Some(t) => r matches Some(v) && v@ == t,
                None => r is None,
            },
    {
        match ambient {
            Some(v) => Some(v),
            None => {
                match self.get(key) {
                    Some(c) => {
                        if c.default.as_str().unicode_len() > 0 {
                            Some(c.default.clone())
                        } else {
                            None
                        }
                    },
                    None => None,
                }
            },
        }
    }

    /// The value of a variable as a signed integer, with a fallback.
    pub fn get_env_var_as_int(&self, key: &str, ambient: Option<String>, default: i32) -> (r: i32)
        ensures
            r == (match env_text(self.entries@, key@, ambient) {
                Some(t) => match parse_i32_spec(t) {
                    Some(n) => n,
                    None => default,
                },
                None => default,
            }),
    {
        match self.get_env_var(key, ambient) {
            Some(v) => {
                match parse_i32(v.as_str()) {
                    Some(n) => n,
                    None => default,
                }
            },
            None => default,
        }
    }

    /// Is the text a truthy setting?  Folding ASCII case, one of `true`,
    /// `1`, `yes` or `on`.
    pub open spec fn truthy(t: Seq<char>) -> bool {
        eq_ci(t, "true"@) || eq_ci(t, "1"@) || eq_ci(t, "yes"@) || eq_ci(t, "on"@)
    }

    /// The value of a variable as a boolean, with a fallback.
    pub fn get_env_var_as_bool(&self, key: &str, ambient: Option<String>, default: bool) -> (r:
        bool)
        ensures
            r == (match env_text(self.entries@, key@, ambient) {
                Some(t) => Self::truthy(t),
                None => default,
            }),
    {
        match self.get_env_var(key, ambient) {
            Some(v) => str_eq_ci(v.as_str(), "true") || str_eq_ci(v.as_str(), "1") || str_eq_ci(
                v.as_str(),
                "yes",
            ) || str_eq_ci(v.as_str(), "on"),
            None => default,
        }
    }

    /// Check that every required variable is present; `present` carries, per
    /// registry entry, whether the caller found it set in the environment.
    pub fn validate_environment(&self, present: &Vec<bool>) -> (r: Result<(), ClearModelError>)
        requires
            present.len() == self.entries.len(),
        ensures
            r is Ok <==> (forall|i: int|
                0 <= i < self.entries@.len() ==> ((#[trigger] self.entries@[i]).1.required
                    ==> present@[i])),
            r matches Err(e) ==> e is Environment,
    {
        let mut missing = false;
        let mut msg = String::new();
        msg.append("Missing required environment variables:\n");
        let mut i: usize = 0;
        while i < self.entries.len()
            invariant
                present.len() == self.entries.len(),
                0 <= i <= self.entries.len(),
                missing <==> !(forall|j: int|
                    0 <= j < i ==> ((#[trigger] self.entries@[j]).1.required ==> present@[j])),
            decreases self.entries.len() - i,
        {
            if self.entries[i].1.required && !present[i] {
                msg.append("- ");
                msg.append(self.entries[i].0.as_str());
                msg.append(" (");
                msg.append(self.entries[i].1.description.as_str());
                msg.append(")\n");
                missing = true;
            }
            i = i + 1;
        }
        if missing {
            Err(ClearModelError::environment(msg))
        } else {
            Ok(())
        }
    }

    /// Every variable the registry knows.
    pub fn get_registry(&self) -> (r: &Vec<(String, EnvVarConfig)>)
        ensures
            r == &self.entries,
    {
        &self.entries
    }
}

} // verus!
