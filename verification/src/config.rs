//! Process configuration: the values the service needs, validated once at
//! startup from plain strings.
//!
//! The surrounding process reads the raw values from its environment and
//! hands them here; a malformed channel identifier or credential list is a
//! fatal configuration fault, reported before the service begins serving.
//! Channel identifiers are parsed by a decimal integer parser specified
//! exactly below; the credential list arrives as a JSON array of strings.

use vstd::prelude::*;

verus! {

/// Whether `c` is a decimal digit.
pub open spec fn is_digit_char(c: char) -> bool {
    48 <= c as int <= 57
}

/// The numeric value of a digit character.
pub open spec fn digit_value(c: char) -> int {
    c as int - 48
}

/// Whether every character of `s` is a decimal digit.
pub open spec fn all_digits(s: Seq<char>) -> bool {
    forall|i: int| 0 <= i < s.len() ==> is_digit_char(#[trigger] s[i])
}

/// The value of a digit string read in base ten; leading zeros carry no
/// weight.
pub open spec fn digits_value(s: Seq<char>) -> int
    decreases s.len(),
{
    if s.len() == 0 {
        0
    } else {
        digits_value(s.drop_last()) * 10 + digit_value(s.last())
    }
}

/// Whether `s` is a decimal integer literal: an optional leading minus sign
/// followed by one or more digits.
pub open spec fn is_int_literal(s: Seq<char>) -> bool {
    if s.len() >= 1 && s[0] == '-' {
        s.len() >= 2 && all_digits(s.skip(1))
    } else {
        s.len() >= 1 && all_digits(s)
    }
}

/// The value a decimal integer literal denotes.
pub open spec fn int_literal_value(s: Seq<char>) -> int {
    if s.len() >= 1 && s[0] == '-' {
        -digits_value(s.skip(1))
    } else {
        digits_value(s)
    }
}

/// Whether `s` denotes a value an `i64` can hold.
pub open spec fn i64_parseable(s: Seq<char>) -> bool {
    &&& is_int_literal(s)
    &&& i64::MIN <= int_literal_value(s) <= i64::MAX
}

/// Parses a decimal integer literal into an `i64`: `Some` exactly on the
/// strings `i64_parseable` admits, with the denoted value.
#[verifier::loop_isolation(false)]
pub fn parse_i64(s: &str) -> (r: Option<i64>)
    ensures
        i64_parseable(s@) ==> (r matches Some(v) && v == int_literal_value(s@)),
        !i64_parseable(s@) ==> r is None,
{
    let n = s.unicode_len();
    if n == 0 {
        return None;
    }
    let neg = s.get_char(0) == '-';
    let start: usize = if neg {
        1
    } else {
        0
    };
    if n == start {
        return None;
    }
    let mut mag: u64 = 0;
    let mut too_big = false;
    let mut i: usize = start;
    while i < n
        invariant
            start <= i <= n,
            all_digits(s@.subrange(start as int, i as int)),
            !too_big ==> mag == digits_value(s@.subrange(start as int, i as int)),
            too_big ==> digits_value(s@.subrange(start as int, i as int)) > u64::MAX,
        decreases n - i,
    {
        let c = s.get_char(i);
        let code = c as u32;
        if code < 48 || code > 57 {
            proof {
                assert(!is_digit_char(s@[i as int]));
                if neg {
                    assert(s@.skip(1)[i - 1] == s@[i as int]);
                }
            }
            return None;
        }
        let digit = (code - 48) as u64;
        proof {
            assert(s@.subrange(start as int, i + 1).drop_last() =~= s@.subrange(
                start as int,
                i as int,
            ));
            assert(s@.subrange(start as int, i + 1).last() == s@[i as int]);
        }
        if too_big {
            proof {
                let prev = digits_value(s@.subrange(start as int, i as int));
                assert(digits_value(s@.subrange(start as int, i + 1)) == prev * 10 + digit_value(
                    s@[i as int],
                ));
                assert(prev * 10 >= prev + prev);
            }
        } else {
            let grown = mag.checked_mul(10);
            match grown {
                Some(x) => {
                    let bumped = x.checked_add(digit);
                    match bumped {
                        Some(y) => {
                            mag = y;
                        },
                        None => {
                            too_big = true;
                        },
                    }
                },
                None => {
                    too_big = true;
                },
            }
        }
        i += 1;
    }
    proof {
        assert(s@.subrange(start as int, n as int) =~= s@.skip(start as int));
        if neg {
            assert(is_int_literal(s@));
            assert(int_literal_value(s@) == -digits_value(s@.subrange(start as int, n as int)));
        } else {
            assert(s@.skip(0) =~= s@);
        }
    }
    if too_big {
        return None;
    }
    if neg {
        if mag <= i64::MAX as u64 {
            Some(-(mag as i64))
        } else if mag == i64::MAX as u64 + 1 {
            Some(i64::MIN)
        } else {
            None
        }
    } else {
        if mag <= i64::MAX as u64 {
            Some(mag as i64)
        } else {
            None
        }
    }
}

/// What a string holds when read as a JSON array of strings: the list, or
/// nothing when the string is not such an array. The result depends on the
/// string alone.
pub uninterp spec fn json_string_list(s: Seq<char>) -> Option<Seq<Seq<char>>>;

/// Relies on serde_json::from_str::<Vec<String>>: parses a JSON array of
/// strings, deterministically in its input.
#[verifier::external_body]
fn parse_string_list(s: &str) -> (r: Option<Vec<String>>)
    ensures
        (r matches Some(v) ==> json_string_list(s@) == Some(
            v@.map_values(|t: String| t@),
        )),
        (r is None ==> json_string_list(s@) is None),
{
    serde_json::from_str::<Vec<String>>(s).ok()
}

/// Why a configuration was refused; each names the first value found
/// unusable.
#[derive(Clone, Copy, Debug, PartialEq, Eq, Structural)]
pub enum ConfigError {
    /// The storage channel identifier is not a decimal integer an `i64`
    /// holds.
    BadChatId,
    /// The temporary-forward channel identifier is not such an integer.
    BadTempChatId,
    /// The credential list is not a JSON array of strings.
    BadTokenList,
    /// The credential list is empty; the pool needs at least one credential.
    EmptyTokenList,
}

/// Everything the service is configured with, immutable for the process
/// lifetime.
#[derive(Debug)]
pub struct Config {
    /// The static bearer token callers must present.
    pub api_key: String,
    /// The backend's base endpoint URL.
    pub telegram_api_url: String,
    /// The permanent storage channel.
    pub telegram_chat_id: i64,
    /// The temporary channel downloads forward into.
    pub telegram_temp_chat_id: i64,
    /// The ordered backend credentials of the pool; never empty.
    pub bot_tokens: Vec<String>,
    /// Where the process reports errors.
    pub sentry_dsn: String,
}

impl Config {
    /// Validates raw configuration values into a usable `Config`. The
    /// channel identifiers must be decimal integers, the credential list a
    /// non-empty JSON array of strings; the first value found unusable is
    /// reported and the process must not begin serving.
    pub fn build(
        api_key: String,
        telegram_api_url: String,
        chat_id: &str,
        temp_chat_id: &str,
        bot_tokens_json: &str,
        sentry_dsn: String,
    ) -> (r: Result<Config, ConfigError>)
        ensures
            (r matches Ok(c) ==> {
                &&& c.api_key == api_key
                &&& c.telegram_api_url == telegram_api_url
                &&& i64_parseable(chat_id@) && c.telegram_chat_id == int_literal_value(chat_id@)
                &&& i64_parseable(temp_chat_id@) && c.telegram_temp_chat_id == int_literal_value(
                    temp_chat_id@,
                )
                &&& json_string_list(bot_tokens_json@) == Some(
                    c.bot_tokens@.map_values(|t: String| t@),
                )
                &&& c.bot_tokens@.len() >= 1
                &&& c.sentry_dsn == sentry_dsn
            }),
            (r matches Err(e) ==> match e {
                ConfigError::BadChatId => !i64_parseable(chat_id@),
                ConfigError::BadTempChatId => i64_parseable(chat_id@) && !i64_parseable(
                    temp_chat_id@,
                ),
                ConfigError::BadTokenList => i64_parseable(chat_id@) && i64_parseable(
                    temp_chat_id@,
                ) && json_string_list(bot_tokens_json@) is None,
                ConfigError::EmptyTokenList => i64_parseable(chat_id@) && i64_parseable(
                    temp_chat_id@,
                ) && (json_string_list(bot_tokens_json@) matches Some(ts) && ts.len() == 0),
            }),
    {
        let telegram_chat_id = match parse_i64(chat_id) {
            Some(v) => v,
            None => {
                return Err(ConfigError::BadChatId);
            },
        };
        let telegram_temp_chat_id = match parse_i64(temp_chat_id) {
            Some(v) => v,
            None => {
                return Err(ConfigError::BadTempChatId);
            },
        };
        let bot_tokens = match parse_string_list(bot_tokens_json) {
            Some(v) => v,
            None => {
                return Err(ConfigError::BadTokenList);
            },
        };
        if bot_tokens.len() == 0 {
            return Err(ConfigError::EmptyTokenList);
        }
        Ok(
            Config {
                api_key,
                telegram_api_url,
                telegram_chat_id,
                telegram_temp_chat_id,
                bot_tokens,
                sentry_dsn,
            },
        )
    }
}

} // verus!
