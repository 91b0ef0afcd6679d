//! What the server is told at start-up.

use crate::crypt::token::TokenCodec;
use crate::utils::text::same_text;
use std::marker::PhantomData;
use vstd::prelude::*;
use vstd::string::*;
use vstd::utf8::{encode_utf8, is_ascii_chars_encode_utf8};

verus! {

/// The settings of one server. They are made once and handed to whoever
/// needs them; nothing looks them up behind the caller's back.
#[allow(unused)]
pub struct Config {
    pub db_url: String,
    pub s3_url: String,
    pub cache_url: String,
    pub pwd_key: String,
    pub token_duration_sec: u16,
    pub web_folder: String,
    pub token_secret: String,
}

/// The value that `pairs` give to `key`: that of the last pair that names
/// it.
pub open spec fn setting(pairs: Seq<(String, String)>, key: Seq<char>) -> Option<Seq<char>>
    decreases pairs.len(),
{
    if pairs.len() == 0 {
        None
    } else if pairs.last().0@ == key {
        Some(pairs.last().1@)
    } else {
        setting(pairs.drop_last(), key)
    }
}

/// `c` is one of the characters `0` to `9`.
pub open spec fn is_digit_char(c: char) -> bool {
    '0' <= c <= '9'
}

/// `c` is a character of ASCII.
pub open spec fn is_plain(c: char) -> bool {
    '\0' <= c <= '\u{7f}'
}

/// Every character of `text` is a digit.
pub open spec fn all_digit_chars(text: Seq<char>) -> bool {
    forall|i: int| 0 <= i < text.len() ==> is_digit_char(#[trigger] text[i])
}

/// The number that the digits `text` spell.
pub open spec fn number_of(text: Seq<char>) -> nat
    decreases text.len(),
{
    if text.len() == 0 {
        0
    } else {
        number_of(text.drop_last()) * 10 + (text.last() as u8 - 48) as nat
    }
}

/// `text` without the `+` it may begin with.
pub open spec fn unsigned_part(text: Seq<char>) -> Seq<char> {
    if text.len() > 0 && text[0] == '+' {
        text.drop_first()
    } else {
        text
    }
}

/// The seconds that `text` spells: its digits' number, where it is digits
/// after at most a `+` and the number is one a `u16` holds. Zeros in front
/// do no harm; blanks do.
pub open spec fn seconds_of(text: Seq<char>) -> Option<u16> {
    let digits = unsigned_part(text);
    if digits.len() > 0 && all_digit_chars(digits) && number_of(digits) <= u16::MAX {
        Some(number_of(digits) as u16)
    } else {
        None
    }
}

/// A longer run of digits spells no smaller a number than its beginning.
proof fn lemma_number_grows(text: Seq<char>, k: int)
    requires
        all_digit_chars(text),
        0 <= k <= text.len(),
    ensures
        number_of(text.subrange(0, k)) <= number_of(text),
    decreases text.len() - k,
{
    if k == text.len() {
        assert(text.subrange(0, k) =~= text);
    } else {
        let init = text.drop_last();
        assert forall|i: int| 0 <= i < init.len() implies is_digit_char(#[trigger] init[i]) by {
            assert(init[i] == text[i]);
        }
        lemma_number_grows(init, k);
        assert(init.subrange(0, k) =~= text.subrange(0, k));
        assert(is_digit_char(text.last()));
    }
}

/// Every value given to the token's time to live is a number of seconds.
pub open spec fn durations_parse(pairs: Seq<(String, String)>) -> bool {
    forall|i: int|
        0 <= i < pairs.len() && (#[trigger] pairs[i]).0@ == "TOKEN_DURATION_SECONDS"@
            ==> seconds_of(pairs[i].1@) is Some
}

/// `pairs` name every setting, and the token's time to live as a number
/// wherever they name it.
pub open spec fn complete(pairs: Seq<(String, String)>) -> bool {
    &&& setting(pairs, "DATABASE_URL"@) is Some
    &&& setting(pairs, "S3_URL"@) is Some
    &&& setting(pairs, "CACHE_URL"@) is Some
    &&& setting(pairs, "PASSWORD_SECRET"@) is Some
    &&& setting(pairs, "HMAC_SECRET"@) is Some
    &&& setting(pairs, "TOKEN_DURATION_SECONDS"@) is Some
    &&& setting(pairs, "WEB_FOLDER"@) is Some
    &&& durations_parse(pairs)
}

/// `config` holds what `pairs` give to each setting.
pub open spec fn describes(pairs: Seq<(String, String)>, config: Config) -> bool {
    &&& setting(pairs, "DATABASE_URL"@) == Some(config.db_url@)
    &&& setting(pairs, "S3_URL"@) == Some(config.s3_url@)
    &&& setting(pairs, "CACHE_URL"@) == Some(config.cache_url@)
    &&& setting(pairs, "PASSWORD_SECRET"@) == Some(config.pwd_key@)
    &&& setting(pairs, "HMAC_SECRET"@) == Some(config.token_secret@)
    &&& setting(pairs, "WEB_FOLDER"@) == Some(config.web_folder@)
    &&& setting(pairs, "TOKEN_DURATION_SECONDS"@) matches Some(text) && seconds_of(text) == Some(
        config.token_duration_sec,
    )
}

/// The text that is there, if any is.
pub open spec fn text_of(value: Option<String>) -> Option<Seq<char>> {
    match value {
        Some(text) => Some(text@),
        None => None,
    }
}

/// The seven names are seven different texts.
proof fn lemma_names_differ()
    ensures
        "DATABASE_URL"@.len() == 12,
        "S3_URL"@.len() == 6,
        "CACHE_URL"@.len() == 9,
        "PASSWORD_SECRET"@.len() == 15,
        "HMAC_SECRET"@.len() == 11,
        "TOKEN_DURATION_SECONDS"@.len() == 22,
        "WEB_FOLDER"@.len() == 10,
{
    reveal_strlit("DATABASE_URL");
    reveal_strlit("S3_URL");
    reveal_strlit("CACHE_URL");
    reveal_strlit("PASSWORD_SECRET");
    reveal_strlit("HMAC_SECRET");
    reveal_strlit("TOKEN_DURATION_SECONDS");
    reveal_strlit("WEB_FOLDER");
}

/// One more pair gives its value to the setting it names and leaves the
/// others as they were.
proof fn lemma_setting_step(before: Seq<(String, String)>, pair: (String, String), key: Seq<char>)
    ensures
        setting(before.push(pair), key) == if pair.0@ == key {
            Some(pair.1@)
        } else {
            setting(before, key)
        },
{
    let after = before.push(pair);
    assert(after.last() == pair);
    assert(after.drop_last() =~= before);
}

/// Reads a number of seconds.
pub fn parse_seconds(text: &str) -> (r: Option<u16>)
    ensures
        r == seconds_of(text@),
{
    let ghost digits = unsigned_part(text@);
    if !text.is_ascii() {
        proof {
            let at = choose|i: int| 0 <= i < text@.len() && !is_plain(#[trigger] text@[i]);
            if digits.len() == text@.len() {
                assert(!is_digit_char(digits[at]));
            } else {
                assert(digits[at - 1] == text@[at]);
                assert(!is_digit_char(digits[at - 1]));
            }
        }
        return None;
    }
    let bytes = text.as_bytes();
    proof {
        is_ascii_chars_encode_utf8(text@);
    }
    let len = bytes.len();
    let start: usize = if len > 0 && bytes[0] == 43 {
        1
    } else {
        0
    };
    assert(digits =~= text@.subrange(start as int, len as int));
    if start == len {
        return None;
    }
    let mut i: usize = start;
    while i < len
        invariant
            start <= i <= len,
            len == bytes@.len(),
            len == text@.len(),
            digits == unsigned_part(text@),
            digits == text@.subrange(start as int, len as int),
            forall|j: int| 0 <= j < len ==> #[trigger] bytes@[j] == text@[j] as u8,
            forall|j: int| 0 <= j < len ==> is_plain(#[trigger] text@[j]),
            forall|j: int| 0 <= j < i - start ==> is_digit_char(#[trigger] digits[j]),
        decreases len - i,
    {
        proof {
            assert(digits[i - start] == text@[i as int]);
            assert(bytes@[i as int] == text@[i as int] as u8);
            assert(is_plain(text@[i as int]));
        }
        if bytes[i] < 48 || bytes[i] > 57 {
            proof {
                assert(!is_digit_char(digits[i - start]));
            }
            return None;
        }
        i = i + 1;
    }
    assert(all_digit_chars(digits));
    let mut value: u32 = 0;
    i = start;
    while i < len
        invariant
            start <= i <= len,
            len == bytes@.len(),
            len == text@.len(),
            digits == unsigned_part(text@),
            digits == text@.subrange(start as int, len as int),
            all_digit_chars(digits),
            forall|j: int| 0 <= j < len ==> #[trigger] bytes@[j] == text@[j] as u8,
            value == number_of(digits.subrange(0, i - start)),
            value <= u16::MAX,
        decreases len - i,
    {
        assert(is_digit_char(digits[i - start]));
        assert(digits[i - start] == text@[i as int]);
        assert(bytes@[i as int] == text@[i as int] as u8);
        let digit: u32 = (bytes[i] - 48) as u32;
        proof {
            let longer = digits.subrange(0, i - start + 1);
            assert(longer.drop_last() =~= digits.subrange(0, i - start));
            assert(longer.last() == text@[i as int]);
            assert(number_of(longer) == value * 10 + digit);
            lemma_number_grows(digits, i - start + 1);
        }
        value = value * 10 + digit;
        if value > 65535 {
            return None;
        }
        i = i + 1;
    }
    proof {
        assert(digits.subrange(0, len - start) =~= digits);
    }
    Some(value as u16)
}

impl Config {
    /// The settings with these values.
    pub fn new(
        db_url: String,
        s3_url: String,
        cache_url: String,
        pwd_key: String,
        token_duration_sec: u16,
        web_folder: String,
        token_secret: String,
    ) -> (r: Self)
        ensures
            r.db_url == db_url,
            r.s3_url == s3_url,
            r.cache_url == cache_url,
            r.pwd_key == pwd_key,
            r.token_duration_sec == token_duration_sec,
            r.web_folder == web_folder,
            r.token_secret == token_secret,
    {
        Config {
            db_url,
            s3_url,
            cache_url,
            pwd_key,
            token_duration_sec,
            web_folder,
            token_secret,
        }
    }

    /// The settings that `pairs` of names and values give.
    ///
    /// A setting named twice takes its last value, and a name that is no
    /// setting's is passed over. There are no settings where one is not
    /// named, or where the token's time to live is given and is no number
    /// of seconds as `seconds_of` reads them.
    pub fn from_pairs(pairs: &Vec<(String, String)>) -> (r: Option<Self>)
        ensures
            r is Some <==> complete(pairs@),
            r matches Some(config) ==> describes(pairs@, config),
    {
        let mut db_url: Option<String> = None;
        let mut s3_url: Option<String> = None;
        let mut cache_url: Option<String> = None;
        let mut pwd_key: Option<String> = None;
        let mut token_duration_sec: Option<u16> = None;
        let mut web_folder: Option<String> = None;
        let mut token_secret: Option<String> = None;
        let ghost mut duration_text: Option<Seq<char>> = None;
        let mut i: usize = 0;
        while i < pairs.len()
            invariant
                i <= pairs@.len(),
                text_of(db_url) == setting(pairs@.subrange(0, i as int), "DATABASE_URL"@),
                text_of(s3_url) == setting(pairs@.subrange(0, i as int), "S3_URL"@),
                text_of(cache_url) == setting(pairs@.subrange(0, i as int), "CACHE_URL"@),
                text_of(pwd_key) == setting(pairs@.subrange(0, i as int), "PASSWORD_SECRET"@),
                text_of(token_secret) == setting(pairs@.subrange(0, i as int), "HMAC_SECRET"@),
                text_of(web_folder) == setting(pairs@.subrange(0, i as int), "WEB_FOLDER"@),
                duration_text == setting(pairs@.subrange(0, i as int), "TOKEN_DURATION_SECONDS"@),
                match duration_text {
                    Some(text) => token_duration_sec is Some && token_duration_sec == seconds_of(
                        text,
                    ),
                    None => token_duration_sec is None,
                },
                durations_parse(pairs@.subrange(0, i as int)),
            decreases pairs@.len() - i,
        {
            let key = pairs[i].0.as_str();
            let ghost before = pairs@.subrange(0, i as int);
            let ghost after = pairs@.subrange(0, i + 1);
            proof {
                lemma_names_differ();
                assert(after =~= before.push(pairs@[i as int]));
                lemma_setting_step(before, pairs@[i as int], "DATABASE_URL"@);
                lemma_setting_step(before, pairs@[i as int], "S3_URL"@);
                lemma_setting_step(before, pairs@[i as int], "CACHE_URL"@);
                lemma_setting_step(before, pairs@[i as int], "PASSWORD_SECRET"@);
                lemma_setting_step(before, pairs@[i as int], "HMAC_SECRET"@);
                lemma_setting_step(before, pairs@[i as int], "TOKEN_DURATION_SECONDS"@);
                lemma_setting_step(before, pairs@[i as int], "WEB_FOLDER"@);
            }
            if same_text(key, "DATABASE_URL") {
                db_url = Some(pairs[i].1.clone());
            } else if same_text(key, "S3_URL") {
                s3_url = Some(pairs[i].1.clone());
            } else if same_text(key, "CACHE_URL") {
                cache_url = Some(pairs[i].1.clone());
            } else if same_text(key, "PASSWORD_SECRET") {
                pwd_key = Some(pairs[i].1.clone());
            } else if same_text(key, "HMAC_SECRET") {
                token_secret = Some(pairs[i].1.clone());
            } else if same_text(key, "TOKEN_DURATION_SECONDS") {
                match parse_seconds(pairs[i].1.as_str()) {
                    Some(seconds) => {
                        token_duration_sec = Some(seconds);
                        proof {
                            duration_text = Some(pairs@[i as int].1@);
                        }
                    },
                    None => {
                        return None;
                    },
                }
            } else if same_text(key, "WEB_FOLDER") {
                web_folder = Some(pairs[i].1.clone());
            }
            proof {
                assert forall|j: int|
                    0 <= j < after.len() && (#[trigger] after[j]).0@
                        == "TOKEN_DURATION_SECONDS"@ implies seconds_of(after[j].1@) is Some by {
                    if j < i {
                        assert(after[j] == before[j]);
                    }
                }
            }
            i = i + 1;
        }
        proof {
            assert(pairs@.subrange(0, i as int) =~= pairs@);
        }
        match (db_url, s3_url, cache_url, pwd_key, token_duration_sec, web_folder, token_secret) {
            (
                Some(db_url),
                Some(s3_url),
                Some(cache_url),
                Some(pwd_key),
                Some(token_duration_sec),
                Some(web_folder),
                Some(token_secret),
            ) => Some(
                Config::new(
                    db_url,
                    s3_url,
                    cache_url,
                    pwd_key,
                    token_duration_sec,
                    web_folder,
                    token_secret,
                ),
            ),
            _ => None,
        }
    }

    /// Touches the settings, so that they are known to be there before the
    /// server takes its first request.
    pub fn check(&self) -> PhantomData<()> {
        PhantomData
    }

    /// The codec these settings ask for: it signs with the bytes of
    /// `token_secret` and issues tokens that live `token_duration_sec`.
    pub fn token_codec(&self) -> (r: TokenCodec)
        ensures
            r.secret() == encode_utf8(self.token_secret@),
            r.ttl() == self.token_duration_sec,
    {
        TokenCodec::new(self.token_secret.as_str().as_bytes_vec(), self.token_duration_sec)
    }
}

} // verus!
