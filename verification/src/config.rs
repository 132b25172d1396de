//! Process configuration values.
//!
//! Loading the configuration file and evaluating it are collaborator
//! concerns outside this library; what stands here is the data model and the
//! defaulting rules: numeric settings arrive as text and fall back to a
//! default when they do not parse as a decimal number in range, directory
//! settings are trimmed, defaulted when empty, and resolved against the data
//! directory unless absolute.

use vstd::prelude::*;
use vstd::string::StringSliceAdditionalSpecFns;
use vstd::string::StrSliceExecFns;
use vstd::string::StringExecFns;

verus! {

/// The whole process configuration.
#[derive(Debug, PartialEq)]
pub struct Configuration {
    pub data_directory: String,
    pub connection: Connection,
    pub logging: Logging,
}

/// One network connection: worker-pool size and transport endpoints.
#[derive(Debug, PartialEq)]
pub struct Connection {
    pub workers: u32,
    pub use_ipv4: bool,
    pub host: String,
    pub public_key: String,
    pub subscribe_port: u16,
    pub request_port: u16,
}

/// Log-file settings.
#[derive(Debug, PartialEq)]
pub struct Logging {
    pub directory: String,
    pub file: String,
    pub size: u64,
    pub count: u32,
    pub console: bool,
    pub level: String,
}

pub const DEFAULT_PUBLISH: u16 = 2138;

pub const DEFAULT_REQUEST: u16 = 2139;

pub const DEFAULT_WORKERS: u32 = 1;

pub const DEFAULT_LOG_SIZE: u64 = 10000;

pub const DEFAULT_LOG_COUNT: u32 = 1;

/// `b` is the ASCII code of a decimal digit.
pub open spec fn is_dec_digit(b: u8) -> bool {
    0x30 <= b <= 0x39
}

/// The digit part of decimal text: everything after an optional leading `+`.
pub open spec fn dec_body(s: Seq<u8>) -> Seq<u8> {
    if s.len() > 0 && s[0] == 0x2b {
        s.skip(1)
    } else {
        s
    }
}

/// `s` is one or more decimal digits.
pub open spec fn dec_digits_ok(s: Seq<u8>) -> bool {
    s.len() > 0 && forall|i: int| 0 <= i < s.len() ==> is_dec_digit(s[i])
}

/// The number the decimal digits `s` spell.
pub open spec fn dec_value(s: Seq<u8>) -> int
    decreases s.len(),
{
    if s.len() == 0 {
        0
    } else {
        dec_value(s.drop_last()) * 10 + (s.last() - 0x30)
    }
}

/// The unsigned number that decimal text spells, when it spells one no
/// larger than `max`.
pub open spec fn dec_parsed(s: Seq<u8>, max: int) -> Option<int> {
    if dec_digits_ok(dec_body(s)) && dec_value(dec_body(s)) <= max {
        Some(dec_value(dec_body(s)))
    } else {
        None
    }
}

/// The number a digit sequence spells never shrinks as digits are appended.
proof fn lemma_dec_value_mono(s: Seq<u8>, i: int)
    requires
        dec_digits_ok(s),
        0 <= i <= s.len(),
    ensures
        dec_value(s) >= dec_value(s.subrange(0, i)) >= 0,
    decreases s.len() - i,
{
    if i == 0 {
        assert(s.subrange(0, 0) =~= Seq::<u8>::empty());
        lemma_dec_value_nonneg(s);
    } else if i == s.len() {
        assert(s.subrange(0, i) =~= s);
        lemma_dec_value_nonneg(s);
    } else {
        lemma_dec_value_mono(s, i + 1);
        let p = s.subrange(0, i);
        let q = s.subrange(0, i + 1);
        assert(q.drop_last() =~= p);
        assert(q.last() == s[i]);
        lemma_dec_value_nonneg(p);
    }
}

/// Digit sequences spell non-negative numbers.
proof fn lemma_dec_value_nonneg(s: Seq<u8>)
    requires
        forall|i: int| 0 <= i < s.len() ==> is_dec_digit(s[i]),
    ensures
        dec_value(s) >= 0,
    decreases s.len(),
{
    if s.len() > 0 {
        lemma_dec_value_nonneg(s.drop_last());
    }
}

/// Parse decimal text — an optional `+` then digits — as an unsigned 64-bit
/// number.  Returns `None` exactly when the text is not of that shape or the
/// number does not fit.
pub fn parse_u64_dec(s: &str) -> (r: Option<u64>)
    ensures
        r is Some <==> dec_parsed(s.spec_bytes(), u64::MAX as int) is Some,
        r matches Some(v) ==> Some(v as int) == dec_parsed(s.spec_bytes(), u64::MAX as int),
{
    let bs = s.as_bytes();
    let n: usize = bs.len();
    let start: usize = if n > 0 && bs[0] == 0x2b {
        1
    } else {
        0
    };
    proof {
        if start == 1 {
            assert(bs@.skip(1) =~= dec_body(s.spec_bytes()));
        } else {
            assert(bs@ =~= dec_body(s.spec_bytes()));
        }
    }
    if start == n {
        return None;
    }
    let ghost body = dec_body(s.spec_bytes());
    let mut acc: u64 = 0;
    let mut i: usize = start;
    while i < n
        invariant
            n == bs@.len(),
            start <= i <= n,
            start < n,
            start == 0 || start == 1,
            body == dec_body(s.spec_bytes()),
            body == bs@.subrange(start as int, n as int),
            forall|k: int| start <= k < i ==> is_dec_digit(bs@[k]),
            acc == dec_value(bs@.subrange(start as int, i as int)),
        decreases n - i,
    {
        let b = bs[i];
        if b < 0x30 || b > 0x39 {
            proof {
                assert(body[i - start] == bs@[i as int]);
                assert(!dec_digits_ok(body));
            }
            return None;
        }
        let d = (b - 0x30) as u64;
        if acc > (u64::MAX - d) / 10 {
            proof {
                vstd::arithmetic::div_mod::lemma_fundamental_div_mod((u64::MAX - d) as int, 10);
                vstd::arithmetic::div_mod::lemma_mod_bound((u64::MAX - d) as int, 10);
                let p = bs@.subrange(start as int, i as int);
                let q = bs@.subrange(start as int, i + 1);
                assert(q.drop_last() =~= p);
                assert(q.last() == bs@[i as int]);
                assert(dec_value(q) > u64::MAX);
                if dec_digits_ok(body) {
                    assert(body.subrange(0, i + 1 - start) =~= q);
                    lemma_dec_value_mono(body, i + 1 - start);
                }
            }
            return None;
        }
        proof {
            vstd::arithmetic::div_mod::lemma_fundamental_div_mod((u64::MAX - d) as int, 10);
            vstd::arithmetic::div_mod::lemma_mod_bound((u64::MAX - d) as int, 10);
            let p = bs@.subrange(start as int, i as int);
            let q = bs@.subrange(start as int, i + 1);
            assert(q.drop_last() =~= p);
            assert(q.last() == bs@[i as int]);
        }
        acc = acc * 10 + d;
        i = i + 1;
    }
    proof {
        assert(bs@.subrange(start as int, n as int) =~= body);
    }
    Some(acc)
}

/// Parse decimal text as `u64`, falling back to `default` when it does not
/// parse or does not fit — the rule every numeric setting follows.
pub fn parse_u64_or(s: &str, default: u64) -> (r: u64)
    ensures
        r as int == spec_or_default(s.spec_bytes(), u64::MAX as int, default as int),
{
    match parse_u64_dec(s) {
        Some(v) => v,
        None => default,
    }
}

/// The value decimal text spells when it fits under `max`, else `default`.
pub open spec fn spec_or_default(s: Seq<u8>, max: int, default: int) -> int {
    match dec_parsed(s, max) {
        Some(v) => v,
        None => default,
    }
}

/// Parse decimal text as `u32`, falling back to `default`.
pub fn parse_u32_or(s: &str, default: u32) -> (r: u32)
    ensures
        r as int == spec_or_default(s.spec_bytes(), u32::MAX as int, default as int),
{
    match parse_u64_dec(s) {
        Some(v) => {
            if v <= 0xffff_ffff {
                v as u32
            } else {
                default
            }
        },
        None => {
            proof {
                lemma_dec_body_digits_nonneg(s.spec_bytes());
            }
            default
        },
    }
}

/// Parse decimal text as `u16`, falling back to `default`.
pub fn parse_u16_or(s: &str, default: u16) -> (r: u16)
    ensures
        r as int == spec_or_default(s.spec_bytes(), u16::MAX as int, default as int),
{
    match parse_u64_dec(s) {
        Some(v) => {
            if v <= 0xffff {
                v as u16
            } else {
                default
            }
        },
        None => {
            proof {
                lemma_dec_body_digits_nonneg(s.spec_bytes());
            }
            default
        },
    }
}

/// When the digit part is well-formed its value is non-negative.
proof fn lemma_dec_body_digits_nonneg(s: Seq<u8>)
    ensures
        dec_digits_ok(dec_body(s)) ==> dec_value(dec_body(s)) >= 0,
{
    if dec_digits_ok(dec_body(s)) {
        lemma_dec_value_nonneg(dec_body(s));
    }
}

/// `c` counts as padding around a configuration value: ASCII whitespace.
pub open spec fn is_space_char(c: char) -> bool {
    c == ' ' || c == '\t' || c == '\n' || c == '\r' || c == '\u{b}' || c == '\u{c}'
}

/// `s` without its leading padding.
pub open spec fn trim_front(s: Seq<char>) -> Seq<char>
    decreases s.len(),
{
    if s.len() > 0 && is_space_char(s[0]) {
        trim_front(s.skip(1))
    } else {
        s
    }
}

/// `s` without its trailing padding.
pub open spec fn trim_back(s: Seq<char>) -> Seq<char>
    decreases s.len(),
{
    if s.len() > 0 && is_space_char(s.last()) {
        trim_back(s.drop_last())
    } else {
        s
    }
}

/// `s` without padding on either side.
pub open spec fn trimmed(s: Seq<char>) -> Seq<char> {
    trim_back(trim_front(s))
}

/// `c` counts as padding.
fn is_space(c: char) -> (r: bool)
    ensures
        r == is_space_char(c),
{
    c == ' ' || c == '\t' || c == '\n' || c == '\r' || c == '\u{b}' || c == '\u{c}'
}

/// Strip padding from both ends of a configuration value.
pub fn trim_spaces(s: &str) -> (r: String)
    ensures
        r@ == trimmed(s@),
{
    let n: usize = s.unicode_len();
    let mut a: usize = 0;
    proof {
        assert(s@.skip(0) =~= s@);
    }
    while a < n && is_space(s.get_char(a))
        invariant
            n == s@.len(),
            a <= n,
            trim_front(s@) == trim_front(s@.skip(a as int)),
        decreases n - a,
    {
        proof {
            assert(s@.skip(a as int).skip(1) =~= s@.skip(a + 1));
        }
        a = a + 1;
    }
    proof {
        if a < n {
            assert(trim_front(s@) =~= s@.skip(a as int));
        } else {
            assert(s@.skip(a as int) =~= Seq::<char>::empty());
        }
        assert(trim_front(s@) =~= s@.subrange(a as int, n as int));
    }
    let mut b: usize = n;
    while b > a && is_space(s.get_char(b - 1))
        invariant
            n == s@.len(),
            a <= b <= n,
            trim_front(s@) == s@.subrange(a as int, n as int),
            trim_back(s@.subrange(a as int, n as int)) == trim_back(
                s@.subrange(a as int, b as int),
            ),
        decreases b,
    {
        proof {
            assert(s@.subrange(a as int, b as int).drop_last() =~= s@.subrange(a as int, b - 1));
        }
        b = b - 1;
    }
    proof {
        let t = s@.subrange(a as int, b as int);
        if b > a {
            assert(trim_back(t) =~= t);
        } else {
            assert(t =~= Seq::<char>::empty());
        }
    }
    s.substring_char(a, b).to_owned()
}

/// A directory setting, trimmed, with `default` standing in when it is
/// missing or trims to nothing.
pub open spec fn spec_directory_or(v: Option<String>, default: Seq<char>) -> Seq<char> {
    match v {
        Some(s) => if trimmed(s@).len() == 0 {
            default
        } else {
            trimmed(s@)
        },
        None => default,
    }
}

/// The data directory: the configured value trimmed, or `.` when missing or
/// empty.
pub fn data_directory_or_default(v: Option<String>) -> (r: String)
    ensures
        r@ == spec_directory_or(v, "."@),
{
    match v {
        Some(s) => {
            let t = trim_spaces(s.as_str());
            if t.as_str().unicode_len() == 0 {
                ".".to_owned()
            } else {
                t
            }
        },
        None => ".".to_owned(),
    }
}

/// Where the log directory setting `d` ends up: absolute values stand alone,
/// anything else is joined under the data directory.
pub open spec fn spec_log_directory(data_directory: Seq<char>, d: Seq<char>) -> Seq<char> {
    if d.len() > 0 && d[0] == '/' {
        d
    } else {
        data_directory + "/"@ + d
    }
}

/// Resolve the log directory: the configured value trimmed — `log` when
/// missing or empty — then joined under the data directory unless absolute.
pub fn log_directory(data_directory: &str, v: Option<String>) -> (r: String)
    ensures
        r@ == spec_log_directory(data_directory@, spec_directory_or(v, "log"@)),
{
    let d = match v {
        Some(s) => {
            let t = trim_spaces(s.as_str());
            if t.as_str().unicode_len() == 0 {
                "log".to_owned()
            } else {
                t
            }
        },
        None => "log".to_owned(),
    };
    let dn: usize = d.as_str().unicode_len();
    if dn > 0 && d.as_str().get_char(0) == '/' {
        d
    } else {
        let mut r = data_directory.to_owned();
        r.append("/");
        r.append(d.as_str());
        r
    }
}

/// Assemble a connection from its raw settings: `host` and `public_key`
/// stand as given, the ports and the worker count follow the numeric
/// defaulting rule, and `use_ipv4` defaults to off.
pub fn build_connection(
    host: String,
    public_key: String,
    subscribe_port: &str,
    request_port: &str,
    workers: &str,
    use_ipv4: Option<bool>,
) -> (r: Connection)
    ensures
        r.host == host,
        r.public_key == public_key,
        r.subscribe_port as int == spec_or_default(
            subscribe_port.spec_bytes(),
            u16::MAX as int,
            DEFAULT_PUBLISH as int,
        ),
        r.request_port as int == spec_or_default(
            request_port.spec_bytes(),
            u16::MAX as int,
            DEFAULT_REQUEST as int,
        ),
        r.workers as int == spec_or_default(
            workers.spec_bytes(),
            u32::MAX as int,
            DEFAULT_WORKERS as int,
        ),
        r.use_ipv4 == (use_ipv4 matches Some(true)),
{
    Connection {
        workers: parse_u32_or(workers, DEFAULT_WORKERS),
        use_ipv4: match use_ipv4 {
            Some(b) => b,
            None => false,
        },
        host,
        public_key,
        subscribe_port: parse_u16_or(subscribe_port, DEFAULT_PUBLISH),
        request_port: parse_u16_or(request_port, DEFAULT_REQUEST),
    }
}

/// Assemble the log settings: the directory resolves against the data
/// directory, the file name is trimmed with `recorder.log` standing in when
/// missing, size and rotation count follow the numeric defaulting rule,
/// console output defaults to off, and the level stands as given.
pub fn build_logging(
    data_directory: &str,
    directory: Option<String>,
    file: Option<String>,
    size: &str,
    count: &str,
    console: Option<bool>,
    level: String,
) -> (r: Logging)
    ensures
        r.directory@ == spec_log_directory(
            data_directory@,
            spec_directory_or(directory, "log"@),
        ),
        r.file@ == (match file {
            Some(s) => trimmed(s@),
            None => "recorder.log"@,
        }),
        r.size as int == spec_or_default(
            size.spec_bytes(),
            u64::MAX as int,
            DEFAULT_LOG_SIZE as int,
        ),
        r.count as int == spec_or_default(
            count.spec_bytes(),
            u32::MAX as int,
            DEFAULT_LOG_COUNT as int,
        ),
        r.console == (console matches Some(true)),
        r.level == level,
{
    Logging {
        directory: log_directory(data_directory, directory),
        file: match file {
            Some(s) => trim_spaces(s.as_str()),
            None => "recorder.log".to_owned(),
        },
        size: parse_u64_or(size, DEFAULT_LOG_SIZE),
        count: parse_u32_or(count, DEFAULT_LOG_COUNT),
        console: match console {
            Some(b) => b,
            None => false,
        },
        level,
    }
}

} // verus!
