//! Configuration of the webhook backend and the rules that resolve it from
//! raw settings (the values of the `ANIMUS_WEBHOOK_*` environment variables).

use vstd::prelude::*;

verus! {

/// Listener address used when `ANIMUS_WEBHOOK_LISTEN_ADDR` is unset.
pub const DEFAULT_LISTEN_ADDR: &'static str = "127.0.0.1:7878";

/// Event channel buffer used when `ANIMUS_WEBHOOK_CHANNEL_BUFFER` is unset.
pub const DEFAULT_CHANNEL_BUFFER: usize = 256;

/// Event channel buffer of the configurations built for tests and embedders.
pub const TESTING_CHANNEL_BUFFER: usize = 32;

/// A socket address the HTTP listener binds to, held as plain values.
#[derive(Clone, Copy, Debug, PartialEq, Eq)]
pub enum ListenAddr {
    /// An IPv4 address (its four octets) and a port.
    V4 { octets: [u8; 4], port: u16 },
    /// An IPv6 address (its eight segments), a port, a flow label and a
    /// scope id.
    V6 { segments: [u16; 8], port: u16, flowinfo: u32, scope_id: u32 },
}

/// Runtime configuration of the webhook backend.
#[derive(Clone, Debug)]
pub struct WebhookConfig {
    /// Address the HTTP server binds to.
    pub listen_addr: ListenAddr,
    /// Optional bearer token. When present, every POST must carry
    /// `Authorization: Bearer <token>`.
    pub auth_token: Option<String>,
    /// Capacity of the in-memory event channel between the HTTP handlers and
    /// the watch stream.
    pub channel_buffer: usize,
}

/// A raw setting that could not be turned into a configuration value.
#[derive(Clone, Debug)]
pub enum ConfigError {
    /// `ANIMUS_WEBHOOK_CHANNEL_BUFFER` held this text, which is not an
    /// unsigned integer.
    InvalidChannelBuffer(String),
}

/// An ASCII decimal digit.
pub open spec fn is_decimal_digit(c: char) -> bool {
    '0' <= c && c <= '9'
}

/// The value of one decimal digit.
pub open spec fn digit_value(c: char) -> nat {
    (c as u32 - '0' as u32) as nat
}

/// The value of a string of decimal digits, most significant first.
pub open spec fn decimal_value(digits: Seq<char>) -> nat
    decreases digits.len(),
{
    if digits.len() == 0 {
        0
    } else {
        decimal_value(digits.drop_last()) * 10 + digit_value(digits.last())
    }
}

/// The digits of an unsigned integer's text: one leading `+` is allowed.
pub open spec fn unsigned_digits(text: Seq<char>) -> Seq<char> {
    if text.len() > 0 && text[0] == '+' {
        text.skip(1)
    } else {
        text
    }
}

/// The `usize` that `text` denotes, if any: optionally a `+`, then at least
/// one decimal digit and nothing else, with a value that fits in `usize`.
pub open spec fn parsed_usize(text: Seq<char>) -> Option<nat> {
    let digits = unsigned_digits(text);
    if digits.len() > 0 && (forall|i: int| 0 <= i < digits.len() ==> is_decimal_digit(digits[i]))
        && decimal_value(digits) <= usize::MAX {
        Some(decimal_value(digits))
    } else {
        None
    }
}

/// Parses the decimal text of a `usize`, as `str::parse::<usize>` does.
pub fn parse_usize(text: &str) -> (res: Option<usize>)
    ensures
        match parsed_usize(text@) {
            Some(n) => res == Some(n as usize),
            None => res is None,
        },
{
    let mut value: usize = 0;
    let mut started = false;
    let mut plus = false;
    let mut any_digit = false;
    for c in it: text.chars()
        invariant
            it.seq() == text@,
            started == (it.index() > 0),
            plus == (started && text@[0] == '+'),
            any_digit == (it.index() > (if plus { 1int } else { 0int })),
            forall|j: int| (if plus { 1int } else { 0int }) <= j < it.index() ==> is_decimal_digit(text@[j]),
            value == decimal_value(text@.subrange(if plus { 1int } else { 0int }, it.index() as int)),
    {
        let ghost i = it.index() as int;
        let ghost off: int = if plus { 1int } else { 0int };
        if !started && c == '+' {
            plus = true;
            proof {
                assert(text@.subrange(1, 1) =~= Seq::<char>::empty());
            }
        } else if '0' <= c && c <= '9' {
            let d = (c as u32 - '0' as u32) as usize;
            proof {
                assert(text@.subrange(off, i + 1).drop_last() =~= text@.subrange(off, i));
            }
            match value.checked_mul(10) {
                Some(v10) => match v10.checked_add(d) {
                    Some(v) => {
                        value = v;
                    },
                    None => {
                        proof { lemma_overflow_rejected(text@, i); }
                        return None;
                    },
                },
                None => {
                    proof { lemma_overflow_rejected(text@, i); }
                    return None;
                },
            }
            any_digit = true;
        } else {
            proof {
                let digits = unsigned_digits(text@);
                assert(digits[i - off] == text@[i]);
            }
            return None;
        }
        started = true;
    }
    let ghost off: int = if plus { 1int } else { 0int };
    proof {
        assert(unsigned_digits(text@) =~= text@.subrange(off, text@.len() as int));
    }
    if !any_digit {
        return None;
    }
    Some(value)
}

/// The listener address text to use: the setting when present, else
/// `DEFAULT_LISTEN_ADDR`.
pub fn listen_addr_setting(raw: Option<String>) -> (text: String)
    ensures
        match raw {
            Some(s) => text@ == s@,
            None => text@ == DEFAULT_LISTEN_ADDR@,
        },
{
    match raw {
        Some(s) => s,
        None => String::from_str(DEFAULT_LISTEN_ADDR),
    }
}

/// The bearer token a setting asks for: an unset or empty setting disables
/// authentication.
pub open spec fn auth_token_of(raw: Option<Seq<char>>) -> Option<Seq<char>> {
    match raw {
        Some(t) => if t.len() > 0 { Some(t) } else { None },
        None => None,
    }
}

/// The view of an optional string.
pub open spec fn opt_view(s: Option<String>) -> Option<Seq<char>> {
    match s {
        Some(t) => Some(t@),
        None => None,
    }
}

/// Resolves the bearer-token setting: an empty value counts as unset.
pub fn auth_token_setting(raw: Option<String>) -> (token: Option<String>)
    ensures
        opt_view(token) == auth_token_of(opt_view(raw)),
        raw matches Some(t) ==> (t@.len() > 0 ==> token == Some(t)),
        raw matches Some(t) ==> (t@.len() == 0 ==> token is None),
        raw is None ==> token is None,
{
    match raw {
        Some(t) => {
            if t.as_str().is_empty() {
                None
            } else {
                Some(t)
            }
        },
        None => None,
    }
}

/// The channel buffer a setting asks for: the default when unset, the parsed
/// value raised to at least 1 when set, nothing when the text is not a `usize`.
pub open spec fn channel_buffer_of(raw: Option<Seq<char>>) -> Option<nat> {
    match raw {
        None => Some(DEFAULT_CHANNEL_BUFFER as nat),
        Some(t) => match parsed_usize(t) {
            Some(n) => Some(if n >= 1 { n } else { 1 }),
            None => None,
        },
    }
}

/// Resolves the channel-buffer setting.
pub fn channel_buffer_setting(raw: Option<String>) -> (res: Result<usize, ConfigError>)
    ensures
        match channel_buffer_of(opt_view(raw)) {
            Some(n) => res == Ok::<usize, ConfigError>(n as usize),
            None => res matches Err(ConfigError::InvalidChannelBuffer(t)) && t@ == raw->0@,
        },
        res is Ok ==> res->Ok_0 >= 1,
        raw is None ==> res == Ok::<usize, ConfigError>(256),
        raw matches Some(t) ==> (parsed_usize(t@) matches Some(n) ==> res == Ok::<usize, ConfigError>(
            if n >= 1 { n as usize } else { 1usize })),
        raw matches Some(t) ==> (parsed_usize(t@) is None ==> res is Err),
{
    match raw {
        None => Ok(DEFAULT_CHANNEL_BUFFER),
        Some(t) => match parse_usize(t.as_str()) {
            Some(n) => Ok(if n >= 1 { n } else { 1 }),
            None => Err(ConfigError::InvalidChannelBuffer(t)),
        },
    }
}

/// Resolved settings never ask for an empty buffer; unset means 256; an
/// empty token setting disables authentication like an unset one.
pub proof fn settings_laws(raw_buffer: Option<Seq<char>>)
    ensures
        channel_buffer_of(raw_buffer) matches Some(n) ==> n >= 1,
        channel_buffer_of(None) == Some(DEFAULT_CHANNEL_BUFFER as nat),
        auth_token_of(Some(Seq::empty())) is None,
        auth_token_of(None) is None,
{
}

/// A buffer setting that parses as `n` resolves to `n`, or to 1 when `n` is
/// 0; one that parses as no `usize` is an error; an unset one is 256.
pub proof fn channel_buffer_law(t: Seq<char>)
    ensures
        parsed_usize(t) matches Some(n) ==> channel_buffer_of(Some(t)) == Some(if n >= 1 { n } else { 1nat }),
        parsed_usize(t) is None ==> channel_buffer_of(Some(t)) is None,
        channel_buffer_of(None) == Some(256nat),
{
}

/// A non-empty token setting is the token; an empty or unset one is none.
pub proof fn auth_token_law(t: Seq<char>)
    ensures
        t.len() > 0 ==> auth_token_of(Some(t)) == Some(t),
        t.len() == 0 ==> auth_token_of(Some(t)) is None,
        auth_token_of(None) is None,
{
}

/// Decimal parsing, digit by digit: a single digit `c` parses as its value;
/// appending a digit to a text that parses as `n` gives `10 * n + digit`
/// while that fits in `usize`, and nothing once it does not; appending any
/// other character to a non-empty text gives nothing; the empty text and `+`
/// alone give nothing; one leading `+` changes nothing.
pub proof fn parse_usize_law(d: Seq<char>, c: char)
    ensures
        parsed_usize(Seq::<char>::empty()) is None,
        parsed_usize(seq!['+']) is None,
        '0' <= c && c <= '9' ==> parsed_usize(seq![c]) == Some((c as u32 - 48) as nat),
        parsed_usize(d) is Some && '0' <= c && c <= '9' && parsed_usize(d)->0 * 10 + (c as u32 - 48) <= usize::MAX
            ==> parsed_usize(d.push(c)) == Some((parsed_usize(d)->0 * 10 + (c as u32 - 48)) as nat),
        parsed_usize(d) is Some && '0' <= c && c <= '9' && parsed_usize(d)->0 * 10 + (c as u32 - 48) > usize::MAX
            ==> parsed_usize(d.push(c)) is None,
        d.len() > 0 && !('0' <= c && c <= '9') ==> parsed_usize(d.push(c)) is None,
        d.len() > 0 && d[0] != '+' ==> parsed_usize(seq!['+'] + d) == parsed_usize(d),
        parsed_usize(seq!['-'] + d) is None,
{
    let m = seq!['-'] + d;
    assert(unsigned_digits(m) =~= m);
    assert(m[0] == '-');
    assert(unsigned_digits(Seq::<char>::empty()) =~= Seq::<char>::empty());
    assert(unsigned_digits(seq!['+']) =~= Seq::<char>::empty());
    if '0' <= c && c <= '9' {
        let one = seq![c];
        assert(unsigned_digits(one) =~= one);
        assert(one.drop_last() =~= Seq::<char>::empty());
        assert(decimal_value(one) == digit_value(c));
    }
    if d.len() > 0 {
        let e = d.push(c);
        let ud = unsigned_digits(d);
        let ue = unsigned_digits(e);
        assert(e[0] == d[0]);
        assert(ue =~= ud.push(c));
        assert(ue.drop_last() =~= ud);
        if !('0' <= c && c <= '9') {
            assert(ue[ue.len() - 1] == c);
        }
        if parsed_usize(d) is Some && '0' <= c && c <= '9' {
            assert(decimal_value(ue) == decimal_value(ud) * 10 + digit_value(c));
            assert forall|i: int| 0 <= i < ue.len() implies is_decimal_digit(ue[i]) by {
                if i < ud.len() {
                    assert(ue[i] == ud[i]);
                }
            }
        }
        if d[0] != '+' {
            let p = seq!['+'] + d;
            assert(unsigned_digits(p) =~= d);
            assert(unsigned_digits(d) =~= d);
        }
    } else {
        assert(d.push(c) =~= seq![c]);
    }
}

/// The defaults: listener `127.0.0.1:7878`, a 256-event buffer, and a
/// 32-event buffer for the test configurations.
pub proof fn default_settings_law()
    ensures
        DEFAULT_LISTEN_ADDR@ == "127.0.0.1:7878"@,
        DEFAULT_CHANNEL_BUFFER == 256,
        TESTING_CHANNEL_BUFFER == 32,
{
}

impl WebhookConfig {
    /// Builds a configuration from a listener address and the raw bearer-token
    /// and channel-buffer settings (`None` where a setting is unset).
    pub fn from_settings(
        listen_addr: ListenAddr,
        auth_token: Option<String>,
        channel_buffer: Option<String>,
    ) -> (res: Result<WebhookConfig, ConfigError>)
        ensures
            match channel_buffer_of(opt_view(channel_buffer)) {
                Some(n) => res matches Ok(c) && c.listen_addr == listen_addr
                    && opt_view(c.auth_token) == auth_token_of(opt_view(auth_token))
                    && c.channel_buffer == n,
                None => res matches Err(ConfigError::InvalidChannelBuffer(t))
                    && t@ == channel_buffer->0@,
            },
    {
        let auth_token = auth_token_setting(auth_token);
        match channel_buffer_setting(channel_buffer) {
            Ok(n) => Ok(WebhookConfig { listen_addr, auth_token, channel_buffer: n }),
            Err(e) => Err(e),
        }
    }

    /// A configuration for tests and embedders: no authentication and a
    /// 32-event buffer.
    pub fn for_testing(listen_addr: ListenAddr) -> (c: WebhookConfig)
        ensures
            c.listen_addr == listen_addr,
            c.auth_token is None,
            c.channel_buffer == TESTING_CHANNEL_BUFFER,
    {
        WebhookConfig { listen_addr, auth_token: None, channel_buffer: TESTING_CHANNEL_BUFFER }
    }

    /// Like `for_testing`, with bearer authentication by `token`.
    pub fn for_testing_with_auth(listen_addr: ListenAddr, token: String) -> (c: WebhookConfig)
        ensures
            c.listen_addr == listen_addr,
            c.auth_token == Some(token),
            c.channel_buffer == TESTING_CHANNEL_BUFFER,
    {
        WebhookConfig { listen_addr, auth_token: Some(token), channel_buffer: TESTING_CHANNEL_BUFFER }
    }
}

/// The decimal value of digits only grows as digits are appended.
proof fn lemma_decimal_value_prefix(digits: Seq<char>, k: int)
    requires
        0 <= k <= digits.len(),
    ensures
        decimal_value(digits.take(k)) <= decimal_value(digits),
    decreases digits.len(),
{
    if k < digits.len() {
        assert(digits.drop_last().take(k) =~= digits.take(k));
        lemma_decimal_value_prefix(digits.drop_last(), k);
    } else {
        assert(digits.take(k) =~= digits);
    }
}

/// When the digits up to position `i` already exceed `usize::MAX`, the text
/// denotes no `usize`.
proof fn lemma_overflow_rejected(text: Seq<char>, i: int)
    requires
        0 <= i < text.len(),
        ({
            let off: int = if text.len() > 0 && text[0] == '+' { 1int } else { 0int };
            &&& off <= i
            &&& forall|j: int| off <= j <= i ==> is_decimal_digit(text[j])
            &&& decimal_value(text.subrange(off, i + 1)) > usize::MAX
        }),
    ensures
        parsed_usize(text) is None,
{
    let off: int = if text.len() > 0 && text[0] == '+' { 1int } else { 0int };
    let digits = unsigned_digits(text);
    assert(digits.take(i + 1 - off) =~= text.subrange(off, i + 1));
    lemma_decimal_value_prefix(digits, i + 1 - off);
}

} // verus!
