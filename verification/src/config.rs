//! Service configuration: HTTP listener, ICE servers, authentication
//! accounts and tokens, log level, and per-stream limits, with the
//! validation rules that make a configuration acceptable.

use vstd::prelude::*;
use vstd::string::StringExecFns;
use vstd::utf8::encode_utf8;

verus! {

/// The standard-alphabet, padded base64 encoding of a byte string; a
/// function of the bytes alone.
pub uninterp spec fn base64_std_of(bytes: Seq<u8>) -> Seq<char>;

/// Relies on base64's `STANDARD` engine, `Engine::encode`: the
/// standard-alphabet padded encoding, four output characters for
/// every started group of three input bytes, depending on the input
/// bytes alone.
#[verifier::external_body]
fn base64_encode(bytes: &Vec<u8>) -> (r: String)
    ensures
        r@ == base64_std_of(bytes@),
        r@.len() == 4 * ((bytes@.len() + 2) / 3),
{
    base64::Engine::encode(&base64::engine::general_purpose::STANDARD, bytes)
}

/// The scheme of a successfully parsed ICE server URL.
#[derive(Clone, Copy, PartialEq, Eq, Structural, Debug)]
pub enum IceUrlScheme {
    Stun,
    Stuns,
    Turn,
    Turns,
}

impl IceUrlScheme {
    /// TURN and TURNS URLs are the ones that need credentials.
    pub open spec fn is_turn(self) -> bool {
        self == IceUrlScheme::Turn || self == IceUrlScheme::Turns
    }
}

/// How an ICE server URL text parses: its scheme, or nothing when the
/// text is not a valid ICE URL; a function of the text alone.
pub uninterp spec fn ice_url_parse(url: Seq<char>) -> Option<IceUrlScheme>;

/// Relies on `webrtc::ice::url::Url::parse_url`: whether a URL text
/// parses, and with which scheme, depends on the text alone, and a
/// URL that parses carries one of the four known schemes.
#[verifier::external_body]
fn parse_ice_url(url: &str) -> (r: Option<IceUrlScheme>)
    ensures
        r == ice_url_parse(url@),
{
    match webrtc::ice::url::Url::parse_url(url) {
        Ok(u) => match u.scheme {
            webrtc::ice::url::SchemeType::Stun => Some(IceUrlScheme::Stun),
            webrtc::ice::url::SchemeType::Stuns => Some(IceUrlScheme::Stuns),
            webrtc::ice::url::SchemeType::Turn => Some(IceUrlScheme::Turn),
            webrtc::ice::url::SchemeType::Turns => Some(IceUrlScheme::Turns),
            webrtc::ice::url::SchemeType::Unknown => None,
        },
        Err(_) => None,
    }
}

/// Why a configuration was rejected; fatal at startup.
#[derive(Clone, Copy, PartialEq, Eq, Structural, Debug)]
pub enum ConfigError {
    /// `stream_info.pub_max` is 0.
    PubMaxZero,
    /// `stream_info.sub_max` is 0.
    SubMaxZero,
    /// `stream_info.pub_max` exceeds `stream_info.sub_max`.
    PubMaxExceedsSubMax,
    /// An ICE server URL does not parse.
    InvalidIceUrl,
    /// A TURN/TURNS URL lacks a username or a credential.
    NoTurnCredentials,
}

impl ConfigError {
    /// A stable message for the startup error report.
    pub fn message(&self) -> (r: &'static str)
        ensures
            r@ == self.message_spec(),
    {
        match self {
            ConfigError::PubMaxZero => "stream_info.pub_max cannot be equal to 0",
            ConfigError::SubMaxZero => "stream_info.sub_max cannot be equal to 0",
            ConfigError::PubMaxExceedsSubMax => "stream_info.pub_max cannot be greater than stream_info.sub_max",
            ConfigError::InvalidIceUrl => "ice_server error : invalid url",
            ConfigError::NoTurnCredentials => "ice_server error : no turn credentials",
        }
    }

    pub open spec fn message_spec(&self) -> Seq<char> {
        match self {
            ConfigError::PubMaxZero => "stream_info.pub_max cannot be equal to 0"@,
            ConfigError::SubMaxZero => "stream_info.sub_max cannot be equal to 0"@,
            ConfigError::PubMaxExceedsSubMax => "stream_info.pub_max cannot be greater than stream_info.sub_max"@,
            ConfigError::InvalidIceUrl => "ice_server error : invalid url"@,
            ConfigError::NoTurnCredentials => "ice_server error : no turn credentials"@,
        }
    }
}

/// One ICE server entry: STUN/TURN URLs with optional credentials.
#[derive(Debug)]
pub struct IceServer {
    pub urls: Vec<String>,
    pub username: String,
    pub credential: String,
    pub credential_type: String,
}

/// An authentication account: HTTP Basic username and password.
#[derive(Debug)]
pub struct Account {
    pub username: String,
    pub password: String,
}

/// Authentication configuration: accounts and bearer tokens.
#[derive(Debug)]
pub struct Auth {
    pub accounts: Vec<Account>,
    pub tokens: Vec<String>,
}

/// Logging configuration.
#[derive(Debug)]
pub struct Log {
    pub level: String,
}

/// HTTP configuration: listen address text and CORS switch.
#[derive(Debug)]
pub struct Http {
    pub listen: String,
    pub cors: bool,
}

/// Milliseconds a stream survives after its publisher leaves.
#[derive(Debug)]
pub struct PublishLeaveTimeout(pub u64);

/// Upper bound on publishers per stream.
#[derive(Debug)]
pub struct MetaDataPubMax(pub u64);

/// Upper bound on subscribers per stream.
#[derive(Debug)]
pub struct MetaDataSubMax(pub u64);

/// Milliseconds an idle reforward connection survives.
#[derive(Debug)]
pub struct ReforwardMaximumIdleTime(pub u64);

/// Per-stream limits and lifecycle settings.
#[derive(Debug)]
pub struct StreamInfo {
    pub pub_max: MetaDataPubMax,
    pub sub_max: MetaDataSubMax,
    pub reforward_close_sub: bool,
    pub publish_leave_timeout: PublishLeaveTimeout,
}

/// The whole service configuration.
#[derive(Debug)]
pub struct Config {
    pub http: Http,
    pub ice_servers: Vec<IceServer>,
    pub auth: Auth,
    pub log: Log,
    pub stream_info: StreamInfo,
}

impl Default for PublishLeaveTimeout {
    /// A departed publisher's stream survives 15 s by default.
    fn default() -> (r: Self)
        ensures
            r.0 == 15000,
    {
        PublishLeaveTimeout(15000)
    }
}

impl Default for MetaDataPubMax {
    /// Publishers per stream are unlimited by default.
    fn default() -> (r: Self)
        ensures
            r.0 == u64::MAX,
    {
        MetaDataPubMax(u64::MAX)
    }
}

impl Default for MetaDataSubMax {
    /// Subscribers per stream are unlimited by default.
    fn default() -> (r: Self)
        ensures
            r.0 == u64::MAX,
    {
        MetaDataSubMax(u64::MAX)
    }
}

impl Default for ReforwardMaximumIdleTime {
    /// An idle reforward connection survives 60 s by default.
    fn default() -> (r: Self)
        ensures
            r.0 == 60000,
    {
        ReforwardMaximumIdleTime(60000)
    }
}

impl Default for StreamInfo {
    fn default() -> (r: Self)
        ensures
            r.pub_max.0 == u64::MAX,
            r.sub_max.0 == u64::MAX,
            r.reforward_close_sub == false,
            r.publish_leave_timeout.0 == 15000,
    {
        StreamInfo {
            pub_max: MetaDataPubMax(u64::MAX),
            sub_max: MetaDataSubMax(u64::MAX),
            reforward_close_sub: false,
            publish_leave_timeout: PublishLeaveTimeout(15000),
        }
    }
}

impl Default for Auth {
    fn default() -> (r: Self)
        ensures
            r.accounts@.len() == 0,
            r.tokens@.len() == 0,
    {
        Auth { accounts: Vec::new(), tokens: Vec::new() }
    }
}

impl Default for Log {
    /// The default log level; the driver may override it from the
    /// environment.
    fn default() -> (r: Self)
        ensures
            r.level@ == "info"@,
    {
        Log { level: "info".to_owned() }
    }
}

impl Default for Http {
    /// Listen on every interface, port 7777, CORS off; the driver may
    /// override the port from the environment.
    fn default() -> (r: Self)
        ensures
            r.listen@ == "0.0.0.0:7777"@,
            r.cors == false,
    {
        Http { listen: "0.0.0.0:7777".to_owned(), cors: false }
    }
}

/// The default ICE server list: one public STUN server, no
/// credentials.
pub fn default_ice_servers() -> (r: Vec<IceServer>)
    ensures
        r@.len() == 1,
        r@[0].urls@.len() == 1,
        r@[0].urls@[0]@ == "stun:stun.l.google.com:19302"@,
        r@[0].username@ == Seq::<char>::empty(),
        r@[0].credential@ == Seq::<char>::empty(),
        r@[0].credential_type@ == Seq::<char>::empty(),
{
    let mut urls: Vec<String> = Vec::new();
    urls.push("stun:stun.l.google.com:19302".to_owned());
    let server = IceServer {
        urls,
        username: "".to_owned(),
        credential: "".to_owned(),
        credential_type: "".to_owned(),
    };
    let mut out: Vec<IceServer> = Vec::new();
    out.push(server);
    proof {
        reveal_strlit("");
    }
    out
}

/// Appends the UTF-8 bytes of `s` to `out`.
fn push_str_bytes(out: &mut Vec<u8>, s: &str)
    ensures
        final(out)@ == old(out)@ + encode_utf8(s@),
{
    let bytes = s.as_bytes();
    let mut i: usize = 0;
    while i < bytes.len()
        invariant
            i <= bytes@.len(),
            bytes@ == encode_utf8(s@),
            out@ == old(out)@ + bytes@.take(i as int),
        decreases bytes@.len() - i,
    {
        out.push(bytes[i]);
        assert(out@ =~= old(out)@ + bytes@.take(i as int + 1));
        i = i + 1;
    }
    assert(out@ =~= old(out)@ + bytes@);
}

/// The HTTP Basic authorization line for an account: the base64 of
/// `username:password` behind the `Basic ` marker.
pub open spec fn spec_authorization(username: Seq<char>, password: Seq<char>) -> Seq<char> {
    "Basic "@ + base64_std_of(
        encode_utf8(username) + seq![58u8] + encode_utf8(password),
    )
}

/// The bearer authorization line for a token.
pub open spec fn spec_bearer(token: Seq<char>) -> Seq<char> {
    "Bearer "@ + token
}

impl Account {
    /// The account's `Basic base64(username:password)` authorization
    /// line.
    pub fn to_authorization(&self) -> (r: String)
        ensures
            r@ == spec_authorization(self.username@, self.password@),
    {
        let mut joined: Vec<u8> = Vec::new();
        push_str_bytes(&mut joined, self.username.as_str());
        joined.push(58);
        push_str_bytes(&mut joined, self.password.as_str());
        assert(joined@ =~= encode_utf8(self.username@) + seq![58u8] + encode_utf8(
            self.password@,
        ));
        let encoded = base64_encode(&joined);
        let mut out = "Basic ".to_owned();
        out.append(encoded.as_str());
        out
    }
}

impl Auth {
    /// Every accepted authorization line: one `Basic` line per
    /// account, in order, then one `Bearer` line per token, in order.
    pub fn to_authorizations(&self) -> (r: Vec<String>)
        ensures
            r@.len() == self.accounts@.len() + self.tokens@.len(),
            forall|i: int|
                0 <= i < self.accounts@.len() ==> (#[trigger] r@[i])@ == spec_authorization(
                    self.accounts@[i].username@,
                    self.accounts@[i].password@,
                ),
            forall|j: int|
                0 <= j < self.tokens@.len() ==> (#[trigger] r@[self.accounts@.len() + j])@
                    == spec_bearer(self.tokens@[j]@),
    {
        let mut authorizations: Vec<String> = Vec::new();
        let mut i: usize = 0;
        while i < self.accounts.len()
            invariant
                i <= self.accounts@.len(),
                authorizations@.len() == i,
                forall|k: int|
                    0 <= k < i ==> (#[trigger] authorizations@[k])@ == spec_authorization(
                        self.accounts@[k].username@,
                        self.accounts@[k].password@,
                    ),
            decreases self.accounts@.len() - i,
        {
            authorizations.push(self.accounts[i].to_authorization());
            i = i + 1;
        }
        let ghost base = self.accounts@.len() as int;
        let mut j: usize = 0;
        while j < self.tokens.len()
            invariant
                j <= self.tokens@.len(),
                authorizations@.len() == base + j,
                base == self.accounts@.len(),
                forall|k: int|
                    0 <= k < base ==> (#[trigger] authorizations@[k])@ == spec_authorization(
                        self.accounts@[k].username@,
                        self.accounts@[k].password@,
                    ),
                forall|k: int|
                    0 <= k < j ==> (#[trigger] authorizations@[base + k])@ == spec_bearer(
                        self.tokens@[k]@,
                    ),
            decreases self.tokens@.len() - j,
        {
            let mut line = "Bearer ".to_owned();
            line.append(self.tokens[j].as_str());
            authorizations.push(line);
            j = j + 1;
        }
        authorizations
    }
}

/// One ICE URL's check: the text must parse, and a TURN/TURNS URL
/// needs both a username and a credential.
pub open spec fn spec_ice_url_ok(
    url: Seq<char>,
    username: Seq<char>,
    credential: Seq<char>,
) -> Result<(), ConfigError> {
    match ice_url_parse(url) {
        None => Err(ConfigError::InvalidIceUrl),
        Some(scheme) => if scheme.is_turn() && (username.len() == 0 || credential.len() == 0) {
            Err(ConfigError::NoTurnCredentials)
        } else {
            Ok(())
        },
    }
}

/// An ICE server entry's check: every URL in order, first failure
/// wins.
pub open spec fn spec_urls_validate(
    urls: Seq<String>,
    username: Seq<char>,
    credential: Seq<char>,
) -> Result<(), ConfigError>
    decreases urls.len(),
{
    if urls.len() == 0 {
        Ok(())
    } else {
        match spec_ice_url_ok(urls[0]@, username, credential) {
            Err(e) => Err(e),
            Ok(u) => spec_urls_validate(urls.skip(1), username, credential),
        }
    }
}

/// After `i` passing URLs the check's outcome is the remaining URLs'.
proof fn lemma_urls_validate_prefix(
    urls: Seq<String>,
    username: Seq<char>,
    credential: Seq<char>,
    i: int,
)
    requires
        0 <= i <= urls.len(),
        forall|k: int| 0 <= k < i ==> spec_ice_url_ok((#[trigger] urls[k])@, username, credential) is Ok,
    ensures
        spec_urls_validate(urls, username, credential) == spec_urls_validate(
            urls.skip(i),
            username,
            credential,
        ),
    decreases i,
{
    if i > 0 {
        let t = urls.skip(1);
        assert(spec_ice_url_ok(urls[0]@, username, credential) is Ok);
        assert forall|k: int|
            0 <= k < i - 1 implies spec_ice_url_ok(
            (#[trigger] t[k])@,
            username,
            credential,
        ) is Ok by {
            assert(t[k] == urls[k + 1]);
        }
        lemma_urls_validate_prefix(t, username, credential, i - 1);
        assert(t.skip(i - 1) =~= urls.skip(i));
    } else {
        assert(urls.skip(0) =~= urls);
    }
}

impl IceServer {
    /// Checks every URL of this entry: each must parse, and TURN and
    /// TURNS URLs need a non-empty username and credential.
    pub fn validate(&self) -> (r: Result<(), ConfigError>)
        ensures
            r == spec_urls_validate(self.urls@, self.username@, self.credential@),
    {
        let mut i: usize = 0;
        while i < self.urls.len()
            invariant
                i <= self.urls@.len(),
                forall|k: int|
                    0 <= k < i ==> spec_ice_url_ok(
                        (#[trigger] self.urls@[k])@,
                        self.username@,
                        self.credential@,
                    ) is Ok,
            decreases self.urls@.len() - i,
        {
            proof {
                lemma_urls_validate_prefix(self.urls@, self.username@, self.credential@, i as int);
                assert(self.urls@.skip(i as int)[0] == self.urls@[i as int]);
            }
            let parsed = parse_ice_url(self.urls[i].as_str());
            match parsed {
                None => {
                    return Err(ConfigError::InvalidIceUrl);
                },
                Some(scheme) => {
                    let needs_credentials = match scheme {
                        IceUrlScheme::Turn => true,
                        IceUrlScheme::Turns => true,
                        _ => false,
                    };
                    if needs_credentials && (self.username.as_str().is_empty()
                        || self.credential.as_str().is_empty()) {
                        return Err(ConfigError::NoTurnCredentials);
                    }
                },
            }
            i = i + 1;
        }
        proof {
            lemma_urls_validate_prefix(
                self.urls@,
                self.username@,
                self.credential@,
                self.urls@.len() as int,
            );
        }
        Ok(())
    }
}

/// The ICE server entries' check, in order, first failure wins.
pub open spec fn spec_servers_validate(servers: Seq<IceServer>) -> Result<(), ConfigError>
    decreases servers.len(),
{
    if servers.len() == 0 {
        Ok(())
    } else {
        match spec_urls_validate(servers[0].urls@, servers[0].username@, servers[0].credential@) {
            Err(e) => Err(e),
            Ok(u) => spec_servers_validate(servers.skip(1)),
        }
    }
}

/// After `i` passing entries the check's outcome is the remaining
/// entries'.
proof fn lemma_servers_validate_prefix(servers: Seq<IceServer>, i: int)
    requires
        0 <= i <= servers.len(),
        forall|k: int|
            0 <= k < i ==> spec_urls_validate(
                (#[trigger] servers[k]).urls@,
                servers[k].username@,
                servers[k].credential@,
            ) is Ok,
    ensures
        spec_servers_validate(servers) == spec_servers_validate(servers.skip(i)),
    decreases i,
{
    if i > 0 {
        let t = servers.skip(1);
        assert forall|k: int|
            0 <= k < i - 1 implies spec_urls_validate(
            (#[trigger] t[k]).urls@,
            t[k].username@,
            t[k].credential@,
        ) is Ok by {
            assert(t[k] == servers[k + 1]);
        }
        lemma_servers_validate_prefix(t, i - 1);
        assert(t.skip(i - 1) =~= servers.skip(i));
    } else {
        assert(servers.skip(0) =~= servers);
    }
}

/// A configuration's check: the per-stream bounds must be positive
/// and consistent, and every ICE server entry must pass.
pub open spec fn spec_config_validate(c: Config) -> Result<(), ConfigError> {
    if c.stream_info.pub_max.0 == 0 {
        Err(ConfigError::PubMaxZero)
    } else if c.stream_info.sub_max.0 == 0 {
        Err(ConfigError::SubMaxZero)
    } else if c.stream_info.pub_max.0 > c.stream_info.sub_max.0 {
        Err(ConfigError::PubMaxExceedsSubMax)
    } else {
        spec_servers_validate(c.ice_servers@)
    }
}

impl Config {
    /// Validates the configuration: `pub_max` and `sub_max` must be
    /// positive with `pub_max ≤ sub_max`, and every ICE server URL
    /// must parse, TURN/TURNS ones with credentials.  Invalid
    /// configuration is fatal at startup.
    pub fn validate(&self) -> (r: Result<(), ConfigError>)
        ensures
            r == spec_config_validate(*self),
    {
        if self.stream_info.pub_max.0 == 0 {
            return Err(ConfigError::PubMaxZero);
        }
        if self.stream_info.sub_max.0 == 0 {
            return Err(ConfigError::SubMaxZero);
        }
        if self.stream_info.pub_max.0 > self.stream_info.sub_max.0 {
            return Err(ConfigError::PubMaxExceedsSubMax);
        }
        let mut i: usize = 0;
        while i < self.ice_servers.len()
            invariant
                self.stream_info.pub_max.0 != 0,
                self.stream_info.sub_max.0 != 0,
                self.stream_info.pub_max.0 <= self.stream_info.sub_max.0,
                i <= self.ice_servers@.len(),
                forall|k: int|
                    0 <= k < i ==> spec_urls_validate(
                        (#[trigger] self.ice_servers@[k]).urls@,
                        self.ice_servers@[k].username@,
                        self.ice_servers@[k].credential@,
                    ) is Ok,
            decreases self.ice_servers@.len() - i,
        {
            proof {
                lemma_servers_validate_prefix(self.ice_servers@, i as int);
                assert(self.ice_servers@.skip(i as int)[0] == self.ice_servers@[i as int]);
            }
            let r = self.ice_servers[i].validate();
            match r {
                Err(e) => {
                    proof {
                        let rest = self.ice_servers@.skip(i as int);
                        assert(rest.len() > 0);
                        assert(spec_urls_validate(
                            rest[0].urls@,
                            rest[0].username@,
                            rest[0].credential@,
                        ) == Err::<(), ConfigError>(e));
                        assert(spec_servers_validate(rest) == Err::<(), ConfigError>(e));
                        assert(spec_servers_validate(self.ice_servers@) == Err::<
                            (),
                            ConfigError,
                        >(e));
                        assert(spec_config_validate(*self) == Err::<(), ConfigError>(e));
                    }
                    return Err(e);
                },
                Ok(u) => {},
            }
            i = i + 1;
        }
        proof {
            lemma_servers_validate_prefix(self.ice_servers@, self.ice_servers@.len() as int);
        }
        Ok(())
    }
}

/// Config validation law: a zero `pub_max` or `sub_max`, a `pub_max`
/// above `sub_max`, and a TURN/TURNS URL without full credentials are
/// each rejected.
pub proof fn lemma_config_validation(c: Config, i: int, k: int)
    ensures
        c.stream_info.pub_max.0 == 0 ==> spec_config_validate(c) == Err::<(), ConfigError>(
            ConfigError::PubMaxZero,
        ),
        (c.stream_info.pub_max.0 != 0 && c.stream_info.sub_max.0 == 0) ==> spec_config_validate(c)
            == Err::<(), ConfigError>(ConfigError::SubMaxZero),
        (c.stream_info.pub_max.0 != 0 && c.stream_info.sub_max.0 != 0 && c.stream_info.pub_max.0
            > c.stream_info.sub_max.0) ==> spec_config_validate(c) == Err::<(), ConfigError>(
            ConfigError::PubMaxExceedsSubMax,
        ),
        (0 <= i < c.ice_servers@.len() && 0 <= k < c.ice_servers@[i].urls@.len() && (ice_url_parse(
            c.ice_servers@[i].urls@[k]@,
        ) matches Some(s) && s.is_turn()) && (c.ice_servers@[i].username@.len() == 0
            || c.ice_servers@[i].credential@.len() == 0)) ==> spec_config_validate(c) is Err,
{
    if 0 <= i < c.ice_servers@.len() && 0 <= k < c.ice_servers@[i].urls@.len() && (ice_url_parse(
        c.ice_servers@[i].urls@[k]@,
    ) matches Some(s) && s.is_turn()) && (c.ice_servers@[i].username@.len() == 0
        || c.ice_servers@[i].credential@.len() == 0) {
        let srv = c.ice_servers@[i];
        assert(spec_ice_url_ok(srv.urls@[k]@, srv.username@, srv.credential@) is Err);
        lemma_urls_validate_some_err(srv.urls@, srv.username@, srv.credential@, k);
        lemma_servers_validate_some_err(c.ice_servers@, i);
    }
}

/// A failing URL makes its entry's check fail.
proof fn lemma_urls_validate_some_err(
    urls: Seq<String>,
    username: Seq<char>,
    credential: Seq<char>,
    k: int,
)
    requires
        0 <= k < urls.len(),
        spec_ice_url_ok(urls[k]@, username, credential) is Err,
    ensures
        spec_urls_validate(urls, username, credential) is Err,
    decreases urls.len(),
{
    if urls.len() > 0 {
        if spec_ice_url_ok(urls[0]@, username, credential) is Err {
        } else {
            let t = urls.skip(1);
            assert(t[k - 1] == urls[k]);
            lemma_urls_validate_some_err(t, username, credential, k - 1);
        }
    }
}

/// A failing entry makes the whole configuration's check fail.
proof fn lemma_servers_validate_some_err(servers: Seq<IceServer>, i: int)
    requires
        0 <= i < servers.len(),
        spec_urls_validate(servers[i].urls@, servers[i].username@, servers[i].credential@) is Err,
    ensures
        spec_servers_validate(servers) is Err,
    decreases servers.len(),
{
    if servers.len() > 0 {
        if spec_urls_validate(servers[0].urls@, servers[0].username@, servers[0].credential@)
            is Err {
        } else {
            let t = servers.skip(1);
            assert(t[i - 1] == servers[i]);
            lemma_servers_validate_some_err(t, i - 1);
        }
    }
}

impl Default for Config {
    fn default() -> (r: Self)
        ensures
            r.http.listen@ == "0.0.0.0:7777"@,
            r.http.cors == false,
            r.ice_servers@.len() == 1,
            r.auth.accounts@.len() == 0,
            r.auth.tokens@.len() == 0,
            r.log.level@ == "info"@,
            r.stream_info.pub_max.0 == u64::MAX,
            r.stream_info.sub_max.0 == u64::MAX,
    {
        Config {
            http: Http::default(),
            ice_servers: default_ice_servers(),
            auth: Auth::default(),
            log: Log::default(),
            stream_info: StreamInfo::default(),
        }
    }
}

} // verus!
