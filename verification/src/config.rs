//! Device configuration: the persistent identity of an installation and the
//! settings that were baked into the binary.

use crate::encoding::{hex_of, hex_text, is_uuid_v4, unhex, uuid_of};
use crate::outside::{
    hex_decode, hex_encode, random_between, random_byte, random_usize, sign_keypair, sign_public_key,
    sodium_init, uuid_parse, uuid_v4, SIGN_PUBLIC_KEY_BYTES, SIGN_SECRET_KEY_BYTES,
};
use crate::text::{
    ascii_uppercase, decimal, decimal_string, from_chars, law_upper_case, lemma_first_index_is,
    lemma_last_index_is, lines, lines_of, parse_u16, rsplit_once, same_text, split_first,
    split_last, split_once, to_ascii_uppercase, to_chars, trim, trimmed, u16_of,
};
use vstd::prelude::*;
use vstd::string::StringExecFns;

verus! {

/// Characters of a one-time password: digits and lower-case letters without
/// the ones that are easily mistaken for each other.
pub const CHARS: [char; 32] = [
    '2', '3', '4', '5', '6', '7', '8', '9', 'a', 'b', 'c', 'd', 'e', 'f', 'g', 'h', 'i', 'j', 'k',
    'm', 'n', 'p', 'q', 'r', 's', 't', 'u', 'v', 'w', 'x', 'y', 'z',
];

/// Public rendezvous servers; the first is the default.
pub const DEFAULT_RENDEZVOUS_SERVERS: [&'static str; 3] = [
    "rs-ny.rustdesk.com",
    "rs-sg.rustdesk.com",
    "rs-cn.rustdesk.com",
];

/// Port of the rendezvous server.
pub const RENDEZVOUS_PORT: u16 = 21116;

/// Port of the relay server.
pub const RELAY_PORT: u16 = 21117;

/// Default port for direct (IP) access. A controller dials `RELAY_PORT + 1` to
/// reach it.
pub const DIRECT_PORT: u16 = RENDEZVOUS_PORT + 2;

/// Lowest nine-digit device ID.
pub const ID_MIN: u64 = 100_000_000;

/// Highest nine-digit device ID.
pub const ID_MAX: u64 = 999_999_999;

/// Number of characters of a one-time password.
pub const PASSWORD_CHARS: usize = 6;

/// Number of random bytes in a password salt.
pub const SALT_BYTES: usize = 16;

/// What a device knows about itself.
pub struct DeviceConfig {
    pub id: String,
    pub password: String,
    /// Permanent salt of the login password hash. It stays the same across
    /// connections, so that a controller's remembered password, kept as
    /// `SHA256(plain + salt)`, keeps validating.
    pub password_salt: String,
    pub server: String,
    pub licence_key: String,
    pub socks5: String,
    pub sign_sk: Vec<u8>,
    pub sign_pk: Vec<u8>,
    pub uuid: Vec<u8>,
}

/// The contents of a [`DeviceConfig`].
#[verifier::ext_equal]
pub struct ConfigView {
    pub id: Seq<char>,
    pub password: Seq<char>,
    pub password_salt: Seq<char>,
    pub server: Seq<char>,
    pub licence_key: Seq<char>,
    pub socks5: Seq<char>,
    pub sign_sk: Seq<u8>,
    pub sign_pk: Seq<u8>,
    pub uuid: Seq<u8>,
}

impl View for DeviceConfig {
    type V = ConfigView;

    open spec fn view(&self) -> ConfigView {
        ConfigView {
            id: self.id@,
            password: self.password@,
            password_salt: self.password_salt@,
            server: self.server@,
            licence_key: self.licence_key@,
            socks5: self.socks5@,
            sign_sk: self.sign_sk@,
            sign_pk: self.sign_pk@,
            uuid: self.uuid@,
        }
    }
}

impl Clone for DeviceConfig {
    fn clone(&self) -> (r: Self)
        ensures
            r@ == self@,
    {
        DeviceConfig {
            id: self.id.clone(),
            password: self.password.clone(),
            password_salt: self.password_salt.clone(),
            server: self.server.clone(),
            licence_key: self.licence_key.clone(),
            socks5: self.socks5.clone(),
            sign_sk: self.sign_sk.clone(),
            sign_pk: self.sign_pk.clone(),
            uuid: self.uuid.clone(),
        }
    }
}

impl ConfigView {
    /// The keys have the lengths of an Ed25519 key pair.
    pub open spec fn wf(self) -> bool {
        &&& self.sign_sk.len() == SIGN_SECRET_KEY_BYTES
        &&& self.sign_pk.len() == SIGN_PUBLIC_KEY_BYTES
    }
}

/// Settings fixed when the binary was built. A setting may be absent, or
/// present and empty; the two mean the same.
pub struct BakedSettings {
    pub server: Option<&'static str>,
    pub key: Option<&'static str>,
    pub id: Option<&'static str>,
    pub password: Option<&'static str>,
    pub socks5: Option<&'static str>,
}

/// The contents of [`BakedSettings`].
pub struct BakedView {
    pub server: Option<Seq<char>>,
    pub key: Option<Seq<char>>,
    pub id: Option<Seq<char>>,
    pub password: Option<Seq<char>>,
    pub socks5: Option<Seq<char>>,
}

/// The text of an optional string.
pub open spec fn text_of(v: Option<&str>) -> Option<Seq<char>> {
    match v {
        Some(s) => Some(s@),
        None => None,
    }
}

/// The text of an optional owned string.
pub open spec fn string_of(v: Option<String>) -> Option<Seq<char>> {
    match v {
        Some(s) => Some(s@),
        None => None,
    }
}

impl View for BakedSettings {
    type V = BakedView;

    open spec fn view(&self) -> BakedView {
        BakedView {
            server: text_of(self.server),
            key: text_of(self.key),
            id: text_of(self.id),
            password: text_of(self.password),
            socks5: text_of(self.socks5),
        }
    }
}

/// A setting's value, if it is set to something.
pub open spec fn setting(v: Option<Seq<char>>) -> Option<Seq<char>> {
    match v {
        Some(s) => if s.len() == 0 {
            None
        } else {
            Some(s)
        },
        None => None,
    }
}

/// A baked value, where an empty one counts as not set.
pub fn baked_str(v: Option<&'static str>) -> (r: Option<String>)
    ensures
        string_of(r) == setting(text_of(v)),
{
    match v {
        Some(s) => if s.is_empty() {
            None
        } else {
            Some(s.to_string())
        },
        None => None,
    }
}

/// Key and value of a `key=value` line, both without surrounding white space.
pub open spec fn entry_of(line: Seq<char>) -> Option<(Seq<char>, Seq<char>)> {
    match split_first(line, '=') {
        Some((k, v)) => Some((trimmed(k), trimmed(v))),
        None => None,
    }
}

/// The value of the last line with the given key; empty when there is none.
pub open spec fn field_in(lines: Seq<Seq<char>>, key: Seq<char>) -> Seq<char>
    decreases lines.len(),
{
    if lines.len() == 0 {
        Seq::empty()
    } else {
        match entry_of(lines.last()) {
            Some((k, v)) => if k == key {
                v
            } else {
                field_in(lines.drop_last(), key)
            },
            None => field_in(lines.drop_last(), key),
        }
    }
}

/// The value of a key in the text of a configuration file, if there is a file.
pub open spec fn saved_field(content: Option<Seq<char>>, key: Seq<char>) -> Seq<char> {
    match content {
        Some(text) => field_in(lines_of(text), key),
        None => Seq::empty(),
    }
}

/// What a configuration file holds, as text; absent entries are empty.
pub struct SavedIdentity {
    pub id: String,
    pub salt: String,
    pub sk: String,
    pub pk: String,
    pub uuid: String,
}

impl SavedIdentity {
    /// Whether the entries are those of the configuration file `content`.
    pub open spec fn reads(&self, content: Option<Seq<char>>) -> bool {
        &&& self.id@ == saved_field(content, "id"@)
        &&& self.salt@ == saved_field(content, "salt"@)
        &&& self.sk@ == saved_field(content, "sk"@)
        &&& self.pk@ == saved_field(content, "pk"@)
        &&& self.uuid@ == saved_field(content, "uuid"@)
    }
}

/// The five keys of a configuration file differ from each other.
pub proof fn lemma_keys_differ()
    ensures
        "id"@ != "salt"@,
        "id"@ != "sk"@,
        "id"@ != "pk"@,
        "id"@ != "uuid"@,
        "salt"@ != "sk"@,
        "salt"@ != "pk"@,
        "salt"@ != "uuid"@,
        "sk"@ != "pk"@,
        "sk"@ != "uuid"@,
        "pk"@ != "uuid"@,
{
    reveal_strlit("id");
    reveal_strlit("salt");
    reveal_strlit("sk");
    reveal_strlit("pk");
    reveal_strlit("uuid");
    assert("id"@[0] == 'i');
    assert("sk"@[0] == 's');
    assert("pk"@[0] == 'p');
    assert("salt"@.len() == 4 && "salt"@[0] == 's');
    assert("uuid"@.len() == 4 && "uuid"@[0] == 'u');
}

/// Reads the identity out of the text of a configuration file. Of several
/// lines with one key the last counts; other keys, and lines without `=`, are
/// ignored.
pub fn parse_saved(content: Option<&str>) -> (r: SavedIdentity)
    ensures
        r.reads(text_of(content)),
{
    let mut saved = SavedIdentity {
        id: String::new(),
        salt: String::new(),
        sk: String::new(),
        pk: String::new(),
        uuid: String::new(),
    };
    if let Some(text) = content {
        let chars: Vec<char> = to_chars(text);
        let all: Vec<&[char]> = lines(&chars);
        let ghost model = lines_of(text@);
        for n in 0..all.len()
            invariant
                model == lines_of(text@),
                all@.len() == model.len(),
                forall|i: int| 0 <= i < all@.len() ==> (#[trigger] all@[i])@ == model[i],
                saved.id@ == field_in(model.take(n as int), "id"@),
                saved.salt@ == field_in(model.take(n as int), "salt"@),
                saved.sk@ == field_in(model.take(n as int), "sk"@),
                saved.pk@ == field_in(model.take(n as int), "pk"@),
                saved.uuid@ == field_in(model.take(n as int), "uuid"@),
        {
            let line: &[char] = all[n];
            proof {
                lemma_keys_differ();
                assert(model.take(n + 1).drop_last() == model.take(n as int));
                assert(model.take(n + 1).last() == line@);
            }
            if let Some((k, v)) = split_once(line, '=') {
                let key: String = from_chars(trim(k));
                let value: String = from_chars(trim(v));
                if same_text(&key, "id") {
                    saved.id = value;
                } else if same_text(&key, "salt") {
                    saved.salt = value;
                } else if same_text(&key, "sk") {
                    saved.sk = value;
                } else if same_text(&key, "pk") {
                    saved.pk = value;
                } else if same_text(&key, "uuid") {
                    saved.uuid = value;
                }
            }
        }
        assert(model.take(model.len() as int) == model);
    }
    saved
}

/// Whether `s` is a nine-digit device ID.
pub open spec fn is_device_id(s: Seq<char>) -> bool {
    exists|n: u64| ID_MIN <= n <= ID_MAX && s == #[trigger] decimal(n as nat)
}

/// Whether `s` is a one-time password.
pub open spec fn is_one_time_password(s: Seq<char>) -> bool {
    s.len() == PASSWORD_CHARS && forall|i: int| 0 <= i < s.len() ==> CHARS@.contains(#[trigger] s[i])
}

/// Whether `s` is a text of `n` bytes in lower-case hexadecimal.
pub open spec fn is_hex_of_len(s: Seq<char>, n: nat) -> bool {
    exists|bytes: Seq<u8>| bytes.len() == n && s == #[trigger] hex_of(bytes)
}

/// A fresh nine-digit device ID. It is random rather than derived from the
/// hardware, so that cloned machines do not share one.
pub fn generate_id() -> (r: String)
    ensures
        is_device_id(r@),
{
    let n: u64 = random_between(ID_MIN, ID_MAX);
    decimal_string(n)
}

/// The password that a sequence of random draws selects from [`CHARS`].
pub fn password_from_draws(draws: &[usize]) -> (r: String)
    ensures
        r@ == Seq::new(draws@.len(), |i: int| CHARS@[draws@[i] as int % 32]),
{
    let mut out = String::new();
    for i in 0..draws.len()
        invariant
            out@ == Seq::new(i as nat, |j: int| CHARS@[draws@[j] as int % 32]),
    {
        out.push(CHARS[draws[i] % 32]);
    }
    out
}

/// A fresh one-time password.
pub fn generate_password() -> (r: String)
    ensures
        is_one_time_password(r@),
{
    let mut draws: Vec<usize> = Vec::new();
    while draws.len() < PASSWORD_CHARS
        invariant
            draws@.len() <= PASSWORD_CHARS,
        decreases PASSWORD_CHARS - draws@.len(),
    {
        draws.push(random_usize());
    }
    let r: String = password_from_draws(&draws);
    assert forall|i: int| 0 <= i < r@.len() implies CHARS@.contains(#[trigger] r@[i]) by {
        assert(r@[i] == CHARS@[draws@[i] as int % 32]);
    }
    r
}

/// `n` random bytes in lower-case hexadecimal.
pub fn random_hex(n: usize) -> (r: String)
    ensures
        is_hex_of_len(r@, n as nat),
{
    let mut bytes: Vec<u8> = Vec::new();
    while bytes.len() < n
        invariant
            bytes@.len() <= n,
        decreases n - bytes@.len(),
    {
        bytes.push(random_byte());
    }
    let r: String = hex_text(&bytes);
    assert(r@ == hex_of(bytes@));
    r
}

/// `host` or `host:port`, read as host and port. What follows the last colon
/// is the port if it is a 16-bit number; otherwise the whole text is the host.
pub open spec fn host_port_of(addr: Seq<char>, default_port: u16) -> (Seq<char>, u16) {
    match split_last(addr, ':') {
        Some((host, tail)) => match u16_of(tail) {
            Some(port) => (host, port),
            None => (addr, default_port),
        },
        None => (addr, default_port),
    }
}

/// `host` or `host:port` -> `(host, port)` defaulting to `default_port`.
pub fn split_host_port(addr: &str, default_port: u16) -> (r: (String, u16))
    ensures
        (r.0@, r.1) == host_port_of(addr@, default_port),
{
    let chars: Vec<char> = to_chars(addr);
    if let Some((h, p)) = rsplit_once(&chars, ':') {
        if let Some(port) = parse_u16(p) {
            return (from_chars(h), port);
        }
    }
    (addr.to_string(), default_port)
}

/// Whether a value of the direct-access switch turns it on: unset, blank, or
/// one of `Y`, `YES`, `TRUE` and `1` in any case.
pub open spec fn switches_direct_on(v: Option<Seq<char>>) -> bool {
    match v {
        None => true,
        Some(s) => {
            let word = ascii_uppercase(trimmed(s));
            trimmed(s).len() == 0 || word == "Y"@ || word == "YES"@ || word == "TRUE"@ || word
                == "1"@
        },
    }
}

/// Whether the direct-IP listener should run, given the baked switch. It is on
/// by default.
pub fn direct_enabled(switch: Option<&str>) -> (r: bool)
    ensures
        r == switches_direct_on(text_of(switch)),
{
    match switch {
        None => true,
        Some(v) => {
            let chars: Vec<char> = to_chars(v);
            let v: &[char] = trim(&chars);
            if v.len() == 0 {
                return true;
            }
            let word: String = to_ascii_uppercase(v);
            same_text(&word, "Y") || same_text(&word, "YES") || same_text(&word, "TRUE")
                || same_text(&word, "1")
        },
    }
}

/// The port that a value of the direct-port setting selects.
pub open spec fn direct_port_of(v: Option<Seq<char>>) -> u16 {
    match v {
        Some(s) => match u16_of(trimmed(s)) {
            Some(port) => if port > 0 {
                port
            } else {
                DIRECT_PORT
            },
            None => DIRECT_PORT,
        },
        None => DIRECT_PORT,
    }
}

/// Port the direct listener binds, given the baked setting. Falls back to
/// [`DIRECT_PORT`] when the setting is absent, no number, or zero.
pub fn direct_port(value: Option<&str>) -> (r: u16)
    ensures
        r == direct_port_of(text_of(value)),
{
    match value {
        Some(v) => {
            let chars: Vec<char> = to_chars(v);
            match parse_u16(trim(&chars)) {
                Some(port) => if port > 0 {
                    port
                } else {
                    DIRECT_PORT
                },
                None => DIRECT_PORT,
            }
        },
        None => DIRECT_PORT,
    }
}

/// Values drawn at random while a configuration is built. A value is present
/// exactly where neither the baked settings nor the configuration file give it.
pub struct FreshValues {
    pub id: Option<String>,
    pub password: Option<String>,
    pub salt: Option<String>,
    /// Secret key and public key.
    pub keys: Option<(Vec<u8>, Vec<u8>)>,
    pub uuid: Option<String>,
}

/// The contents of [`FreshValues`].
pub struct FreshView {
    pub id: Option<Seq<char>>,
    pub password: Option<Seq<char>>,
    pub salt: Option<Seq<char>>,
    pub keys: Option<(Seq<u8>, Seq<u8>)>,
    pub uuid: Option<Seq<char>>,
}

impl View for FreshValues {
    type V = FreshView;

    open spec fn view(&self) -> FreshView {
        FreshView {
            id: string_of(self.id),
            password: string_of(self.password),
            salt: string_of(self.salt),
            keys: match self.keys {
                Some((sk, pk)) => Some((sk@, pk@)),
                None => None,
            },
            uuid: string_of(self.uuid),
        }
    }
}

/// The key pair that a configuration file spells in hexadecimal, secret key
/// first, if both keys have the right length.
pub open spec fn saved_keys(content: Option<Seq<char>>) -> Option<(Seq<u8>, Seq<u8>)> {
    match (unhex(saved_field(content, "sk"@)), unhex(saved_field(content, "pk"@))) {
        (Some(sk), Some(pk)) => if sk.len() == SIGN_SECRET_KEY_BYTES && pk.len()
            == SIGN_PUBLIC_KEY_BYTES {
            Some((sk, pk))
        } else {
            None
        },
        _ => None,
    }
}

/// Whether an ID has to be drawn.
pub open spec fn needs_id(baked: BakedView, content: Option<Seq<char>>) -> bool {
    setting(baked.id) is None && saved_field(content, "id"@).len() == 0
}

/// Whether a password has to be drawn.
pub open spec fn needs_password(baked: BakedView) -> bool {
    setting(baked.password) is None
}

impl FreshView {
    /// The values are present exactly where they are needed.
    pub open spec fn covers(self, baked: BakedView, content: Option<Seq<char>>) -> bool {
        &&& self.id is Some <==> needs_id(baked, content)
        &&& self.password is Some <==> needs_password(baked)
        &&& self.salt is Some <==> saved_field(content, "salt"@).len() == 0
        &&& self.keys is Some <==> saved_keys(content) is None
        &&& self.uuid is Some <==> saved_field(content, "uuid"@).len() == 0
    }

    /// The values that are present have the shape of what the generators give.
    pub open spec fn generated(self) -> bool {
        &&& self.id matches Some(id) ==> is_device_id(id)
        &&& self.password matches Some(password) ==> is_one_time_password(password)
        &&& self.salt matches Some(salt) ==> is_hex_of_len(salt, SALT_BYTES as nat)
        &&& self.keys matches Some((sk, pk)) ==> sk.len() == SIGN_SECRET_KEY_BYTES && pk.len()
            == SIGN_PUBLIC_KEY_BYTES && pk == sign_public_key(sk.take(32)) && sk.skip(32) == pk
        &&& self.uuid matches Some(uuid) ==> is_uuid_v4(uuid)
    }
}

/// A text that may be absent, which then counts as empty.
pub open spec fn or_empty(v: Option<Seq<char>>) -> Seq<char> {
    match v {
        Some(s) => s,
        None => Seq::empty(),
    }
}

/// A saved value, or the fresh one if nothing is saved.
pub open spec fn saved_or(
    content: Option<Seq<char>>,
    key: Seq<char>,
    fresh: Option<Seq<char>>,
) -> Seq<char> {
    if saved_field(content, key).len() > 0 {
        saved_field(content, key)
    } else {
        or_empty(fresh)
    }
}

/// The device ID: the baked one, else the saved one, else the fresh one.
pub open spec fn chosen_id(
    baked: BakedView,
    content: Option<Seq<char>>,
    fresh: FreshView,
) -> Seq<char> {
    match setting(baked.id) {
        Some(id) => id,
        None => saved_or(content, "id"@, fresh.id),
    }
}

/// The password: the baked one, else the fresh one. The configuration file has
/// no say in it.
pub open spec fn chosen_password(baked: BakedView, fresh: FreshView) -> Seq<char> {
    match setting(baked.password) {
        Some(password) => password,
        None => or_empty(fresh.password),
    }
}

/// The password salt: the saved one, else the fresh one.
pub open spec fn chosen_salt(content: Option<Seq<char>>, fresh: FreshView) -> Seq<char> {
    saved_or(content, "salt"@, fresh.salt)
}

/// The key pair, secret key first: the saved one, else the fresh one.
pub open spec fn chosen_keys(content: Option<Seq<char>>, fresh: FreshView) -> (Seq<u8>, Seq<u8>) {
    match saved_keys(content) {
        Some(keys) => keys,
        None => match fresh.keys {
            Some(keys) => keys,
            None => (Seq::empty(), Seq::empty()),
        },
    }
}

/// The device UUID as text: the saved one, else the fresh one.
pub open spec fn chosen_uuid(content: Option<Seq<char>>, fresh: FreshView) -> Seq<char> {
    saved_or(content, "uuid"@, fresh.uuid)
}

/// The configuration that baked settings, configuration file and fresh values
/// make together.
pub open spec fn config_of(
    baked: BakedView,
    content: Option<Seq<char>>,
    fresh: FreshView,
) -> ConfigView {
    ConfigView {
        id: chosen_id(baked, content, fresh),
        password: chosen_password(baked, fresh),
        password_salt: chosen_salt(content, fresh),
        server: match setting(baked.server) {
            Some(s) => s,
            None => DEFAULT_RENDEZVOUS_SERVERS@[0]@,
        },
        licence_key: or_empty(setting(baked.key)),
        socks5: or_empty(setting(baked.socks5)),
        sign_sk: chosen_keys(content, fresh).0,
        sign_pk: chosen_keys(content, fresh).1,
        uuid: match uuid_of(chosen_uuid(content, fresh)) {
            Some(bytes) => bytes,
            None => Seq::empty(),
        },
    }
}

/// The text of a configuration file: one `key=value` line for ID, salt, secret
/// key, public key and UUID. The password is not among them.
pub open spec fn identity_text(
    id: Seq<char>,
    salt: Seq<char>,
    sk: Seq<u8>,
    pk: Seq<u8>,
    uuid: Seq<char>,
) -> Seq<char> {
    "id="@ + id + "\nsalt="@ + salt + "\nsk="@ + hex_of(sk) + "\npk="@ + hex_of(pk) + "\nuuid="@
        + uuid + "\n"@
}

/// The configuration file that is written after a configuration was built.
pub open spec fn persisted_text(
    baked: BakedView,
    content: Option<Seq<char>>,
    fresh: FreshView,
) -> Seq<char> {
    identity_text(
        chosen_id(baked, content, fresh),
        chosen_salt(content, fresh),
        chosen_keys(content, fresh).0,
        chosen_keys(content, fresh).1,
        chosen_uuid(content, fresh),
    )
}

/// A configuration, and the text to keep of it for the next launch.
pub struct BuiltConfig {
    pub config: DeviceConfig,
    pub persist: String,
}

/// The key pair of a saved identity, secret key first, if it is usable.
fn decode_keys(saved: &SavedIdentity, content: Ghost<Option<Seq<char>>>) -> (r: Option<
    (Vec<u8>, Vec<u8>),
>)
    requires
        saved.reads(content@),
    ensures
        match saved_keys(content@) {
            Some((sk, pk)) => r matches Some((a, b)) && a@ == sk && b@ == pk,
            None => r is None,
        },
{
    match (hex_decode(&saved.sk), hex_decode(&saved.pk)) {
        (Ok(sk), Ok(pk)) => if sk.len() == SIGN_SECRET_KEY_BYTES && pk.len()
            == SIGN_PUBLIC_KEY_BYTES {
            Some((sk, pk))
        } else {
            None
        },
        _ => None,
    }
}

/// The text of a configuration file with the given identity.
pub fn render_identity(id: &str, salt: &str, sk: &[u8], pk: &[u8], uuid: &str) -> (r: String)
    ensures
        r@ == identity_text(id@, salt@, sk@, pk@, uuid@),
{
    let mut out = String::new();
    out.append("id=");
    out.append(id);
    out.append("\nsalt=");
    out.append(salt);
    out.append("\nsk=");
    out.append(&hex_encode(sk));
    out.append("\npk=");
    out.append(&hex_encode(pk));
    out.append("\nuuid=");
    out.append(uuid);
    out.append("\n");
    out
}

/// A string that may be absent, which then counts as empty.
fn string_or_empty(v: Option<String>) -> (r: String)
    ensures
        r@ == or_empty(string_of(v)),
{
    match v {
        Some(s) => s,
        None => String::new(),
    }
}

/// A saved value, or the fresh one if nothing is saved.
fn saved_or_fresh(saved: String, fresh: Option<String>) -> (r: String)
    ensures
        r@ == if saved@.len() > 0 {
            saved@
        } else {
            or_empty(string_of(fresh))
        },
{
    if saved.as_str().is_empty() {
        string_or_empty(fresh)
    } else {
        saved
    }
}

/// Makes the configuration out of the baked settings, the text of the
/// configuration file, if there is one, and the values drawn for what neither
/// of them gives. One that is missing all the same counts as empty.
pub fn assemble_config(
    baked: &BakedSettings,
    content: Option<&str>,
    fresh: FreshValues,
) -> (r: BuiltConfig)
    ensures
        r.config@ == config_of(baked@, text_of(content), fresh@),
        r.persist@ == persisted_text(baked@, text_of(content), fresh@),
{
    let saved: SavedIdentity = parse_saved(content);
    let id: String = match baked_str(baked.id) {
        Some(id) => id,
        None => saved_or_fresh(saved.id.clone(), fresh.id),
    };
    let password: String = match baked_str(baked.password) {
        Some(password) => password,
        None => string_or_empty(fresh.password),
    };
    let password_salt: String = saved_or_fresh(saved.salt.clone(), fresh.salt);
    let (sign_sk, sign_pk): (Vec<u8>, Vec<u8>) = match decode_keys(
        &saved,
        Ghost(text_of(content)),
    ) {
        Some(keys) => keys,
        None => match fresh.keys {
            Some(keys) => keys,
            None => (Vec::new(), Vec::new()),
        },
    };
    let uuid: String = saved_or_fresh(saved.uuid.clone(), fresh.uuid);
    let persist: String = render_identity(&id, &password_salt, &sign_sk, &sign_pk, &uuid);
    let uuid_bytes: Vec<u8> = match uuid_parse(&uuid) {
        Ok(bytes) => bytes,
        Err(_) => Vec::new(),
    };
    let server: String = match baked_str(baked.server) {
        Some(server) => server,
        None => DEFAULT_RENDEZVOUS_SERVERS[0].to_string(),
    };
    let licence_key: String = string_or_empty(baked_str(baked.key));
    let socks5: String = string_or_empty(baked_str(baked.socks5));
    let config = DeviceConfig {
        id,
        password,
        password_salt,
        server,
        licence_key,
        socks5,
        sign_sk,
        sign_pk,
        uuid: uuid_bytes,
    };
    BuiltConfig { config, persist }
}

/// Builds the configuration of this launch from the baked settings and the
/// text of the configuration file, if there is one. What neither of them gives
/// is drawn at random.
pub fn build_config(baked: &BakedSettings, content: Option<&str>) -> (r: BuiltConfig)
    ensures
        exists|fresh: FreshView|
            {
                &&& #[trigger] fresh.covers(baked@, text_of(content))
                &&& fresh.generated()
                &&& r.config@ == config_of(baked@, text_of(content), fresh)
                &&& r.persist@ == persisted_text(baked@, text_of(content), fresh)
            },
        r.config@.wf(),
{
    sodium_init();
    let saved: SavedIdentity = parse_saved(content);
    let id: Option<String> = if baked_str(baked.id).is_none() && saved.id.as_str().is_empty() {
        Some(generate_id())
    } else {
        None
    };
    let password: Option<String> = if baked_str(baked.password).is_none() {
        Some(generate_password())
    } else {
        None
    };
    let salt: Option<String> = if saved.salt.as_str().is_empty() {
        Some(random_hex(SALT_BYTES))
    } else {
        None
    };
    let keys: Option<(Vec<u8>, Vec<u8>)> = if decode_keys(
        &saved,
        Ghost(text_of(content)),
    ).is_none() {
        let (pk, sk) = sign_keypair();
        Some((sk, pk))
    } else {
        None
    };
    let uuid: Option<String> = if saved.uuid.as_str().is_empty() {
        Some(uuid_v4())
    } else {
        None
    };
    let fresh = FreshValues { id, password, salt, keys, uuid };
    let ghost f = fresh@;
    assert(f.covers(baked@, text_of(content)));
    assemble_config(baked, content, fresh)
}

/// The configuration of this process. The first call builds it into `slot` and
/// returns the text to write to the configuration file; every later call leaves
/// it as it is.
pub fn load(slot: &mut Option<DeviceConfig>, baked: &BakedSettings, content: Option<&str>) -> (r:
    Option<String>)
    ensures
        *old(slot) is Some ==> *final(slot) == *old(slot) && r is None,
        *old(slot) is None ==> (*final(slot) matches Some(config) && r matches Some(persist) && ({
            &&& config@.wf()
            &&& exists|fresh: FreshView|
                {
                    &&& #[trigger] fresh.covers(baked@, text_of(content))
                    &&& fresh.generated()
                    &&& config@ == config_of(baked@, text_of(content), fresh)
                    &&& persist@ == persisted_text(baked@, text_of(content), fresh)
                }
        })),
{
    if slot.is_some() {
        return None;
    }
    let built: BuiltConfig = build_config(baked, content);
    *slot = Some(built.config);
    Some(built.persist)
}

/// The device ID.
pub fn get_id(config: &DeviceConfig) -> (r: String)
    ensures
        r@ == config@.id,
{
    config.id.clone()
}

/// The login password.
pub fn get_password(config: &DeviceConfig) -> (r: String)
    ensures
        r@ == config@.password,
{
    config.password.clone()
}

/// The direct listener always has a port.
pub proof fn law_direct_port_is_never_zero(v: Option<Seq<char>>)
    ensures
        direct_port_of(v) > 0,
{
}

/// A setting that is baked in empty counts as not set: neither configuration
/// nor configuration file can tell the difference.
pub proof fn law_empty_setting_is_no_setting(
    baked: BakedView,
    content: Option<Seq<char>>,
    fresh: FreshView,
)
    ensures
        ({
            let set = BakedView {
                server: setting(baked.server),
                key: setting(baked.key),
                id: setting(baked.id),
                password: setting(baked.password),
                socks5: setting(baked.socks5),
            };
            &&& fresh.covers(set, content) == fresh.covers(baked, content)
            &&& config_of(set, content, fresh) == config_of(baked, content, fresh)
            &&& persisted_text(set, content, fresh) == persisted_text(baked, content, fresh)
        }),
{
}

/// The characters of a one-time password, in order.
pub proof fn law_password_alphabet(draw: int)
    requires
        0 <= draw < 32,
    ensures
        CHARS@.len() == 32,
        CHARS@[draw] == "23456789abcdefghijkmnpqrstuvwxyz"@[draw],
{
    reveal_strlit("23456789abcdefghijkmnpqrstuvwxyz");
}

/// A text with a colon is host and port if what follows the last colon is a 16-bit
/// number. Otherwise the whole text is the host, and the port is the default one.
pub proof fn law_host_and_port(host: Seq<char>, tail: Seq<char>, default_port: u16)
    requires
        !tail.contains(':'),
    ensures
        match u16_of(tail) {
            Some(port) => host_port_of(host + seq![':'] + tail, default_port) == (host, port),
            None => host_port_of(host + seq![':'] + tail, default_port) == (
                host + seq![':'] + tail,
                default_port,
            ),
        },
        host_port_of(tail, default_port) == (tail, default_port),
{
    let s = host + seq![':'] + tail;
    let n = host.len() as int;
    assert forall|j: int| n < j < s.len() implies s[j] != ':' by {
        assert(tail.contains(tail[j - n - 1]));
    }
    lemma_last_index_is(s, ':', n);
    assert(s.take(n) == host);
    assert(s.skip(n + 1) == tail);
    assert forall|j: int| -1 < j < tail.len() implies tail[j] != ':' by {
        assert(tail.contains(tail[j]));
    }
    lemma_last_index_is(tail, ':', -1);
}

/// The direct-access switch is on if it is not set or blank, or if it spells `y`,
/// `yes`, `true` or `1`, in any case, with white space around it or not. Anything
/// else turns it off.
pub proof fn law_direct_switch(v: Option<Seq<char>>)
    ensures
        v is None ==> switches_direct_on(v),
        v matches Some(s) ==> (switches_direct_on(v) <==> {
            let t = trimmed(s);
            ||| t.len() == 0
            ||| t.len() == 1 && (t[0] == 'y' || t[0] == 'Y' || t[0] == '1')
            ||| t.len() == 3 && (t[0] == 'y' || t[0] == 'Y') && (t[1] == 'e' || t[1] == 'E') && (
            t[2] == 's' || t[2] == 'S')
            ||| t.len() == 4 && (t[0] == 't' || t[0] == 'T') && (t[1] == 'r' || t[1] == 'R') && (
            t[2] == 'u' || t[2] == 'U') && (t[3] == 'e' || t[3] == 'E')
        }),
{
    reveal_strlit("Y");
    reveal_strlit("YES");
    reveal_strlit("TRUE");
    reveal_strlit("1");
    if let Some(s) = v {
        let t = trimmed(s);
        let w = ascii_uppercase(t);
        law_upper_case(t);
        if w.len() == 1 && w[0] == 'Y' {
            assert(w =~= "Y"@);
        }
        if w.len() == 1 && w[0] == '1' {
            assert(w =~= "1"@);
        }
        if w.len() == 3 && w[0] == 'Y' && w[1] == 'E' && w[2] == 'S' {
            assert(w =~= "YES"@);
        }
        if w.len() == 4 && w[0] == 'T' && w[1] == 'R' && w[2] == 'U' && w[3] == 'E' {
            assert(w =~= "TRUE"@);
        }
        assert forall|i: int| 0 <= i < t.len() implies (#[trigger] w[i]) as int == (if 97
            <= t[i] as int <= 122 {
            t[i] as int - 32
        } else {
            t[i] as int
        }) by {}
    }
}

/// The direct port is the number that the setting spells, if that is not zero;
/// otherwise 21118.
pub proof fn law_direct_port(v: Option<Seq<char>>, p: u16)
    ensures
        direct_port_of(v) == p <==> {
            ||| p > 0 && v is Some && u16_of(trimmed(v->0)) == Some(p)
            ||| p == 21118 && (v is None || u16_of(trimmed(v->0)) is None || u16_of(trimmed(v->0))
                == Some(0u16))
        },
{
}

/// A setting counts if it is there and not empty.
pub proof fn law_setting(v: Option<Seq<char>>)
    ensures
        setting(v) is Some <==> v is Some && v->0.len() > 0,
        setting(v) is Some ==> setting(v) == v,
{
}

/// The line `key=value` is read up to its first `=`, without white space around
/// key and value; a line without `=` is no entry.
pub proof fn law_entry(key: Seq<char>, value: Seq<char>)
    requires
        !key.contains('='),
    ensures
        entry_of(key + seq!['='] + value) == Some((trimmed(key), trimmed(value))),
        entry_of(key) is None,
{
    let line = key + seq!['='] + value;
    assert forall|j: int| 0 <= j < key.len() implies key[j] != '=' by {
        assert(key.contains(key[j]));
    }
    lemma_first_index_is(line, '=', key.len() as int);
    assert(line.take(key.len() as int) == key);
    assert(line.skip(key.len() as int + 1) == value);
    lemma_first_index_is(key, '=', key.len() as int);
}

/// Whether the line at `i` is the last one with the key.
pub open spec fn is_last_entry(lines: Seq<Seq<char>>, key: Seq<char>, i: int) -> bool {
    &&& 0 <= i < lines.len()
    &&& entry_of(lines[i]) matches Some((k, v)) && k == key
    &&& forall|j: int|
        i < j < lines.len() ==> !(entry_of(#[trigger] lines[j]) matches Some((k, v)) && k == key)
}

/// Of several lines with one key the last counts; without one the value is empty.
pub proof fn law_last_entry_counts(lines: Seq<Seq<char>>, key: Seq<char>)
    ensures
        forall|i: int| #[trigger]
            is_last_entry(lines, key, i) ==> entry_of(lines[i]) == Some(
                (key, field_in(lines, key)),
            ),
        (forall|i: int| !#[trigger] is_last_entry(lines, key, i)) ==> field_in(lines, key).len()
            == 0,
    decreases lines.len(),
{
    if lines.len() > 0 {
        let rest = lines.drop_last();
        let n = lines.len() - 1;
        law_last_entry_counts(rest, key);
        let found = entry_of(lines.last()) matches Some((k, v)) && k == key;
        if found {
            assert(is_last_entry(lines, key, n));
            assert forall|i: int| #[trigger] is_last_entry(lines, key, i) implies entry_of(lines[i])
                == Some((key, field_in(lines, key))) by {
                if i < n {
                    assert(entry_of(lines[n]) is Some);
                }
            }
        } else {
            assert forall|i: int| true implies #[trigger] is_last_entry(lines, key, i)
                == is_last_entry(rest, key, i) by {
                if is_last_entry(lines, key, i) {
                    assert forall|j: int| i < j < rest.len() implies !(entry_of(
                        #[trigger] rest[j],
                    ) matches Some((k, v)) && k == key) by {
                        assert(rest[j] == lines[j]);
                    }
                }
                if is_last_entry(rest, key, i) {
                    assert forall|j: int| i < j < lines.len() implies !(entry_of(
                        #[trigger] lines[j],
                    ) matches Some((k, v)) && k == key) by {
                        if j < n {
                            assert(rest[j] == lines[j]);
                        }
                    }
                }
            }
            if forall|i: int| !#[trigger] is_last_entry(lines, key, i) {
                assert forall|i: int| !#[trigger] is_last_entry(rest, key, i) by {
                    assert(!is_last_entry(lines, key, i));
                }
            }
        }
    }
}

/// Saved values are those of the lines of the file; without a file there are none.
pub proof fn law_saved_values(text: Seq<char>, key: Seq<char>)
    ensures
        saved_field(Some(text), key) == field_in(lines_of(text), key),
        saved_field(None, key).len() == 0,
{
}

/// Saved keys count only together, and only if the secret key has 64 bytes and the
/// public key 32, both in hexadecimal.
pub proof fn law_saved_keys(content: Option<Seq<char>>, sk: Seq<u8>, pk: Seq<u8>)
    ensures
        saved_keys(content) == Some((sk, pk)) <==> {
            &&& unhex(saved_field(content, "sk"@)) == Some(sk)
            &&& unhex(saved_field(content, "pk"@)) == Some(pk)
            &&& sk.len() == 64
            &&& pk.len() == 32
        },
{
}

/// Where each value of a configuration comes from. The ID: baked in, else saved,
/// else drawn. The password: baked in, else drawn. The salt: saved, else drawn. What
/// should have been drawn and was not is empty. Server, licence key and proxy: baked
/// in, else the first public server, and nothing.
pub proof fn law_where_values_come_from(
    baked: BakedView,
    content: Option<Seq<char>>,
    fresh: FreshView,
)
    ensures
        ({
            let c = config_of(baked, content, fresh);
            let unset = |v: Option<Seq<char>>| v is None || v->0.len() == 0;
            let id = saved_field(content, "id"@);
            let salt = saved_field(content, "salt"@);
            &&& !unset(baked.id) ==> c.id == baked.id->0
            &&& unset(baked.id) && id.len() > 0 ==> c.id == id
            &&& unset(baked.id) && id.len() == 0 && fresh.id is Some ==> c.id == fresh.id->0
            &&& unset(baked.id) && id.len() == 0 && fresh.id is None ==> c.id.len() == 0
            &&& !unset(baked.password) ==> c.password == baked.password->0
            &&& unset(baked.password) && fresh.password is Some ==> c.password
                == fresh.password->0
            &&& unset(baked.password) && fresh.password is None ==> c.password.len() == 0
            &&& salt.len() > 0 ==> c.password_salt == salt
            &&& salt.len() == 0 && fresh.salt is Some ==> c.password_salt == fresh.salt->0
            &&& salt.len() == 0 && fresh.salt is None ==> c.password_salt.len() == 0
            &&& !unset(baked.server) ==> c.server == baked.server->0
            &&& unset(baked.server) ==> c.server == "rs-ny.rustdesk.com"@
            &&& !unset(baked.key) ==> c.licence_key == baked.key->0
            &&& unset(baked.key) ==> c.licence_key.len() == 0
            &&& !unset(baked.socks5) ==> c.socks5 == baked.socks5->0
            &&& unset(baked.socks5) ==> c.socks5.len() == 0
        }),
{
}

/// Where keys and UUID of a configuration come from: the saved key pair, else the
/// drawn one, and the saved UUID, else the drawn one. A UUID that cannot be read
/// gives no bytes.
pub proof fn law_where_keys_come_from(
    baked: BakedView,
    content: Option<Seq<char>>,
    fresh: FreshView,
)
    ensures
        ({
            let c = config_of(baked, content, fresh);
            let saved = saved_field(content, "uuid"@);
            let uuid = if saved.len() > 0 {
                saved
            } else {
                fresh.uuid->0
            };
            &&& saved_keys(content) matches Some((sk, pk)) ==> c.sign_sk == sk && c.sign_pk == pk
            &&& saved_keys(content) is None && fresh.keys is Some ==> c.sign_sk == (fresh.keys->0).0
                && c.sign_pk == (fresh.keys->0).1
            &&& saved_keys(content) is None && fresh.keys is None ==> c.sign_sk.len() == 0
                && c.sign_pk.len() == 0
            &&& saved.len() == 0 && fresh.uuid is None ==> c.uuid.len() == 0
            &&& saved.len() > 0 || fresh.uuid is Some ==> c.uuid == match uuid_of(uuid) {
                Some(bytes) => bytes,
                None => Seq::empty(),
            }
        }),
{
}

/// What is written for the next launch: ID, salt, both keys in hexadecimal and the
/// UUID as text, one `key=value` line each, and nothing else.
pub proof fn law_what_is_written(
    baked: BakedView,
    content: Option<Seq<char>>,
    fresh: FreshView,
)
    ensures
        ({
            let c = config_of(baked, content, fresh);
            let saved = saved_field(content, "uuid"@);
            let uuid = if saved.len() > 0 {
                saved
            } else {
                fresh.uuid->0
            };
            saved.len() > 0 || fresh.uuid is Some ==> persisted_text(baked, content, fresh)
                == "id="@ + c.id + "\nsalt="@ + c.password_salt + "\nsk="@ + hex_of(c.sign_sk)
                + "\npk="@ + hex_of(c.sign_pk) + "\nuuid="@ + uuid + "\n"@
        }),
{
}

/// A value is drawn exactly where nothing else gives it.
pub proof fn law_what_is_drawn(baked: BakedView, content: Option<Seq<char>>, fresh: FreshView)
    ensures
        fresh.covers(baked, content) <==> ({
            let unset = |v: Option<Seq<char>>| v is None || v->0.len() == 0;
            &&& fresh.id is Some <==> unset(baked.id) && saved_field(content, "id"@).len() == 0
            &&& fresh.password is Some <==> unset(baked.password)
            &&& fresh.salt is Some <==> saved_field(content, "salt"@).len() == 0
            &&& fresh.keys is Some <==> saved_keys(content) is None
            &&& fresh.uuid is Some <==> saved_field(content, "uuid"@).len() == 0
        }),
{
}

/// What drawn values look like: an ID of nine digits, a password of six characters
/// of its alphabet, a salt of sixteen bytes in hexadecimal, a key pair, and a
/// random UUID.
pub proof fn law_what_drawn_values_are(fresh: FreshView)
    requires
        fresh.generated(),
    ensures
        fresh.id matches Some(id) ==> exists|n: nat|
            100_000_000 <= n <= 999_999_999 && id == #[trigger] decimal(n),
        fresh.password matches Some(p) ==> p.len() == 6 && forall|i: int|
            0 <= i < 6 ==> CHARS@.contains(#[trigger] p[i]),
        fresh.salt matches Some(s) ==> exists|bytes: Seq<u8>|
            bytes.len() == 16 && s == #[trigger] hex_of(bytes),
        fresh.keys matches Some((sk, pk)) ==> sk.len() == 64 && pk.len() == 32 && sk.skip(32) == pk
            && pk == sign_public_key(sk.take(32)),
        fresh.uuid matches Some(u) ==> is_uuid_v4(u),
{
    if let Some(id) = fresh.id {
        let n = choose|n: u64| ID_MIN <= n <= ID_MAX && id == #[trigger] decimal(n as nat);
        assert(id == decimal(n as nat));
    }
}

/// Every nine-digit number is a device ID.
pub proof fn law_every_nine_digit_number_is_an_id(n: u64)
    requires
        100_000_000 <= n <= 999_999_999,
    ensures
        is_device_id(decimal(n as nat)),
{
}

/// A configuration is well formed if its keys have the lengths of a key pair.
pub proof fn law_well_formed(config: ConfigView)
    ensures
        config.wf() <==> config.sign_sk.len() == 64 && config.sign_pk.len() == 32,
{
}

/// The view of a configuration is its fields.
pub proof fn law_config_view(config: DeviceConfig)
    ensures
        config@.id == config.id@,
        config@.password == config.password@,
        config@.password_salt == config.password_salt@,
        config@.server == config.server@,
        config@.licence_key == config.licence_key@,
        config@.socks5 == config.socks5@,
        config@.sign_sk == config.sign_sk@,
        config@.sign_pk == config.sign_pk@,
        config@.uuid == config.uuid@,
{
}

/// The views of baked settings and drawn values are their fields.
pub proof fn law_settings_views(baked: BakedSettings, fresh: FreshValues)
    ensures
        baked@.server == text_of(baked.server),
        baked@.key == text_of(baked.key),
        baked@.id == text_of(baked.id),
        baked@.password == text_of(baked.password),
        baked@.socks5 == text_of(baked.socks5),
        fresh@.id == string_of(fresh.id),
        fresh@.password == string_of(fresh.password),
        fresh@.salt == string_of(fresh.salt),
        fresh@.uuid == string_of(fresh.uuid),
        fresh@.keys is Some <==> fresh.keys is Some,
        fresh.keys matches Some((sk, pk)) ==> fresh@.keys == Some((sk@, pk@)),
{
}

/// The text of an optional string is that string's, if it is there.
pub proof fn law_optional_text(s: &str, t: String)
    ensures
        text_of(Some(s)) == Some(s@),
        text_of(None) is None,
        string_of(Some(t)) == Some(t@),
        string_of(None) is None,
{
}

/// What a parsed file holds are the values of its five keys.
pub proof fn law_parsed_identity(saved: SavedIdentity, content: Option<Seq<char>>)
    ensures
        saved.reads(content) <==> {
            &&& saved.id@ == saved_field(content, "id"@)
            &&& saved.salt@ == saved_field(content, "salt"@)
            &&& saved.sk@ == saved_field(content, "sk"@)
            &&& saved.pk@ == saved_field(content, "pk"@)
            &&& saved.uuid@ == saved_field(content, "uuid"@)
        },
{
}

/// What a one-time password is: six characters of the alphabet.
pub proof fn law_one_time_password(s: Seq<char>)
    ensures
        is_one_time_password(s) <==> s.len() == 6 && forall|i: int|
            0 <= i < 6 ==> "23456789abcdefghijkmnpqrstuvwxyz"@.contains(#[trigger] s[i]),
{
    reveal_strlit("23456789abcdefghijkmnpqrstuvwxyz");
    assert(CHARS@ =~= "23456789abcdefghijkmnpqrstuvwxyz"@);
}

/// Random hexadecimal text has two lower-case digits for each byte.
pub proof fn law_random_hex(s: Seq<char>, n: nat)
    requires
        is_hex_of_len(s, n),
    ensures
        s.len() == 2 * n,
        forall|i: int|
            0 <= i < s.len() ==> ('0' <= #[trigger] s[i] <= '9' || 'a' <= s[i] <= 'f'),
{
    let bytes = choose|bytes: Seq<u8>| bytes.len() == n && s == #[trigger] hex_of(bytes);
    assert forall|i: int| 0 <= i < s.len() implies ('0' <= #[trigger] s[i] <= '9' || 'a' <= s[i]
        <= 'f') by {
        let b = bytes[i / 2] as int;
        assert(0 <= b / 16 < 16 && 0 <= b % 16 < 16);
    }
}

} // verus!
