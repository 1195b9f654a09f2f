use vstd::prelude::*;
use vstd::string::StringSliceAdditionalSpecFns;
use vstd::utf8::encode_utf8;
use crate::status::{parse_unsigned, unsigned_spec};

verus! {

/// Why the command-line arguments give no usable configuration.
#[derive(Clone, Copy, Debug, PartialEq, Eq, Structural)]
pub enum ConfigError {
    /// `--port=` holds no number from 0 to 65535.
    InvalidPort,
    /// A timeout holds no whole number of seconds that fits in 64 bits.
    InvalidTimeout,
    /// No `--hash=` with a non-empty value was given.
    MissingHash,
}

/// Where to download from, how long to wait (in whole seconds), and the
/// digest to expect.
pub struct Config {
    pub host: String,
    pub port: u16,
    pub expected_hash: String,
    pub connect_timeout_secs: u64,
    pub read_write_timeout_secs: u64,
}

pub struct ConfigModel {
    pub host: Seq<char>,
    pub port: u16,
    pub hash: Seq<char>,
    pub connect: u64,
    pub read_write: u64,
}

impl View for Config {
    type V = ConfigModel;

    open spec fn view(&self) -> ConfigModel {
        ConfigModel {
            host: self.host@,
            port: self.port,
            hash: self.expected_hash@,
            connect: self.connect_timeout_secs,
            read_write: self.read_write_timeout_secs,
        }
    }
}

/// Loopback on port 8080, no expected digest, 5 s to connect and 15 s per
/// read or write.
pub open spec fn default_model() -> ConfigModel {
    ConfigModel { host: "127.0.0.1"@, port: 8080, hash: Seq::empty(), connect: 5, read_write: 15 }
}

pub open spec fn has_prefix(a: Seq<char>, p: Seq<char>) -> bool {
    p.len() <= a.len() && a.subrange(0, p.len() as int) == p
}

pub open spec fn after(a: Seq<char>, p: Seq<char>) -> Seq<char> {
    a.subrange(p.len() as int, a.len() as int)
}

/// The value of a numeric option: its characters, read as UTF-8 bytes.
pub open spec fn number_arg(a: Seq<char>, p: Seq<char>, max: nat) -> Option<nat> {
    unsigned_spec(encode_utf8(after(a, p)), max)
}

/// The effect of one argument. Recognised options are `--host=`, `--port=`,
/// `--hash=`, `--connect-timeout=` and `--read-write-timeout=`, each followed
/// by its value; any other argument is ignored.
pub open spec fn apply_arg(c: ConfigModel, a: Seq<char>) -> Result<ConfigModel, ConfigError> {
    if has_prefix(a, "--host="@) {
        Ok(ConfigModel { host: after(a, "--host="@), ..c })
    } else if has_prefix(a, "--port="@) {
        match number_arg(a, "--port="@, 65535) {
            Some(v) => Ok(ConfigModel { port: v as u16, ..c }),
            None => Err(ConfigError::InvalidPort),
        }
    } else if has_prefix(a, "--hash="@) {
        Ok(ConfigModel { hash: after(a, "--hash="@), ..c })
    } else if has_prefix(a, "--connect-timeout="@) {
        match number_arg(a, "--connect-timeout="@, u64::MAX as nat) {
            Some(v) => Ok(ConfigModel { connect: v as u64, ..c }),
            None => Err(ConfigError::InvalidTimeout),
        }
    } else if has_prefix(a, "--read-write-timeout="@) {
        match number_arg(a, "--read-write-timeout="@, u64::MAX as nat) {
            Some(v) => Ok(ConfigModel { read_write: v as u64, ..c }),
            None => Err(ConfigError::InvalidTimeout),
        }
    } else {
        Ok(c)
    }
}

/// The defaults, changed by each argument in turn; the first bad value stops.
pub open spec fn fold_args(args: Seq<Seq<char>>) -> Result<ConfigModel, ConfigError>
    decreases args.len(),
{
    if args.len() == 0 {
        Ok(default_model())
    } else {
        match fold_args(args.drop_last()) {
            Ok(c) => apply_arg(c, args.last()),
            Err(e) => Err(e),
        }
    }
}

/// The configuration the arguments give; a missing or empty digest is an error.
pub open spec fn config_spec(args: Seq<Seq<char>>) -> Result<ConfigModel, ConfigError> {
    match fold_args(args) {
        Ok(c) => if c.hash.len() == 0 {
            Err(ConfigError::MissingHash)
        } else {
            Ok(c)
        },
        Err(e) => Err(e),
    }
}

pub open spec fn arg_views(args: Seq<String>) -> Seq<Seq<char>> {
    args.map_values(|s: String| s@)
}

proof fn lemma_error_stays(args: Seq<Seq<char>>, i: int, j: int)
    requires
        0 <= i <= j <= args.len(),
        fold_args(args.take(i)) is Err,
    ensures
        fold_args(args.take(j)) == fold_args(args.take(i)),
    decreases j - i,
{
    if j > i {
        lemma_error_stays(args, i, j - 1);
        assert(args.take(j).drop_last() =~= args.take(j - 1));
    }
}

fn starts_with(s: &str, p: &str) -> (r: bool)
    ensures
        r == has_prefix(s@, p@),
{
    let n = p.unicode_len();
    if n > s.unicode_len() {
        return false;
    }
    let mut i: usize = 0;
    while i < n
        invariant
            n == p@.len() <= s@.len(),
            i <= n,
            forall|j: int| 0 <= j < i ==> s@[j] == p@[j],
        decreases n - i,
    {
        if s.get_char(i) != p.get_char(i) {
            assert(s@.subrange(0, n as int)[i as int] != p@[i as int]);
            return false;
        }
        i = i + 1;
    }
    assert(s@.subrange(0, n as int) =~= p@);
    true
}

fn value_after(s: &str, p: &str) -> (r: String)
    requires
        has_prefix(s@, p@),
    ensures
        r@ == after(s@, p@),
{
    String::from_str(s.substring_char(p.unicode_len(), s.unicode_len()))
}

fn number_after(s: &str, p: &str, max: u64) -> (r: Option<u64>)
    requires
        has_prefix(s@, p@),
    ensures
        r == (match number_arg(s@, p@, max as nat) {
            Some(v) => Some(v as u64),
            None => None::<u64>,
        }),
{
    let v = s.substring_char(p.unicode_len(), s.unicode_len());
    let b = v.as_bytes();
    assert(b@.subrange(0, b@.len() as int) =~= b@);
    parse_unsigned(b, 0, b.len(), max)
}

fn apply(c: &mut Config, a: &str) -> (r: Result<(), ConfigError>)
    ensures
        match apply_arg(old(c)@, a@) {
            Ok(m) => r is Ok && final(c)@ == m,
            Err(e) => r == Err::<(), ConfigError>(e),
        },
{
    if starts_with(a, "--host=") {
        c.host = value_after(a, "--host=");
    } else if starts_with(a, "--port=") {
        match number_after(a, "--port=", 65535) {
            Some(v) => c.port = v as u16,
            None => return Err(ConfigError::InvalidPort),
        }
    } else if starts_with(a, "--hash=") {
        c.expected_hash = value_after(a, "--hash=");
    } else if starts_with(a, "--connect-timeout=") {
        match number_after(a, "--connect-timeout=", u64::MAX) {
            Some(v) => c.connect_timeout_secs = v,
            None => return Err(ConfigError::InvalidTimeout),
        }
    } else if starts_with(a, "--read-write-timeout=") {
        match number_after(a, "--read-write-timeout=", u64::MAX) {
            Some(v) => c.read_write_timeout_secs = v,
            None => return Err(ConfigError::InvalidTimeout),
        }
    }
    Ok(())
}

/// Builds the configuration from the command-line arguments, in order.
pub fn parse_config(args: &Vec<String>) -> (r: Result<Config, ConfigError>)
    ensures
        match config_spec(arg_views(args@)) {
            Ok(m) => r matches Ok(c) && c@ == m,
            Err(e) => r matches Err(e2) && e2 == e,
        },
{
    let ghost all = arg_views(args@);
    let mut config = Config::default();
    let mut i: usize = 0;
    assert(all.take(0) =~= Seq::<Seq<char>>::empty());
    while i < args.len()
        invariant
            i <= args@.len(),
            all == arg_views(args@),
            fold_args(all.take(i as int)) == Ok::<ConfigModel, ConfigError>(config@),
        decreases args@.len() - i,
    {
        let res = apply(&mut config, args[i].as_str());
        assert(all.take(i as int + 1).drop_last() =~= all.take(i as int));
        assert(all[i as int] == args@[i as int]@);
        match res {
            Ok(()) => {},
            Err(e) => {
                proof {
                    lemma_error_stays(all, i as int + 1, all.len() as int);
                    assert(all.take(all.len() as int) =~= all);
                }
                return Err(e);
            },
        }
        i = i + 1;
    }
    assert(all.take(i as int) =~= all);
    if config.expected_hash.as_str().unicode_len() == 0 {
        Err(ConfigError::MissingHash)
    } else {
        Ok(config)
    }
}

impl Default for Config {
    fn default() -> (r: Config)
        ensures
            r@ == default_model(),
    {
        let c = Config {
            host: String::from_str("127.0.0.1"),
            port: 8080,
            expected_hash: String::new(),
            connect_timeout_secs: 5,
            read_write_timeout_secs: 15,
        };
        assert(c@.hash =~= Seq::<char>::empty());
        c
    }
}

} // verus!
