//! Configuration records, their defaults, and the rotation of third-party API
//! keys.
use vstd::prelude::*;
use crate::text::{trim, trimmed, views};

verus! {

/// Where and how the server listens.
#[derive(Clone, Debug)]
pub struct ServerConfig {
    pub port: u16,
    pub mainurl: String,
    pub secretkey: String,
    pub frontend_url: String,
}

/// Credentials and limits for outbound API calls.
#[derive(Clone, Debug)]
pub struct ApiConfig {
    pub api_keys: Vec<String>,
    pub dontworkedkeys: Vec<String>,
    pub innertube_key: Option<String>,
    pub oauth_client_id: String,
    pub oauth_client_secret: String,
    pub request_timeout: u64,
    pub redirect_uri: Option<String>,
}

/// Video quality and source settings.
#[derive(Clone, Debug)]
pub struct VideoConfig {
    pub default_quality: String,
    pub available_qualities: Vec<String>,
    pub video_source: String,
    pub use_cookies: bool,
    pub default_count: u32,
}

/// Which media go through the local proxy.
#[derive(Clone, Debug)]
pub struct ProxyConfig {
    pub use_thumbnail_proxy: bool,
    pub use_channel_thumbnail_proxy: bool,
    pub use_video_proxy: bool,
    pub fetch_channel_thumbnails: bool,
}

/// Limits of the on-disk cache.
#[derive(Clone, Debug)]
pub struct CacheConfig {
    pub temp_folder_max_size_mb: u32,
    pub cache_cleanup_threshold_mb: u32,
}

/// Another instance of the site.
#[derive(Clone, Debug)]
pub struct InstantInstance {
    pub url: String,
}

/// The whole configuration.
#[derive(Clone, Debug)]
pub struct Config {
    pub server: ServerConfig,
    pub api: ApiConfig,
    pub video: VideoConfig,
    pub proxy: ProxyConfig,
    pub cache: CacheConfig,
    pub instants: Vec<InstantInstance>,
}

/// The port used when none is configured.
pub fn default_port() -> (r: u16)
    ensures
        r == 2823,
{
    2823
}

/// The main URL used when none is configured: empty, so that it is taken
/// from each request.
pub fn default_mainurl() -> (r: String)
    ensures
        r@.len() == 0,
{
    String::new()
}

/// The number of videos asked for when none is configured.
pub fn default_count() -> (r: u32)
    ensures
        r == 50,
{
    50
}

/// The largest size of the temporary folder, in MB, when none is configured.
pub fn temp_folder_max_size_mb() -> (r: u32)
    ensures
        r == 5120,
{
    5120
}

/// The amount of cache, in MB, freed by one cleanup, when none is configured.
pub fn cache_cleanup_threshold_mb() -> (r: u32)
    ensures
        r == 100,
{
    100
}

/// The keys of `keys` that are non-empty and not listed in `bad`, in order.
pub open spec fn good_keys(keys: Seq<Seq<char>>, bad: Seq<Seq<char>>) -> Seq<Seq<char>>
    decreases keys.len(),
{
    if keys.len() == 0 {
        seq![]
    } else {
        let p = good_keys(keys.drop_last(), bad);
        if keys.last().len() > 0 && !bad.contains(keys.last()) {
            p.push(keys.last())
        } else {
            p
        }
    }
}

/// The key picked at counter value `c` from the good keys `good`.
pub open spec fn rotated_key(good: Seq<Seq<char>>, c: int) -> Seq<char> {
    good[c % (good.len() as int)]
}

/// The rotation counter, held by its owner rather than by the process, so
/// that each server instance (and each test) has its own.
#[derive(Debug)]
pub struct KeyRotation {
    pub counter: usize,
}

impl KeyRotation {
    /// A rotation that starts at counter value `start`.
    pub fn new(start: usize) -> (r: KeyRotation)
        ensures
            r.counter == start,
    {
        KeyRotation { counter: start }
    }
}

/// Why no API key could be handed out.
#[derive(Debug, PartialEq, Eq, Structural)]
pub enum ConfigError {
    /// Every configured key is empty or marked as not working.
    KeyPoolExhausted,
}

/// Whether `s` is one of `v`.
pub fn contains_string(v: &Vec<String>, s: &String) -> (r: bool)
    ensures
        r == views(v@).contains(s@),
{
    for i in 0..v.len()
        invariant
            forall|j: int| 0 <= j < i ==> v@[j]@ != s@,
    {
        if v[i] == *s {
            assert(views(v@)[i as int] == s@);
            return true;
        }
    }
    assert forall|j: int| 0 <= j < views(v@).len() implies views(v@)[j] != s@ by {}
    false
}

impl Config {
    /// The configured keys that are non-empty and not marked as not working.
    pub fn good_api_keys(&self) -> (r: Vec<String>)
        ensures
            views(r@) == good_keys(views(self.api.api_keys@), views(self.api.dontworkedkeys@)),
    {
        let keys = &self.api.api_keys;
        let bad = &self.api.dontworkedkeys;
        let mut out: Vec<String> = Vec::new();
        for i in 0..keys.len()
            invariant
                keys == &self.api.api_keys,
                bad == &self.api.dontworkedkeys,
                views(out@) == good_keys(views(keys@.take(i as int)), views(bad@)),
        {
            assert(views(keys@.take(i + 1)).drop_last() =~= views(keys@.take(i as int)));
            assert(views(keys@.take(i + 1)).last() == keys@[i as int]@);
            if !keys[i].as_str().is_empty() && !contains_string(bad, &keys[i]) {
                let ghost before = views(out@);
                out.push(keys[i].clone());
                assert(views(out@) =~= before.push(keys@[i as int]@));
            }
        }
        assert(keys@.take(keys.len() as int) =~= keys@);
        out
    }

    /// Hands out the next good key in rotation: the key at the counter's
    /// value modulo the number of good keys, and advances the counter by one
    /// (wrapping). With no good key the counter is left as it was.
    pub fn get_api_key_rotated(&self, rotation: &mut KeyRotation) -> (r: Result<String, ConfigError>)
        ensures
            ({
                let good = good_keys(views(self.api.api_keys@), views(self.api.dontworkedkeys@));
                if good.len() == 0 {
                    r == Err::<String, ConfigError>(ConfigError::KeyPoolExhausted) && final(rotation).counter
                        == old(rotation).counter
                } else {
                    &&& r is Ok
                    &&& r->Ok_0@ == rotated_key(good, old(rotation).counter as int)
                    &&& final(rotation).counter == (if old(rotation).counter == usize::MAX {
                        0
                    } else {
                        old(rotation).counter + 1
                    })
                }
            }),
    {
        let good = self.good_api_keys();
        if good.len() == 0 {
            return Err(ConfigError::KeyPoolExhausted);
        }
        let c = rotation.counter;
        rotation.counter = c.wrapping_add(1);
        let k = good[c % good.len()].clone();
        assert(views(good@)[(c % good.len()) as int] == good@[(c % good.len()) as int]@);
        Ok(k)
    }

    /// The configured InnerTube key, trimmed, or `None` where it is absent
    /// or blank.
    pub fn get_innertube_key(&self) -> (r: Option<String>)
        ensures
            match self.api.innertube_key {
                Some(k) => if trimmed(k@).len() > 0 {
                    r is Some && r->Some_0@ == trimmed(k@)
                } else {
                    r is None
                },
                None => r is None,
            },
    {
        match &self.api.innertube_key {
            Some(k) => {
                let t = trim(k.as_str());
                if t.as_str().is_empty() {
                    None
                } else {
                    Some(t)
                }
            },
            None => None,
        }
    }
}

/// Key `j` of `good` is picked at one of the counter values `c` to
/// `c + good.len() - 1`.
pub open spec fn reached_within(good: Seq<Seq<char>>, c: int, j: int) -> bool {
    exists|i: int| 0 <= i < good.len() && #[trigger] rotated_key(good, c + i) == good[j]
}

proof fn lemma_rotation_reaches(good: Seq<Seq<char>>, c: int, j: int)
    requires
        good.len() > 0,
        c >= 0,
        0 <= j < good.len(),
    ensures
        reached_within(good, c, j),
{
    let n = good.len() as int;
    let q = c / n;
    let r = c % n;
    vstd::arithmetic::div_mod::lemma_fundamental_div_mod(c, n);
    let i = if j >= r { j - r } else { j + n - r };
    vstd::arithmetic::div_mod::lemma_mod_multiples_vanish(q, r + i, n);
    assert(c + i == n * q + (r + i));
    if j >= r {
        vstd::arithmetic::div_mod::lemma_small_mod(j as nat, n as nat);
    } else {
        vstd::arithmetic::div_mod::lemma_mod_add_multiples_vanish(j, n);
        vstd::arithmetic::div_mod::lemma_small_mod(j as nat, n as nat);
    }
    assert((c + i) % n == j);
    assert(0 <= i < good.len() && rotated_key(good, c + i) == good[j]);
}

/// `n` consecutive picks over `n` distinct good keys, from counter values
/// `c` to `c + n - 1`, go round the keys in order from `c mod n` and give
/// each key exactly once.
pub proof fn lemma_rotation_gives_each_key_once(good: Seq<Seq<char>>, c: int)
    requires
        good.len() > 0,
        c >= 0,
        forall|a: int, b: int| 0 <= a < b < good.len() ==> good[a] != good[b],
    ensures
        forall|i: int| 0 <= i < good.len() ==> #[trigger] rotated_key(good, c + i) == good[(c % (good.len() as int) + i) % (good.len() as int)],
        forall|j: int| 0 <= j < good.len() ==> #[trigger] reached_within(good, c, j),
        forall|a: int, b: int| 0 <= a < b < good.len() ==> #[trigger] rotated_key(good, c + a) != #[trigger] rotated_key(good, c + b),
{
    let n = good.len() as int;
    let q = c / n;
    let r = c % n;
    vstd::arithmetic::div_mod::lemma_fundamental_div_mod(c, n);
    assert forall|i: int| 0 <= i < n implies #[trigger] ((c + i) % n) == (r + i) % n by {
        vstd::arithmetic::div_mod::lemma_mod_multiples_vanish(q, r + i, n);
        assert(c + i == n * q + (r + i));
    }
    assert forall|i: int| 0 <= i < n implies #[trigger] rotated_key(good, c + i) == good[(r + i) % n] by {}
    assert forall|a: int, b: int| 0 <= a < b < n implies #[trigger] rotated_key(good, c + a) != #[trigger] rotated_key(good, c + b) by {
        let x = (r + a) % n;
        let y = (r + b) % n;
        if r + a < n {
            vstd::arithmetic::div_mod::lemma_small_mod((r + a) as nat, n as nat);
        } else {
            vstd::arithmetic::div_mod::lemma_mod_add_multiples_vanish(r + a - n, n);
            vstd::arithmetic::div_mod::lemma_small_mod((r + a - n) as nat, n as nat);
        }
        if r + b < n {
            vstd::arithmetic::div_mod::lemma_small_mod((r + b) as nat, n as nat);
        } else {
            vstd::arithmetic::div_mod::lemma_mod_add_multiples_vanish(r + b - n, n);
            vstd::arithmetic::div_mod::lemma_small_mod((r + b - n) as nat, n as nat);
        }
        assert(x != y);
        assert(0 <= x < n && 0 <= y < n);
    }
    assert forall|j: int| 0 <= j < good.len() implies #[trigger] reached_within(good, c, j) by {
        lemma_rotation_reaches(good, c, j);
    }
}

} // verus!
