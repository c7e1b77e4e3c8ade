//! The rules of the bounded on-disk cache: where entries live, when a stored
//! entry is fresh, stale or gone, what a write records, when a write prunes,
//! and which entries a prune removes. The filesystem calls that carry these
//! decisions out stand outside this library.

use vstd::prelude::*;
use crate::error::Error;
use crate::install::{absolute, opt_view, usable_base, Platform};
use crate::key::{FORMAT, Key};
use crate::order::{less, seq_lt, lemma_lt_total, lemma_lt_asymmetric, lemma_lt_transitive};
use crate::policy::{Policy, Source};
use crate::text::{chars_of, push_char, string_of};
use crate::config::{horizon_of, horizon_value, from_config, read_config, ConfigError, Field, Settings};
use vstd::string::StringExecFns;

verus! {

/// Size and age bounds, durations in milliseconds. A write that takes the
/// cache over a hard cap prunes it down to the targets, least recently used
/// first. A target above its hard cap acts as the hard cap.
#[derive(Clone, Copy, Debug, PartialEq, Eq, Structural)]
pub struct Limits {
    /// An entry larger than this is returned to the caller but not stored.
    pub max_entry_bytes: u64,
    /// Entry count that triggers a prune.
    pub hard_entries: u64,
    /// Total bytes that trigger a prune.
    pub hard_bytes: u64,
    /// Entry count a prune reduces to.
    pub target_entries: u64,
    /// Total bytes a prune reduces to.
    pub target_bytes: u64,
    /// A prune removes an entry not read or written for this long, even
    /// unexpired.
    pub unused_after_ms: u64,
    /// A write prunes when the last prune is older than this, even under the
    /// caps.
    pub sweep_every_ms: u64,
    /// A hit records its use at most this often, so most reads write nothing.
    pub touch_after_ms: u64,
}

pub open spec fn default_limits() -> Limits {
    Limits {
        max_entry_bytes: 8_388_608,
        hard_entries: 10_000,
        hard_bytes: 268_435_456,
        target_entries: 8_000,
        target_bytes: 209_715_200,
        unused_after_ms: 2_592_000_000,
        sweep_every_ms: 86_400_000,
        touch_after_ms: 3_600_000,
    }
}

impl Default for Limits {
    /// 8 MiB per entry, and 10,000 entries or 256 MiB before pruning to 8,000
    /// entries and 200 MiB. Entries unused for 30 days go at the next daily
    /// sweep; a hit records its use at most hourly.
    fn default() -> (limits: Self)
        ensures
            limits == default_limits(),
    {
        Limits {
            max_entry_bytes: 8 * 1024 * 1024,
            hard_entries: 10_000,
            hard_bytes: 256 * 1024 * 1024,
            target_entries: 8_000,
            target_bytes: 200 * 1024 * 1024,
            unused_after_ms: 30 * 24 * 3_600_000,
            sweep_every_ms: 24 * 3_600_000,
            touch_after_ms: 3_600_000,
        }
    }
}

/// Entry count and total bytes on disk.
#[derive(Clone, Copy, Debug, Default, PartialEq, Eq, Structural)]
pub struct Usage {
    /// Entry files.
    pub entries: u64,
    /// Their total size.
    pub bytes: u64,
}

pub open spec fn saturating_sub(a: u64, b: u64) -> u64 {
    if a >= b { (a - b) as u64 } else { 0 }
}

pub open spec fn saturating_add(a: u64, b: u64) -> u64 {
    if a + b <= u64::MAX { (a + b) as u64 } else { u64::MAX }
}

impl Usage {
    /// Counts one entry of `bytes` as gone.
    pub fn remove(&mut self, bytes: u64)
        ensures
            final(self).entries == saturating_sub(old(self).entries, 1),
            final(self).bytes == saturating_sub(old(self).bytes, bytes),
    {
        self.entries = self.entries.saturating_sub(1);
        self.bytes = self.bytes.saturating_sub(bytes);
    }

    /// Counts one more entry of `bytes`.
    pub fn add(&mut self, bytes: u64)
        requires
            old(self).entries < u64::MAX,
        ensures
            final(self).entries == old(self).entries + 1,
            final(self).bytes == saturating_add(old(self).bytes, bytes),
    {
        self.entries = self.entries + 1;
        self.bytes = self.bytes.saturating_add(bytes);
    }
}

/// What a prune removed.
#[derive(Clone, Debug, Default, PartialEq, Eq, Structural)]
pub struct Prune {
    /// Entries before the prune.
    pub before_entries: u64,
    /// Bytes before the prune.
    pub before_bytes: u64,
    /// Entries after the prune.
    pub after_entries: u64,
    /// Bytes after the prune.
    pub after_bytes: u64,
    /// Entries removed because they were expired or invalid.
    pub expired_removed: u64,
    /// Unexpired entries removed because they were unused for
    /// [`Limits::unused_after_ms`].
    pub unused_removed: u64,
    /// Entries removed, least recently used first, to reach the targets.
    pub capacity_removed: u64,
    /// Temporary files left by writers that died mid-write.
    pub temporary_removed: u64,
    /// Lock files that no process held, such as those of a process that died.
    pub locks_removed: u64,
}

/// The result of reading a key.
#[derive(Clone, Debug, PartialEq, Eq)]
pub enum Lookup<T> {
    /// Nothing usable is stored.
    Miss,
    /// Stored and inside its fresh horizon: serve it without asking upstream.
    Fresh(Cached<T>),
    /// Past its fresh horizon but inside its stale horizon: ask upstream, and
    /// serve this only if the upstream failure serves stale.
    Stale(Cached<T>),
}

/// A stored value and when it was stored.
#[derive(Clone, Debug, PartialEq, Eq)]
pub struct Cached<T> {
    /// The stored value.
    pub value: T,
    /// When it was stored, in milliseconds since the Unix epoch.
    pub stored_at_ms: u64,
    /// Milliseconds since it was stored.
    pub age_ms: u64,
    /// Where its horizons came from.
    pub source: Source,
}

/// The result of a store.
#[derive(Clone, Debug, PartialEq, Eq)]
pub enum Stored {
    /// The entry was written.
    Written {
        /// Whether the write crossed a hard cap, and how the prune went.
        maintenance: Maintenance,
    },
    /// The entry exceeded [`Limits::max_entry_bytes`] and was not written.
    TooLarge {
        /// The serialized size.
        bytes: u64,
    },
}

/// Pruning that followed a write.
#[derive(Clone, Debug, PartialEq, Eq)]
pub enum Maintenance {
    /// The cache was within its hard caps and no sweep was due.
    NotNeeded,
    /// The write crossed a hard cap or a sweep was due, and the cache was
    /// pruned.
    Pruned(Prune),
    /// The cache needs pruning but it failed. The write itself succeeded, and
    /// the next write over a cap retries. [`Error::Lock`] means another
    /// prune, or a clear, was running.
    Deferred(Error),
}

/// Everything an entry file holds but the value: its layout version, the
/// schema of the value, the key it belongs to, when it was stored, and its
/// two horizons.
#[derive(Clone, Debug, PartialEq, Eq)]
pub struct Header {
    pub format: u8,
    pub schema: u32,
    pub namespace: String,
    pub digest: String,
    pub stored_at_ms: u64,
    pub fresh_until_ms: u64,
    pub stale_until_ms: u64,
    pub source: Source,
}

impl Header {
    /// The current layout, with the horizons in order.
    pub open spec fn is_consistent(&self) -> bool {
        self.format == FORMAT && self.stored_at_ms <= self.fresh_until_ms
            && self.fresh_until_ms <= self.stale_until_ms
    }

    /// Whether the header is of the current layout with its horizons in
    /// order.
    pub fn consistent(&self) -> (ok: bool)
        ensures
            ok == self.is_consistent(),
    {
        self.format == FORMAT && self.stored_at_ms <= self.fresh_until_ms
            && self.fresh_until_ms <= self.stale_until_ms
    }
}

/// A character `is_ascii_hexdigit` accepts.
pub open spec fn is_hex_char(c: char) -> bool {
    ('0' <= c && c <= '9') || ('a' <= c && c <= 'f') || ('A' <= c && c <= 'F')
}

/// 64 hex digits: the digest part of an entry file's name.
pub open spec fn is_digest(d: Seq<char>) -> bool {
    d.len() == 64 && forall|i: int| 0 <= i < d.len() ==> is_hex_char(#[trigger] d[i])
}

pub open spec fn json_suffix() -> Seq<char> {
    seq!['.', 'j', 's', 'o', 'n']
}

pub open spec fn tmp_suffix() -> Seq<char> {
    seq!['.', 't', 'm', 'p']
}

/// The digest an entry file called `name` stores: `<digest>.json`.
pub open spec fn entry_digest_of(name: Seq<char>) -> Option<Seq<char>> {
    if name.len() >= 5 && name.subrange(name.len() - 5, name.len() as int) == json_suffix()
        && is_digest(name.take(name.len() - 5)) {
        Some(name.take(name.len() - 5))
    } else {
        None
    }
}

/// The digest a writer's temporary file called `name` belongs to:
/// `.<digest>.<random>.tmp`, the digest ending at the second dot or at the end.
pub open spec fn temporary_digest_of(name: Seq<char>) -> Option<Seq<char>> {
    if name.len() >= 65 && name[0] == '.' && is_digest(name.subrange(1, 65)) && (name.len() == 65
        || name[65] == '.') {
        Some(name.subrange(1, 65))
    } else {
        None
    }
}

/// A writer's temporary file: a name that starts with `.` and ends in `.tmp`.
pub open spec fn is_temporary_name(name: Seq<char>) -> bool {
    name.len() >= 1 && name[0] == '.' && name.len() >= 4 && name.subrange(
        name.len() - 4,
        name.len() as int,
    ) == tmp_suffix()
}

fn hex_char(c: char) -> (ok: bool)
    ensures
        ok == is_hex_char(c),
{
    ('0' <= c && c <= '9') || ('a' <= c && c <= 'f') || ('A' <= c && c <= 'F')
}

/// Whether `chars[start..start + 64]` are hex digits.
fn digest_at(chars: &Vec<char>, start: usize) -> (ok: bool)
    requires
        start + 64 <= chars.len(),
    ensures
        ok == is_digest(chars@.subrange(start as int, start + 64)),
{
    let mut i: usize = 0;
    while i < 64
        invariant
            i <= 64,
            start + 64 <= chars.len(),
            forall|k: int| 0 <= k < i ==> is_hex_char(#[trigger] chars@[start + k]),
        decreases 64 - i,
    {
        if !hex_char(chars[start + i]) {
            assert(!is_hex_char(chars@.subrange(start as int, start + 64)[i as int]));
            return false;
        }
        i = i + 1;
    }
    assert forall|k: int| 0 <= k < 64 implies is_hex_char(
        #[trigger] chars@.subrange(start as int, start + 64)[k],
    ) by {
        assert(chars@.subrange(start as int, start + 64)[k] == chars@[start + k]);
    }
    true
}

/// The first `count` characters of `chars`, from `start`, as a string.
fn substring(chars: &Vec<char>, start: usize, count: usize) -> (out: String)
    requires
        start + count <= chars.len(),
    ensures
        out@ == chars@.subrange(start as int, start + count),
{
    let mut picked: Vec<char> = Vec::new();
    let mut i: usize = 0;
    while i < count
        invariant
            i <= count,
            start + count <= chars.len(),
            picked@ == chars@.subrange(start as int, start + i),
        decreases count - i,
    {
        picked.push(chars[start + i]);
        assert(chars@.subrange(start as int, start + i + 1) =~= chars@.subrange(
            start as int,
            start + i,
        ).push(chars@[start + i]));
        i = i + 1;
    }
    string_of(&picked)
}

/// The digest an entry file called `name` stores, when the name is one.
pub fn entry_digest(name: &str) -> (digest: Option<String>)
    ensures
        match digest {
            Some(d) => entry_digest_of(name@) == Some(d@),
            None => entry_digest_of(name@) is None,
        },
{
    let chars = chars_of(name);
    let n = chars.len();
    if n < 5 {
        return None;
    }
    let suffix = chars[n - 5] == '.' && chars[n - 4] == 'j' && chars[n - 3] == 's' && chars[n
        - 2] == 'o' && chars[n - 1] == 'n';
    assert(suffix == (chars@.subrange(n - 5, n as int) == json_suffix())) by {
        if chars@.subrange(n - 5, n as int) == json_suffix() {
            assert(chars@.subrange(n - 5, n as int)[0] == chars@[n - 5]);
            assert(chars@.subrange(n - 5, n as int)[1] == chars@[n - 4]);
            assert(chars@.subrange(n - 5, n as int)[2] == chars@[n - 3]);
            assert(chars@.subrange(n - 5, n as int)[3] == chars@[n - 2]);
            assert(chars@.subrange(n - 5, n as int)[4] == chars@[n - 1]);
        }
        if suffix {
            assert(chars@.subrange(n - 5, n as int) =~= json_suffix());
        }
    }
    if !suffix || n - 5 != 64 {
        return None;
    }
    assert(chars@.subrange(0, 64) == chars@.take(64));
    if !digest_at(&chars, 0) {
        return None;
    }
    Some(substring(&chars, 0, 64))
}

/// The digest a writer's temporary file called `name` belongs to, when the
/// name is one.
pub fn temporary_digest(name: &str) -> (digest: Option<String>)
    ensures
        match digest {
            Some(d) => temporary_digest_of(name@) == Some(d@),
            None => temporary_digest_of(name@) is None,
        },
{
    let chars = chars_of(name);
    let n = chars.len();
    if n < 65 || chars[0] != '.' {
        return None;
    }
    if n > 65 && chars[65] != '.' {
        return None;
    }
    if !digest_at(&chars, 1) {
        return None;
    }
    Some(substring(&chars, 1, 64))
}

/// Whether `name` is a writer's temporary file.
pub fn is_temporary(name: &str) -> (temporary: bool)
    ensures
        temporary == is_temporary_name(name@),
{
    let chars = chars_of(name);
    let n = chars.len();
    if n < 4 || chars[0] != '.' {
        return false;
    }
    let suffix = chars[n - 4] == '.' && chars[n - 3] == 't' && chars[n - 2] == 'm' && chars[n
        - 1] == 'p';
    assert(suffix == (chars@.subrange(n - 4, n as int) == tmp_suffix())) by {
        if chars@.subrange(n - 4, n as int) == tmp_suffix() {
            assert(chars@.subrange(n - 4, n as int)[0] == chars@[n - 4]);
            assert(chars@.subrange(n - 4, n as int)[1] == chars@[n - 3]);
            assert(chars@.subrange(n - 4, n as int)[2] == chars@[n - 2]);
            assert(chars@.subrange(n - 4, n as int)[3] == chars@[n - 1]);
        }
        if suffix {
            assert(chars@.subrange(n - 4, n as int) =~= tmp_suffix());
        }
    }
    suffix
}


/// `name` inside the directory `dir`, as `Path::join` puts it: an absolute
/// `name` stands for itself.
pub open spec fn joined(dir: Seq<char>, name: Seq<char>) -> Seq<char> {
    if name.len() > 0 && name[0] == '/' {
        name
    } else if dir.len() == 0 || dir.last() == '/' {
        dir + name
    } else {
        dir + seq!['/'] + name
    }
}

/// `name` inside the directory `dir`.
pub fn join(dir: &str, name: &str) -> (path: String)
    ensures
        path@ == joined(dir@, name@),
{
    let name_chars = chars_of(name);
    if name_chars.len() > 0 && name_chars[0] == '/' {
        return name.to_owned();
    }
    let chars = chars_of(dir);
    let mut path = dir.to_owned();
    if chars.len() > 0 && chars[chars.len() - 1] != '/' {
        push_char(&mut path, '/');
    }
    path.append(name);
    path
}

/// The per-user cache directory for `name`: `$HOME/Library/Caches/<name>` on
/// macOS; elsewhere `$XDG_CACHE_HOME/<name>`, or `$HOME/.cache/<name>` when
/// that is unset or relative. `None` when the directory it needs is unset or
/// relative.
pub open spec fn default_root_of(
    platform: Platform,
    home: Option<Seq<char>>,
    cache_home: Option<Seq<char>>,
    name: Seq<char>,
) -> Option<Seq<char>> {
    match platform {
        Platform::MacOs => if usable_base(home) {
            Some(joined(joined(joined(home.unwrap(), "Library"@), "Caches"@), name))
        } else {
            None
        },
        Platform::Linux => if usable_base(cache_home) {
            Some(joined(cache_home.unwrap(), name))
        } else if usable_base(home) {
            Some(joined(joined(home.unwrap(), ".cache"@), name))
        } else {
            None
        },
    }
}

/// The per-user cache directory for `name` on `platform`, from the values of
/// `HOME` and `XDG_CACHE_HOME`.
pub fn default_root(platform: Platform, home: Option<&str>, cache_home: Option<&str>, name: &str) -> (root: Option<String>)
    ensures
        match root {
            Some(r) => default_root_of(platform, opt_view(home), opt_view(cache_home), name@) == Some(r@),
            None => default_root_of(platform, opt_view(home), opt_view(cache_home), name@) is None,
        },
{
    match platform {
        Platform::MacOs => {
            if !absolute(home) {
                return None;
            }
            let library = join(home.unwrap(), "Library");
            let caches = join(library.as_str(), "Caches");
            Some(join(caches.as_str(), name))
        },
        Platform::Linux => {
            if absolute(cache_home) {
                Some(join(cache_home.unwrap(), name))
            } else if absolute(home) {
                let dot_cache = join(home.unwrap(), ".cache");
                Some(join(dot_cache.as_str(), name))
            } else {
                None
            }
        },
    }
}

/// How a read of one key turned out, and what the reader then does to the
/// entry file.
pub struct Reading<T> {
    /// What the caller gets.
    pub lookup: Lookup<T>,
    /// Remove the entry file: it is corrupt, mismatched or expired, and the
    /// reader holds the key's lock.
    pub remove: bool,
    /// Record the use by setting the file's modification time to now.
    pub touch: bool,
}

/// What the header of a stored entry says about a read of `key` at `now`.
#[derive(Clone, Copy, Debug, PartialEq, Eq, Structural)]
pub enum Verdict {
    /// Written under a newer schema: a miss, and the file stays.
    Ignore,
    /// Missing, unreadable, corrupt, for another key, or past its stale
    /// horizon: a miss, and the file goes under the key's lock.
    Discard,
    /// Usable once its value decodes.
    Decode,
}

pub open spec fn verdict_of(
    schema: u32,
    namespace: Seq<char>,
    digest: Seq<char>,
    header: Option<Header>,
    now: u64,
) -> Verdict {
    match header {
        None => Verdict::Discard,
        Some(h) => if h.schema > schema {
            Verdict::Ignore
        } else if !h.is_consistent() || h.digest@ != digest || h.namespace@ != namespace {
            Verdict::Discard
        } else if now > h.stale_until_ms {
            Verdict::Discard
        } else {
            Verdict::Decode
        },
    }
}

/// The lookup a decoded entry gives at `now`: fresh only when it was written
/// under the current schema and its fresh horizon has not passed.
pub open spec fn lookup_of<T>(schema: u32, header: Header, value: T, now: u64) -> Lookup<T> {
    let cached = Cached {
        value,
        stored_at_ms: header.stored_at_ms,
        age_ms: saturating_sub(now, header.stored_at_ms),
        source: header.source,
    };
    if header.schema == schema && now <= header.fresh_until_ms {
        Lookup::Fresh(cached)
    } else {
        Lookup::Stale(cached)
    }
}

/// A bounded on-disk cache under one private root.
///
/// Every process that opens the same root shares its entries and its locks.
#[derive(Clone, Debug)]
pub struct Cache {
    root: String,
    schema: u32,
    limits: Limits,
}

impl Cache {
    pub closed spec fn root_view(&self) -> Seq<char> {
        self.root@
    }

    pub closed spec fn schema_view(&self) -> u32 {
        self.schema
    }

    pub closed spec fn limits_view(&self) -> Limits {
        self.limits
    }

    /// The cache at the absolute `root`, whose value type is at version
    /// `schema`. Entries from a lower schema are served only as stale, and
    /// entries from a higher one are ignored.
    pub fn open(root: &str, schema: u32, limits: Limits) -> (cache: Cache)
        ensures
            cache.root_view() == root@,
            cache.schema_view() == schema,
            cache.limits_view() == limits,
    {
        Cache { root: root.to_owned(), schema, limits }
    }

    /// The absolute root.
    pub fn root(&self) -> (root: &str)
        ensures
            root@ == self.root_view(),
    {
        self.root.as_str()
    }

    /// The version of the stored value type.
    pub fn schema(&self) -> (schema: u32)
        ensures
            schema == self.schema_view(),
    {
        self.schema
    }

    /// The cache's bounds.
    pub fn limits(&self) -> (limits: Limits)
        ensures
            limits == self.limits_view(),
    {
        self.limits
    }

    /// The directory of entry files.
    pub fn entries_dir(&self) -> (dir: String)
        ensures
            dir@ == joined(self.root_view(), "entries"@),
    {
        join(self.root.as_str(), "entries")
    }

    /// The directory of per-key lock files.
    pub fn locks_dir(&self) -> (dir: String)
        ensures
            dir@ == joined(self.root_view(), "locks"@),
    {
        join(self.root.as_str(), "locks")
    }

    /// Where the entry for `key` lives: `<root>/entries/<digest>.json`.
    pub fn entry_path(&self, key: &Key) -> (path: String)
        ensures
            path@ == joined(joined(self.root_view(), "entries"@), key.digest_view() + ".json"@),
    {
        let mut name = key.digest().to_owned();
        name.append(".json");
        join(self.entries_dir().as_str(), name.as_str())
    }

    /// Where the entry file for `digest` lives.
    pub fn entry_file(&self, digest: &str) -> (path: String)
        ensures
            path@ == joined(joined(self.root_view(), "entries"@), digest@ + ".json"@),
    {
        let mut name = digest.to_owned();
        name.append(".json");
        join(self.entries_dir().as_str(), name.as_str())
    }

    /// The lock file of `digest`: `<root>/locks/<digest>.lock`.
    pub fn lock_path(&self, digest: &str) -> (path: String)
        ensures
            path@ == joined(joined(self.root_view(), "locks"@), digest@ + ".lock"@),
    {
        let mut name = digest.to_owned();
        name.append(".lock");
        join(self.locks_dir().as_str(), name.as_str())
    }

    /// Reads `key` from what its entry file holds: `entry` is its header and
    /// modification time, `None` when there is no readable header, and
    /// `value` the value when it decodes into the caller's type.
    ///
    /// A corrupt, mismatched, or expired entry reads as a miss, and is
    /// removed only by a reader that holds the key's lock, since without it a
    /// writer may be replacing the file. An entry from a newer schema reads
    /// as a miss and stays. A hit records its use when the last one is older
    /// than [`Limits::touch_after_ms`].
    pub fn read<T>(
        &self,
        key: &Key,
        entry: Option<(Header, u64)>,
        value: Option<T>,
        now: u64,
        locked: bool,
    ) -> (reading: Reading<T>)
        ensures
            ({
                let header = match entry {
                    Some(e) => Some(e.0),
                    None => None,
                };
                match verdict_of(
                    self.schema_view(),
                    key.namespace_view(),
                    key.digest_view(),
                    header,
                    now,
                ) {
                    Verdict::Ignore => reading.lookup is Miss && !reading.remove && !reading.touch,
                    Verdict::Discard => reading.lookup is Miss && reading.remove == locked
                        && !reading.touch,
                    Verdict::Decode => match value {
                        None => reading.lookup is Miss && reading.remove == locked
                            && !reading.touch,
                        Some(v) => {
                            &&& reading.lookup == lookup_of(self.schema_view(), entry.unwrap().0, v, now)
                            &&& !reading.remove
                            &&& reading.touch == (saturating_sub(now, entry.unwrap().1)
                                > self.limits_view().touch_after_ms)
                        },
                    },
                }
            }),
    {
        let verdict = self.judge(key, &entry, now);
        match verdict {
            Verdict::Ignore => Reading { lookup: Lookup::Miss, remove: false, touch: false },
            Verdict::Discard => Reading { lookup: Lookup::Miss, remove: locked, touch: false },
            Verdict::Decode => {
                let (header, modified_ms) = entry.unwrap();
                match value {
                    None => Reading { lookup: Lookup::Miss, remove: locked, touch: false },
                    Some(v) => {
                        let touch = now.saturating_sub(modified_ms) > self.limits.touch_after_ms;
                        let cached = Cached {
                            value: v,
                            stored_at_ms: header.stored_at_ms,
                            age_ms: now.saturating_sub(header.stored_at_ms),
                            source: header.source,
                        };
                        let lookup = if header.schema == self.schema && now
                            <= header.fresh_until_ms {
                            Lookup::Fresh(cached)
                        } else {
                            Lookup::Stale(cached)
                        };
                        Reading { lookup, remove: false, touch }
                    },
                }
            },
        }
    }

    /// What the header in `entry` says about a read of `key` at `now`.
    pub fn judge(&self, key: &Key, entry: &Option<(Header, u64)>, now: u64) -> (verdict: Verdict)
        ensures
            verdict == verdict_of(
                self.schema_view(),
                key.namespace_view(),
                key.digest_view(),
                match entry {
                    Some(e) => Some(e.0),
                    None => None,
                },
                now,
            ),
    {
        match entry {
            None => Verdict::Discard,
            Some((header, _)) => {
                if header.schema > self.schema {
                    Verdict::Ignore
                } else if !header.consistent() || !same_text(header.digest.as_str(), key.digest())
                    || !same_text(header.namespace.as_str(), key.namespace()) {
                    Verdict::Discard
                } else if now > header.stale_until_ms {
                    Verdict::Discard
                } else {
                    Verdict::Decode
                }
            },
        }
    }

    /// The header of the entry that stores a value for `key` under `policy`
    /// at `now`: fresh for `policy.fresh_ms`, then stale for
    /// `policy.stale_if_error_ms`, each horizon saturating at the largest
    /// time.
    pub fn entry_header(&self, key: &Key, policy: Policy, now: u64) -> (header: Header)
        ensures
            header.format == FORMAT,
            header.schema == self.schema_view(),
            header.namespace@ == key.namespace_view(),
            header.digest@ == key.digest_view(),
            header.stored_at_ms == now,
            header.fresh_until_ms == saturating_add(now, policy.fresh_ms),
            header.stale_until_ms == saturating_add(
                saturating_add(now, policy.fresh_ms),
                policy.stale_if_error_ms,
            ),
            header.source == policy.source,
    {
        let fresh_until_ms = now.saturating_add(policy.fresh_ms);
        Header {
            format: FORMAT,
            schema: self.schema,
            namespace: key.namespace().to_owned(),
            digest: key.digest().to_owned(),
            stored_at_ms: now,
            fresh_until_ms,
            stale_until_ms: fresh_until_ms.saturating_add(policy.stale_if_error_ms),
            source: policy.source,
        }
    }

    /// Whether an entry of `bytes` serialized bytes is stored; a larger one
    /// is returned to the caller as [`Stored::TooLarge`].
    pub fn admits(&self, bytes: u64) -> (stored: bool)
        ensures
            stored == (bytes <= self.limits_view().max_entry_bytes),
    {
        bytes <= self.limits.max_entry_bytes
    }

    /// Whether a sweep is due: the last prune, recorded at `last_prune_ms`,
    /// is older than [`Limits::sweep_every_ms`]. With no record, none is.
    pub fn sweep_due(&self, last_prune_ms: Option<u64>, now: u64) -> (due: bool)
        ensures
            due == match last_prune_ms {
                Some(at) => saturating_sub(now, at) > self.limits_view().sweep_every_ms,
                None => false,
            },
    {
        match last_prune_ms {
            Some(at) => now.saturating_sub(at) > self.limits.sweep_every_ms,
            None => false,
        }
    }

    /// Whether `usage` is over a hard cap.
    pub fn over_cap(&self, usage: Usage) -> (over: bool)
        ensures
            over == (usage.entries > self.limits_view().hard_entries || usage.bytes
                > self.limits_view().hard_bytes),
    {
        usage.entries > self.limits.hard_entries || usage.bytes > self.limits.hard_bytes
    }

    /// What follows a write, given the usage counted after it: `None` when
    /// the cache is over a hard cap or a sweep is due, so a prune runs now;
    /// otherwise the maintenance to report.
    pub fn after_write(&self, usage: Result<Usage, Error>, sweep_due: bool) -> (next: Option<
        Maintenance,
    >)
        ensures
            match usage {
                Ok(u) => if self.over_cap_spec(u) || sweep_due {
                    next is None
                } else {
                    next == Some(Maintenance::NotNeeded)
                },
                Err(e) => next == Some(Maintenance::Deferred(e)),
            },
    {
        match usage {
            Ok(u) => if self.over_cap(u) || sweep_due {
                None
            } else {
                Some(Maintenance::NotNeeded)
            },
            Err(e) => Some(Maintenance::Deferred(e)),
        }
    }

    pub open spec fn over_cap_spec(&self, usage: Usage) -> bool {
        usage.entries > self.limits_view().hard_entries || usage.bytes
            > self.limits_view().hard_bytes
    }
}

impl Maintenance {
    /// The maintenance a prune run after a write reports.
    pub fn of_prune(result: Result<Prune, Error>) -> (maintenance: Maintenance)
        ensures
            maintenance == match result {
                Ok(prune) => Maintenance::Pruned(prune),
                Err(e) => Maintenance::Deferred(e),
            },
    {
        match result {
            Ok(prune) => Maintenance::Pruned(prune),
            Err(e) => Maintenance::Deferred(e),
        }
    }
}

/// Whether two strings are equal.
pub fn same_text(a: &str, b: &str) -> (equal: bool)
    ensures
        equal == (a@ == b@),
{
    let x = chars_of(a);
    let y = chars_of(b);
    if x.len() != y.len() {
        return false;
    }
    let mut i: usize = 0;
    while i < x.len()
        invariant
            i <= x.len(),
            x.len() == y.len(),
            x@ == a@,
            y@ == b@,
            forall|k: int| 0 <= k < i ==> x@[k] == y@[k],
        decreases x.len() - i,
    {
        if x[i] != y[i] {
            assert(a@[i as int] != b@[i as int]);
            return false;
        }
        i = i + 1;
    }
    assert(x@ =~= y@);
    true
}


/// One name in the entries directory, and the size of the regular file it
/// names (`None` for anything else, or when it vanished meanwhile).
pub struct Listed {
    pub name: String,
    pub file_bytes: Option<u64>,
}

/// The entry files among `listing` and their total size, saturating.
pub open spec fn usage_of(listing: Seq<(Seq<char>, Option<u64>)>) -> Usage
    decreases listing.len(),
{
    if listing.len() == 0 {
        Usage { entries: 0, bytes: 0 }
    } else {
        let before = usage_of(listing.drop_last());
        let last = listing.last();
        if entry_digest_of(last.0) is Some && last.1 is Some {
            Usage {
                entries: (before.entries + 1) as u64,
                bytes: saturating_add(before.bytes, last.1.unwrap()),
            }
        } else {
            before
        }
    }
}

proof fn lemma_usage_entries_bounded(listing: Seq<(Seq<char>, Option<u64>)>)
    ensures
        usage_of(listing).entries <= listing.len(),
    decreases listing.len(),
{
    if listing.len() > 0 {
        lemma_usage_entries_bounded(listing.drop_last());
    }
}

pub open spec fn listing_view(listing: Seq<Listed>) -> Seq<(Seq<char>, Option<u64>)> {
    listing.map_values(|l: Listed| (l.name@, l.file_bytes))
}

impl Cache {
    /// Counts the entry files in a listing of the entries directory and their
    /// bytes; names that are not `<digest>.json`, and anything but a regular
    /// file, do not count.
    pub fn usage(&self, listing: &Vec<Listed>) -> (usage: Usage)
        ensures
            usage == usage_of(listing_view(listing@)),
    {
        let ghost view = listing_view(listing@);
        let mut usage = Usage { entries: 0, bytes: 0 };
        let mut i: usize = 0;
        while i < listing.len()
            invariant
                i <= listing.len(),
                view == listing_view(listing@),
                usage == usage_of(view.take(i as int)),
            decreases listing.len() - i,
        {
            proof {
                assert(view.take(i + 1).drop_last() =~= view.take(i as int));
                lemma_usage_entries_bounded(view.take(i as int));
            }
            let item = &listing[i];
            if entry_digest(item.name.as_str()).is_some() {
                match item.file_bytes {
                    Some(bytes) => usage.add(bytes),
                    None => {},
                }
            }
            i = i + 1;
        }
        assert(view.take(listing.len() as int) =~= view);
        usage
    }
}

/// Whether an entry still counts as stored at `now`: its header is readable
/// and consistent, names the digest in its file name, and its stale horizon
/// has not passed.
pub open spec fn is_live(header: Option<Header>, name: Seq<char>, now: u64) -> bool {
    match header {
        Some(h) => h.is_consistent() && entry_digest_of(name) == Some(h.digest@) && now
            <= h.stale_until_ms,
        None => false,
    }
}

/// Whether the entry file called `name`, whose header reads as `header`, is
/// live at `now`.
pub fn live(header: &Option<Header>, name: &str, now: u64) -> (alive: bool)
    ensures
        alive == is_live(*header, name@, now),
{
    match header {
        None => false,
        Some(h) => {
            if !h.consistent() || now > h.stale_until_ms {
                return false;
            }
            match entry_digest(name) {
                Some(d) => same_text(d.as_str(), h.digest.as_str()),
                None => false,
            }
        },
    }
}

/// The bytes `,"value":` that start the value in an entry file. The value is
/// written last, and a quote inside a string is escaped, so its first
/// occurrence is the key.
pub open spec fn value_key() -> Seq<u8> {
    seq![44u8, 34u8, 118u8, 97u8, 108u8, 117u8, 101u8, 34u8, 58u8]
}

pub open spec fn value_key_at(bytes: Seq<u8>, i: int) -> bool {
    0 <= i && i + 9 <= bytes.len() && bytes.subrange(i, i + 9) == value_key()
}

/// Everything in an entry file before the value, closed as a JSON object, so
/// the header parses without the value: the bytes before the first
/// `,"value":`, then `}`. `None` when there is no value key.
pub open spec fn header_prefix_of(bytes: Seq<u8>) -> Option<Seq<u8>> {
    if exists|i: int| value_key_at(bytes, i) {
        let first = choose|i: int| value_key_at(bytes, i) && forall|j: int| 0 <= j < i ==> !value_key_at(bytes, j);
        Some(bytes.take(first).push(125u8))
    } else {
        None
    }
}

/// The header part of an entry file's bytes, closed with `}`.
pub fn header_prefix(bytes: &[u8]) -> (prefix: Option<Vec<u8>>)
    ensures
        match prefix {
            Some(p) => header_prefix_of(bytes@) == Some(p@),
            None => header_prefix_of(bytes@) is None,
        },
{
    let key: Vec<u8> = vec![44u8, 34u8, 118u8, 97u8, 108u8, 117u8, 101u8, 34u8, 58u8];
    assert(key@ =~= value_key());
    let n = bytes.len();
    let mut i: usize = 0;
    while n >= 9 && i <= n - 9
        invariant
            n == bytes@.len(),
            key@ == value_key(),
            forall|j: int| 0 <= j < i ==> !value_key_at(bytes@, j),
        decreases n - i,
    {
        let mut k: usize = 0;
        let mut hit = true;
        while k < 9
            invariant
                k <= 9,
                i + 9 <= n,
                n == bytes@.len(),
                key@ == value_key(),
                hit == forall|m: int| 0 <= m < k ==> bytes@[i + m] == key@[m],
            decreases 9 - k,
        {
            if bytes[i + k] != key[k] {
                hit = false;
            }
            k = k + 1;
        }
        if hit {
            assert(bytes@.subrange(i as int, i + 9) =~= value_key());
            let mut out: Vec<u8> = Vec::new();
            let mut m: usize = 0;
            while m < i
                invariant
                    m <= i,
                    i + 9 <= n,
                    n == bytes@.len(),
                    out@ == bytes@.take(m as int),
                decreases i - m,
            {
                out.push(bytes[m]);
                assert(bytes@.take(m + 1) =~= bytes@.take(m as int).push(bytes@[m as int]));
                m = m + 1;
            }
            out.push(125u8);
            proof {
                let first = choose|f: int| value_key_at(bytes@, f) && forall|j: int| 0 <= j < f ==> !value_key_at(bytes@, j);
                assert(value_key_at(bytes@, i as int));
                if first < i {
                } else if first > i {
                }
                assert(first == i);
            }
            return Some(out);
        } else {
            assert(!value_key_at(bytes@, i as int)) by {
                if value_key_at(bytes@, i as int) {
                    assert forall|m: int| 0 <= m < 9 implies bytes@[i + m] == key@[m] by {
                        assert(bytes@.subrange(i as int, i + 9)[m] == bytes@[i + m]);
                    }
                }
            }
        }
        i = i + 1;
    }
    assert forall|j: int| !value_key_at(bytes@, j) by {
        if 0 <= j < i {
        }
    }
    None
}


/// An entry a prune kept in its first pass: when it was last used, its
/// digest, and its size.
#[derive(Clone, Debug, PartialEq, Eq)]
pub struct Kept {
    pub used_ms: u64,
    pub digest: String,
    pub bytes: u64,
}

pub open spec fn kept_view(k: Kept) -> (u64, Seq<char>, u64) {
    (k.used_ms, k.digest@, k.bytes)
}

/// `a` was used before `b`, or at the same time with a smaller digest: the
/// order in which a prune removes entries to reach its targets.
pub open spec fn used_before(a: (u64, Seq<char>, u64), b: (u64, Seq<char>, u64)) -> bool {
    a.0 < b.0 || (a.0 == b.0 && seq_lt(a.1, b.1))
}

proof fn lemma_used_before_transitive(
    a: (u64, Seq<char>, u64),
    b: (u64, Seq<char>, u64),
    c: (u64, Seq<char>, u64),
)
    requires
        used_before(a, b),
        used_before(b, c),
    ensures
        used_before(a, c),
{
    if a.0 == b.0 && b.0 == c.0 {
        lemma_lt_transitive(a.1, b.1, c.1);
    }
}

/// What the first pass of a prune does with an entry it holds the lock of.
#[derive(Clone, Copy, Debug, PartialEq, Eq, Structural)]
pub enum Fate {
    /// Removed: expired, or not a valid entry.
    Expired,
    /// Removed: not read or written for [`Limits::unused_after_ms`].
    Unused,
    /// Kept for now; the capacity pass may still remove it.
    Keep,
}

/// The targets a capacity pass prunes down to: each target, or its hard cap
/// when that is lower.
pub open spec fn targets_of(limits: Limits) -> (u64, u64) {
    (
        if limits.target_entries <= limits.hard_entries {
            limits.target_entries
        } else {
            limits.hard_entries
        },
        if limits.target_bytes <= limits.hard_bytes {
            limits.target_bytes
        } else {
            limits.hard_bytes
        },
    )
}

pub open spec fn within_targets(usage: Usage, limits: Limits) -> bool {
    usage.entries <= targets_of(limits).0 && usage.bytes <= targets_of(limits).1
}

/// The total size of the kept entries.
pub open spec fn bytes_of(kept: Seq<(u64, Seq<char>, u64)>) -> nat
    decreases kept.len(),
{
    if kept.len() == 0 {
        0
    } else {
        bytes_of(kept.drop_last()) + kept.last().2 as nat
    }
}

proof fn lemma_bytes_of_remove(kept: Seq<(u64, Seq<char>, u64)>, i: int)
    requires
        0 <= i < kept.len(),
    ensures
        bytes_of(kept.remove(i)) + kept[i].2 == bytes_of(kept),
    decreases kept.len(),
{
    if i < kept.len() - 1 {
        lemma_bytes_of_remove(kept.drop_last(), i);
        assert(kept.remove(i).drop_last() =~= kept.drop_last().remove(i));
        assert(kept.remove(i).last() == kept.last());
    } else {
        assert(kept.remove(i) =~= kept.drop_last());
    }
}

/// One when a victim is handed out and not yet counted, else zero.
pub open spec fn pending_count(pending: Option<u64>) -> nat {
    if pending is Some { 1 } else { 0 }
}

/// The size of a victim handed out and not yet counted.
pub open spec fn pending_bytes(pending: Option<u64>) -> nat {
    match pending {
        Some(b) => b as nat,
        None => 0,
    }
}

/// The counts a prune keeps as it goes.
struct Tally {
    over_cap: bool,
    left: Usage,
    outcome: Prune,
    kept: Vec<Kept>,
    pending: Option<u64>,
    counted: Ghost<bool>,
}

impl Tally {
    spec fn kept_list(&self) -> Seq<(u64, Seq<char>, u64)> {
        self.kept@.map_values(|k: Kept| kept_view(k))
    }

    /// No byte is added to what is left, and a prune under the caps removes
    /// nothing for capacity. While every settled entry was among those
    /// counted before the prune, each counted entry is left or was removed
    /// once, and the kept entries, and a victim handed out, are among those
    /// left.
    spec fn ok(&self) -> bool {
        &&& self.left.bytes <= self.outcome.before_bytes
        &&& !self.over_cap ==> self.outcome.capacity_removed == 0 && self.pending is None
        &&& self.counted@ ==> {
            &&& self.outcome.before_entries == self.left.entries + self.outcome.expired_removed
                + self.outcome.unused_removed + self.outcome.capacity_removed
            &&& self.kept_list().len() + pending_count(self.pending) <= self.left.entries
            &&& bytes_of(self.kept_list()) + pending_bytes(self.pending) <= self.left.bytes
        }
    }

    fn empty() -> (tally: Tally)
        ensures
            tally.ok(),
    {
        let tally = Tally {
            over_cap: false,
            left: Usage { entries: 0, bytes: 0 },
            outcome: Prune {
                before_entries: 0,
                before_bytes: 0,
                after_entries: 0,
                after_bytes: 0,
                expired_removed: 0,
                unused_removed: 0,
                capacity_removed: 0,
                temporary_removed: 0,
                locks_removed: 0,
            },
            kept: Vec::new(),
            pending: None,
            counted: Ghost(true),
        };
        assert(tally.kept_list() =~= Seq::<(u64, Seq<char>, u64)>::empty());
        tally
    }
}

/// A prune in progress. The first pass settles each entry as expired, unused
/// or kept; then, only when the cache was over a hard cap before the prune,
/// the capacity pass removes kept entries, least recently used first, until
/// both targets hold.
///
/// While every entry it settles was among those counted before it, every
/// counted entry is either left or removed once, and the kept entries are
/// among those left. An entry written since the count is settled all the
/// same, with counts that saturate.
pub struct Pruning {
    limits: Limits,
    now: u64,
    tally: Tally,
}

impl Pruning {
    #[verifier::type_invariant]
    closed spec fn counts_add_up(&self) -> bool {
        self.tally.ok()
    }

    pub closed spec fn limits_view(&self) -> Limits {
        self.limits
    }

    pub closed spec fn now_view(&self) -> u64 {
        self.now
    }

    /// Whether the cache was over a hard cap when the prune began.
    pub closed spec fn over_cap_view(&self) -> bool {
        self.tally.over_cap
    }

    /// The entries and bytes left so far.
    pub closed spec fn left_view(&self) -> Usage {
        self.tally.left
    }

    /// The counts so far.
    pub closed spec fn outcome_view(&self) -> Prune {
        self.tally.outcome
    }

    /// The entries kept by the first pass and not yet handed out.
    pub closed spec fn kept_list(&self) -> Seq<(u64, Seq<char>, u64)> {
        self.tally.kept_list()
    }

    /// The size of the victim last handed out, until it is counted as removed.
    pub closed spec fn pending_view(&self) -> Option<u64> {
        self.tally.pending
    }

    /// Whether every entry settled so far was among those counted before the
    /// prune: so it is when no entry was written while the prune ran.
    pub closed spec fn counted_view(&self) -> bool {
        self.tally.counted@
    }

    /// Whether what is left holds room for one more settled entry of `bytes`
    /// besides the kept ones: an entry counted before the prune always fits.
    pub open spec fn room_for(&self, bytes: u64) -> bool {
        &&& self.kept_list().len() + pending_count(self.pending_view()) < self.left_view().entries
        &&& bytes_of(self.kept_list()) + pending_bytes(self.pending_view()) + bytes
            <= self.left_view().bytes
    }

    /// Whether what is left is exactly the kept entries and the victim
    /// handed out: so it is once every entry counted before the prune has
    /// been settled and every victim removed.
    pub open spec fn balanced(&self) -> bool {
        &&& self.left_view().entries == self.kept_list().len() + pending_count(self.pending_view())
        &&& self.left_view().bytes == bytes_of(self.kept_list()) + pending_bytes(
            self.pending_view(),
        )
    }

    /// What happens to an entry, live or not, last used at `used_ms`.
    pub fn fate(&self, live: bool, used_ms: u64) -> (fate: Fate)
        ensures
            fate == if !live {
                Fate::Expired
            } else if saturating_sub(self.now_view(), used_ms)
                > self.limits_view().unused_after_ms {
                Fate::Unused
            } else {
                Fate::Keep
            },
    {
        if !live {
            Fate::Expired
        } else if self.now.saturating_sub(used_ms) > self.limits.unused_after_ms {
            Fate::Unused
        } else {
            Fate::Keep
        }
    }

    /// Records the fate of the entry with `digest`, last used at `used_ms`
    /// and `bytes` long: a removed entry is counted and leaves the usage; a
    /// kept one joins the capacity pass. An entry that does not fit what is
    /// left, because it was written after the count, is settled all the same,
    /// and the counts saturate.
    pub fn settle(&mut self, fate: Fate, digest: String, used_ms: u64, bytes: u64)
        ensures
            final(self).limits_view() == old(self).limits_view(),
            final(self).now_view() == old(self).now_view(),
            final(self).over_cap_view() == old(self).over_cap_view(),
            final(self).pending_view() == old(self).pending_view(),
            final(self).counted_view() == (old(self).counted_view() && old(self).room_for(bytes)),
            match fate {
                Fate::Expired => {
                    &&& final(self).outcome_view() == (Prune {
                        expired_removed: saturating_add(old(self).outcome_view().expired_removed, 1),
                        ..old(self).outcome_view()
                    })
                    &&& final(self).left_view() == (Usage {
                        entries: saturating_sub(old(self).left_view().entries, 1),
                        bytes: saturating_sub(old(self).left_view().bytes, bytes),
                    })
                    &&& final(self).kept_list() == old(self).kept_list()
                },
                Fate::Unused => {
                    &&& final(self).outcome_view() == (Prune {
                        unused_removed: saturating_add(old(self).outcome_view().unused_removed, 1),
                        ..old(self).outcome_view()
                    })
                    &&& final(self).left_view() == (Usage {
                        entries: saturating_sub(old(self).left_view().entries, 1),
                        bytes: saturating_sub(old(self).left_view().bytes, bytes),
                    })
                    &&& final(self).kept_list() == old(self).kept_list()
                },
                Fate::Keep => {
                    &&& final(self).outcome_view() == old(self).outcome_view()
                    &&& final(self).left_view() == old(self).left_view()
                    &&& final(self).kept_list() == old(self).kept_list().push(
                        (used_ms, digest@, bytes),
                    )
                },
            },
    {
        proof {
            use_type_invariant(&*self);
        }
        let ghost room = self.room_for(bytes);
        let mut t = Tally::empty();
        std::mem::swap(&mut t, &mut self.tally);
        let ghost before = t.kept_list();
        match fate {
            Fate::Expired => {
                t.outcome.expired_removed = t.outcome.expired_removed.saturating_add(1);
                t.left.remove(bytes);
            },
            Fate::Unused => {
                t.outcome.unused_removed = t.outcome.unused_removed.saturating_add(1);
                t.left.remove(bytes);
            },
            Fate::Keep => {
                t.kept.push(Kept { used_ms, digest, bytes });
                assert(t.kept_list() =~= before.push((used_ms, digest@, bytes)));
                assert(t.kept_list().drop_last() =~= before);
            },
        }
        let ghost still_counted = t.counted@ && room;
        t.counted = Ghost(still_counted);
        self.tally = t;
    }

    /// Whether a temporary file goes: unless the lock of the key it belongs
    /// to is held by a writer. `lock_held` is `None` when its name names no
    /// digest, and otherwise whether another holder has that lock.
    pub fn removes_temporary(lock_held: Option<bool>) -> (removes: bool)
        ensures
            removes == (lock_held != Some(true)),
    {
        match lock_held {
            Some(held) => !held,
            None => true,
        }
    }

    /// Counts one removed temporary file.
    pub fn temporary_removed(&mut self)
        ensures
            final(self).outcome_view() == (Prune {
                temporary_removed: saturating_add(old(self).outcome_view().temporary_removed, 1),
                ..old(self).outcome_view()
            }),
            final(self).left_view() == old(self).left_view(),
            final(self).kept_list() == old(self).kept_list(),
            final(self).pending_view() == old(self).pending_view(),
            final(self).counted_view() == old(self).counted_view(),
            final(self).limits_view() == old(self).limits_view(),
            final(self).now_view() == old(self).now_view(),
            final(self).over_cap_view() == old(self).over_cap_view(),
    {
        proof {
            use_type_invariant(&*self);
        }
        let mut t = Tally::empty();
        std::mem::swap(&mut t, &mut self.tally);
        t.outcome.temporary_removed = t.outcome.temporary_removed.saturating_add(1);
        self.tally = t;
    }

    /// Whether the capacity pass is over: the cache was within its hard caps
    /// before the prune, or both targets hold, or no kept entry is left.
    pub open spec fn capacity_done(&self) -> bool {
        !self.over_cap_view() || within_targets(self.left_view(), self.limits_view())
            || self.kept_list().len() == 0
    }

    /// The next entry the capacity pass tries to remove: the least recently
    /// used kept entry, ties going to the smaller digest. `None` once the pass
    /// is over. The victim stays counted among those left until
    /// [`Pruning::capacity_removed`] counts it as removed; a victim that is
    /// not removed, because its key is held, is dropped from the pass.
    pub fn next_victim(&mut self) -> (victim: Option<Kept>)
        ensures
            final(self).limits_view() == old(self).limits_view(),
            final(self).now_view() == old(self).now_view(),
            final(self).over_cap_view() == old(self).over_cap_view(),
            final(self).left_view() == old(self).left_view(),
            final(self).outcome_view() == old(self).outcome_view(),
            final(self).counted_view() == old(self).counted_view(),
            final(self).pending_view() == match victim {
                Some(v) => Some(v.bytes),
                None => None::<u64>,
            },
            old(self).capacity_done() ==> victim is None && final(self).kept_list() == old(
                self,
            ).kept_list(),
            old(self).over_cap_view() && old(self).kept_list().len() > 0 && (old(
                self,
            ).left_view().entries > old(self).limits_view().target_entries || old(
                self,
            ).left_view().entries > old(self).limits_view().hard_entries || old(
                self,
            ).left_view().bytes > old(self).limits_view().target_bytes || old(
                self,
            ).left_view().bytes > old(self).limits_view().hard_bytes) ==> victim is Some,
            !old(self).capacity_done() ==> exists|i: int|
                {
                    &&& 0 <= i < old(self).kept_list().len()
                    &&& victim is Some
                    &&& kept_view(victim.unwrap()) == old(self).kept_list()[i]
                    &&& forall|j: int|
                        0 <= j < old(self).kept_list().len() ==> !used_before(
                            #[trigger] old(self).kept_list()[j],
                            old(self).kept_list()[i],
                        )
                    &&& final(self).kept_list() == old(self).kept_list().remove(i)
                },
            old(self).balanced() && old(self).pending_view() is None ==> final(self).balanced(),
    {
        proof {
            use_type_invariant(&*self);
        }
        let (target_entries, target_bytes) = self.targets();
        let mut t = Tally::empty();
        std::mem::swap(&mut t, &mut self.tally);
        if !t.over_cap || (t.left.entries <= target_entries && t.left.bytes <= target_bytes)
            || t.kept.len() == 0 {
            t.pending = None;
            self.tally = t;
            return None;
        }
        let ghost list = t.kept_list();
        let mut best: usize = 0;
        let mut j: usize = 1;
        proof {
            lemma_lt_irreflexive_pair(list[0]);
        }
        while j < t.kept.len()
            invariant
                0 <= best < j <= t.kept.len(),
                list == t.kept_list(),
                forall|k: int| 0 <= k < j ==> !used_before(#[trigger] list[k], list[best as int]),
            decreases t.kept.len() - j,
        {
            let earlier = t.kept[j].used_ms < t.kept[best].used_ms || (t.kept[j].used_ms
                == t.kept[best].used_ms && less(
                &chars_of(t.kept[j].digest.as_str()),
                &chars_of(t.kept[best].digest.as_str()),
            ));
            assert(list[j as int] == kept_view(t.kept@[j as int]));
            assert(list[best as int] == kept_view(t.kept@[best as int]));
            assert(earlier == used_before(list[j as int], list[best as int]));
            if earlier {
                proof {
                    assert forall|k: int| 0 <= k < j + 1 implies !used_before(
                        #[trigger] list[k],
                        list[j as int],
                    ) by {
                        if k < j && used_before(list[k], list[j as int]) {
                            lemma_used_before_transitive(
                                list[k],
                                list[j as int],
                                list[best as int],
                            );
                        }
                        if k == j {
                            lemma_lt_irreflexive_pair(list[k]);
                        }
                    }
                }
                best = j;
            }
            j = j + 1;
        }
        proof {
            lemma_bytes_of_remove(list, best as int);
        }
        assert(list[best as int] == kept_view(t.kept@[best as int]));
        let victim = t.kept.remove(best);
        assert(t.kept_list() =~= list.remove(best as int));
        t.pending = Some(victim.bytes);
        self.tally = t;
        Some(victim)
    }

    /// Counts the victim last handed out as removed; with none handed out,
    /// changes nothing.
    pub fn capacity_removed(&mut self)
        ensures
            match old(self).pending_view() {
                Some(bytes) => {
                    &&& final(self).outcome_view() == (Prune {
                        capacity_removed: saturating_add(old(self).outcome_view().capacity_removed, 1),
                        ..old(self).outcome_view()
                    })
                    &&& final(self).left_view() == (Usage {
                        entries: saturating_sub(old(self).left_view().entries, 1),
                        bytes: saturating_sub(old(self).left_view().bytes, bytes),
                    })
                },
                None => {
                    &&& final(self).outcome_view() == old(self).outcome_view()
                    &&& final(self).left_view() == old(self).left_view()
                },
            },
            final(self).pending_view() is None,
            final(self).counted_view() == old(self).counted_view(),
            final(self).kept_list() == old(self).kept_list(),
            final(self).limits_view() == old(self).limits_view(),
            final(self).now_view() == old(self).now_view(),
            final(self).over_cap_view() == old(self).over_cap_view(),
            old(self).balanced() ==> final(self).balanced(),
    {
        proof {
            use_type_invariant(&*self);
        }
        let mut t = Tally::empty();
        std::mem::swap(&mut t, &mut self.tally);
        match t.pending {
            Some(bytes) => {
                t.outcome.capacity_removed = t.outcome.capacity_removed.saturating_add(1);
                t.left.remove(bytes);
                t.pending = None;
            },
            None => {},
        }
        self.tally = t;
    }

    /// The targets of the capacity pass.
    pub fn targets(&self) -> (targets: (u64, u64))
        ensures
            targets == targets_of(self.limits_view()),
    {
        (
            if self.limits.target_entries <= self.limits.hard_entries {
                self.limits.target_entries
            } else {
                self.limits.hard_entries
            },
            if self.limits.target_bytes <= self.limits.hard_bytes {
                self.limits.target_bytes
            } else {
                self.limits.hard_bytes
            },
        )
    }

    /// What the prune removed, with the entries and bytes it left: no byte
    /// was added, a prune of a cache under its caps removed nothing for
    /// capacity, and, when no entry appeared after the count, every entry
    /// counted before it is left or was removed once.
    pub fn finish(&self) -> (prune: Prune)
        ensures
            prune == (Prune {
                after_entries: self.left_view().entries,
                after_bytes: self.left_view().bytes,
                ..self.outcome_view()
            }),
            self.counted_view() ==> prune.after_entries + prune.expired_removed
                + prune.unused_removed + prune.capacity_removed == prune.before_entries,
            prune.after_bytes <= prune.before_bytes,
            !self.over_cap_view() ==> prune.capacity_removed == 0,
    {
        proof {
            use_type_invariant(self);
        }
        let t = &self.tally;
        Prune {
            before_entries: t.outcome.before_entries,
            before_bytes: t.outcome.before_bytes,
            after_entries: t.left.entries,
            after_bytes: t.left.bytes,
            expired_removed: t.outcome.expired_removed,
            unused_removed: t.outcome.unused_removed,
            capacity_removed: t.outcome.capacity_removed,
            temporary_removed: t.outcome.temporary_removed,
            locks_removed: t.outcome.locks_removed,
        }
    }
}

/// A capacity pass that runs to its end on a balanced prune, every victim
/// removed, leaves the cache within both targets, unless the cache was
/// within its hard caps when the prune began.
pub proof fn law_capacity_pass_reaches_targets(pruning: Pruning)
    requires
        pruning.balanced(),
        pruning.pending_view() is None,
        pruning.capacity_done(),
    ensures
        pruning.over_cap_view() ==> within_targets(pruning.left_view(), pruning.limits_view()),
{
}

proof fn lemma_lt_irreflexive_pair(a: (u64, Seq<char>, u64))
    ensures
        !used_before(a, a),
{
    crate::order::lemma_lt_irreflexive(a.1);
}

impl Cache {
    /// Starts a prune of a cache that held `before` at `now`, after
    /// `locks_removed` unheld lock files went. The prune then settles each
    /// entry it holds the lock of, and runs its capacity pass.
    pub fn prune(&self, locks_removed: u64, before: Usage, now: u64) -> (pruning: Pruning)
        ensures
            pruning.limits_view() == self.limits_view(),
            pruning.now_view() == now,
            pruning.over_cap_view() == self.over_cap_spec(before),
            pruning.left_view() == before,
            pruning.kept_list() == Seq::<(u64, Seq<char>, u64)>::empty(),
            pruning.pending_view() is None,
            pruning.counted_view(),
            pruning.outcome_view() == (Prune {
                before_entries: before.entries,
                before_bytes: before.bytes,
                after_entries: 0,
                after_bytes: 0,
                expired_removed: 0,
                unused_removed: 0,
                capacity_removed: 0,
                temporary_removed: 0,
                locks_removed,
            }),
    {
        let kept: Vec<Kept> = Vec::new();
        let tally = Tally {
            over_cap: self.over_cap(before),
            left: before,
            outcome: Prune {
                before_entries: before.entries,
                before_bytes: before.bytes,
                after_entries: 0,
                after_bytes: 0,
                expired_removed: 0,
                unused_removed: 0,
                capacity_removed: 0,
                temporary_removed: 0,
                locks_removed,
            },
            kept,
            pending: None,
            counted: Ghost(true),
        };
        assert(tally.kept_list() =~= Seq::<(u64, Seq<char>, u64)>::empty());
        Pruning { limits: self.limits, now, tally }
    }
}


/// A setting that is a count or a size: a JSON number.
pub open spec fn number_value(field: (Seq<char>, Option<Seq<char>>, Option<u64>)) -> Option<u64> {
    field.2
}

impl Settings for Limits {
    open spec fn knows(name: Seq<char>) -> bool {
        ||| name == "max_entry_bytes"@
        ||| name == "hard_entries"@
        ||| name == "hard_bytes"@
        ||| name == "target_entries"@
        ||| name == "target_bytes"@
        ||| name == "unused_after"@
        ||| name == "sweep_every"@
        ||| name == "touch_after"@
    }

    open spec fn with_field(self, field: (Seq<char>, Option<Seq<char>>, Option<u64>)) -> Option<Self> {
        let name = field.0;
        let number = number_value(field);
        let ms = horizon_value(field);
        if name == "max_entry_bytes"@ {
            if number is Some { Some(Limits { max_entry_bytes: number.unwrap(), ..self }) } else { None }
        } else if name == "hard_entries"@ {
            if number is Some { Some(Limits { hard_entries: number.unwrap(), ..self }) } else { None }
        } else if name == "hard_bytes"@ {
            if number is Some { Some(Limits { hard_bytes: number.unwrap(), ..self }) } else { None }
        } else if name == "target_entries"@ {
            if number is Some { Some(Limits { target_entries: number.unwrap(), ..self }) } else { None }
        } else if name == "target_bytes"@ {
            if number is Some { Some(Limits { target_bytes: number.unwrap(), ..self }) } else { None }
        } else if name == "unused_after"@ {
            if ms is Some { Some(Limits { unused_after_ms: ms.unwrap(), ..self }) } else { None }
        } else if name == "sweep_every"@ {
            if ms is Some { Some(Limits { sweep_every_ms: ms.unwrap(), ..self }) } else { None }
        } else if name == "touch_after"@ {
            if ms is Some { Some(Limits { touch_after_ms: ms.unwrap(), ..self }) } else { None }
        } else {
            None
        }
    }

    fn set(&mut self, field: &Field) -> (result: Result<(), ConfigError>) {
        let name = field.name.as_str();
        if same_text(name, "max_entry_bytes") || same_text(name, "hard_entries") || same_text(
            name,
            "hard_bytes",
        ) || same_text(name, "target_entries") || same_text(name, "target_bytes") {
            let n = match field.number {
                Some(n) => n,
                None => return Err(ConfigError::InvalidValue(field.name.clone())),
            };
            if same_text(name, "max_entry_bytes") {
                self.max_entry_bytes = n;
            } else if same_text(name, "hard_entries") {
                self.hard_entries = n;
            } else if same_text(name, "hard_bytes") {
                self.hard_bytes = n;
            } else if same_text(name, "target_entries") {
                self.target_entries = n;
            } else {
                self.target_bytes = n;
            }
            Ok(())
        } else if same_text(name, "unused_after") || same_text(name, "sweep_every") || same_text(
            name,
            "touch_after",
        ) {
            let ms = match horizon_of(field) {
                Some(ms) => ms,
                None => return Err(ConfigError::InvalidValue(field.name.clone())),
            };
            if same_text(name, "unused_after") {
                self.unused_after_ms = ms;
            } else if same_text(name, "sweep_every") {
                self.sweep_every_ms = ms;
            } else {
                self.touch_after_ms = ms;
            }
            Ok(())
        } else {
            Err(ConfigError::UnknownField(field.name.clone()))
        }
    }
}

impl Limits {
    /// The limits a JSON config sets, each field it leaves out at its
    /// default.
    pub fn from_config(text: &str) -> (result: Result<Limits, ConfigError>)
        ensures
            match result {
                Ok(limits) => read_config(default_limits(), text@) == Some(
                    Ok::<Limits, Seq<char>>(limits),
                ),
                Err(ConfigError::NotAnObject) => read_config(default_limits(), text@) is None,
                Err(ConfigError::UnknownField(name)) => read_config(default_limits(), text@)
                    == Some(Err::<Limits, Seq<char>>(name@)) && !Limits::knows(name@),
                Err(ConfigError::InvalidValue(name)) => read_config(default_limits(), text@)
                    == Some(Err::<Limits, Seq<char>>(name@)) && Limits::knows(name@),
            },
    {
        from_config(Limits::default(), text)
    }
}

} // verus!
