//! When a secret leaves memory, and the table that holds secrets by name.
//!
//! A secret expires when nobody read it for its idle lifetime, or when its
//! maximum age has passed since it was stored, however often it is read. A
//! bound of `0` is turned off.

use vstd::prelude::*;
use crate::cache::{same_text, saturating_sub};
use crate::config::{duration_of, duration_value, from_config, read_config, ConfigError, Field, Settings};

verus! {

/// When a secret leaves memory, durations in milliseconds; `0` turns a bound
/// off.
#[derive(Clone, Copy, Debug, PartialEq, Eq, Structural)]
pub struct SecretLimits {
    /// Drop a secret nobody read for this long. 10 minutes.
    pub idle_ms: u64,
    /// Drop a secret this long after it was stored, however often it is read.
    /// 2 hours.
    pub max_age_ms: u64,
    /// How often the store looks for expired secrets that nobody reads. 1
    /// minute.
    pub sweep_every_ms: u64,
}

pub open spec fn default_secret_limits() -> SecretLimits {
    SecretLimits { idle_ms: 600_000, max_age_ms: 7_200_000, sweep_every_ms: 60_000 }
}

impl Default for SecretLimits {
    fn default() -> (limits: Self)
        ensures
            limits == default_secret_limits(),
    {
        SecretLimits { idle_ms: 600_000, max_age_ms: 7_200_000, sweep_every_ms: 60_000 }
    }
}

impl Settings for SecretLimits {
    open spec fn knows(name: Seq<char>) -> bool {
        name == "idle"@ || name == "max_age"@ || name == "sweep_every"@
    }

    open spec fn with_field(self, field: (Seq<char>, Option<Seq<char>>, Option<u64>)) -> Option<Self> {
        if field.0 == "idle"@ {
            match duration_value(field) {
                Some(ms) => Some(SecretLimits { idle_ms: ms, ..self }),
                None => None,
            }
        } else if field.0 == "max_age"@ {
            match duration_value(field) {
                Some(ms) => Some(SecretLimits { max_age_ms: ms, ..self }),
                None => None,
            }
        } else if field.0 == "sweep_every"@ {
            match duration_value(field) {
                Some(ms) => Some(SecretLimits { sweep_every_ms: ms, ..self }),
                None => None,
            }
        } else {
            None
        }
    }

    fn set(&mut self, field: &Field) -> (result: Result<(), ConfigError>) {
        let name = field.name.as_str();
        if same_text(name, "idle") {
            match duration_of(field) {
                Some(ms) => {
                    self.idle_ms = ms;
                    Ok(())
                },
                None => Err(ConfigError::InvalidValue(field.name.clone())),
            }
        } else if same_text(name, "max_age") {
            match duration_of(field) {
                Some(ms) => {
                    self.max_age_ms = ms;
                    Ok(())
                },
                None => Err(ConfigError::InvalidValue(field.name.clone())),
            }
        } else if same_text(name, "sweep_every") {
            match duration_of(field) {
                Some(ms) => {
                    self.sweep_every_ms = ms;
                    Ok(())
                },
                None => Err(ConfigError::InvalidValue(field.name.clone())),
            }
        } else {
            Err(ConfigError::UnknownField(field.name.clone()))
        }
    }
}

impl SecretLimits {
    /// The limits a JSON config sets, each field it leaves out at its
    /// default.
    pub fn from_config(text: &str) -> (result: Result<SecretLimits, ConfigError>)
        ensures
            match result {
                Ok(limits) => read_config(default_secret_limits(), text@) == Some(
                    Ok::<SecretLimits, Seq<char>>(limits),
                ),
                Err(ConfigError::NotAnObject) => read_config(default_secret_limits(), text@) is None,
                Err(ConfigError::UnknownField(name)) => read_config(default_secret_limits(), text@)
                    == Some(Err::<SecretLimits, Seq<char>>(name@)) && !SecretLimits::knows(name@),
                Err(ConfigError::InvalidValue(name)) => read_config(default_secret_limits(), text@)
                    == Some(Err::<SecretLimits, Seq<char>>(name@)) && SecretLimits::knows(name@),
            },
    {
        from_config(SecretLimits::default(), text)
    }
}

/// When one secret was stored and last read, and its two bounds, in
/// milliseconds.
#[derive(Clone, Copy, Debug, PartialEq, Eq, Structural)]
pub struct Lifetime {
    pub stored_ms: u64,
    pub read_ms: u64,
    pub idle_ms: u64,
    pub max_age_ms: u64,
}

/// At least `bound` has passed since `since`, and the bound is on.
pub open spec fn past(now: u64, since: u64, bound: u64) -> bool {
    bound != 0 && saturating_sub(now, since) >= bound
}

impl Lifetime {
    pub open spec fn is_expired(&self, now: u64) -> bool {
        past(now, self.read_ms, self.idle_ms) || past(now, self.stored_ms, self.max_age_ms)
    }

    /// A secret stored at `now` with these bounds.
    pub fn new(now: u64, idle_ms: u64, max_age_ms: u64) -> (lifetime: Lifetime)
        ensures
            lifetime == (Lifetime { stored_ms: now, read_ms: now, idle_ms, max_age_ms }),
    {
        Lifetime { stored_ms: now, read_ms: now, idle_ms, max_age_ms }
    }

    /// Whether the secret has expired at `now`.
    pub fn expired(&self, now: u64) -> (gone: bool)
        ensures
            gone == self.is_expired(now),
    {
        (self.idle_ms != 0 && now.saturating_sub(self.read_ms) >= self.idle_ms) || (
        self.max_age_ms != 0 && now.saturating_sub(self.stored_ms) >= self.max_age_ms)
    }
}


/// Names occur once.
pub open spec fn distinct_names<V>(entries: Seq<(Seq<char>, V, Lifetime)>) -> bool {
    forall|i: int, j: int| 0 <= i < j < entries.len() ==> entries[i].0 != entries[j].0
}

pub open spec fn slot_of<V>(entries: Seq<(Seq<char>, V, Lifetime)>, name: Seq<char>) -> int {
    choose|i: int| 0 <= i < entries.len() && entries[i].0 == name
}

/// The entries as a map from name to value and lifetime.
pub open spec fn table_map<V>(entries: Seq<(Seq<char>, V, Lifetime)>) -> Map<Seq<char>, (V, Lifetime)> {
    Map::new(
        |name: Seq<char>| exists|i: int| 0 <= i < entries.len() && entries[i].0 == name,
        |name: Seq<char>| (entries[slot_of(entries, name)].1, entries[slot_of(entries, name)].2),
    )
}

proof fn lemma_table_map_at<V>(entries: Seq<(Seq<char>, V, Lifetime)>, i: int)
    requires
        distinct_names(entries),
        0 <= i < entries.len(),
    ensures
        table_map(entries).contains_key(entries[i].0),
        table_map(entries)[entries[i].0] == (entries[i].1, entries[i].2),
{
    let name = entries[i].0;
    assert(exists|k: int| 0 <= k < entries.len() && entries[k].0 == name);
    let k = slot_of(entries, name);
    assert(k == i);
}

proof fn lemma_table_map_remove<V>(entries: Seq<(Seq<char>, V, Lifetime)>, i: int)
    requires
        distinct_names(entries),
        0 <= i < entries.len(),
    ensures
        distinct_names(entries.remove(i)),
        table_map(entries.remove(i)) == table_map(entries).remove(entries[i].0),
{
    let shorter = entries.remove(i);
    assert forall|a: int, b: int| 0 <= a < b < shorter.len() implies shorter[a].0
        != shorter[b].0 by {
        let a2 = if a < i { a } else { a + 1 };
        let b2 = if b < i { b } else { b + 1 };
        assert(shorter[a] == entries[a2]);
        assert(shorter[b] == entries[b2]);
    }
    assert forall|n: Seq<char>|
        table_map(shorter).contains_key(n) <==> table_map(entries).remove(
            entries[i].0,
        ).contains_key(n) by {
        if table_map(shorter).contains_key(n) {
            let k = slot_of(shorter, n);
            let k2 = if k < i { k } else { k + 1 };
            assert(entries[k2].0 == n);
        }
        if table_map(entries).remove(entries[i].0).contains_key(n) {
            let k = slot_of(entries, n);
            assert(k != i);
            let k2 = if k < i { k } else { k - 1 };
            assert(shorter[k2].0 == n);
        }
    }
    assert forall|n: Seq<char>| #[trigger]
        table_map(shorter).contains_key(n) implies table_map(shorter)[n] == table_map(entries)[n] by {
        let k = slot_of(shorter, n);
        let k2 = if k < i { k } else { k + 1 };
        lemma_table_map_at(shorter, k);
        lemma_table_map_at(entries, k2);
    }
    assert(table_map(shorter) =~= table_map(entries).remove(entries[i].0));
}

proof fn lemma_table_map_push<V>(entries: Seq<(Seq<char>, V, Lifetime)>, entry: (Seq<char>, V, Lifetime))
    requires
        distinct_names(entries),
        !table_map(entries).contains_key(entry.0),
    ensures
        distinct_names(entries.push(entry)),
        table_map(entries.push(entry)) == table_map(entries).insert(entry.0, (entry.1, entry.2)),
{
    let longer = entries.push(entry);
    assert forall|k: int| 0 <= k < entries.len() implies entries[k].0 != entry.0 by {
        if entries[k].0 == entry.0 {
            assert(table_map(entries).contains_key(entry.0));
        }
    }
    assert forall|a: int, b: int| 0 <= a < b < longer.len() implies longer[a].0 != longer[b].0 by {
        if b == entries.len() {
            assert(longer[a] == entries[a]);
        } else {
            assert(longer[a] == entries[a]);
            assert(longer[b] == entries[b]);
        }
    }
    assert forall|n: Seq<char>|
        table_map(longer).contains_key(n) <==> table_map(entries).insert(
            entry.0,
            (entry.1, entry.2),
        ).contains_key(n) by {
        if table_map(longer).contains_key(n) {
            let k = slot_of(longer, n);
            if k < entries.len() {
                assert(entries[k].0 == n);
            }
        }
        if table_map(entries).contains_key(n) {
            let k = slot_of(entries, n);
            assert(longer[k].0 == n);
        }
        if n == entry.0 {
            assert(longer[entries.len() as int].0 == n);
        }
    }
    assert forall|n: Seq<char>| #[trigger]
        table_map(longer).contains_key(n) implies table_map(longer)[n] == table_map(entries).insert(
        entry.0,
        (entry.1, entry.2),
    )[n] by {
        let k = slot_of(longer, n);
        lemma_table_map_at(longer, k);
        if k < entries.len() {
            assert(longer[k] == entries[k]);
            lemma_table_map_at(entries, k);
        }
    }
    assert(table_map(longer) =~= table_map(entries).insert(entry.0, (entry.1, entry.2)));
}

/// With each name once, the map holds as many secrets as the list.
proof fn lemma_table_map_len<V>(entries: Seq<(Seq<char>, V, Lifetime)>)
    requires
        distinct_names(entries),
    ensures
        table_map(entries).dom().finite(),
        table_map(entries).len() == entries.len(),
    decreases entries.len(),
{
    if entries.len() == 0 {
        assert(table_map(entries) =~= Map::<Seq<char>, (V, Lifetime)>::empty());
    } else {
        let prefix = entries.drop_last();
        let last = entries.last();
        assert(distinct_names(prefix));
        lemma_table_map_len(prefix);
        if table_map(prefix).contains_key(last.0) {
            let k = slot_of(prefix, last.0);
            assert(entries[k].0 == entries[entries.len() - 1].0);
        }
        lemma_table_map_push(prefix, last);
        assert(prefix.push(last) =~= entries);
    }
}

/// The held secrets in the order they were stored, each name once.
struct Entries<V> {
    entries: Vec<(String, V, Lifetime)>,
}

pub open spec fn entry_view<V>(e: (String, V, Lifetime)) -> (Seq<char>, V, Lifetime) {
    (e.0@, e.1, e.2)
}

impl<V> Entries<V> {
    spec fn entries_view(&self) -> Seq<(Seq<char>, V, Lifetime)> {
        self.entries@.map_values(|e: (String, V, Lifetime)| entry_view(e))
    }

    /// The secrets held, by name.
    spec fn view(&self) -> Map<Seq<char>, (V, Lifetime)> {
        table_map(self.entries_view())
    }

    /// Each name is held once.
    spec fn wf(&self) -> bool {
        distinct_names(self.entries_view())
    }

    /// A table with no secret.
    fn new() -> (table: Entries<V>)
        ensures
            table.wf(),
            table.view() == Map::<Seq<char>, (V, Lifetime)>::empty(),
    {
        let entries: Vec<(String, V, Lifetime)> = Vec::new();
        let table = Entries { entries };
        assert(table.entries_view() =~= Seq::<(Seq<char>, V, Lifetime)>::empty());
        assert(table.view() =~= Map::<Seq<char>, (V, Lifetime)>::empty());
        table
    }

    /// Where the secret called `name` is held.
    fn find(&self, name: &str) -> (slot: Option<usize>)
        requires
            self.wf(),
        ensures
            match slot {
                Some(i) => i < self.entries_view().len() && self.entries_view()[i as int].0 == name@,
                None => !self.view().contains_key(name@),
            },
    {
        let ghost view = self.entries_view();
        let mut i: usize = 0;
        while i < self.entries.len()
            invariant
                i <= self.entries.len(),
                view == self.entries_view(),
                forall|k: int| 0 <= k < i ==> view[k].0 != name@,
            decreases self.entries.len() - i,
        {
            assert(view[i as int] == entry_view(self.entries@[i as int]));
            if same_text(self.entries[i].0.as_str(), name) {
                return Some(i);
            }
            i = i + 1;
        }
        proof {
            if self.view().contains_key(name@) {
                let k = slot_of(view, name@);
            }
        }
        None
    }

    /// Holds `value` under `name` with `lifetime`, dropping any secret
    /// already there.
    fn put(&mut self, name: String, value: V, lifetime: Lifetime)
        requires
            old(self).wf(),
        ensures
            final(self).wf(),
            final(self).view() == old(self).view().insert(name@, (value, lifetime)),
    {
        let ghost start = self.view();
        if let Some(i) = self.find(name.as_str()) {
            let ghost before = self.entries_view();
            proof {
                lemma_table_map_remove(before, i as int);
            }
            let _replaced = self.entries.remove(i);
            assert(self.entries_view() =~= before.remove(i as int));
        }
        let ghost middle = self.entries_view();
        assert(table_map(middle) == start.remove(name@));
        proof {
            lemma_table_map_push(middle, (name@, value, lifetime));
        }
        self.entries.push((name, value, lifetime));
        assert(self.entries_view() =~= middle.push((name@, value, lifetime)));
        assert(self.view() =~= start.insert(name@, (value, lifetime)));
    }

    /// Records a read of `name` at `now`: `true` when the secret is held and
    /// unexpired, and its idle lifetime restarts; an expired secret is
    /// dropped, and a read of it is `false`.
    fn read(&mut self, name: &str, now: u64) -> (found: bool)
        requires
            old(self).wf(),
        ensures
            final(self).wf(),
            !old(self).view().contains_key(name@) ==> !found && final(self).view() == old(self).view(),
            old(self).view().contains_key(name@) && old(self).view()[name@].1.is_expired(now) ==> !found
                && final(self).view() == old(self).view().remove(name@),
            old(self).view().contains_key(name@) && !old(self).view()[name@].1.is_expired(now) ==> found
                && final(self).view() == old(self).view().insert(
                name@,
                (old(self).view()[name@].0, Lifetime { read_ms: now, ..old(self).view()[name@].1 }),
            ),
    {
        let ghost start = self.view();
        match self.find(name) {
            None => false,
            Some(i) => {
                let ghost before = self.entries_view();
                proof {
                    lemma_table_map_at(before, i as int);
                    lemma_table_map_remove(before, i as int);
                }
                let (key, value, lifetime) = self.entries.remove(i);
                assert(self.entries_view() =~= before.remove(i as int));
                if lifetime.expired(now) {
                    false
                } else {
                    let renewed = Lifetime { read_ms: now, ..lifetime };
                    let ghost middle = self.entries_view();
                    proof {
                        lemma_table_map_push(middle, (key@, value, renewed));
                    }
                    self.entries.push((key, value, renewed));
                    assert(self.entries_view() =~= middle.push((name@, value, renewed)));
                    assert(self.view() =~= start.insert(name@, (start[name@].0, renewed)));
                    true
                }
            },
        }
    }

    /// The value held under `name`.
    fn value(&self, name: &str) -> (value: Option<&V>)
        requires
            self.wf(),
        ensures
            match value {
                Some(v) => self.view().contains_key(name@) && self.view()[name@].0 == *v,
                None => !self.view().contains_key(name@),
            },
    {
        match self.find(name) {
            Some(i) => {
                proof {
                    lemma_table_map_at(self.entries_view(), i as int);
                }
                Some(&self.entries[i].1)
            },
            None => None,
        }
    }

    /// Drops the secret under `name`.
    fn remove(&mut self, name: &str)
        requires
            old(self).wf(),
        ensures
            final(self).wf(),
            final(self).view() == old(self).view().remove(name@),
    {
        let ghost start = self.view();
        match self.find(name) {
            None => {
                assert(start.remove(name@) =~= start);
            },
            Some(i) => {
                let ghost before = self.entries_view();
                proof {
                    lemma_table_map_remove(before, i as int);
                }
                let _removed = self.entries.remove(i);
                assert(self.entries_view() =~= before.remove(i as int));
            },
        }
    }

    /// Drops every secret.
    fn clear(&mut self)
        requires
            old(self).wf(),
        ensures
            final(self).wf(),
            final(self).view() == Map::<Seq<char>, (V, Lifetime)>::empty(),
    {
        self.entries.clear();
        assert(self.entries_view() =~= Seq::<(Seq<char>, V, Lifetime)>::empty());
        assert(self.view() =~= Map::<Seq<char>, (V, Lifetime)>::empty());
    }

    /// Drops every secret that has expired at `now`, and keeps the rest as
    /// they are.
    fn sweep(&mut self, now: u64)
        requires
            old(self).wf(),
        ensures
            final(self).wf(),
            forall|name: Seq<char>| #[trigger]
                final(self).view().contains_key(name) <==> old(self).view().contains_key(name)
                    && !old(self).view()[name].1.is_expired(now),
            forall|name: Seq<char>| #[trigger]
                final(self).view().contains_key(name) ==> final(self).view()[name] == old(
                    self,
                ).view()[name],
    {
        let ghost start = self.view();
        let mut i: usize = 0;
        while i < self.entries.len()
            invariant
                i <= self.entries.len(),
                distinct_names(self.entries_view()),
                forall|k: int| 0 <= k < i ==> !(#[trigger] self.entries_view()[k]).2.is_expired(now),
                forall|n: Seq<char>| #[trigger]
                    self.view().contains_key(n) ==> start.contains_key(n) && self.view()[n] == start[n],
                forall|n: Seq<char>| #[trigger]
                    start.contains_key(n) && !start[n].1.is_expired(now) ==> self.view().contains_key(n),
            decreases self.entries.len() - i,
        {
            let ghost before = self.entries_view();
            assert(before[i as int] == entry_view(self.entries@[i as int]));
            if self.entries[i].2.expired(now) {
                proof {
                    lemma_table_map_at(before, i as int);
                    lemma_table_map_remove(before, i as int);
                }
                let ghost vbefore = self.view();
                let _removed = self.entries.remove(i);
                assert(self.entries_view() =~= before.remove(i as int));
                assert(self.view() == vbefore.remove(before[i as int].0));
                assert forall|n: Seq<char>| #[trigger] self.view().contains_key(n) implies start.contains_key(n)
                    && self.view()[n] == start[n] by {
                    assert(vbefore.contains_key(n));
                }
                assert forall|k: int| 0 <= k < i implies !(#[trigger] self.entries_view()[k]).2.is_expired(now) by {
                    assert(self.entries_view()[k] == before[k]);
                }
            } else {
                i = i + 1;
            }
        }
        assert forall|name: Seq<char>| #[trigger] self.view().contains_key(name) implies !start[name].1.is_expired(now) by {
            let k = slot_of(self.entries_view(), name);
            lemma_table_map_at(self.entries_view(), k);
        }
    }

    /// How many secrets are held.
    fn len(&self) -> (count: usize)
        requires
            self.wf(),
        ensures
            count == self.view().len(),
    {
        proof {
            lemma_table_map_len(self.entries_view());
        }
        self.entries.len()
    }
}


/// Secrets by name, each with its lifetime. Replacing or removing a secret
/// drops its value.
pub struct SecretTable<V> {
    held: Entries<V>,
}

impl<V> SecretTable<V> {
    #[verifier::type_invariant]
    closed spec fn each_name_once(&self) -> bool {
        self.held.wf()
    }

    /// The secrets held, by name.
    pub closed spec fn view(&self) -> Map<Seq<char>, (V, Lifetime)> {
        self.held.view()
    }

    /// A table with no secret.
    pub fn new() -> (table: SecretTable<V>)
        ensures
            table.view() == Map::<Seq<char>, (V, Lifetime)>::empty(),
    {
        SecretTable { held: Entries::new() }
    }

    /// Holds `value` under `name` with `lifetime`, dropping any secret
    /// already there.
    pub fn put(&mut self, name: String, value: V, lifetime: Lifetime)
        ensures
            final(self).view() == old(self).view().insert(name@, (value, lifetime)),
    {
        proof {
            use_type_invariant(&*self);
        }
        let mut held = Entries::new();
        std::mem::swap(&mut held, &mut self.held);
        held.put(name, value, lifetime);
        self.held = held;
    }

    /// Records a read of `name` at `now`: `true` when the secret is held and
    /// unexpired, and its idle lifetime restarts; an expired secret is
    /// dropped, and a read of it is `false`.
    pub fn read(&mut self, name: &str, now: u64) -> (found: bool)
        ensures
            !old(self).view().contains_key(name@) ==> !found && final(self).view() == old(self).view(),
            old(self).view().contains_key(name@) && old(self).view()[name@].1.is_expired(now) ==> !found
                && final(self).view() == old(self).view().remove(name@),
            old(self).view().contains_key(name@) && !old(self).view()[name@].1.is_expired(now) ==> found
                && final(self).view() == old(self).view().insert(
                name@,
                (old(self).view()[name@].0, Lifetime { read_ms: now, ..old(self).view()[name@].1 }),
            ),
    {
        proof {
            use_type_invariant(&*self);
        }
        let mut held = Entries::new();
        std::mem::swap(&mut held, &mut self.held);
        let found = held.read(name, now);
        self.held = held;
        found
    }

    /// The value held under `name`.
    pub fn value(&self, name: &str) -> (value: Option<&V>)
        ensures
            match value {
                Some(v) => self.view().contains_key(name@) && self.view()[name@].0 == *v,
                None => !self.view().contains_key(name@),
            },
    {
        proof {
            use_type_invariant(self);
        }
        self.held.value(name)
    }

    /// Drops the secret under `name`.
    pub fn remove(&mut self, name: &str)
        ensures
            final(self).view() == old(self).view().remove(name@),
    {
        proof {
            use_type_invariant(&*self);
        }
        let mut held = Entries::new();
        std::mem::swap(&mut held, &mut self.held);
        held.remove(name);
        self.held = held;
    }

    /// Drops every secret.
    pub fn clear(&mut self)
        ensures
            final(self).view() == Map::<Seq<char>, (V, Lifetime)>::empty(),
    {
        self.held = Entries::new();
    }

    /// Drops every secret that has expired at `now`, and keeps the rest as
    /// they are.
    pub fn sweep(&mut self, now: u64)
        ensures
            forall|name: Seq<char>| #[trigger]
                final(self).view().contains_key(name) <==> old(self).view().contains_key(name)
                    && !old(self).view()[name].1.is_expired(now),
            forall|name: Seq<char>| #[trigger]
                final(self).view().contains_key(name) ==> final(self).view()[name] == old(
                    self,
                ).view()[name],
    {
        proof {
            use_type_invariant(&*self);
        }
        let mut held = Entries::new();
        std::mem::swap(&mut held, &mut self.held);
        held.sweep(now);
        self.held = held;
    }

    /// How many secrets are held.
    pub fn len(&self) -> (count: usize)
        ensures
            count == self.view().len(),
    {
        proof {
            use_type_invariant(self);
        }
        self.held.len()
    }
}

} // verus!
