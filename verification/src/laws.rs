//! What holds of the library as a whole, across its functions.

use vstd::prelude::*;
use crate::cache::{
    lookup_of, saturating_add, saturating_sub, targets_of, used_before, verdict_of, Header, Limits,
    Lookup, Verdict,
};
use crate::client::{first_newline, lemma_first_newline};
use crate::config::{apply_fields, Settings};
use crate::key::{key_digest, FORMAT};
use crate::cache::{bytes_of, Pruning};
use crate::policy::{transient, Failure};
use crate::naming::{boundary, fold_char, is_forbidden, normalized, normalized_prefix};
use crate::install::label_of;
use crate::cache::default_limits;
use crate::config::{duration_value, horizon_value};
use crate::limits::{default_transport_limits, Limits as TransportLimits};
use crate::serve::{default_lifecycle, Lifecycle};
use crate::secrets::{default_secret_limits, SecretLimits};
use crate::text::{decimal_of, digit_char};
use crate::policy::Policy;
use crate::secrets::Lifetime;

verus! {

/// What a read gives back of a write: an entry written at `stored_at_ms`
/// under `policy`, for `key`, by a cache of the same schema, reads as fresh
/// until its fresh horizon, then as stale until its stale horizon, and is a
/// miss after that, when it goes under the key's lock.
pub proof fn law_fresh_then_stale_then_miss<T>(
    schema: u32,
    namespace: Seq<char>,
    digest: Seq<char>,
    header: Header,
    policy: Policy,
    stored_at_ms: u64,
    value: T,
    now: u64,
)
    requires
        header.format == FORMAT,
        header.schema == schema,
        header.namespace@ == namespace,
        header.digest@ == digest,
        header.stored_at_ms == stored_at_ms,
        header.fresh_until_ms == saturating_add(stored_at_ms, policy.fresh_ms),
        header.stale_until_ms == saturating_add(
            saturating_add(stored_at_ms, policy.fresh_ms),
            policy.stale_if_error_ms,
        ),
        header.source == policy.source,
    ensures
        now <= header.stale_until_ms ==> verdict_of(schema, namespace, digest, Some(header), now)
            == Verdict::Decode,
        now > header.stale_until_ms ==> verdict_of(schema, namespace, digest, Some(header), now)
            == Verdict::Discard,
        now <= header.fresh_until_ms ==> lookup_of(schema, header, value, now) is Fresh,
        header.fresh_until_ms < now ==> lookup_of(schema, header, value, now) is Stale,
        stored_at_ms <= now ==> match lookup_of(schema, header, value, now) {
            Lookup::Fresh(c) | Lookup::Stale(c) => c.age_ms == now - stored_at_ms
                && c.stored_at_ms == stored_at_ms && c.source == policy.source,
            Lookup::Miss => false,
        },
        header.fresh_until_ms == stored_at_ms + policy.fresh_ms || header.fresh_until_ms
            == u64::MAX,
{
}

/// Raising the schema: an entry from a lower schema is served only as stale,
/// and one from a higher schema is a miss that stays on disk.
pub proof fn law_schema_versions<T>(
    schema: u32,
    namespace: Seq<char>,
    digest: Seq<char>,
    header: Header,
    value: T,
    now: u64,
)
    ensures
        header.schema > schema ==> verdict_of(schema, namespace, digest, Some(header), now)
            == Verdict::Ignore,
        header.schema < schema ==> lookup_of(schema, header, value, now) is Stale,
{
}

/// A target above its hard cap acts as the hard cap, and a target below it
/// is kept.
pub proof fn law_targets_within_caps(limits: Limits)
    ensures
        targets_of(limits).0 <= limits.hard_entries,
        targets_of(limits).1 <= limits.hard_bytes,
        targets_of(limits).0 <= limits.target_entries,
        targets_of(limits).1 <= limits.target_bytes,
        limits.target_entries <= limits.hard_entries ==> targets_of(limits).0
            == limits.target_entries,
        limits.target_bytes <= limits.hard_bytes ==> targets_of(limits).1 == limits.target_bytes,
{
}

/// A capacity pass removes the least recently used entries first: when it
/// has just taken the entry at `first`, used no later than any kept entry,
/// the entry it takes next, wherever it stands among those left, was not
/// used before it.
pub proof fn law_victims_come_oldest_first(
    kept: Seq<(u64, Seq<char>, u64)>,
    first: int,
    second: int,
)
    requires
        0 <= first < kept.len(),
        forall|j: int| 0 <= j < kept.len() ==> !used_before(#[trigger] kept[j], kept[first]),
        0 <= second < kept.len() - 1,
    ensures
        !used_before(kept.remove(first)[second], kept[first]),
{
    let at = if second < first { second } else { second + 1 };
    assert(kept.remove(first)[second] == kept[at]);
}

/// Two keys are equal when their namespaces and parts are equal, whatever
/// order the parts were added in: the digest depends on the namespace and
/// the map of parts alone, and adding two different names in either order
/// gives the same map.
pub proof fn law_part_order_does_not_change_the_key(
    namespace: Seq<char>,
    parts: Map<Seq<char>, Seq<char>>,
    first: (Seq<char>, Seq<char>),
    second: (Seq<char>, Seq<char>),
)
    requires
        first.0 != second.0,
    ensures
        parts.insert(first.0, first.1).insert(second.0, second.1) == parts.insert(
            second.0,
            second.1,
        ).insert(first.0, first.1),
        key_digest(namespace, parts.insert(first.0, first.1).insert(second.0, second.1))
            == key_digest(namespace, parts.insert(second.0, second.1).insert(first.0, first.1)),
{
    assert(parts.insert(first.0, first.1).insert(second.0, second.1) =~= parts.insert(
        second.0,
        second.1,
    ).insert(first.0, first.1));
}

/// A secret read as often as one likes still expires at its maximum age,
/// and one nobody reads expires after its idle lifetime.
pub proof fn law_secret_bounds(lifetime: Lifetime, now: u64)
    ensures
        lifetime.max_age_ms != 0 && saturating_sub(now, lifetime.stored_ms) >= lifetime.max_age_ms
            ==> lifetime.is_expired(now),
        lifetime.idle_ms != 0 && saturating_sub(now, lifetime.read_ms) >= lifetime.idle_ms
            ==> lifetime.is_expired(now),
        forall|read_ms: u64|
            lifetime.max_age_ms != 0 && saturating_sub(now, lifetime.stored_ms)
                >= lifetime.max_age_ms ==> #[trigger] (Lifetime { read_ms, ..lifetime }).is_expired(
                now,
            ),
{
}

/// A secret whose two bounds are `0` stays, however long it goes unread.
pub proof fn law_unbounded_secret_stays(lifetime: Lifetime, now: u64)
    requires
        lifetime.idle_ms == 0,
        lifetime.max_age_ms == 0,
    ensures
        !lifetime.is_expired(now),
{
}

/// A read restarts the idle lifetime: a secret read at `read_ms` stays
/// until its idle lifetime has passed again since that read, unless its
/// maximum age comes first.
pub proof fn law_read_restarts_idle(lifetime: Lifetime, read_ms: u64, now: u64)
    requires
        read_ms <= now,
        lifetime.idle_ms == 0 || now - read_ms < lifetime.idle_ms,
        lifetime.max_age_ms == 0 || saturating_sub(now, lifetime.stored_ms) < lifetime.max_age_ms,
    ensures
        !(Lifetime { read_ms, ..lifetime }).is_expired(now),
{
}

/// What a read gives back of a put: right after a secret is put under
/// `name`, the table holds it under that name with its value and lifetime,
/// in place of whatever was there, and every other name keeps what it held.
pub proof fn law_put_then_read<V>(
    held: Map<Seq<char>, (V, Lifetime)>,
    name: Seq<char>,
    value: V,
    lifetime: Lifetime,
    other: Seq<char>,
)
    requires
        other != name,
    ensures
        held.insert(name, (value, lifetime)).contains_key(name),
        held.insert(name, (value, lifetime))[name] == (value, lifetime),
        held.insert(name, (value, lifetime)).contains_key(other) == held.contains_key(other),
        held.contains_key(other) ==> held.insert(name, (value, lifetime))[other] == held[other],
        !held.remove(name).contains_key(name),
{
}

/// An unknown field is an error, wherever it stands in the config.
pub proof fn law_unknown_field_is_an_error<S: Settings>(
    start: S,
    fields: Seq<(Seq<char>, Option<Seq<char>>, Option<u64>)>,
    k: int,
)
    requires
        0 <= k < fields.len(),
        !S::knows(fields[k].0),
    ensures
        apply_fields(start, fields) is Err,
    decreases fields.len(),
{
    if k < fields.len() - 1 {
        law_unknown_field_is_an_error(start, fields.drop_last(), k);
    }
}

/// A config with no field keeps every default.
pub proof fn law_empty_config_keeps_defaults<S: Settings>(start: S)
    ensures
        apply_fields(start, Seq::empty()) == Ok::<S, Seq<char>>(start),
{
}

/// A reply frame the client accepts, with its newline, fits the cap: the
/// first newline of the bytes read lies before the cap.
pub proof fn law_reply_frame_fits(before: Seq<u8>, chunk: Seq<u8>, max: usize)
    requires
        first_newline(chunk, 0) is Some,
        before.len() + first_newline(chunk, 0).unwrap() < max,
    ensures
        (before + chunk).take(before.len() + first_newline(chunk, 0).unwrap()).len() + 1 <= max,
{
    let i = choose|i: int| 0 <= i < chunk.len() && chunk[i] == 10u8;
    lemma_first_newline(chunk, 0, i);
}

/// A capacity pass is over only when it may be: on a prune that began over
/// a hard cap with kept entries left, the pass goes on while the entries
/// left exceed either the entry target or the entry cap, or the bytes left
/// exceed either the byte target or the byte cap; and it stops once both
/// counts are within both their target and their cap.
pub proof fn law_capacity_pass_runs_until_both_targets_hold(pruning: Pruning)
    ensures
        pruning.over_cap_view() && pruning.kept_list().len() > 0 && (pruning.left_view().entries
            > pruning.limits_view().target_entries || pruning.left_view().entries
            > pruning.limits_view().hard_entries || pruning.left_view().bytes
            > pruning.limits_view().target_bytes || pruning.left_view().bytes
            > pruning.limits_view().hard_bytes) ==> !pruning.capacity_done(),
        pruning.left_view().entries <= pruning.limits_view().target_entries
            && pruning.left_view().entries <= pruning.limits_view().hard_entries
            && pruning.left_view().bytes <= pruning.limits_view().target_bytes
            && pruning.left_view().bytes <= pruning.limits_view().hard_bytes
            ==> pruning.capacity_done(),
{
}

/// A capacity pass run to its end on a balanced prune that began over a hard
/// cap, every victim removed, leaves at most the smaller of the entry target
/// and the entry cap, and at most the smaller of the byte target and the
/// byte cap.
pub proof fn law_capacity_pass_leaves_both_targets(pruning: Pruning)
    requires
        pruning.balanced(),
        pruning.pending_view() is None,
        pruning.capacity_done(),
        pruning.over_cap_view(),
    ensures
        pruning.left_view().entries <= pruning.limits_view().target_entries,
        pruning.left_view().entries <= pruning.limits_view().hard_entries,
        pruning.left_view().bytes <= pruning.limits_view().target_bytes,
        pruning.left_view().bytes <= pruning.limits_view().hard_bytes,
{
    if pruning.kept_list().len() == 0 {
        assert(pruning.left_view().entries == 0);
        assert(bytes_of(pruning.kept_list()) == 0);
    }
}

/// Exactly these upstream failures may be answered from a stale entry: a
/// timeout, a network failure, status 429, and every status from 500 to
/// 599. Any other status, invalid JSON and a schema mismatch may not.
pub proof fn law_which_failures_serve_stale(code: u16)
    ensures
        transient(Failure::Timeout),
        transient(Failure::Network),
        !transient(Failure::InvalidJson),
        !transient(Failure::SchemaMismatch),
        500 <= code <= 599 ==> transient(Failure::Status(code)),
        code == 429 ==> transient(Failure::Status(code)),
        code != 429 && (code < 500 || code > 599) ==> !transient(Failure::Status(code)),
{
}

/// Normalizing reads `-`, ` ` and `.` as `_`: putting `_` in place of any of
/// them anywhere in a name gives the same normalized form.
pub proof fn law_separators_read_as_underscore(name: Seq<char>, i: int)
    requires
        0 <= i < name.len(),
        name[i] == '-' || name[i] == ' ' || name[i] == '.',
    ensures
        normalized(name.update(i, '_')) == normalized(name),
{
    let other = name.update(i, '_');
    lemma_same_normalized_prefix(name, other, i, name.len());
}

proof fn lemma_same_normalized_prefix(a: Seq<char>, b: Seq<char>, i: int, k: nat)
    requires
        0 <= i < a.len(),
        b == a.update(i, '_'),
        a[i] == '-' || a[i] == ' ' || a[i] == '.',
        k <= a.len(),
    ensures
        normalized_prefix(a, k) == normalized_prefix(b, k),
    decreases k,
{
    if k > 0 {
        lemma_same_normalized_prefix(a, b, i, (k - 1) as nat);
        assert(boundary(a, k - 1) == boundary(b, k - 1));
        assert(fold_char(a[k - 1]) == fold_char(b[k - 1]));
    }
}

/// A name that differs from another only by `-`, ` ` or `.` in place of `_`
/// is refused exactly when the other is: `user.password` as
/// `user_password`.
pub proof fn law_separators_do_not_hide_a_forbidden_name(name: Seq<char>, i: int)
    requires
        0 <= i < name.len(),
        name[i] == '-' || name[i] == ' ' || name[i] == '.',
    ensures
        is_forbidden(name.update(i, '_')) == is_forbidden(name),
{
    law_separators_read_as_underscore(name, i);
}

/// The value of a run of decimal digits.
pub open spec fn decimal_value(digits: Seq<char>) -> int
    decreases digits.len(),
{
    if digits.len() == 0 {
        0
    } else {
        decimal_value(digits.drop_last()) * 10 + (digits.last() as int - 48)
    }
}

/// An ASCII decimal digit.
pub open spec fn is_decimal_digit(c: char) -> bool {
    '0' <= c && c <= '9'
}

proof fn lemma_decimal_of(n: nat)
    ensures
        decimal_of(n).len() > 0,
        forall|k: int| 0 <= k < decimal_of(n).len() ==> is_decimal_digit(#[trigger] decimal_of(n)[k]),
        decimal_value(decimal_of(n)) == n,
        n > 0 ==> decimal_of(n)[0] != '0',
    decreases n,
{
    if n < 10 {
        assert((digit_char(n) as u32) == 48 + n);
        assert(decimal_of(n).drop_last() =~= Seq::<char>::empty());
        assert(decimal_of(n).last() == digit_char(n));
        assert(decimal_value(decimal_of(n)) == decimal_value(decimal_of(n).drop_last()) * 10
            + (digit_char(n) as int - 48));
    } else {
        lemma_decimal_of(n / 10);
        let d = n % 10;
        assert((digit_char(d) as u32) == 48 + d);
        let s = decimal_of(n);
        assert(s.drop_last() =~= decimal_of(n / 10));
        assert(n == (n / 10) * 10 + d) by (nonlinear_arith)
            requires
                d == n % 10,
        ;
        assert(s[0] == decimal_of(n / 10)[0]);
        assert(s.last() == digit_char(d));
        assert(decimal_value(s) == decimal_value(s.drop_last()) * 10 + (digit_char(d) as int - 48));
        assert(decimal_value(s) == (n / 10) * 10 + d);
    }
}

/// A service's label is its name, then `-v`, then its major in decimal
/// digits with no leading zero, for every major, `0` included; so the label
/// names the major, and two majors never share a label.
pub proof fn law_label_carries_the_major(name: Seq<char>, major: u16, other: u16)
    ensures
        ({
            let label = label_of(name, major);
            let digits = label.skip(name.len() + 2int);
            &&& label.len() > name.len() + 2
            &&& label.take(name.len() as int) == name
            &&& label[name.len() as int] == '-'
            &&& label[name.len() + 1int] == 'v'
            &&& forall|k: int| 0 <= k < digits.len() ==> is_decimal_digit(#[trigger] digits[k])
            &&& decimal_value(digits) == major
            &&& (digits.len() == 1 || digits[0] != '0')
        }),
        major != other ==> label_of(name, major) != label_of(name, other),
{
    reveal_strlit("-v");
    lemma_decimal_of(major as nat);
    lemma_decimal_of(other as nat);
    let label = label_of(name, major);
    assert(label.skip(name.len() + 2int) =~= decimal_of(major as nat));
    assert(label.take(name.len() as int) =~= name);
    if label_of(name, major) == label_of(name, other) {
        assert(label_of(name, other).skip(name.len() + 2int) =~= decimal_of(other as nat));
    }
}

/// One field applied over `start` gives what that field sets, or the
/// field's name as the error.
proof fn lemma_one_field<S: Settings>(start: S, field: (Seq<char>, Option<Seq<char>>, Option<u64>))
    ensures
        apply_fields(start, seq![field]) == if !S::knows(field.0) {
            Err::<S, Seq<char>>(field.0)
        } else {
            match start.with_field(field) {
                Some(next) => Ok::<S, Seq<char>>(next),
                None => Err::<S, Seq<char>>(field.0),
            }
        },
{
    let one = seq![field];
    let none = Seq::<(Seq<char>, Option<Seq<char>>, Option<u64>)>::empty();
    assert(one.drop_last() =~= none);
    assert(one.last() == field);
    assert(apply_fields(start, none) == Ok::<S, Seq<char>>(start));
    assert(apply_fields(start, one.drop_last()) == Ok::<S, Seq<char>>(start));
}

/// A cache config of one known field sets exactly the setting of that name
/// to the field's value, and keeps every other setting at its default.
pub proof fn law_one_cache_setting(words: Option<Seq<char>>, number: Option<u64>, n: u64, ms: u64)
    ensures
        number == Some(n) ==> {
            &&& apply_fields(default_limits(), seq![("max_entry_bytes"@, words, number)])
                == Ok::<Limits, Seq<char>>(Limits { max_entry_bytes: n, ..default_limits() })
            &&& apply_fields(default_limits(), seq![("hard_entries"@, words, number)])
                == Ok::<Limits, Seq<char>>(Limits { hard_entries: n, ..default_limits() })
            &&& apply_fields(default_limits(), seq![("hard_bytes"@, words, number)])
                == Ok::<Limits, Seq<char>>(Limits { hard_bytes: n, ..default_limits() })
            &&& apply_fields(default_limits(), seq![("target_entries"@, words, number)])
                == Ok::<Limits, Seq<char>>(Limits { target_entries: n, ..default_limits() })
            &&& apply_fields(default_limits(), seq![("target_bytes"@, words, number)])
                == Ok::<Limits, Seq<char>>(Limits { target_bytes: n, ..default_limits() })
        },
        horizon_value(("unused_after"@, words, number)) == Some(ms) ==> apply_fields(
            default_limits(),
            seq![("unused_after"@, words, number)],
        ) == Ok::<Limits, Seq<char>>(Limits { unused_after_ms: ms, ..default_limits() }),
        horizon_value(("sweep_every"@, words, number)) == Some(ms) ==> apply_fields(
            default_limits(),
            seq![("sweep_every"@, words, number)],
        ) == Ok::<Limits, Seq<char>>(Limits { sweep_every_ms: ms, ..default_limits() }),
        horizon_value(("touch_after"@, words, number)) == Some(ms) ==> apply_fields(
            default_limits(),
            seq![("touch_after"@, words, number)],
        ) == Ok::<Limits, Seq<char>>(Limits { touch_after_ms: ms, ..default_limits() }),
{
    reveal_strlit("max_entry_bytes");
    reveal_strlit("hard_entries");
    reveal_strlit("hard_bytes");
    reveal_strlit("target_entries");
    reveal_strlit("target_bytes");
    reveal_strlit("unused_after");
    reveal_strlit("sweep_every");
    reveal_strlit("touch_after");
    assert("max_entry_bytes"@[0] != "hard_entries"@[0]);
    assert("max_entry_bytes"@[0] != "hard_bytes"@[0]);
    assert("max_entry_bytes"@[0] != "target_entries"@[0]);
    assert("max_entry_bytes"@[0] != "target_bytes"@[0]);
    assert("max_entry_bytes"@[0] != "unused_after"@[0]);
    assert("max_entry_bytes"@[0] != "sweep_every"@[0]);
    assert("max_entry_bytes"@[0] != "touch_after"@[0]);
    assert("hard_entries"@[5] != "hard_bytes"@[5]);
    assert("hard_entries"@[0] != "target_entries"@[0]);
    assert("hard_entries"@[0] != "target_bytes"@[0]);
    assert("hard_entries"@[0] != "unused_after"@[0]);
    assert("hard_entries"@[0] != "sweep_every"@[0]);
    assert("hard_entries"@[0] != "touch_after"@[0]);
    assert("hard_bytes"@[0] != "target_entries"@[0]);
    assert("hard_bytes"@[0] != "target_bytes"@[0]);
    assert("hard_bytes"@[0] != "unused_after"@[0]);
    assert("hard_bytes"@[0] != "sweep_every"@[0]);
    assert("hard_bytes"@[0] != "touch_after"@[0]);
    assert("target_entries"@[7] != "target_bytes"@[7]);
    assert("target_entries"@[0] != "unused_after"@[0]);
    assert("target_entries"@[0] != "sweep_every"@[0]);
    assert("target_entries"@[1] != "touch_after"@[1]);
    assert("target_bytes"@[0] != "unused_after"@[0]);
    assert("target_bytes"@[0] != "sweep_every"@[0]);
    assert("target_bytes"@[1] != "touch_after"@[1]);
    assert("unused_after"@[0] != "sweep_every"@[0]);
    assert("unused_after"@[0] != "touch_after"@[0]);
    assert("sweep_every"@[0] != "touch_after"@[0]);
    lemma_one_field(default_limits(), ("max_entry_bytes"@, words, number));
    lemma_one_field(default_limits(), ("hard_entries"@, words, number));
    lemma_one_field(default_limits(), ("hard_bytes"@, words, number));
    lemma_one_field(default_limits(), ("target_entries"@, words, number));
    lemma_one_field(default_limits(), ("target_bytes"@, words, number));
    lemma_one_field(default_limits(), ("unused_after"@, words, number));
    lemma_one_field(default_limits(), ("sweep_every"@, words, number));
    lemma_one_field(default_limits(), ("touch_after"@, words, number));
}

/// A transport config of one known field sets exactly that limit.
pub proof fn law_one_transport_setting(words: Option<Seq<char>>, number: Option<u64>, n: u64, ms: u64)
    ensures
        number == Some(n) && n <= usize::MAX ==> apply_fields(
            default_transport_limits(),
            seq![("max_frame_bytes"@, words, number)],
        ) == Ok::<TransportLimits, Seq<char>>(
            TransportLimits { max_frame_bytes: n as usize, ..default_transport_limits() },
        ),
        duration_value(("read_timeout"@, words, number)) == Some(ms) ==> apply_fields(
            default_transport_limits(),
            seq![("read_timeout"@, words, number)],
        ) == Ok::<TransportLimits, Seq<char>>(
            TransportLimits { read_timeout_ms: ms, ..default_transport_limits() },
        ),
        duration_value(("write_timeout"@, words, number)) == Some(ms) ==> apply_fields(
            default_transport_limits(),
            seq![("write_timeout"@, words, number)],
        ) == Ok::<TransportLimits, Seq<char>>(
            TransportLimits { write_timeout_ms: ms, ..default_transport_limits() },
        ),
{
    reveal_strlit("max_frame_bytes");
    reveal_strlit("read_timeout");
    reveal_strlit("write_timeout");
    assert("max_frame_bytes"@[0] != "read_timeout"@[0]);
    assert("max_frame_bytes"@[0] != "write_timeout"@[0]);
    assert("read_timeout"@[0] != "write_timeout"@[0]);
    lemma_one_field(default_transport_limits(), ("max_frame_bytes"@, words, number));
    lemma_one_field(default_transport_limits(), ("read_timeout"@, words, number));
    lemma_one_field(default_transport_limits(), ("write_timeout"@, words, number));
}

/// A lifecycle config of one known field sets exactly that timeout.
pub proof fn law_one_lifecycle_setting(words: Option<Seq<char>>, number: Option<u64>, ms: u64)
    ensures
        duration_value(("idle_timeout"@, words, number)) == Some(ms) ==> apply_fields(
            default_lifecycle(),
            seq![("idle_timeout"@, words, number)],
        ) == Ok::<Lifecycle, Seq<char>>(Lifecycle { idle_timeout_ms: ms, ..default_lifecycle() }),
        duration_value(("drain_timeout"@, words, number)) == Some(ms) ==> apply_fields(
            default_lifecycle(),
            seq![("drain_timeout"@, words, number)],
        ) == Ok::<Lifecycle, Seq<char>>(Lifecycle { drain_timeout_ms: ms, ..default_lifecycle() }),
{
    reveal_strlit("idle_timeout");
    reveal_strlit("drain_timeout");
    assert("drain_timeout"@[0] != "idle_timeout"@[0]);
    lemma_one_field(default_lifecycle(), ("idle_timeout"@, words, number));
    lemma_one_field(default_lifecycle(), ("drain_timeout"@, words, number));
}

/// A secret config of one known field sets exactly that bound.
pub proof fn law_one_secret_setting(words: Option<Seq<char>>, number: Option<u64>, ms: u64)
    ensures
        duration_value(("idle"@, words, number)) == Some(ms) ==> apply_fields(
            default_secret_limits(),
            seq![("idle"@, words, number)],
        ) == Ok::<SecretLimits, Seq<char>>(SecretLimits { idle_ms: ms, ..default_secret_limits() }),
        duration_value(("max_age"@, words, number)) == Some(ms) ==> apply_fields(
            default_secret_limits(),
            seq![("max_age"@, words, number)],
        ) == Ok::<SecretLimits, Seq<char>>(
            SecretLimits { max_age_ms: ms, ..default_secret_limits() },
        ),
        duration_value(("sweep_every"@, words, number)) == Some(ms) ==> apply_fields(
            default_secret_limits(),
            seq![("sweep_every"@, words, number)],
        ) == Ok::<SecretLimits, Seq<char>>(
            SecretLimits { sweep_every_ms: ms, ..default_secret_limits() },
        ),
{
    reveal_strlit("idle");
    reveal_strlit("max_age");
    reveal_strlit("sweep_every");
    assert("idle"@[0] != "max_age"@[0]);
    assert("idle"@[0] != "sweep_every"@[0]);
    assert("max_age"@[0] != "sweep_every"@[0]);
    lemma_one_field(default_secret_limits(), ("idle"@, words, number));
    lemma_one_field(default_secret_limits(), ("max_age"@, words, number));
    lemma_one_field(default_secret_limits(), ("sweep_every"@, words, number));
}

} // verus!
