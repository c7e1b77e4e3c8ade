//! Cache keys: a namespace and a SHA-256 digest of named parts.
//!
//! The digest covers the entry layout version, the namespace, and the parts
//! sorted by name, each field prefixed by its length in bytes, so two keys
//! are equal when their namespaces and parts are equal, whatever order the
//! parts were added in.

use vstd::prelude::*;
use vstd::utf8::encode_utf8;
use crate::error::Error;
use crate::naming::{forbidden, is_forbidden};
use crate::order::{less, lemma_lt_asymmetric, lemma_lt_irreflexive, lemma_lt_total, lemma_lt_transitive, seq_lt};
use sha2::Digest as _;
use crate::text::{chars_of, push_char};

verus! {

/// Version of the entry file layout. It is hashed into every key, so changing
/// the layout starts from an empty cache instead of misreading old files.
pub const FORMAT: u8 = 1;

/// The SHA-256 digest of `bytes`.
pub uninterp spec fn sha256(bytes: Seq<u8>) -> Seq<u8>;

/// `sha2::Sha256::digest`: the SHA-256 digest of `bytes`, which is 32 bytes
/// long. What those bytes are is left to the name `sha256`.
#[verifier::external_body]
fn sha256_digest(bytes: &[u8]) -> (out: Vec<u8>)
    ensures
        out@ == sha256(bytes@),
        out@.len() == 32,
{
    sha2::Sha256::digest(bytes).to_vec()
}

/// The `k` low bytes of `n`, least significant first.
pub open spec fn le_bytes(n: nat, k: nat) -> Seq<u8>
    decreases k,
{
    if k == 0 {
        Seq::empty()
    } else {
        seq![(n % 256) as u8] + le_bytes(n / 256, (k - 1) as nat)
    }
}

/// One hashed field: its UTF-8 length as eight little-endian bytes, then its
/// UTF-8 bytes. The length prefix keeps `("ab", "c")` and `("a", "bc")`
/// apart.
pub open spec fn field(s: Seq<char>) -> Seq<u8> {
    le_bytes(encode_utf8(s).len(), 8) + encode_utf8(s)
}

/// The fields of `parts`, each name followed by its value.
pub open spec fn parts_bytes(parts: Seq<(Seq<char>, Seq<char>)>) -> Seq<u8>
    decreases parts.len(),
{
    if parts.len() == 0 {
        Seq::empty()
    } else {
        parts_bytes(parts.drop_last()) + field(parts.last().0) + field(parts.last().1)
    }
}

/// What a key's digest is computed from.
pub open spec fn preimage(namespace: Seq<char>, parts: Seq<(Seq<char>, Seq<char>)>) -> Seq<u8> {
    seq![FORMAT] + field(namespace) + parts_bytes(parts)
}

/// The lowercase hex digit for `n < 16`.
pub open spec fn hex_digit(n: u8) -> char {
    if n < 10 {
        ((48 + n) as u8) as char
    } else {
        ((87 + n) as u8) as char
    }
}

/// `bytes` as lowercase hex, two digits per byte, high nibble first.
pub open spec fn hex_of(bytes: Seq<u8>) -> Seq<char>
    decreases bytes.len(),
{
    if bytes.len() == 0 {
        Seq::empty()
    } else {
        hex_of(bytes.drop_last()).push(hex_digit(bytes.last() / 16)).push(
            hex_digit(bytes.last() % 16),
        )
    }
}

/// A lowercase hex digit: `0`–`9` or `a`–`f`.
pub open spec fn is_lower_hex(c: char) -> bool {
    ('0' <= c && c <= '9') || ('a' <= c && c <= 'f')
}

/// Two lowercase hex digits per byte.
pub proof fn lemma_hex_of_shape(bytes: Seq<u8>)
    ensures
        hex_of(bytes).len() == 2 * bytes.len(),
        forall|i: int| 0 <= i < hex_of(bytes).len() ==> is_lower_hex(#[trigger] hex_of(bytes)[i]),
    decreases bytes.len(),
{
    if bytes.len() > 0 {
        lemma_hex_of_shape(bytes.drop_last());
        let hi = bytes.last() / 16;
        let lo = bytes.last() % 16;
        lemma_hex_digit(hi);
        lemma_hex_digit(lo);
    }
}

/// `hex_digit` gives a lowercase hex digit, and tells the nibbles apart.
proof fn lemma_hex_digit(n: u8)
    requires
        n < 16,
    ensures
        is_lower_hex(hex_digit(n)),
        forall|m: u8| m < 16 && #[trigger] hex_digit(m) == hex_digit(n) ==> m == n,
{
    assert forall|m: u8| m < 16 && #[trigger] hex_digit(m) == hex_digit(n) implies m == n by {
        assert((hex_digit(m) as u32) == (if m < 10 { 48 + m } else { 87 + m }));
        assert((hex_digit(n) as u32) == (if n < 10 { 48 + n } else { 87 + n }));
    }
}

/// Different bytes never write the same hex.
pub proof fn lemma_hex_of_injective(a: Seq<u8>, b: Seq<u8>)
    requires
        hex_of(a) == hex_of(b),
    ensures
        a == b,
    decreases a.len(),
{
    lemma_hex_of_shape(a);
    lemma_hex_of_shape(b);
    if a.len() > 0 {
        let ha = hex_of(a);
        let hb = hex_of(b);
        assert(ha[ha.len() - 1] == hex_digit(a.last() % 16));
        assert(hb[hb.len() - 1] == hex_digit(b.last() % 16));
        assert(ha[ha.len() - 2] == hex_digit(a.last() / 16));
        assert(hb[hb.len() - 2] == hex_digit(b.last() / 16));
        lemma_hex_digit(a.last() % 16);
        lemma_hex_digit(a.last() / 16);
        assert(a.last() % 16 == b.last() % 16);
        assert(a.last() / 16 == b.last() / 16);
        assert(a.last() == b.last());
        assert(hex_of(a.drop_last()) =~= ha.take(ha.len() - 2));
        assert(hex_of(b.drop_last()) =~= hb.take(hb.len() - 2));
        lemma_hex_of_injective(a.drop_last(), b.drop_last());
        assert(a =~= a.drop_last().push(a.last()));
        assert(b =~= b.drop_last().push(b.last()));
    } else {
        assert(a =~= b);
    }
}

/// Names sorted strictly, so each occurs once.
pub open spec fn sorted_by_name(parts: Seq<(Seq<char>, Seq<char>)>) -> bool {
    forall|i: int, j: int| 0 <= i < j < parts.len() ==> seq_lt(parts[i].0, parts[j].0)
}

/// Where `name` is listed in `parts`, when it is.
pub open spec fn position_of(parts: Seq<(Seq<char>, Seq<char>)>, name: Seq<char>) -> int {
    choose|i: int| 0 <= i < parts.len() && parts[i].0 == name
}

/// The parts as a map from name to value.
pub open spec fn parts_map(parts: Seq<(Seq<char>, Seq<char>)>) -> Map<Seq<char>, Seq<char>> {
    Map::new(
        |name: Seq<char>| exists|i: int| 0 <= i < parts.len() && parts[i].0 == name,
        |name: Seq<char>| parts[position_of(parts, name)].1,
    )
}

/// The parts of `map`, sorted by name.
pub open spec fn sorted_parts(map: Map<Seq<char>, Seq<char>>) -> Seq<(Seq<char>, Seq<char>)> {
    choose|parts: Seq<(Seq<char>, Seq<char>)>| sorted_by_name(parts) && parts_map(parts) == map
}

/// The digest of the key with `namespace` and the parts in `map`.
pub open spec fn key_digest(namespace: Seq<char>, map: Map<Seq<char>, Seq<char>>) -> Seq<char> {
    hex_of(sha256(preimage(namespace, sorted_parts(map))))
}

/// In a list sorted by name, the map gives each name the value listed with it.
pub proof fn lemma_parts_map_at(parts: Seq<(Seq<char>, Seq<char>)>, i: int)
    requires
        sorted_by_name(parts),
        0 <= i < parts.len(),
    ensures
        parts_map(parts).contains_key(parts[i].0),
        parts_map(parts)[parts[i].0] == parts[i].1,
{
    let name = parts[i].0;
    assert(exists|k: int| 0 <= k < parts.len() && parts[k].0 == name);
    let k = position_of(parts, name);
    if k < i {
        lemma_lt_asymmetric(parts[k].0, parts[i].0);
    } else if i < k {
        lemma_lt_asymmetric(parts[i].0, parts[k].0);
    }
    assert(k == i);
    assert(parts_map(parts).contains_key(name));
    assert(parts_map(parts)[name] == parts[k].1);
}

/// Dropping the first part of a sorted list drops its name from the map.
proof fn lemma_parts_map_drop_first(parts: Seq<(Seq<char>, Seq<char>)>)
    requires
        sorted_by_name(parts),
        parts.len() > 0,
    ensures
        parts_map(parts.drop_first()) == parts_map(parts).remove(parts[0].0),
{
    let rest = parts.drop_first();
    assert(sorted_by_name(rest));
    assert forall|name: Seq<char>|
        parts_map(rest).contains_key(name) <==> parts_map(parts).remove(parts[0].0).contains_key(
            name,
        ) by {
        if parts_map(rest).contains_key(name) {
            let k = choose|k: int| 0 <= k < rest.len() && rest[k].0 == name;
            assert(parts[k + 1].0 == name);
            lemma_lt_asymmetric(parts[0].0, parts[k + 1].0);
        }
        if parts_map(parts).remove(parts[0].0).contains_key(name) {
            let k = choose|k: int| 0 <= k < parts.len() && parts[k].0 == name;
            assert(k != 0);
            assert(rest[k - 1].0 == name);
        }
    }
    assert forall|name: Seq<char>| #[trigger]
        parts_map(rest).contains_key(name) implies parts_map(rest)[name] == parts_map(
        parts,
    )[name] by {
        let k = choose|k: int| 0 <= k < rest.len() && rest[k].0 == name;
        lemma_parts_map_at(rest, k);
        lemma_parts_map_at(parts, k + 1);
    }
    assert(parts_map(rest) =~= parts_map(parts).remove(parts[0].0));
}

/// A map has one list of parts sorted by name.
pub proof fn lemma_sorted_parts_unique(a: Seq<(Seq<char>, Seq<char>)>, b: Seq<(Seq<char>, Seq<char>)>)
    requires
        sorted_by_name(a),
        sorted_by_name(b),
        parts_map(a) == parts_map(b),
    ensures
        a == b,
    decreases a.len(),
{
    if a.len() == 0 {
        if b.len() > 0 {
            lemma_parts_map_at(b, 0);
        }
        assert(a =~= b);
    } else if b.len() == 0 {
        lemma_parts_map_at(a, 0);
    } else {
        lemma_parts_map_at(a, 0);
        lemma_parts_map_at(b, 0);
        let ia = choose|k: int| 0 <= k < a.len() && a[k].0 == b[0].0;
        let ib = choose|k: int| 0 <= k < b.len() && b[k].0 == a[0].0;
        if ia > 0 {
            if ib > 0 {
                lemma_lt_transitive(a[0].0, b[0].0, a[0].0);
                lemma_lt_irreflexive(a[0].0);
            }
        }
        assert(a[0].0 == b[0].0);
        assert(a[0] == b[0]);
        lemma_parts_map_drop_first(a);
        lemma_parts_map_drop_first(b);
        lemma_sorted_parts_unique(a.drop_first(), b.drop_first());
        assert(a =~= b) by {
            assert forall|i: int| 0 <= i < a.len() implies a[i] == b[i] by {
                if i > 0 {
                    assert(a[i] == a.drop_first()[i - 1]);
                    assert(b[i] == b.drop_first()[i - 1]);
                }
            }
        }
    }
}

/// A list sorted by name is the sorted list of its own map.
pub proof fn lemma_sorted_parts_of_list(parts: Seq<(Seq<char>, Seq<char>)>)
    requires
        sorted_by_name(parts),
    ensures
        sorted_parts(parts_map(parts)) == parts,
{
    let chosen = sorted_parts(parts_map(parts));
    assert(sorted_by_name(parts) && parts_map(parts) == parts_map(parts));
    lemma_sorted_parts_unique(chosen, parts);
}

/// A cache key: a namespace and a digest of named parts.
#[derive(Clone, Debug, PartialEq, Eq)]
pub struct Key {
    namespace: String,
    digest: String,
}

impl Key {
    pub closed spec fn namespace_view(&self) -> Seq<char> {
        self.namespace@
    }

    pub closed spec fn digest_view(&self) -> Seq<char> {
        self.digest@
    }

    /// Starts a key in `namespace`, for example the kind of request.
    pub fn builder(namespace: &str) -> (builder: KeyBuilder)
        ensures
            builder.namespace_view() == namespace@,
            builder.parts_view() == Map::<Seq<char>, Seq<char>>::empty(),
            builder.parts_view().dom().finite(),
    {
        let parts: Vec<(String, String)> = Vec::new();
        let builder = KeyBuilder { namespace: namespace.to_owned(), parts };
        assert(builder.parts_list() =~= Seq::<(Seq<char>, Seq<char>)>::empty());
        assert(builder.parts_view() =~= Map::<Seq<char>, Seq<char>>::empty());
        builder
    }

    /// The namespace the key was built in.
    pub fn namespace(&self) -> (namespace: &str)
        ensures
            namespace@ == self.namespace_view(),
    {
        self.namespace.as_str()
    }

    /// The hex SHA-256 digest that names the entry on disk.
    pub fn digest(&self) -> (digest: &str)
        ensures
            digest@ == self.digest_view(),
    {
        self.digest.as_str()
    }

    /// A copy of this key.
    pub fn duplicate(&self) -> (copy: Key)
        ensures
            copy.namespace_view() == self.namespace_view(),
            copy.digest_view() == self.digest_view(),
    {
        Key { namespace: self.namespace.clone(), digest: self.digest.clone() }
    }
}

/// Collects the named parts of a [`Key`].
#[derive(Debug)]
pub struct KeyBuilder {
    namespace: String,
    parts: Vec<(String, String)>,
}

impl KeyBuilder {
    pub closed spec fn namespace_view(&self) -> Seq<char> {
        self.namespace@
    }

    /// The parts as a list of name and value, in the order they are kept.
    pub closed spec fn parts_list(&self) -> Seq<(Seq<char>, Seq<char>)> {
        self.parts@.map_values(|p: (String, String)| (p.0@, p.1@))
    }

    /// The parts added so far, by name.
    pub closed spec fn parts_view(&self) -> Map<Seq<char>, Seq<char>> {
        parts_map(self.parts_list())
    }

    /// Parts are kept sorted by name.
    #[verifier::type_invariant]
    closed spec fn wf(&self) -> bool {
        sorted_by_name(self.parts_list())
    }

    /// Adds one named part, such as the query or the normalized URL.
    ///
    /// Cache identity is what was fetched, never who asked or how the result
    /// will be shown. A name that marks a credential, an output format, a
    /// destination path, or a request id is refused. Only the name is checked:
    /// a credential under an innocent name is the caller's bug.
    pub fn part(self, name: &str, value: &str) -> (result: Result<KeyBuilder, Error>)
        ensures
            match result {
                Ok(builder) => {
                    &&& !is_forbidden(name@)
                    &&& !self.parts_view().contains_key(name@)
                    &&& builder.namespace_view() == self.namespace_view()
                    &&& builder.parts_view() == self.parts_view().insert(name@, value@)
                    &&& builder.parts_view().dom().finite()
                },
                Err(Error::ForbiddenKeyPart(refused)) => is_forbidden(name@) && refused@ == name@,
                Err(Error::DuplicateKeyPart(repeated)) => {
                    &&& !is_forbidden(name@)
                    &&& self.parts_view().contains_key(name@)
                    &&& repeated@ == name@
                },
                Err(_) => false,
            },
    {
        proof {
            use_type_invariant(&self);
        }
        if forbidden(name) {
            return Err(Error::ForbiddenKeyPart(name.to_owned()));
        }
        let wanted = chars_of(name);
        let ghost list = self.parts_list();
        let mut i: usize = 0;
        while i < self.parts.len() && less(&chars_of(self.parts[i].0.as_str()), &wanted)
            invariant
                i <= self.parts.len(),
                list == self.parts_list(),
                sorted_by_name(list),
                wanted@ == name@,
                forall|k: int| 0 <= k < i ==> seq_lt(#[trigger] list[k].0, name@),
            decreases self.parts.len() - i,
        {
            i = i + 1;
        }
        if i < self.parts.len() && !less(&wanted, &chars_of(self.parts[i].0.as_str())) {
            proof {
                lemma_lt_total(list[i as int].0, name@);
                lemma_parts_map_at(list, i as int);
            }
            return Err(Error::DuplicateKeyPart(name.to_owned()));
        }
        proof {
            if i < list.len() {
                lemma_lt_total(list[i as int].0, name@);
            }
            lemma_insert_sorted(list, i as int, name@, value@);
        }
        let KeyBuilder { namespace, mut parts } = self;
        parts.insert(i, (name.to_owned(), value.to_owned()));
        assert(parts@.map_values(|p: (String, String)| (p.0@, p.1@)) =~= list.insert(
            i as int,
            (name@, value@),
        ));
        let builder = KeyBuilder { namespace, parts };
        proof {
            lemma_parts_map_finite(builder.parts_list());
        }
        Ok(builder)
    }

    /// Hashes the namespace and the sorted parts into a [`Key`].
    pub fn build(self) -> (key: Key)
        ensures
            key.namespace_view() == self.namespace_view(),
            key.digest_view() == key_digest(self.namespace_view(), self.parts_view()),
            key.digest_view().len() == 64,
            forall|i: int| 0 <= i < 64 ==> is_lower_hex(#[trigger] key.digest_view()[i]),
    {
        proof {
            use_type_invariant(&self);
            lemma_sorted_parts_of_list(self.parts_list());
        }
        let ghost list = self.parts_list();
        let mut bytes: Vec<u8> = Vec::new();
        bytes.push(FORMAT);
        append_field(&mut bytes, self.namespace.as_str());
        let mut i: usize = 0;
        while i < self.parts.len()
            invariant
                i <= self.parts.len(),
                list == self.parts_list(),
                bytes@ == seq![FORMAT] + field(self.namespace@) + parts_bytes(list.take(i as int)),
            decreases self.parts.len() - i,
        {
            let ghost before = bytes@;
            append_field(&mut bytes, self.parts[i].0.as_str());
            append_field(&mut bytes, self.parts[i].1.as_str());
            assert(list.take(i + 1).drop_last() =~= list.take(i as int));
            assert(bytes@ =~= before + field(list[i as int].0) + field(list[i as int].1));
            i = i + 1;
        }
        assert(list.take(list.len() as int) =~= list);
        let digest = sha256_digest(bytes.as_slice());
        proof {
            lemma_hex_of_shape(digest@);
        }
        Key { namespace: self.namespace, digest: hex(&digest) }
    }
}

/// Inserting a name between the smaller and the larger ones keeps the list
/// sorted, and adds the name to the map.
proof fn lemma_insert_sorted(
    parts: Seq<(Seq<char>, Seq<char>)>,
    i: int,
    name: Seq<char>,
    value: Seq<char>,
)
    requires
        sorted_by_name(parts),
        0 <= i <= parts.len(),
        forall|k: int| 0 <= k < i ==> seq_lt(#[trigger] parts[k].0, name),
        i < parts.len() ==> seq_lt(name, parts[i].0),
    ensures
        sorted_by_name(parts.insert(i, (name, value))),
        parts_map(parts.insert(i, (name, value))) == parts_map(parts).insert(name, value),
        !parts_map(parts).contains_key(name),
{
    let longer = parts.insert(i, (name, value));
    assert forall|a: int, b: int| 0 <= a < b < longer.len() implies seq_lt(
        longer[a].0,
        longer[b].0,
    ) by {
        if b == i {
        } else if a == i {
            if b > i + 1 {
                lemma_lt_transitive(name, parts[i].0, parts[b - 1].0);
            }
        } else if a < i && b > i {
            if b - 1 > i {
                lemma_lt_transitive(name, parts[i].0, parts[b - 1].0);
            }
            lemma_lt_transitive(parts[a].0, name, parts[b - 1].0);
        }
    }
    assert forall|k: int| 0 <= k < parts.len() implies parts[k].0 != name by {
        if k < i {
            lemma_lt_asymmetric(parts[k].0, name);
        } else {
            if k > i {
                lemma_lt_transitive(name, parts[i].0, parts[k].0);
            }
            lemma_lt_asymmetric(name, parts[k].0);
        }
    }
    assert forall|n: Seq<char>|
        parts_map(longer).contains_key(n) <==> parts_map(parts).insert(name, value).contains_key(
            n,
        ) by {
        if parts_map(longer).contains_key(n) {
            let k = position_of(longer, n);
            if k < i {
                assert(parts[k].0 == n);
            } else if k > i {
                assert(parts[k - 1].0 == n);
            }
        }
        if parts_map(parts).contains_key(n) {
            let k = position_of(parts, n);
            if k < i {
                assert(longer[k].0 == n);
            } else {
                assert(longer[k + 1].0 == n);
            }
        }
        if n == name {
            assert(longer[i].0 == n);
        }
    }
    assert forall|n: Seq<char>| #[trigger]
        parts_map(longer).contains_key(n) implies parts_map(longer)[n] == parts_map(parts).insert(
        name,
        value,
    )[n] by {
        let k = position_of(longer, n);
        lemma_parts_map_at(longer, k);
        if k < i {
            lemma_parts_map_at(parts, k);
        } else if k > i {
            lemma_parts_map_at(parts, k - 1);
        }
    }
    assert(parts_map(longer) =~= parts_map(parts).insert(name, value));
}

/// Appends one hashed field for `text`.
fn append_field(out: &mut Vec<u8>, text: &str)
    ensures
        final(out)@ == old(out)@ + field(text@),
{
    let bytes = text.as_bytes();
    let ghost start = out@;
    let length = bytes.len() as u64;
    let mut rest = length;
    let mut k: usize = 0;
    while k < 8
        invariant
            k <= 8,
            out@ + le_bytes(rest as nat, (8 - k) as nat) == start + le_bytes(length as nat, 8),
        decreases 8 - k,
    {
        let ghost before = out@;
        out.push((rest % 256) as u8);
        assert(le_bytes(rest as nat, (8 - k) as nat) == seq![(rest % 256) as u8] + le_bytes(
            (rest / 256) as nat,
            (8 - k - 1) as nat,
        ));
        assert(out@ + le_bytes((rest / 256) as nat, (8 - k - 1) as nat) =~= before + le_bytes(
            rest as nat,
            (8 - k) as nat,
        ));
        rest = rest / 256;
        k = k + 1;
    }
    assert(le_bytes(rest as nat, 0) =~= Seq::<u8>::empty());
    assert(out@ =~= start + le_bytes(length as nat, 8));
    let ghost middle = out@;
    let mut j: usize = 0;
    while j < bytes.len()
        invariant
            j <= bytes@.len(),
            out@ == middle + bytes@.take(j as int),
        decreases bytes@.len() - j,
    {
        out.push(bytes[j]);
        assert(bytes@.take(j + 1) =~= bytes@.take(j as int).push(bytes@[j as int]));
        j = j + 1;
    }
    assert(bytes@.take(bytes@.len() as int) =~= bytes@);
    assert(out@ =~= start + field(text@));
}

fn hex_char(n: u8) -> (c: char)
    requires
        n < 16,
    ensures
        c == hex_digit(n),
{
    if n < 10 {
        (48u8 + n) as char
    } else {
        (87u8 + n) as char
    }
}

/// `bytes` as lowercase hex.
pub fn hex(bytes: &Vec<u8>) -> (out: String)
    ensures
        out@ == hex_of(bytes@),
{
    let mut out = String::new();
    let mut i: usize = 0;
    while i < bytes.len()
        invariant
            i <= bytes.len(),
            out@ == hex_of(bytes@.take(i as int)),
        decreases bytes.len() - i,
    {
        assert(bytes@.take(i + 1).drop_last() =~= bytes@.take(i as int));
        push_char(&mut out, hex_char(bytes[i] / 16));
        push_char(&mut out, hex_char(bytes[i] % 16));
        i = i + 1;
    }
    assert(bytes@.take(bytes.len() as int) =~= bytes@);
    out
}


/// The number little-endian `bytes` write.
pub open spec fn le_value(bytes: Seq<u8>) -> nat
    decreases bytes.len(),
{
    if bytes.len() == 0 {
        0
    } else {
        bytes[0] as nat + 256 * le_value(bytes.drop_first())
    }
}

pub open spec fn pow256(k: nat) -> nat
    decreases k,
{
    if k == 0 {
        1
    } else {
        256 * pow256((k - 1) as nat)
    }
}

/// A field's UTF-8 length fits the eight bytes that prefix it.
pub open spec fn fits(s: Seq<char>) -> bool {
    encode_utf8(s).len() < pow256(8)
}

proof fn lemma_le_roundtrip(n: nat, k: nat)
    requires
        n < pow256(k),
    ensures
        le_bytes(n, k).len() == k,
        le_value(le_bytes(n, k)) == n,
    decreases k,
{
    if k > 0 {
        let q = n / 256;
        let r = n % 256;
        let p = pow256((k - 1) as nat);
        vstd::arithmetic::div_mod::lemma_fundamental_div_mod(n as int, 256);
        assert(q < p) by (nonlinear_arith)
            requires
                n < 256 * p,
                n == 256 * q + r,
                0 <= r,
        ;
        lemma_le_roundtrip(q, (k - 1) as nat);
        let bytes = le_bytes(n, k);
        assert(bytes.drop_first() =~= le_bytes(q, (k - 1) as nat));
        assert(bytes[0] as nat == r);
    }
}

/// A field and what follows it split back apart.
proof fn lemma_field_split(s: Seq<char>, t: Seq<char>, rest_s: Seq<u8>, rest_t: Seq<u8>)
    requires
        fits(s),
        fits(t),
        field(s) + rest_s == field(t) + rest_t,
    ensures
        s == t,
        rest_s == rest_t,
{
    let bytes = field(s) + rest_s;
    let ls = encode_utf8(s).len();
    let lt = encode_utf8(t).len();
    lemma_le_roundtrip(ls, 8);
    lemma_le_roundtrip(lt, 8);
    assert(bytes.take(8) =~= le_bytes(ls, 8));
    assert((field(t) + rest_t).take(8) =~= le_bytes(lt, 8));
    assert(ls == lt);
    assert(bytes.subrange(8, 8 + ls as int) =~= encode_utf8(s));
    assert((field(t) + rest_t).subrange(8, 8 + lt as int) =~= encode_utf8(t));
    vstd::utf8::encode_utf8_decode_utf8(s);
    vstd::utf8::encode_utf8_decode_utf8(t);
    assert(bytes.skip(8 + ls as int) =~= rest_s);
    assert((field(t) + rest_t).skip(8 + lt as int) =~= rest_t);
}

/// The fields of a list of parts, read from its first part.
proof fn lemma_parts_bytes_front(parts: Seq<(Seq<char>, Seq<char>)>)
    requires
        parts.len() > 0,
    ensures
        parts_bytes(parts) == field(parts[0].0) + (field(parts[0].1) + parts_bytes(
            parts.drop_first(),
        )),
    decreases parts.len(),
{
    if parts.len() == 1 {
        assert(parts.drop_last() =~= Seq::<(Seq<char>, Seq<char>)>::empty());
        assert(parts.drop_first() =~= Seq::<(Seq<char>, Seq<char>)>::empty());
        assert(parts_bytes(parts.drop_last()) =~= Seq::<u8>::empty());
        assert(parts_bytes(parts.drop_first()) =~= Seq::<u8>::empty());
        assert(parts.last() == parts[0]);
        assert(parts_bytes(parts) =~= field(parts[0].0) + (field(parts[0].1) + Seq::<u8>::empty()));
    } else {
        let front = parts.drop_last();
        lemma_parts_bytes_front(front);
        assert(front.drop_first() =~= parts.drop_first().drop_last());
        assert(parts.drop_first().last() == parts.last());
        let f0 = field(parts[0].0);
        let f1 = field(parts[0].1);
        let middle = parts_bytes(parts.drop_first().drop_last());
        let tail = field(parts.last().0) + field(parts.last().1);
        assert(parts_bytes(parts) =~= (f0 + (f1 + middle)) + field(parts.last().0) + field(
            parts.last().1,
        ));
        assert(parts_bytes(parts.drop_first()) =~= middle + field(parts.last().0) + field(
            parts.last().1,
        ));
        assert(parts_bytes(parts) =~= f0 + (f1 + parts_bytes(parts.drop_first())));
    }
}

/// Every name and value of `parts` fits its length prefix.
pub open spec fn parts_fit(parts: Seq<(Seq<char>, Seq<char>)>) -> bool {
    forall|i: int| 0 <= i < parts.len() ==> fits(#[trigger] parts[i].0) && fits(parts[i].1)
}

proof fn lemma_parts_bytes_injective(a: Seq<(Seq<char>, Seq<char>)>, b: Seq<(Seq<char>, Seq<char>)>)
    requires
        parts_fit(a),
        parts_fit(b),
        parts_bytes(a) == parts_bytes(b),
    ensures
        a == b,
    decreases a.len(),
{
    if a.len() == 0 && b.len() == 0 {
        assert(a =~= b);
    } else if a.len() == 0 {
        lemma_parts_bytes_front(b);
        assert(parts_bytes(b).len() >= 8);
    } else if b.len() == 0 {
        lemma_parts_bytes_front(a);
        assert(parts_bytes(a).len() >= 8);
    } else {
        lemma_parts_bytes_front(a);
        lemma_parts_bytes_front(b);
        assert(fits(a[0].0) && fits(a[0].1));
        assert(fits(b[0].0) && fits(b[0].1));
        lemma_field_split(
            a[0].0,
            b[0].0,
            field(a[0].1) + parts_bytes(a.drop_first()),
            field(b[0].1) + parts_bytes(b.drop_first()),
        );
        lemma_field_split(a[0].1, b[0].1, parts_bytes(a.drop_first()), parts_bytes(b.drop_first()));
        assert(parts_fit(a.drop_first())) by {
            assert forall|i: int| 0 <= i < a.drop_first().len() implies fits(
                #[trigger] a.drop_first()[i].0,
            ) && fits(a.drop_first()[i].1) by {
                assert(a.drop_first()[i] == a[i + 1]);
            }
        }
        assert(parts_fit(b.drop_first())) by {
            assert forall|i: int| 0 <= i < b.drop_first().len() implies fits(
                #[trigger] b.drop_first()[i].0,
            ) && fits(b.drop_first()[i].1) by {
                assert(b.drop_first()[i] == b[i + 1]);
            }
        }
        lemma_parts_bytes_injective(a.drop_first(), b.drop_first());
        assert(a =~= b) by {
            assert forall|i: int| 0 <= i < a.len() implies a[i] == b[i] by {
                if i > 0 {
                    assert(a[i] == a.drop_first()[i - 1]);
                    assert(b[i] == b.drop_first()[i - 1]);
                }
            }
        }
    }
}

/// Part boundaries and namespaces change what a key's digest is computed
/// from: every field carries its length, so two different namespaces, or two
/// different lists of parts, never hash the same bytes. (`("a", "bc")` and
/// `("ab", "c")` differ.)
pub proof fn law_preimage_is_unambiguous(
    namespace_a: Seq<char>,
    parts_a: Seq<(Seq<char>, Seq<char>)>,
    namespace_b: Seq<char>,
    parts_b: Seq<(Seq<char>, Seq<char>)>,
)
    requires
        fits(namespace_a),
        fits(namespace_b),
        parts_fit(parts_a),
        parts_fit(parts_b),
        preimage(namespace_a, parts_a) == preimage(namespace_b, parts_b),
    ensures
        namespace_a == namespace_b,
        parts_a == parts_b,
{
    let a = preimage(namespace_a, parts_a);
    let b = preimage(namespace_b, parts_b);
    assert(a.drop_first() =~= field(namespace_a) + parts_bytes(parts_a));
    assert(b.drop_first() =~= field(namespace_b) + parts_bytes(parts_b));
    lemma_field_split(namespace_a, namespace_b, parts_bytes(parts_a), parts_bytes(parts_b));
    lemma_parts_bytes_injective(parts_a, parts_b);
}

/// Two keys with the same digest have the same namespace and the same
/// parts, whatever order the parts were added in, unless SHA-256 gives the
/// two different lists of hashed bytes the same digest.
pub proof fn law_equal_digests_mean_equal_keys(
    namespace_a: Seq<char>,
    parts_a: Seq<(Seq<char>, Seq<char>)>,
    namespace_b: Seq<char>,
    parts_b: Seq<(Seq<char>, Seq<char>)>,
)
    requires
        sorted_by_name(parts_a),
        sorted_by_name(parts_b),
        fits(namespace_a),
        fits(namespace_b),
        parts_fit(parts_a),
        parts_fit(parts_b),
        sha256(preimage(namespace_a, parts_a)) == sha256(preimage(namespace_b, parts_b))
            ==> preimage(namespace_a, parts_a) == preimage(namespace_b, parts_b),
        key_digest(namespace_a, parts_map(parts_a)) == key_digest(namespace_b, parts_map(parts_b)),
    ensures
        namespace_a == namespace_b,
        parts_map(parts_a) == parts_map(parts_b),
{
    lemma_sorted_parts_of_list(parts_a);
    lemma_sorted_parts_of_list(parts_b);
    lemma_hex_of_injective(
        sha256(preimage(namespace_a, parts_a)),
        sha256(preimage(namespace_b, parts_b)),
    );
    law_preimage_is_unambiguous(namespace_a, parts_a, namespace_b, parts_b);
}

/// Where `name`, listed nowhere in the sorted `parts`, goes to keep them
/// sorted.
proof fn lemma_insert_position(parts: Seq<(Seq<char>, Seq<char>)>, name: Seq<char>) -> (i: int)
    requires
        sorted_by_name(parts),
        forall|j: int| 0 <= j < parts.len() ==> (#[trigger] parts[j]).0 != name,
    ensures
        0 <= i <= parts.len(),
        forall|k: int| 0 <= k < i ==> seq_lt(#[trigger] parts[k].0, name),
        i < parts.len() ==> seq_lt(name, parts[i].0),
    decreases parts.len(),
{
    if parts.len() == 0 {
        0
    } else {
        let prefix = parts.drop_last();
        assert forall|j: int| 0 <= j < prefix.len() implies (#[trigger] prefix[j]).0 != name by {
            assert(prefix[j] == parts[j]);
        }
        let i0 = lemma_insert_position(prefix, name);
        assert forall|k: int| 0 <= k < i0 implies seq_lt(#[trigger] parts[k].0, name) by {
            assert(prefix[k] == parts[k]);
        }
        if i0 < prefix.len() {
            assert(prefix[i0] == parts[i0]);
            i0
        } else {
            let last = parts.len() - 1;
            assert(parts[last].0 != name);
            lemma_lt_total(parts[last].0, name);
            if seq_lt(parts[last].0, name) {
                parts.len() as int
            } else {
                last
            }
        }
    }
}

/// Every finite map of parts is listed by some list sorted by name.
proof fn lemma_sorted_list_exists(map: Map<Seq<char>, Seq<char>>)
    requires
        map.dom().finite(),
    ensures
        exists|parts: Seq<(Seq<char>, Seq<char>)>| sorted_by_name(parts) && parts_map(parts) == map,
    decreases map.dom().len(),
{
    if map.dom().len() == 0 {
        let empty = Seq::<(Seq<char>, Seq<char>)>::empty();
        assert(map.dom() =~= Set::<Seq<char>>::empty());
        assert(parts_map(empty) =~= map);
        assert(sorted_by_name(empty));
    } else {
        let name = map.dom().choose();
        let rest = map.remove(name);
        assert(rest.dom() =~= map.dom().remove(name));
        lemma_sorted_list_exists(rest);
        let listed = choose|parts: Seq<(Seq<char>, Seq<char>)>|
            sorted_by_name(parts) && parts_map(parts) == rest;
        assert forall|j: int| 0 <= j < listed.len() implies (#[trigger] listed[j]).0 != name by {
            lemma_parts_map_at(listed, j);
        }
        let i = lemma_insert_position(listed, name);
        lemma_insert_sorted(listed, i, name, map[name]);
        let longer = listed.insert(i, (name, map[name]));
        assert(parts_map(longer) =~= map);
        assert(sorted_by_name(longer));
    }
}

/// The parts of a finite map, listed sorted, give back the map.
pub proof fn lemma_sorted_parts_of_map(map: Map<Seq<char>, Seq<char>>)
    requires
        map.dom().finite(),
    ensures
        sorted_by_name(sorted_parts(map)),
        parts_map(sorted_parts(map)) == map,
{
    lemma_sorted_list_exists(map);
}

/// Every name and value of `map` fits its length prefix.
pub open spec fn map_fits(map: Map<Seq<char>, Seq<char>>) -> bool {
    forall|name: Seq<char>| #[trigger] map.contains_key(name) ==> fits(name) && fits(map[name])
}

/// Two keys are equal only when their namespaces and their maps of parts
/// are equal, whatever order the parts were added in, unless SHA-256 gives
/// the two different lists of hashed bytes the same digest. The maps are
/// those a builder's `parts_view` gives, finite.
pub proof fn law_equal_keys_have_equal_parts(
    namespace_a: Seq<char>,
    parts_a: Map<Seq<char>, Seq<char>>,
    namespace_b: Seq<char>,
    parts_b: Map<Seq<char>, Seq<char>>,
)
    requires
        parts_a.dom().finite(),
        parts_b.dom().finite(),
        fits(namespace_a),
        fits(namespace_b),
        map_fits(parts_a),
        map_fits(parts_b),
        sha256(preimage(namespace_a, sorted_parts(parts_a))) == sha256(
            preimage(namespace_b, sorted_parts(parts_b)),
        ) ==> preimage(namespace_a, sorted_parts(parts_a)) == preimage(
            namespace_b,
            sorted_parts(parts_b),
        ),
        key_digest(namespace_a, parts_a) == key_digest(namespace_b, parts_b),
    ensures
        namespace_a == namespace_b,
        parts_a == parts_b,
{
    lemma_sorted_parts_of_map(parts_a);
    lemma_sorted_parts_of_map(parts_b);
    let list_a = sorted_parts(parts_a);
    let list_b = sorted_parts(parts_b);
    assert(parts_fit(list_a)) by {
        assert forall|i: int| 0 <= i < list_a.len() implies fits(#[trigger] list_a[i].0) && fits(
            list_a[i].1,
        ) by {
            lemma_parts_map_at(list_a, i);
        }
    }
    assert(parts_fit(list_b)) by {
        assert forall|i: int| 0 <= i < list_b.len() implies fits(#[trigger] list_b[i].0) && fits(
            list_b[i].1,
        ) by {
            lemma_parts_map_at(list_b, i);
        }
    }
    law_equal_digests_mean_equal_keys(namespace_a, list_a, namespace_b, list_b);
}

/// A list names finitely many parts.
pub proof fn lemma_parts_map_finite(parts: Seq<(Seq<char>, Seq<char>)>)
    ensures
        parts_map(parts).dom().finite(),
{
    let names = parts.map_values(|p: (Seq<char>, Seq<char>)| p.0);
    vstd::seq_lib::seq_to_set_is_finite(names);
    assert forall|name: Seq<char>| parts_map(parts).dom().contains(name) <==> names.to_set().contains(name) by {
        if parts_map(parts).dom().contains(name) {
            let i = choose|i: int| 0 <= i < parts.len() && parts[i].0 == name;
            assert(names[i] == name);
        }
        if names.to_set().contains(name) {
            let i = choose|i: int| 0 <= i < names.len() && names[i] == name;
            assert(parts[i].0 == name);
        }
    }
    assert(parts_map(parts).dom() =~= names.to_set());
}

} // verus!
