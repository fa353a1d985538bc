//! Public keys as lists of named fields, in the canonical form that thumbprints are
//! computed from.
//!
//! A key is assembled field by field with [`JsonWebKeyBuilder`]. Building it arranges the
//! fields by name, so that the same fields give the same key whatever the order in which
//! they were added.

use std::borrow::Cow;
use vstd::prelude::*;
use vstd::string::StringSliceAdditionalSpecFns;
use vstd::utf8::encode_utf8;

use crate::hash::{digest_of, output_len, ThumbprintHash};
use crate::names::{comes_before, name_before, same_name};
use crate::text::{base64_url_no_pad, encode_base64, members_of, object_text, write_object, Member};

verus! {

/// What a field holds, as the contracts see it.
pub enum FieldValue {
    /// A string, written out as it is.
    Str(Seq<char>),
    /// Bytes, written out in URL-safe base64 without padding.
    Bytes(Seq<u8>),
}

/// A field as the contracts see it: its name and what it holds.
pub type Entry = (Seq<char>, FieldValue);

/// The value of one field of a key.
#[derive(Debug)]
enum JwkField<'a> {
    /// A string value.
    Str(&'static str),
    /// A byte value, borrowed from the key or owned by the field.
    Bytes(Cow<'a, [u8]>),
}

impl<'a> View for JwkField<'a> {
    type V = FieldValue;

    closed spec fn view(&self) -> FieldValue {
        match self {
            JwkField::Str(s) => FieldValue::Str(s@),
            JwkField::Bytes(b) => FieldValue::Bytes(b@),
        }
    }
}

impl<'a> JwkField<'a> {
    /// The text of the value: a string as it is, bytes in URL-safe base64 without padding.
    fn to_string(&self) -> (text: String)
        ensures
            text@ == value_text(self@),
    {
        match self {
            JwkField::Str(s) => (*s).to_owned(),
            JwkField::Bytes(Cow::Borrowed(bytes)) => encode_base64(bytes),
            JwkField::Bytes(Cow::Owned(bytes)) => encode_base64(bytes.as_slice()),
        }
    }
}

/// The text of a value: a string as it is, bytes in URL-safe base64 without padding.
pub open spec fn value_text(value: FieldValue) -> Seq<char> {
    match value {
        FieldValue::Str(s) => s,
        FieldValue::Bytes(b) => base64_url_no_pad(b),
    }
}

/// The members that the fields are written as: each name with the text of its value.
pub open spec fn members(entries: Seq<Entry>) -> Seq<Member> {
    Seq::new(entries.len(), |i: int| (entries[i].0, value_text(entries[i].1)))
}

/// The text of a key: its fields, in their order, as one object.
pub open spec fn canonical_text(entries: Seq<Entry>) -> Seq<char> {
    object_text(members(entries))
}

/// The thumbprint of a key under `hash`: the digest of the UTF-8 bytes of its text.
pub open spec fn thumbprint_of(entries: Seq<Entry>, hash: ThumbprintHash) -> Seq<u8> {
    digest_of(hash, encode_utf8(canonical_text(entries)))
}

/// The fields of a vector, as the contracts see them.
spec fn entries_of(fields: Seq<(&'static str, JwkField<'_>)>) -> Seq<Entry> {
    Seq::new(fields.len(), |i: int| (fields[i].0@, fields[i].1@))
}

/// Whether one of `entries` is named `name`.
pub open spec fn has_name(entries: Seq<Entry>, name: Seq<char>) -> bool {
    exists|i: int| 0 <= i < entries.len() && (#[trigger] entries[i]).0 == name
}

/// No two of `entries` share a name.
pub open spec fn names_distinct(entries: Seq<Entry>) -> bool {
    forall|i: int, j: int|
        0 <= i < j < entries.len() ==> (#[trigger] entries[i]).0 != (#[trigger] entries[j]).0
}

/// What a builder may hold: the key type first, under the name `kty`, and no name twice.
pub open spec fn well_begun(entries: Seq<Entry>) -> bool {
    &&& entries.len() > 0
    &&& entries[0].0 == "kty"@
    &&& entries[0].1 is Str
    &&& names_distinct(entries)
}

/// The fields stand in the order of their names, each name before the next.
pub open spec fn in_name_order(entries: Seq<Entry>) -> bool {
    forall|i: int, j: int|
        0 <= i < j < entries.len() ==> name_before(
            (#[trigger] entries[i]).0,
            (#[trigger] entries[j]).0,
        )
}

/// `key` holds exactly the fields of `entries`, in the order of their names.
pub open spec fn arranges(key: Seq<Entry>, entries: Seq<Entry>) -> bool {
    &&& in_name_order(key)
    &&& key.to_multiset() == entries.to_multiset()
}

/// What a finished key holds: its fields in the order of their names, the key type among
/// them.
pub open spec fn canonical(entries: Seq<Entry>) -> bool {
    &&& in_name_order(entries)
    &&& has_name(entries, "kty"@)
}

/// No name of `a` is a name of `b`.
pub open spec fn names_apart(a: Seq<Entry>, b: Seq<Entry>) -> bool {
    forall|i: int, j: int|
        0 <= i < a.len() && 0 <= j < b.len() ==> (#[trigger] a[i]).0 != (#[trigger] b[j]).0
}

/// Keys that can be shown as a [`JsonWebKey`]. The verifying keys of this library can.
pub trait ToJsonWebKey {
    /// The fields that the key is shown as, in the order of their names.
    spec fn jwk_fields(&self) -> Seq<Entry>;

    /// The key as a [`JsonWebKey`].
    fn to_jwk(&self) -> (key: JsonWebKey<'_>)
        ensures
            key@ == self.jwk_fields(),
            canonical(key@),
    ;
}

/// A public key in canonical form: named fields, each a string or bytes, in the order of
/// their names.
#[derive(Debug)]
pub struct JsonWebKey<'a> {
    fields: Vec<(&'static str, JwkField<'a>)>,
}

impl<'a> View for JsonWebKey<'a> {
    type V = Seq<Entry>;

    /// The fields of the key, in their order.
    closed spec fn view(&self) -> Seq<Entry> {
        entries_of(self.fields@)
    }
}

impl<'a> JsonWebKey<'a> {
    #[verifier::type_invariant]
    spec fn inv(&self) -> bool {
        canonical(entries_of(self.fields@))
    }

    /// Starts a key of the type `key_type`, which becomes its field `kty`.
    pub fn builder(key_type: &'static str) -> (builder: JsonWebKeyBuilder<'a>)
        ensures
            builder@ == seq![("kty"@, FieldValue::Str(key_type@))],
            well_begun(builder@),
    {
        let mut fields = Vec::with_capacity(4);
        fields.push(("kty", JwkField::Str(key_type)));
        assert(entries_of(fields@) =~= seq![("kty"@, FieldValue::Str(key_type@))]);
        JsonWebKeyBuilder { fields }
    }

    /// The fields of the key as names and texts, in the order of the names: strings as
    /// they are, bytes in URL-safe base64 without padding.
    pub fn entries(&self) -> (pairs: Vec<(&'static str, String)>)
        ensures
            members_of(pairs@) == members(self@),
            canonical(self@),
    {
        proof {
            use_type_invariant(self);
        }
        let mut pairs: Vec<(&'static str, String)> = Vec::new();
        let mut i: usize = 0;
        while i < self.fields.len()
            invariant
                i <= self.fields.len(),
                pairs@.len() == i,
                self@.len() == self.fields@.len(),
                members_of(pairs@) == members(self@).take(i as int),
            decreases self.fields.len() - i,
        {
            let ghost before = pairs@;
            let text = self.fields[i].1.to_string();
            pairs.push((self.fields[i].0, text));
            assert(members_of(pairs@) =~= members(self@).take(i + 1)) by {
                assert forall|k: int| 0 <= k < i + 1 implies members_of(pairs@)[k] == members(
                    self@,
                )[k] by {
                    if k < i {
                        assert(pairs@[k] == before[k]);
                        assert(members_of(before)[k] == members(self@).take(i as int)[k]);
                    }
                }
            }
            i += 1;
        }
        assert(members(self@).take(i as int) =~= members(self@));
        pairs
    }

    /// The text of the key: `{"name":"value",...}`, the fields in the order of their
    /// names, nothing between them but the commas.
    pub fn to_string(&self) -> (text: String)
        ensures
            text@ == canonical_text(self@),
    {
        let pairs = self.entries();
        write_object(pairs.as_slice())
    }

    /// The thumbprint of the key: the digest, under `hash`, of the bytes of its text.
    pub fn thumbprint(&self, hash: ThumbprintHash) -> (digest: Vec<u8>)
        ensures
            digest@ == thumbprint_of(self@, hash),
            digest@.len() == output_len(hash),
    {
        let text = self.to_string();
        hash.digest(text.as_str().as_bytes())
    }
}

/// Collects the fields of a key. It starts with the key type and takes one field at a
/// time; [`JsonWebKeyBuilder::build`] ends it.
#[derive(Debug)]
pub struct JsonWebKeyBuilder<'a> {
    fields: Vec<(&'static str, JwkField<'a>)>,
}

impl<'a> View for JsonWebKeyBuilder<'a> {
    type V = Seq<Entry>;

    /// The fields added so far, in the order in which they were added.
    closed spec fn view(&self) -> Seq<Entry> {
        entries_of(self.fields@)
    }
}

impl<'a> JsonWebKeyBuilder<'a> {
    #[verifier::type_invariant]
    spec fn inv(&self) -> bool {
        well_begun(entries_of(self.fields@))
    }

    /// Whether a field named `field_name` has been added already.
    pub fn has_field(&self, field_name: &str) -> (found: bool)
        ensures
            found == has_name(self@, field_name@),
    {
        let mut i: usize = 0;
        while i < self.fields.len()
            invariant
                i <= self.fields.len(),
                forall|k: int| 0 <= k < i ==> (#[trigger] self@[k]).0 != field_name@,
            decreases self.fields.len() - i,
        {
            if same_name(self.fields[i].0, field_name) {
                assert(self@[i as int].0 == field_name@);
                return true;
            }
            i += 1;
        }
        false
    }

    /// Adds a string field.
    ///
    /// A name can be used once: adding a field under a name that is taken already is an
    /// error of the caller, which [`JsonWebKeyBuilder::has_field`] tells beforehand.
    pub fn with_str_field(self, field_name: &'static str, value: &'static str) -> (next: Self)
        requires
            !has_name(self@, field_name@),
        ensures
            next@ == self@.push((field_name@, FieldValue::Str(value@))),
            well_begun(next@),
    {
        proof {
            use_type_invariant(&self);
        }
        let mut fields = self.fields;
        fields.push((field_name, JwkField::Str(value)));
        assert(entries_of(fields@) =~= self@.push((field_name@, FieldValue::Str(value@))));
        JsonWebKeyBuilder { fields }
    }

    /// Adds a byte field. The bytes may be borrowed or owned: the key is the same either
    /// way.
    ///
    /// A name can be used once, as for [`JsonWebKeyBuilder::with_str_field`].
    pub fn with_bytes_field(self, field_name: &'static str, value: Cow<'a, [u8]>) -> (next: Self)
        requires
            !has_name(self@, field_name@),
        ensures
            next@ == self@.push((field_name@, FieldValue::Bytes(value@))),
            well_begun(next@),
    {
        proof {
            use_type_invariant(&self);
        }
        let mut fields = self.fields;
        fields.push((field_name, JwkField::Bytes(value)));
        assert(entries_of(fields@) =~= self@.push((field_name@, FieldValue::Bytes(value@))));
        JsonWebKeyBuilder { fields }
    }

    /// Ends the key: its fields are put in the order of their names. The order in which
    /// they were added leaves no trace.
    pub fn build(self) -> (key: JsonWebKey<'a>)
        ensures
            arranges(key@, self@),
            canonical(key@),
    {
        proof {
            use_type_invariant(&self);
        }
        let mut rest = self.fields;
        let mut sorted: Vec<(&'static str, JwkField<'a>)> = Vec::new();
        assert(entries_of(sorted@) =~= Seq::<Entry>::empty());
        assert(entries_of(sorted@).to_multiset().add(entries_of(rest@).to_multiset())
            =~= self@.to_multiset()) by {
            broadcast use vstd::seq_lib::group_to_multiset_ensures;
            assert(entries_of(sorted@).to_multiset().len() == 0);
        }
        while rest.len() > 0
            invariant
                in_name_order(entries_of(sorted@)),
                names_distinct(entries_of(rest@)),
                names_apart(entries_of(rest@), entries_of(sorted@)),
                entries_of(sorted@).to_multiset().add(entries_of(rest@).to_multiset())
                    == self@.to_multiset(),
            decreases rest.len(),
        {
            let ghost before = entries_of(rest@);
            let ghost placed = entries_of(sorted@);
            let field = rest.pop().unwrap();
            let ghost entry = (field.0@, field.1@);
            assert(entries_of(rest@) =~= before.remove(before.len() - 1));
            assert(entry == before[before.len() - 1]);
            let mut pos: usize = 0;
            while pos < sorted.len() && comes_before(sorted[pos].0, field.0)
                invariant
                    pos <= sorted.len(),
                    placed == entries_of(sorted@),
                    forall|k: int| 0 <= k < pos ==> name_before((#[trigger] placed[k]).0, field.0@),
                decreases sorted.len() - pos,
            {
                pos += 1;
            }
            proof {
                lemma_fits_at(placed, entry, pos as int);
            }
            sorted.insert(pos, field);
            proof {
                broadcast use vstd::seq_lib::group_to_multiset_ensures;
                assert(entries_of(sorted@) =~= placed.insert(pos as int, entry));
                assert(placed.insert(pos as int, entry).to_multiset().add(
                    before.remove(before.len() - 1).to_multiset(),
                ) =~= placed.to_multiset().add(before.to_multiset()));
            }
        }
        assert(entries_of(rest@) =~= Seq::<Entry>::empty());
        proof {
            broadcast use vstd::seq_lib::group_to_multiset_ensures;
            assert(entries_of(rest@).to_multiset().len() == 0);
            assert(entries_of(sorted@).to_multiset() =~= self@.to_multiset());
            lemma_same_fields_same_names(self@, entries_of(sorted@), "kty"@);
        }
        JsonWebKey { fields: sorted }
    }
}

/// Where the fields before `pos` come before `entry` and the field at `pos`, if there is
/// one, does not, `entry` belongs at `pos`.
proof fn lemma_fits_at(placed: Seq<Entry>, entry: Entry, pos: int)
    requires
        in_name_order(placed),
        0 <= pos <= placed.len(),
        forall|k: int| 0 <= k < pos ==> name_before((#[trigger] placed[k]).0, entry.0),
        pos < placed.len() ==> !name_before(placed[pos].0, entry.0),
        forall|k: int| 0 <= k < placed.len() ==> (#[trigger] placed[k]).0 != entry.0,
    ensures
        in_name_order(placed.insert(pos, entry)),
{
    let grown = placed.insert(pos, entry);
    assert forall|i: int, j: int| 0 <= i < j < grown.len() implies name_before(
        (#[trigger] grown[i]).0,
        (#[trigger] grown[j]).0,
    ) by {
        if j == pos {
            assert(grown[i] == placed[i]);
        } else if i == pos {
            assert(grown[j] == placed[j - 1]);
            crate::names::lemma_name_before_total(placed[pos].0, entry.0);
            if j - 1 > pos {
                assert(name_before(placed[pos].0, placed[j - 1].0));
                crate::names::lemma_name_before_transitive(entry.0, placed[pos].0, placed[j - 1].0);
            }
        } else {
            let i0 = if i < pos { i } else { i - 1 };
            let j0 = if j < pos { j } else { j - 1 };
            assert(grown[i] == placed[i0]);
            assert(grown[j] == placed[j0]);
        }
    }
}

/// Two lists with the same fields have the same names.
pub proof fn lemma_same_fields_same_names(a: Seq<Entry>, b: Seq<Entry>, name: Seq<char>)
    requires
        a.to_multiset() == b.to_multiset(),
    ensures
        has_name(a, name) == has_name(b, name),
{
    broadcast use vstd::seq_lib::group_to_multiset_ensures;
    if has_name(a, name) {
        let i = choose|i: int| 0 <= i < a.len() && (#[trigger] a[i]).0 == name;
        assert(a.contains(a[i]));
        assert(a.to_multiset().count(a[i]) > 0);
        assert(b.to_multiset().count(a[i]) > 0);
        assert(b.contains(a[i]));
        let j = choose|j: int| 0 <= j < b.len() && b[j] == a[i];
        assert(b[j].0 == name);
    }
    if has_name(b, name) {
        let i = choose|i: int| 0 <= i < b.len() && (#[trigger] b[i]).0 == name;
        assert(b.contains(b[i]));
        assert(b.to_multiset().count(b[i]) > 0);
        assert(a.to_multiset().count(b[i]) > 0);
        assert(a.contains(b[i]));
        let j = choose|j: int| 0 <= j < a.len() && a[j] == b[i];
        assert(a[j].0 == name);
    }
}

} // verus!

verus! {

/// Fields can stand in the order of their names in one way only: two lists that hold the
/// same fields, each in the order of its names, are the same list.
pub proof fn lemma_name_order_unique(s: Seq<Entry>, t: Seq<Entry>)
    requires
        in_name_order(s),
        in_name_order(t),
        s.to_multiset() == t.to_multiset(),
    ensures
        s == t,
    decreases s.len(),
{
    broadcast use vstd::seq_lib::group_to_multiset_ensures;
    assert(s.len() == t.len()) by {
        vstd::seq_lib::to_multiset_len(s);
        vstd::seq_lib::to_multiset_len(t);
    }
    if s.len() == 0 {
        assert(s =~= t);
    } else {
        let x = s[0];
        let y = t[0];
        assert(s.contains(x));
        assert(s.to_multiset().count(x) > 0);
        assert(t.to_multiset().count(x) > 0);
        assert(t.contains(x));
        let k = choose|k: int| 0 <= k < t.len() && t[k] == x;
        assert(t.contains(y));
        assert(t.to_multiset().count(y) > 0);
        assert(s.to_multiset().count(y) > 0);
        assert(s.contains(y));
        let m = choose|m: int| 0 <= m < s.len() && s[m] == y;
        if k != 0 {
            assert(name_before(t[0].0, t[k].0));
            if m != 0 {
                assert(name_before(s[0].0, s[m].0));
                crate::names::lemma_name_before_transitive(x.0, y.0, x.0);
            }
            crate::names::lemma_name_before_irreflexive(x.0);
        }
        assert(x == y);
        let s1 = s.remove(0);
        let t1 = t.remove(0);
        assert(s1.to_multiset() == t1.to_multiset());
        assert forall|i: int, j: int| 0 <= i < j < s1.len() implies name_before(
            (#[trigger] s1[i]).0,
            (#[trigger] s1[j]).0,
        ) by {
            assert(s1[i] == s[i + 1] && s1[j] == s[j + 1]);
        }
        assert forall|i: int, j: int| 0 <= i < j < t1.len() implies name_before(
            (#[trigger] t1[i]).0,
            (#[trigger] t1[j]).0,
        ) by {
            assert(t1[i] == t[i + 1] && t1[j] == t[j + 1]);
        }
        lemma_name_order_unique(s1, t1);
        assert forall|i: int| 0 <= i < s.len() implies s[i] == t[i] by {
            if i > 0 {
                assert(s[i] == s1[i - 1]);
                assert(t[i] == t1[i - 1]);
            }
        }
        assert(s =~= t);
    }
}

/// The same fields give the same key, whatever the order in which they were added.
pub proof fn lemma_build_ignores_order(
    first: Seq<Entry>,
    second: Seq<Entry>,
    first_key: Seq<Entry>,
    second_key: Seq<Entry>,
)
    requires
        first.to_multiset() == second.to_multiset(),
        arranges(first_key, first),
        arranges(second_key, second),
    ensures
        first_key == second_key,
        canonical_text(first_key) == canonical_text(second_key),
        forall|hash: ThumbprintHash|
            #[trigger] thumbprint_of(first_key, hash) == thumbprint_of(second_key, hash),
{
    lemma_name_order_unique(first_key, second_key);
}

} // verus!
