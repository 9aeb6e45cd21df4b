//! The record codec: turning an entity's attribute map into the physical
//! store record that carries every composed key field, and parsing a store
//! record back into the entity's attributes.
//!
//! Reading back supports two policies per field: strict, where an absent
//! field fails the read, and lenient, where an absent field is filled with
//! its type's zero value (empty string, zero, or false).

use vstd::prelude::*;
use vstd::string::StringExecFns;
use crate::avmap::{lemma_assoc_map_domain, lemma_assoc_map_index, AttrMap};
use crate::error::DeezError;
use crate::schema::{DynamoType, Schema};
use crate::value::{AttrValue, AttributeValueError, SpecValue};

verus! {

/// Whether a value carries the tag the schema declares. An explicit null
/// matches no declared tag: null is how absence is written, not a value of
/// any type.
pub open spec fn tag_matches(v: SpecValue, t: DynamoType) -> bool {
    match t {
        DynamoType::DynamoString => v is Str,
        DynamoType::DynamoNumber => v is Num,
        DynamoType::DynamoBool => v is Boolean,
    }
}

/// The zero value a lenient read fills an absent field with.
pub open spec fn spec_zero(t: DynamoType) -> SpecValue {
    match t {
        DynamoType::DynamoString => SpecValue::Str(Seq::empty()),
        DynamoType::DynamoNumber => SpecValue::Num(seq!['0']),
        DynamoType::DynamoBool => SpecValue::Boolean(false),
    }
}

/// Decides whether a value carries the declared tag.
pub fn value_has_type(v: &AttrValue, t: DynamoType) -> (r: bool)
    ensures
        r == tag_matches(v@, t),
{
    match (v, t) {
        (AttrValue::Str(_), DynamoType::DynamoString) => true,
        (AttrValue::Num(_), DynamoType::DynamoNumber) => true,
        (AttrValue::Boolean(_), DynamoType::DynamoBool) => true,
        _ => false,
    }
}

/// Builds the zero value of a declared type.
pub fn zero_value(t: DynamoType) -> (r: AttrValue)
    ensures
        r@ == spec_zero(t),
{
    match t {
        DynamoType::DynamoString => AttrValue::Str(String::new()),
        DynamoType::DynamoNumber => {
            let z = String::from_str("0");
            proof {
                reveal_strlit("0");
                assert(z@ =~= seq!['0']);
            }
            AttrValue::Num(z)
        },
        DynamoType::DynamoBool => AttrValue::Boolean(false),
    }
}

/// The store record of an entity: its attributes plus, for the primary index
/// and every secondary index, both composed key strings under their fields.
pub open spec fn gsi_keys_inserted(
    s: &Schema,
    acc: Map<Seq<char>, SpecValue>,
    m: Map<Seq<char>, SpecValue>,
    i: int,
) -> Map<Seq<char>, SpecValue>
    decreases s.global_secondary_indexes@.len() - i,
    when i <= s.global_secondary_indexes@.len()
{
    if i >= s.global_secondary_indexes@.len() {
        acc
    } else {
        let ik = s.global_secondary_indexes@[i].1;
        gsi_keys_inserted(
            s,
            acc.insert(
                ik.partition_key.spec_key().field@,
                SpecValue::Str(s.spec_composed_side(ik.partition_key, m)),
            ).insert(
                ik.sort_key.spec_key().field@,
                SpecValue::Str(s.spec_composed_side(ik.sort_key, m)),
            ),
            m,
            i + 1,
        )
    }
}

/// The whole store record: the attributes with the primary key fields and
/// every secondary index's key fields inserted, each composed from the
/// attributes alone.
pub open spec fn spec_with_keys(s: &Schema, m: Map<Seq<char>, SpecValue>) -> Map<
    Seq<char>,
    SpecValue,
> {
    gsi_keys_inserted(
        s,
        m.insert(
            s.primary_index.partition_key.spec_key().field@,
            SpecValue::Str(s.spec_composed_side(s.primary_index.partition_key, m)),
        ).insert(
            s.primary_index.sort_key.spec_key().field@,
            SpecValue::Str(s.spec_composed_side(s.primary_index.sort_key, m)),
        ),
        m,
        0,
    )
}

/// A key that is no secondary key field of index `i` or later reads through
/// `gsi_keys_inserted` unchanged.
proof fn lemma_gsi_keys_inserted_other(
    s: &Schema,
    acc: Map<Seq<char>, SpecValue>,
    m: Map<Seq<char>, SpecValue>,
    i: int,
    k: Seq<char>,
)
    requires
        0 <= i <= s.global_secondary_indexes@.len(),
        forall|g: int|
            i <= g < s.global_secondary_indexes@.len()
                ==> (#[trigger] s.global_secondary_indexes@[g]).1.partition_key.spec_key().field@
                != k && s.global_secondary_indexes@[g].1.sort_key.spec_key().field@ != k,
    ensures
        gsi_keys_inserted(s, acc, m, i).contains_key(k) == acc.contains_key(k),
        acc.contains_key(k) ==> gsi_keys_inserted(s, acc, m, i)[k] == acc[k],
    decreases s.global_secondary_indexes@.len() - i,
{
    if i < s.global_secondary_indexes@.len() {
        let ik = s.global_secondary_indexes@[i].1;
        lemma_gsi_keys_inserted_other(
            s,
            acc.insert(
                ik.partition_key.spec_key().field@,
                SpecValue::Str(s.spec_composed_side(ik.partition_key, m)),
            ).insert(
                ik.sort_key.spec_key().field@,
                SpecValue::Str(s.spec_composed_side(ik.sort_key, m)),
            ),
            m,
            i + 1,
            k,
        );
    }
}

/// Whether every declared attribute of the schema can be read from record
/// `m`: a present field must carry its declared tag, an absent field must be
/// lenient.
pub open spec fn spec_readable(s: &Schema, m: Map<Seq<char>, SpecValue>) -> bool {
    forall|k: Seq<char>|
        #[trigger] s.attr_types().contains_key(k) ==> if m.contains_key(k) {
            tag_matches(m[k], s.attr_types()[k])
        } else {
            s.lenient_for(k)
        }
}

/// What a successful read returns: exactly the declared attributes, each
/// taken from the record or, when absent, filled with its type's zero value.
/// Fields that are not declared attributes — the generated key fields among
/// them — are dropped.
pub open spec fn spec_parsed(s: &Schema, m: Map<Seq<char>, SpecValue>) -> Map<
    Seq<char>,
    SpecValue,
> {
    Map::new(
        |k: Seq<char>| s.attr_types().contains_key(k),
        |k: Seq<char>|
            if m.contains_key(k) {
                m[k]
            } else {
                spec_zero(s.attr_types()[k])
            },
    )
}

/// Whether declared attribute `j` reads successfully from record `m`.
pub open spec fn attr_read_ok(s: &Schema, m: Map<Seq<char>, SpecValue>, j: int) -> bool {
    let name = s.attr_entry_seq()[j].0;
    let ty = s.attr_entry_seq()[j].1;
    if m.contains_key(name) {
        tag_matches(m[name], ty)
    } else {
        s.lenient_for(name)
    }
}

/// The value declared attribute `j` reads from record `m`.
pub open spec fn attr_read_value(s: &Schema, m: Map<Seq<char>, SpecValue>, j: int) -> SpecValue {
    let name = s.attr_entry_seq()[j].0;
    let ty = s.attr_entry_seq()[j].1;
    if m.contains_key(name) {
        m[name]
    } else {
        spec_zero(ty)
    }
}

impl Schema {
    /// The store record of an entity: its attributes merged with every
    /// index's composed key fields. The key fields cannot collide with an
    /// attribute: registration rejects such a schema.
    #[verifier::loop_isolation(false)]
    pub fn to_av_map_with_keys(&self, av_map: &AttrMap) -> (r: AttrMap)
        requires
            av_map.wf(),
        ensures
            r.wf(),
            r@ == spec_with_keys(self, av_map@),
    {
        let mut out = av_map.dup();
        let c = self.composed_index(&self.primary_index, av_map);
        out.insert(c.partition_key.0.as_str(), AttrValue::Str(c.partition_key.1));
        out.insert(c.sort_key.0.as_str(), AttrValue::Str(c.sort_key.1));
        let n = self.global_secondary_indexes.len();
        let mut g: usize = 0;
        while g < n
            invariant
                out.wf(),
                0 <= g <= n,
                spec_with_keys(self, av_map@) == gsi_keys_inserted(self, out@, av_map@, g as int),
            decreases n - g,
        {
            let ck = self.composed_index(&self.global_secondary_indexes[g].1, av_map);
            out.insert(ck.partition_key.0.as_str(), AttrValue::Str(ck.partition_key.1));
            out.insert(ck.sort_key.0.as_str(), AttrValue::Str(ck.sort_key.1));
            g = g + 1;
        }
        proof {
            assert(gsi_keys_inserted(self, out@, av_map@, n as int) == out@);
        }
        out
    }

    /// Parses a store record back into the entity's declared attributes:
    /// generated key fields and other undeclared fields are dropped; a field
    /// carrying the wrong tag fails the read; an absent field fails a strict
    /// read and is filled with its type's zero value under a lenient one.
    /// The read succeeds exactly when every declared attribute is readable,
    /// and the first unreadable attribute, in declaration order, names the
    /// error.
    #[verifier::loop_isolation(false)]
    pub fn from_av_map(&self, record: &AttrMap) -> (r: Result<AttrMap, DeezError>)
        requires
            crate::avmap::distinct_keys(self.attr_entry_seq()),
            record.wf(),
        ensures
            (r is Ok) <==> spec_readable(self, record@),
            r matches Ok(out) ==> out.wf() && out@ == spec_parsed(self, record@),
            r matches Err(e) ==> exists|j: int|
                {
                    &&& 0 <= j < self.attr_entry_seq().len()
                    &&& !(#[trigger] attr_read_ok(self, record@, j))
                    &&& forall|x: int| 0 <= x < j ==> attr_read_ok(self, record@, x)
                    &&& if record@.contains_key(self.attr_entry_seq()[j].0) {
                        e == DeezError::AWSAttributeValue(AttributeValueError)
                    } else {
                        e matches DeezError::MapKey(nm) && nm@ == self.attr_entry_seq()[j].0
                    }
                },
    {
        let mut out = AttrMap::new();
        let n = self.attributes.len();
        let mut i: usize = 0;
        while i < n
            invariant
                out.wf(),
                0 <= i <= n,
                forall|j: int| 0 <= j < i ==> #[trigger] attr_read_ok(self, record@, j),
                forall|k: Seq<char>|
                    #[trigger] out@.contains_key(k) ==> exists|j: int|
                        0 <= j < i && (#[trigger] self.attr_entry_seq()[j]).0 == k,
                forall|j: int|
                    0 <= j < i ==> out@.contains_key((#[trigger] self.attr_entry_seq()[j]).0),
                forall|j: int|
                    0 <= j < i ==> out@[(#[trigger] self.attr_entry_seq()[j]).0]
                        == attr_read_value(self, record@, j),
            decreases n - i,
        {
            let name = &self.attributes[i].0;
            let ty = self.attributes[i].1;
            proof {
                assert(self.attr_entry_seq()[i as int].0 == name@);
                assert(self.attr_entry_seq()[i as int].1 == ty);
            }
            match record.get(name.as_str()) {
                Some(v) => {
                    if value_has_type(v, ty) {
                        out.insert(name.as_str(), v.dup());
                    } else {
                        proof {
                            assert(!attr_read_ok(self, record@, i as int));
                            lemma_assoc_map_domain(self.attr_entry_seq(), name@);
                            lemma_assoc_map_index(self.attr_entry_seq(), i as int);
                            assert(!spec_readable(self, record@));
                        }
                        return Err(DeezError::AWSAttributeValue(AttributeValueError));
                    }
                },
                None => {
                    if self.is_lenient(name.as_str()) {
                        out.insert(name.as_str(), zero_value(ty));
                    } else {
                        proof {
                            assert(!attr_read_ok(self, record@, i as int));
                            lemma_assoc_map_domain(self.attr_entry_seq(), name@);
                            lemma_assoc_map_index(self.attr_entry_seq(), i as int);
                            assert(!spec_readable(self, record@));
                        }
                        return Err(DeezError::MapKey(name.clone()));
                    }
                },
            }
            proof {
                assert(attr_read_ok(self, record@, i as int));
                assert(out@[self.attr_entry_seq()[i as int].0] == attr_read_value(
                    self,
                    record@,
                    i as int,
                ));
                assert(forall|j: int|
                    0 <= j < i ==> (#[trigger] self.attr_entry_seq()[j]).0
                        != self.attr_entry_seq()[i as int].0);
            }
            i = i + 1;
        }
        proof {
            assert forall|k: Seq<char>| #[trigger]
                self.attr_types().contains_key(k) implies out@.contains_key(k) && (exists|j: int|
                0 <= j < n && (#[trigger] self.attr_entry_seq()[j]).0 == k) by {
                lemma_assoc_map_domain(self.attr_entry_seq(), k);
            }
            assert forall|k: Seq<char>| #[trigger] out@.contains_key(k) implies self.attr_types()
                .contains_key(k) by {
                lemma_assoc_map_domain(self.attr_entry_seq(), k);
            }
            assert forall|k: Seq<char>| #[trigger]
                self.attr_types().contains_key(k) implies out@[k] == (if record@.contains_key(k) {
                record@[k]
            } else {
                spec_zero(self.attr_types()[k])
            }) by {
                let j = choose|j: int|
                    0 <= j < n && (#[trigger] self.attr_entry_seq()[j]).0 == k;
                lemma_assoc_map_index(self.attr_entry_seq(), j);
                assert(out@[k] == attr_read_value(self, record@, j));
            }
            assert(out@ =~= spec_parsed(self, record@));
            assert forall|k: Seq<char>| #[trigger]
                self.attr_types().contains_key(k) implies (if record@.contains_key(k) {
                tag_matches(record@[k], self.attr_types()[k])
            } else {
                self.lenient_for(k)
            }) by {
                let j = choose|j: int|
                    0 <= j < n && (#[trigger] self.attr_entry_seq()[j]).0 == k;
                lemma_assoc_map_index(self.attr_entry_seq(), j);
                assert(attr_read_ok(self, record@, j));
            }
        }
        Ok(out)
    }

    /// Parses each record of a query response in turn, stopping at the
    /// first one that fails to read.
    #[verifier::loop_isolation(false)]
    pub fn from_av_map_slice(&self, records: &Vec<AttrMap>) -> (r: Result<Vec<AttrMap>, DeezError>)
        requires
            crate::avmap::distinct_keys(self.attr_entry_seq()),
            forall|i: int| 0 <= i < records@.len() ==> (#[trigger] records@[i]).wf(),
        ensures
            (r is Ok) <==> (forall|i: int|
                0 <= i < records@.len() ==> spec_readable(self, (#[trigger] records@[i])@)),
            r matches Ok(out) ==> out@.len() == records@.len() && forall|i: int|
                0 <= i < records@.len() ==> (#[trigger] out@[i]).wf() && out@[i]@ == spec_parsed(
                    self,
                    records@[i]@,
                ),
    {
        let n = records.len();
        let mut out: Vec<AttrMap> = Vec::new();
        let mut i: usize = 0;
        while i < n
            invariant
                0 <= i <= n,
                out@.len() == i,
                forall|j: int|
                    0 <= j < i ==> spec_readable(self, (#[trigger] records@[j])@),
                forall|j: int|
                    0 <= j < i ==> (#[trigger] out@[j]).wf() && out@[j]@ == spec_parsed(
                        self,
                        records@[j]@,
                    ),
            decreases n - i,
        {
            match self.from_av_map(&records[i]) {
                Ok(m) => {
                    out.push(m);
                },
                Err(e) => {
                    return Err(e);
                },
            }
            i = i + 1;
        }
        Ok(out)
    }
}

/// Round trip: an entity written as a store record and read back yields its
/// attributes unchanged. This needs the entity to carry exactly the declared
/// attributes at their declared tags, and holds under either read policy
/// since nothing is absent.
pub proof fn lemma_round_trip(s: &Schema, m: Map<Seq<char>, SpecValue>)
    requires
        s.wf(),
        forall|k: Seq<char>| #[trigger] m.contains_key(k) ==> s.attr_types().contains_key(k),
        forall|k: Seq<char>| #[trigger]
            s.attr_types().contains_key(k) ==> m.contains_key(k) && tag_matches(
                m[k],
                s.attr_types()[k],
            ),
    ensures
        spec_readable(s, spec_with_keys(s, m)),
        spec_parsed(s, spec_with_keys(s, m)) == m,
{
    let w = spec_with_keys(s, m);
    assert forall|k: Seq<char>| #[trigger]
        s.attr_types().contains_key(k) implies w.contains_key(k) && w[k] == m[k] by {
        assert(s.field_list()[0] == s.primary_index.partition_key.spec_key().field@);
        assert(s.field_list()[1] == s.primary_index.sort_key.spec_key().field@);
        assert(s.primary_index.partition_key.spec_key().field@ != k);
        assert(s.primary_index.sort_key.spec_key().field@ != k);
        let base = m.insert(
            s.primary_index.partition_key.spec_key().field@,
            SpecValue::Str(s.spec_composed_side(s.primary_index.partition_key, m)),
        ).insert(
            s.primary_index.sort_key.spec_key().field@,
            SpecValue::Str(s.spec_composed_side(s.primary_index.sort_key, m)),
        );
        assert(base.contains_key(k) && base[k] == m[k]);
        assert forall|g: int|
            0 <= g < s.global_secondary_indexes@.len() implies (
        #[trigger] s.global_secondary_indexes@[g]).1.partition_key.spec_key().field@ != k
            && s.global_secondary_indexes@[g].1.sort_key.spec_key().field@ != k by {
            Schema::lemma_field_in_list(*s, g);
        }
        lemma_gsi_keys_inserted_other(s, base, m, 0, k);
    }
    assert(spec_parsed(s, w) =~= m);
}

} // verus!
