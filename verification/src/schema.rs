//! The declarative per-entity index schema: one primary index, any number of
//! named secondary indexes, and the typed attribute declarations that the
//! composed keys and the record codec read.

use vstd::prelude::*;
use vstd::string::StringExecFns;
use crate::avmap::{assoc_map, distinct_keys};
use crate::error::DeezError;
use crate::strutil::str_eq;

verus! {

/// The tag an attribute's values carry in the store.
#[derive(Debug, PartialEq, Eq, Clone, Copy)]
pub enum DynamoType {
    DynamoString,
    DynamoNumber,
    DynamoBool,
}

/// One side of an index: the physical field it is stored under and the
/// ordered attribute names ("composites") whose values are appended to it.
#[derive(Debug)]
pub struct Key {
    pub field: String,
    pub composite: Vec<String>,
}

/// A key together with the side it stands on; the side decides the fixed
/// prefix of the composed string.
#[derive(Debug)]
pub enum IndexKey {
    Partition(Key),
    Sort(Key),
}

/// Both sides of one index.
#[derive(Debug)]
pub struct IndexKeys {
    pub partition_key: IndexKey,
    pub sort_key: IndexKey,
}

/// The two composed key strings of one index, each paired with the physical
/// field it is stored under.
#[derive(Debug, PartialEq)]
pub struct IndexKeysComposed {
    pub partition_key: (String, String),
    pub sort_key: (String, String),
}

/// An index selector: the primary index, or a secondary index under its
/// registered physical name.
#[derive(Debug, PartialEq)]
pub enum Index {
    Primary,
    Gsi(String),
}

impl Index {
    /// The name the store knows the index under; the primary index has none
    /// and reads as `primary`.
    pub fn name(&self) -> (r: String)
        ensures
            match self {
                Index::Primary => r@ == "primary"@,
                Index::Gsi(n) => r@ == n@,
            },
    {
        match self {
            Index::Primary => String::from_str("primary"),
            Index::Gsi(n) => n.clone(),
        }
    }
}

/// Whether every element of a sequence occurs exactly once.
pub open spec fn distinct_seq<T>(s: Seq<T>) -> bool {
    forall|i: int, j: int| 0 <= i < j < s.len() ==> s[i] != s[j]
}

/// Whether some entry of `s` is annotated with position `p`.
pub open spec fn has_position(s: Seq<(String, u64)>, p: int) -> bool {
    exists|j: int| 0 <= j < s.len() && (#[trigger] s[j]).1 as int == p
}

/// Whether some entry of `s` is annotated with position `p` and carries the
/// attribute name `name`.
pub open spec fn position_names(s: Seq<(String, u64)>, p: int, name: Seq<char>) -> bool {
    exists|j: int| 0 <= j < s.len() && (#[trigger] s[j]).1 as int == p && s[j].0@ == name
}

/// The position of the first entry annotated with position `p`, if any.
fn find_position(composites: &Vec<(String, u64)>, p: usize) -> (r: Option<usize>)
    ensures
        match r {
            Some(j) => j < composites@.len() && composites@[j as int].1 as int == p as int,
            None => !has_position(composites@, p as int),
        },
{
    let n = composites.len();
    let mut j: usize = 0;
    while j < n
        invariant
            n == composites@.len(),
            0 <= j <= n,
            forall|x: int| 0 <= x < j ==> (#[trigger] composites@[x]).1 as int != p as int,
        decreases n - j,
    {
        if composites[j].1 == p as u64 {
            return Some(j);
        }
        j = j + 1;
    }
    None
}

impl Key {
    /// Builds a key whose composites are given with explicit positions,
    /// ordering them position `0, 1, 2, ...`. Positions must cover that range
    /// without a gap; a gap or a duplicate leaving a position empty is a
    /// schema conflict.
    pub fn from_positions(field: String, composites: Vec<(String, u64)>) -> (r: Result<
        Key,
        DeezError,
    >)
        ensures
            (r is Ok) <==> (forall|p: int|
                0 <= p < composites@.len() ==> #[trigger] has_position(composites@, p)),
            r matches Ok(k) ==> {
                &&& k.field@ == field@
                &&& k.composite@.len() == composites@.len()
                &&& forall|p: int|
                    0 <= p < composites@.len() ==> position_names(
                        composites@,
                        p,
                        #[trigger] k.composite@[p]@,
                    )
            },
            r matches Err(e) ==> e matches DeezError::SchemaConflict(n) && n@ == field@,
    {
        let n = composites.len();
        let mut ordered: Vec<String> = Vec::new();
        let mut p: usize = 0;
        while p < n
            invariant
                n == composites@.len(),
                0 <= p <= n,
                ordered@.len() == p,
                forall|q: int| 0 <= q < p ==> #[trigger] has_position(composites@, q),
                forall|q: int|
                    0 <= q < p ==> position_names(composites@, q, #[trigger] ordered@[q]@),
            decreases n - p,
        {
            match find_position(&composites, p) {
                Some(j) => {
                    ordered.push(composites[j].0.clone());
                    proof {
                        assert(position_names(composites@, p as int, ordered@[p as int]@));
                    }
                },
                None => {
                    return Err(DeezError::SchemaConflict(field));
                },
            }
            p = p + 1;
        }
        Ok(Key { field, composite: ordered })
    }
}

impl IndexKey {
    /// The key carried on either side.
    pub open spec fn spec_key(&self) -> Key {
        match self {
            IndexKey::Partition(k) => *k,
            IndexKey::Sort(k) => *k,
        }
    }

    /// Whether this is the partition side.
    pub open spec fn is_partition(&self) -> bool {
        self is Partition
    }

    /// The key carried on either side, by reference.
    pub fn key_ref(&self) -> (r: &Key)
        ensures
            *r == self.spec_key(),
    {
        match self {
            IndexKey::Partition(k) => k,
            IndexKey::Sort(k) => k,
        }
    }

    /// The physical field the composed string is stored under.
    pub fn field(&self) -> (r: String)
        ensures
            r@ == self.spec_key().field@,
    {
        match self {
            IndexKey::Partition(k) => k.field.clone(),
            IndexKey::Sort(k) => k.field.clone(),
        }
    }

    /// The ordered attribute names composed into this side.
    pub fn composite(&self) -> (r: Vec<String>)
        ensures
            r.deep_view() == self.spec_key().composite.deep_view(),
    {
        let k = match self {
            IndexKey::Partition(k) => k,
            IndexKey::Sort(k) => k,
        };
        let n = k.composite.len();
        let mut out: Vec<String> = Vec::new();
        let mut i: usize = 0;
        while i < n
            invariant
                n == k.composite@.len(),
                0 <= i <= n,
                out@.len() == i,
                forall|j: int| 0 <= j < i ==> out@[j]@ == k.composite@[j]@,
            decreases n - i,
        {
            out.push(k.composite[i].clone());
            i = i + 1;
        }
        proof {
            assert(out.deep_view() =~= k.composite.deep_view());
        }
        out
    }
}

/// The physical fields of the secondary indexes, partition side then sort
/// side, in declaration order.
pub open spec fn gsi_fields(s: Seq<(String, IndexKeys)>) -> Seq<Seq<char>>
    decreases s.len(),
{
    if s.len() == 0 {
        Seq::empty()
    } else {
        gsi_fields(s.drop_last()) + seq![
            s.last().1.partition_key.spec_key().field@,
            s.last().1.sort_key.spec_key().field@,
        ]
    }
}

/// The static configuration of one entity type: its table, its key-string
/// namespace, its primary and secondary indexes, its typed attributes, and
/// the read policy for absent fields.
#[derive(Debug)]
pub struct Schema {
    pub table: String,
    pub service: String,
    pub entity: String,
    pub primary_index: IndexKeys,
    pub global_secondary_indexes: Vec<(String, IndexKeys)>,
    pub attributes: Vec<(String, DynamoType)>,
    /// When true, a field absent from a read record is filled with its
    /// type's zero value instead of failing the read.
    pub default_lenient: bool,
    /// Per-field overrides of the read policy; the first entry naming a
    /// field wins.
    pub read_overrides: Vec<(String, bool)>,
}

impl Schema {
    /// The attribute declarations with heap strings replaced by views.
    pub open spec fn attr_entry_seq(&self) -> Seq<(Seq<char>, DynamoType)> {
        self.attributes@.map(|i: int, e: (String, DynamoType)| (e.0@, e.1))
    }

    /// The declared type of each attribute.
    pub open spec fn attr_types(&self) -> Map<Seq<char>, DynamoType> {
        assoc_map(self.attr_entry_seq())
    }

    /// The physical fields of every index, primary first.
    pub open spec fn field_list(&self) -> Seq<Seq<char>> {
        seq![
            self.primary_index.partition_key.spec_key().field@,
            self.primary_index.sort_key.spec_key().field@,
        ] + gsi_fields(self.global_secondary_indexes@)
    }

    /// One side is well-declared when its field is no attribute and each of
    /// its composites is a declared attribute.
    pub open spec fn side_ok(&self, k: Key) -> bool {
        &&& !self.attr_types().contains_key(k.field@)
        &&& forall|j: int|
            0 <= j < k.composite@.len() ==> self.attr_types().contains_key(
                #[trigger] k.composite@[j]@,
            )
    }

    /// Both sides of an index are well-declared.
    pub open spec fn index_ok(&self, ik: IndexKeys) -> bool {
        self.side_ok(ik.partition_key.spec_key()) && self.side_ok(ik.sort_key.spec_key())
    }

    /// Well-formed: attribute names are distinct, secondary index names are
    /// distinct, no physical key field is shared or collides with an
    /// attribute, and every composite is a declared attribute.
    pub open spec fn wf(&self) -> bool {
        &&& distinct_keys(self.attr_entry_seq())
        &&& forall|i: int, j: int|
            0 <= i < j < self.global_secondary_indexes@.len()
                ==> self.global_secondary_indexes@[i].0@
                != self.global_secondary_indexes@[j].0@
        &&& distinct_seq(self.field_list())
        &&& forall|i: int|
            0 <= i < self.field_list().len() ==> !self.attr_types().contains_key(
                #[trigger] self.field_list()[i],
            )
        &&& self.index_ok(self.primary_index)
        &&& forall|g: int|
            0 <= g < self.global_secondary_indexes@.len() ==> self.index_ok(
                #[trigger] self.global_secondary_indexes@[g].1,
            )
    }

    /// The position of the declaration of `name`, if any.
    fn attr_position(&self, name: &str) -> (r: Option<usize>)
        ensures
            match r {
                Some(i) => i < self.attributes@.len() && self.attributes@[i as int].0@ == name@,
                None => forall|j: int|
                    0 <= j < self.attributes@.len() ==> self.attributes@[j].0@ != name@,
            },
    {
        let n = self.attributes.len();
        let mut i: usize = 0;
        while i < n
            invariant
                n == self.attributes@.len(),
                0 <= i <= n,
                forall|j: int| 0 <= j < i ==> self.attributes@[j].0@ != name@,
            decreases n - i,
        {
            if str_eq(self.attributes[i].0.as_str(), name) {
                return Some(i);
            }
            i = i + 1;
        }
        None
    }

    /// Whether `name` is a declared attribute.
    pub fn has_attribute(&self, name: &str) -> (r: bool)
        ensures
            r == self.attr_types().contains_key(name@),
    {
        proof {
            crate::avmap::lemma_assoc_map_domain(self.attr_entry_seq(), name@);
        }
        match self.attr_position(name) {
            Some(i) => {
                proof {
                    assert(self.attr_entry_seq()[i as int].0 == name@);
                }
                true
            },
            None => {
                proof {
                    assert(forall|j: int|
                        0 <= j < self.attr_entry_seq().len() ==> self.attr_entry_seq()[j].0
                            != name@);
                }
                false
            },
        }
    }

    /// The declared type of `name`, if declared.
    pub fn attribute_type(&self, name: &str) -> (r: Option<DynamoType>)
        requires
            distinct_keys(self.attr_entry_seq()),
        ensures
            match r {
                Some(t) => self.attr_types().contains_key(name@) && self.attr_types()[name@] == t,
                None => !self.attr_types().contains_key(name@),
            },
    {
        proof {
            crate::avmap::lemma_assoc_map_domain(self.attr_entry_seq(), name@);
        }
        match self.attr_position(name) {
            Some(i) => {
                proof {
                    crate::avmap::lemma_assoc_map_index(self.attr_entry_seq(), i as int);
                    assert(self.attr_entry_seq()[i as int].0 == name@);
                }
                Some(self.attributes[i].1)
            },
            None => {
                proof {
                    assert(forall|j: int|
                        0 <= j < self.attr_entry_seq().len() ==> self.attr_entry_seq()[j].0
                            != name@);
                }
                None
            },
        }
    }

    /// Whether reads of `name` fill a zero value when the field is absent,
    /// per the field's override or the schema's default.
    pub open spec fn spec_lenient_for(overrides: Seq<(Seq<char>, bool)>, dflt: bool, name: Seq<
        char,
    >) -> bool
        decreases overrides.len(),
    {
        if overrides.len() == 0 {
            dflt
        } else if overrides[0].0 == name {
            overrides[0].1
        } else {
            Self::spec_lenient_for(overrides.drop_first(), dflt, name)
        }
    }

    /// The override entries with heap strings replaced by views.
    pub open spec fn override_seq(&self) -> Seq<(Seq<char>, bool)> {
        self.read_overrides@.map(|i: int, e: (String, bool)| (e.0@, e.1))
    }

    /// Whether reads of `name` are lenient for this schema.
    pub open spec fn lenient_for(&self, name: Seq<char>) -> bool {
        Self::spec_lenient_for(self.override_seq(), self.default_lenient, name)
    }

    /// Resolves the read policy of `name`.
    pub fn is_lenient(&self, name: &str) -> (r: bool)
        ensures
            r == self.lenient_for(name@),
    {
        let n = self.read_overrides.len();
        let mut i: usize = 0;
        proof {
            assert(self.override_seq().skip(0) =~= self.override_seq());
        }
        while i < n
            invariant
                n == self.read_overrides@.len(),
                0 <= i <= n,
                Self::spec_lenient_for(self.override_seq(), self.default_lenient, name@)
                    == Self::spec_lenient_for(
                    self.override_seq().skip(i as int),
                    self.default_lenient,
                    name@,
                ),
            decreases n - i,
        {
            proof {
                assert(self.override_seq().skip(i as int)[0] == self.override_seq()[i as int]);
            }
            if str_eq(self.read_overrides[i].0.as_str(), name) {
                return self.read_overrides[i].1;
            }
            proof {
                assert(self.override_seq().skip(i as int).drop_first() =~= self.override_seq()
                    .skip(i as int + 1));
            }
            i = i + 1;
        }
        proof {
            assert(self.override_seq().skip(n as int).len() == 0);
        }
        self.default_lenient
    }

    /// Scans the attribute declarations for a repeated name.
    fn check_attrs(&self) -> (r: Option<String>)
        ensures
            (r is None) <==> distinct_keys(self.attr_entry_seq()),
    {
        let n = self.attributes.len();
        let mut i: usize = 0;
        while i < n
            invariant
                n == self.attributes@.len(),
                0 <= i <= n,
                forall|a: int, b: int|
                    0 <= a < b < i ==> (#[trigger] self.attributes@[a]).0@
                        != (#[trigger] self.attributes@[b]).0@,
            decreases n - i,
        {
            let mut j: usize = 0;
            while j < i
                invariant
                    n == self.attributes@.len(),
                    i < n,
                    0 <= j <= i,
                    forall|b: int|
                        0 <= b < j ==> (#[trigger] self.attributes@[b]).0@
                            != self.attributes@[i as int].0@,
                decreases i - j,
            {
                if str_eq(self.attributes[j].0.as_str(), self.attributes[i].0.as_str()) {
                    proof {
                        assert(self.attr_entry_seq()[j as int].0
                            == self.attr_entry_seq()[i as int].0);
                    }
                    return Some(self.attributes[i].0.clone());
                }
                j = j + 1;
            }
            i = i + 1;
        }
        proof {
            assert(forall|a: int|
                0 <= a < n ==> (#[trigger] self.attr_entry_seq()[a]).0
                    == self.attributes@[a].0@);
        }
        None
    }

    /// Scans the secondary index declarations for a repeated index name.
    fn check_gsi_names(&self) -> (r: Option<String>)
        ensures
            (r is None) <==> (forall|i: int, j: int|
                0 <= i < j < self.global_secondary_indexes@.len()
                    ==> (#[trigger] self.global_secondary_indexes@[i]).0@
                    != (#[trigger] self.global_secondary_indexes@[j]).0@),
    {
        let n = self.global_secondary_indexes.len();
        let mut i: usize = 0;
        while i < n
            invariant
                n == self.global_secondary_indexes@.len(),
                0 <= i <= n,
                forall|a: int, b: int|
                    0 <= a < b < i ==> (#[trigger] self.global_secondary_indexes@[a]).0@
                        != (#[trigger] self.global_secondary_indexes@[b]).0@,
            decreases n - i,
        {
            let mut j: usize = 0;
            while j < i
                invariant
                    n == self.global_secondary_indexes@.len(),
                    i < n,
                    0 <= j <= i,
                    forall|b: int|
                        0 <= b < j ==> (#[trigger] self.global_secondary_indexes@[b]).0@
                            != self.global_secondary_indexes@[i as int].0@,
                decreases i - j,
            {
                if str_eq(
                    self.global_secondary_indexes[j].0.as_str(),
                    self.global_secondary_indexes[i].0.as_str(),
                ) {
                    return Some(self.global_secondary_indexes[i].0.clone());
                }
                j = j + 1;
            }
            i = i + 1;
        }
        None
    }

    /// Collects every physical key field, primary first, in the order of
    /// `field_list`.
    fn collect_fields(&self) -> (r: Vec<String>)
        ensures
            r.deep_view() == self.field_list(),
    {
        let mut out: Vec<String> = Vec::new();
        out.push(self.primary_index.partition_key.field());
        out.push(self.primary_index.sort_key.field());
        let n = self.global_secondary_indexes.len();
        let mut g: usize = 0;
        proof {
            assert(self.global_secondary_indexes@.take(0) =~= Seq::empty());
            assert(out.deep_view() =~= seq![
                self.primary_index.partition_key.spec_key().field@,
                self.primary_index.sort_key.spec_key().field@,
            ] + gsi_fields(self.global_secondary_indexes@.take(0)));
        }
        while g < n
            invariant
                n == self.global_secondary_indexes@.len(),
                0 <= g <= n,
                out@.len() == 2 + 2 * g,
                out.deep_view() == seq![
                    self.primary_index.partition_key.spec_key().field@,
                    self.primary_index.sort_key.spec_key().field@,
                ] + gsi_fields(self.global_secondary_indexes@.take(g as int)),
            decreases n - g,
        {
            let ghost pre = out.deep_view();
            out.push(self.global_secondary_indexes[g].1.partition_key.field());
            out.push(self.global_secondary_indexes[g].1.sort_key.field());
            proof {
                let gs = self.global_secondary_indexes@;
                assert(gs.take(g + 1).drop_last() =~= gs.take(g as int));
                assert(gs.take(g + 1).last() == gs[g as int]);
                assert(out.deep_view() =~= pre + seq![
                    gs[g as int].1.partition_key.spec_key().field@,
                    gs[g as int].1.sort_key.spec_key().field@,
                ]);
                assert(out.deep_view() =~= seq![
                    self.primary_index.partition_key.spec_key().field@,
                    self.primary_index.sort_key.spec_key().field@,
                ] + gsi_fields(gs.take(g + 1)));
            }
            g = g + 1;
        }
        proof {
            assert(self.global_secondary_indexes@.take(n as int)
                =~= self.global_secondary_indexes@);
        }
        out
    }

    /// Scans the physical key fields for a repeated field or one that
    /// collides with a declared attribute.
    fn check_fields(&self) -> (r: Option<String>)
        ensures
            (r is None) <==> (distinct_seq(self.field_list()) && forall|i: int|
                0 <= i < self.field_list().len() ==> !self.attr_types().contains_key(
                    #[trigger] self.field_list()[i],
                )),
    {
        let fields = self.collect_fields();
        let n = fields.len();
        let mut i: usize = 0;
        while i < n
            invariant
                n == fields@.len(),
                fields.deep_view() == self.field_list(),
                0 <= i <= n,
                forall|a: int, b: int|
                    0 <= a < b < i ==> fields.deep_view()[a] != fields.deep_view()[b],
                forall|a: int|
                    0 <= a < i ==> !self.attr_types().contains_key(
                        #[trigger] fields.deep_view()[a],
                    ),
            decreases n - i,
        {
            if self.has_attribute(fields[i].as_str()) {
                proof {
                    assert(self.field_list()[i as int] == fields@[i as int]@);
                }
                return Some(fields[i].clone());
            }
            let mut j: usize = 0;
            while j < i
                invariant
                    n == fields@.len(),
                    fields.deep_view() == self.field_list(),
                    i < n,
                    0 <= j <= i,
                    forall|b: int|
                        0 <= b < j ==> fields.deep_view()[b] != fields.deep_view()[i as int],
                decreases i - j,
            {
                if str_eq(fields[j].as_str(), fields[i].as_str()) {
                    proof {
                        assert(self.field_list()[j as int] == fields@[j as int]@);
                        assert(self.field_list()[i as int] == fields@[i as int]@);
                    }
                    return Some(fields[i].clone());
                }
                j = j + 1;
            }
            i = i + 1;
        }
        None
    }

    /// Scans one key for a composite over an undeclared attribute.
    fn check_side(&self, k: &Key) -> (r: Option<String>)
        ensures
            (r is None) <==> (forall|j: int|
                0 <= j < k.composite@.len() ==> self.attr_types().contains_key(
                    #[trigger] k.composite@[j]@,
                )),
    {
        let n = k.composite.len();
        let mut j: usize = 0;
        while j < n
            invariant
                n == k.composite@.len(),
                0 <= j <= n,
                forall|x: int|
                    0 <= x < j ==> self.attr_types().contains_key(#[trigger] k.composite@[x]@),
            decreases n - j,
        {
            if !self.has_attribute(k.composite[j].as_str()) {
                return Some(k.composite[j].clone());
            }
            j = j + 1;
        }
        None
    }

    /// Scans one side of an index for a composite over an undeclared
    /// attribute.
    fn check_index_side(&self, ik: &IndexKey) -> (r: Option<String>)
        ensures
            (r is None) <==> (forall|j: int|
                0 <= j < ik.spec_key().composite@.len() ==> self.attr_types().contains_key(
                    #[trigger] ik.spec_key().composite@[j]@,
                )),
    {
        match ik {
            IndexKey::Partition(k) => {
                proof {
                    assert(ik.spec_key() == *k);
                }
                self.check_side(k)
            },
            IndexKey::Sort(k) => {
                proof {
                    assert(ik.spec_key() == *k);
                }
                self.check_side(k)
            },
        }
    }

    /// Scans both sides of one index for a composite over an undeclared
    /// attribute.
    fn check_index(&self, ik: &IndexKeys) -> (r: Option<String>)
        ensures
            (r is None) <==> (forall|j: int|
                0 <= j < ik.partition_key.spec_key().composite@.len()
                    ==> self.attr_types().contains_key(
                    #[trigger] ik.partition_key.spec_key().composite@[j]@,
                )) && (forall|j: int|
                0 <= j < ik.sort_key.spec_key().composite@.len()
                    ==> self.attr_types().contains_key(
                    #[trigger] ik.sort_key.spec_key().composite@[j]@,
                )),
    {
        if let Some(bad) = self.check_index_side(&ik.partition_key) {
            return Some(bad);
        }
        if let Some(bad) = self.check_index_side(&ik.sort_key) {
            return Some(bad);
        }
        None
    }

    /// Builds a schema after validating it: attribute names must be
    /// distinct, secondary index names must be distinct, no physical key
    /// field may repeat or collide with an attribute, and every composite
    /// must name a declared attribute. Any violation is a schema conflict
    /// naming the offending item.
    #[verifier::loop_isolation(false)]
    pub fn new(
        table: String,
        service: String,
        entity: String,
        primary_index: IndexKeys,
        global_secondary_indexes: Vec<(String, IndexKeys)>,
        attributes: Vec<(String, DynamoType)>,
        default_lenient: bool,
        read_overrides: Vec<(String, bool)>,
    ) -> (r: Result<Schema, DeezError>)
        ensures
            r matches Ok(s) ==> {
                &&& s.wf()
                &&& s.table == table
                &&& s.service == service
                &&& s.entity == entity
                &&& s.primary_index == primary_index
                &&& s.global_secondary_indexes == global_secondary_indexes
                &&& s.attributes == attributes
                &&& s.default_lenient == default_lenient
                &&& s.read_overrides == read_overrides
            },
            r matches Err(e) ==> e is SchemaConflict,
            (r is Ok) <==> (Schema {
                table,
                service,
                entity,
                primary_index,
                global_secondary_indexes,
                attributes,
                default_lenient,
                read_overrides,
            }).wf(),
    {
        let s = Schema {
            table,
            service,
            entity,
            primary_index,
            global_secondary_indexes,
            attributes,
            default_lenient,
            read_overrides,
        };
        if let Some(bad) = s.check_attrs() {
            return Err(DeezError::SchemaConflict(bad));
        }
        if let Some(bad) = s.check_gsi_names() {
            return Err(DeezError::SchemaConflict(bad));
        }
        if let Some(bad) = s.check_fields() {
            proof {
                assert(!s.wf());
            }
            return Err(DeezError::SchemaConflict(bad));
        }
        if let Some(bad) = s.check_index(&s.primary_index) {
            proof {
                if s.index_ok(s.primary_index) {
                    assert(forall|j: int|
                        0 <= j < s.primary_index.partition_key.spec_key().composite@.len()
                            ==> s.attr_types().contains_key(
                            #[trigger] s.primary_index.partition_key.spec_key().composite@[j]@,
                        ));
                    assert(forall|j: int|
                        0 <= j < s.primary_index.sort_key.spec_key().composite@.len()
                            ==> s.attr_types().contains_key(
                            #[trigger] s.primary_index.sort_key.spec_key().composite@[j]@,
                        ));
                }
                assert(!s.index_ok(s.primary_index));
            }
            return Err(DeezError::SchemaConflict(bad));
        }
        let n = s.global_secondary_indexes.len();
        let mut g: usize = 0;
        while g < n
            invariant
                n == s.global_secondary_indexes@.len(),
                0 <= g <= n,
                forall|x: int|
                    0 <= x < g ==> s.index_ok(#[trigger] s.global_secondary_indexes@[x].1),
                distinct_keys(s.attr_entry_seq()),
                distinct_seq(s.field_list()),
                forall|i: int|
                    0 <= i < s.field_list().len() ==> !s.attr_types().contains_key(
                        #[trigger] s.field_list()[i],
                    ),
            decreases n - g,
        {
            if let Some(bad) = s.check_index(&s.global_secondary_indexes[g].1) {
                proof {
                    let ik = s.global_secondary_indexes@[g as int].1;
                    if s.index_ok(ik) {
                        assert(forall|j: int|
                            0 <= j < ik.partition_key.spec_key().composite@.len()
                                ==> s.attr_types().contains_key(
                                #[trigger] ik.partition_key.spec_key().composite@[j]@,
                            ));
                        assert(forall|j: int|
                            0 <= j < ik.sort_key.spec_key().composite@.len()
                                ==> s.attr_types().contains_key(
                                #[trigger] ik.sort_key.spec_key().composite@[j]@,
                            ));
                    }
                    assert(!s.index_ok(ik));
                    assert(!s.wf());
                }
                return Err(DeezError::SchemaConflict(bad));
            }
            proof {
                Self::lemma_field_in_list(s, g as int);
                assert(s.index_ok(s.global_secondary_indexes@[g as int].1));
            }
            g = g + 1;
        }
        proof {
            assert(s.field_list()[0] == s.primary_index.partition_key.spec_key().field@);
            assert(s.field_list()[1] == s.primary_index.sort_key.spec_key().field@);
            assert(s.index_ok(s.primary_index));
        }
        Ok(s)
    }

    /// The fields of secondary index `g` stand in the field list at
    /// positions `2 + 2 g` and `3 + 2 g`.
    pub proof fn lemma_field_in_list(s: Schema, g: int)
        requires
            0 <= g < s.global_secondary_indexes@.len(),
        ensures
            s.field_list()[2 + 2 * g] == s.global_secondary_indexes@[g].1.partition_key.spec_key()
                .field@,
            s.field_list()[3 + 2 * g] == s.global_secondary_indexes@[g].1.sort_key.spec_key()
                .field@,
            s.field_list().len() == 2 + 2 * s.global_secondary_indexes@.len(),
    {
        Self::lemma_gsi_fields_position(s.global_secondary_indexes@, g);
    }

    /// Position of one secondary index's fields inside `gsi_fields`.
    proof fn lemma_gsi_fields_position(s: Seq<(String, IndexKeys)>, g: int)
        requires
            0 <= g < s.len(),
        ensures
            gsi_fields(s).len() == 2 * s.len(),
            gsi_fields(s)[2 * g] == s[g].1.partition_key.spec_key().field@,
            gsi_fields(s)[2 * g + 1] == s[g].1.sort_key.spec_key().field@,
        decreases s.len(),
    {
        if s.len() > 1 && g < s.len() - 1 {
            Self::lemma_gsi_fields_position(s.drop_last(), g);
            assert(s.drop_last()[g] == s[g]);
        } else {
            if s.len() > 1 {
                Self::lemma_gsi_fields_position(s.drop_last(), s.len() - 2);
            } else {
                assert(s.drop_last().len() == 0);
                assert(gsi_fields(s.drop_last()).len() == 0);
            }
        }
    }
}

} // verus!
