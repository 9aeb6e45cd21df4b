//! Batch request descriptions: puts and deletes grouped by physical table,
//! and batched primary-key reads. Grouping is this layer's whole duty here;
//! partial-batch failure belongs to the store.

use vstd::prelude::*;
use vstd::string::StringExecFns;
use crate::avmap::{assoc_map, distinct_keys, lemma_assoc_map_domain, lemma_assoc_map_index,
    lemma_assoc_map_update, AttrMap};
use crate::record::spec_with_keys;
use crate::schema::{IndexKeysComposed, Schema};
use crate::strutil::str_eq;
use crate::value::SpecValue;

verus! {

/// One write of a batch: a full record to put, or a primary key to delete.
#[derive(Debug)]
pub enum WriteUnit {
    Put(AttrMap),
    Delete(Vec<(String, String)>),
}

/// The model of one batched write.
pub enum WriteUnitSpec {
    Put(Map<Seq<char>, SpecValue>),
    Delete(Seq<(Seq<char>, Seq<char>)>),
}

impl View for WriteUnit {
    type V = WriteUnitSpec;

    open spec fn view(&self) -> WriteUnitSpec {
        match self {
            WriteUnit::Put(m) => WriteUnitSpec::Put(m@),
            WriteUnit::Delete(k) => WriteUnitSpec::Delete(
                k@.map(|i: int, p: (String, String)| (p.0@, p.1@)),
            ),
        }
    }
}

/// The models of a table's writes, in order.
pub open spec fn units_view(s: Seq<WriteUnit>) -> Seq<WriteUnitSpec> {
    s.map(|i: int, u: WriteUnit| u@)
}

/// A batch write extended by one unit for one table: the unit joins the
/// table's group, a first unit opens it.
pub open spec fn spec_batch_add(
    m: Map<Seq<char>, Seq<WriteUnitSpec>>,
    t: Seq<char>,
    u: WriteUnitSpec,
) -> Map<Seq<char>, Seq<WriteUnitSpec>> {
    m.insert(
        t,
        if m.contains_key(t) {
            m[t].push(u)
        } else {
            seq![u]
        },
    )
}

/// A batch write extended by the put of every entity from `i` on.
pub open spec fn spec_batch_puts(
    s: &Schema,
    m: Map<Seq<char>, Seq<WriteUnitSpec>>,
    entities: Seq<AttrMap>,
    i: int,
) -> Map<Seq<char>, Seq<WriteUnitSpec>>
    decreases entities.len() - i,
    when i <= entities.len()
{
    if i >= entities.len() {
        m
    } else {
        spec_batch_puts(
            s,
            spec_batch_add(m, s.table@, WriteUnitSpec::Put(spec_with_keys(s, entities[i]@))),
            entities,
            i + 1,
        )
    }
}

/// The delete unit of one entity: both primary key pairs.
pub open spec fn spec_delete_unit(s: &Schema, m: Map<Seq<char>, SpecValue>) -> WriteUnitSpec {
    WriteUnitSpec::Delete(
        seq![
            (
                s.primary_index.partition_key.spec_key().field@,
                s.spec_composed_side(s.primary_index.partition_key, m),
            ),
            (
                s.primary_index.sort_key.spec_key().field@,
                s.spec_composed_side(s.primary_index.sort_key, m),
            ),
        ],
    )
}

/// A batch write extended by the delete of every entity from `i` on.
pub open spec fn spec_batch_deletes(
    s: &Schema,
    m: Map<Seq<char>, Seq<WriteUnitSpec>>,
    entities: Seq<AttrMap>,
    i: int,
) -> Map<Seq<char>, Seq<WriteUnitSpec>>
    decreases entities.len() - i,
    when i <= entities.len()
{
    if i >= entities.len() {
        m
    } else {
        spec_batch_deletes(
            s,
            spec_batch_add(m, s.table@, spec_delete_unit(s, entities[i]@)),
            entities,
            i + 1,
        )
    }
}

/// An in-progress batch write, its units grouped by physical table.
#[derive(Debug)]
pub struct DeezBatchWriteBuilder {
    pub writes: Vec<(String, Vec<WriteUnit>)>,
}

/// A finished batch write description.
#[derive(Debug)]
pub struct BatchWriteRequest {
    pub requests: Vec<(String, Vec<WriteUnit>)>,
}

/// A batched primary-key read over one table.
#[derive(Debug)]
pub struct BatchGetRequest {
    pub table: String,
    pub keys: Vec<IndexKeysComposed>,
}

/// Opens an empty batch write.
pub fn batch_write() -> (r: DeezBatchWriteBuilder)
    ensures
        r.wf(),
        r@ == Map::<Seq<char>, Seq<WriteUnitSpec>>::empty(),
{
    DeezBatchWriteBuilder { writes: Vec::new() }
}

impl DeezBatchWriteBuilder {
    /// The groups with heap strings replaced by views.
    pub open spec fn entry_seq(&self) -> Seq<(Seq<char>, Seq<WriteUnitSpec>)> {
        self.writes@.map(|i: int, e: (String, Vec<WriteUnit>)| (e.0@, units_view(e.1@)))
    }

    /// Well-formed: one group per table.
    pub open spec fn wf(&self) -> bool {
        distinct_keys(self.entry_seq())
    }
}

impl View for DeezBatchWriteBuilder {
    type V = Map<Seq<char>, Seq<WriteUnitSpec>>;

    open spec fn view(&self) -> Map<Seq<char>, Seq<WriteUnitSpec>> {
        assoc_map(self.entry_seq())
    }
}

impl DeezBatchWriteBuilder {
    /// Appends one unit to its table's group, opening the group if the table
    /// has none yet.
    #[verifier::loop_isolation(false)]
    fn add_unit(&mut self, table: &str, unit: WriteUnit)
        requires
            old(self).wf(),
        ensures
            final(self).wf(),
            final(self)@ == spec_batch_add(old(self)@, table@, unit@),
    {
        let ghost pre = self.entry_seq();
        let n = self.writes.len();
        let mut i: usize = 0;
        while i < n
            invariant
                n == self.writes@.len(),
                0 <= i <= n,
                self == old(self),
                forall|x: int| 0 <= x < i ==> (#[trigger] self.writes@[x]).0@ != table@,
            decreases n - i,
        {
            if str_eq(self.writes[i].0.as_str(), table) {
                proof {
                    lemma_assoc_map_domain(pre, table@);
                    lemma_assoc_map_index(pre, i as int);
                    assert(pre[i as int].0 == table@);
                    lemma_assoc_map_update(pre, i as int, pre[i as int].1.push(unit@));
                }
                let ghost old_units = self.writes@[i as int].1@;
                self.writes[i].1.push(unit);
                proof {
                    assert(units_view(self.writes@[i as int].1@) =~= units_view(old_units).push(
                        unit@,
                    ));
                    assert(self.entry_seq() =~= pre.update(
                        i as int,
                        (pre[i as int].0, pre[i as int].1.push(unit@)),
                    ));
                }
                return ;
            }
            i = i + 1;
        }
        proof {
            lemma_assoc_map_domain(pre, table@);
            assert(!old(self)@.contains_key(table@));
        }
        let mut units: Vec<WriteUnit> = Vec::new();
        units.push(unit);
        self.writes.push((String::from_str(table), units));
        proof {
            assert(units_view(self.writes@.last().1@) =~= seq![self.writes@.last().1@[0]@]);
            assert(self.entry_seq() =~= pre.push((table@, units_view(self.writes@.last().1@))));
            assert(self.entry_seq().drop_last() =~= pre);
            assert(distinct_keys(self.entry_seq())) by {
                assert(forall|j: int| 0 <= j < pre.len() ==> pre[j].0 != table@);
                assert(forall|x: int| 0 <= x < pre.len() ==> self.entry_seq()[x] == pre[x]);
            }
        }
    }

    /// Adds one put unit per entity, each carrying the entity's full store
    /// record, all grouped under the schema's table.
    #[verifier::loop_isolation(false)]
    pub fn put(self, schema: &Schema, entities: &Vec<AttrMap>) -> (r: DeezBatchWriteBuilder)
        requires
            self.wf(),
            forall|i: int| 0 <= i < entities@.len() ==> (#[trigger] entities@[i]).wf(),
        ensures
            r.wf(),
            r@ == spec_batch_puts(schema, self@, entities@, 0),
    {
        let mut b = self;
        let ghost init = b@;
        let n = entities.len();
        let mut g: usize = 0;
        while g < n
            invariant
                b.wf(),
                0 <= g <= n,
                spec_batch_puts(schema, init, entities@, 0) == spec_batch_puts(
                    schema,
                    b@,
                    entities@,
                    g as int,
                ),
            decreases n - g,
        {
            let record = schema.to_av_map_with_keys(&entities[g]);
            b.add_unit(schema.table.as_str(), WriteUnit::Put(record));
            g = g + 1;
        }
        b
    }

    /// Adds one delete unit per entity, each carrying the entity's primary
    /// key pairs, all grouped under the schema's table.
    #[verifier::loop_isolation(false)]
    pub fn delete(self, schema: &Schema, entities: &Vec<AttrMap>) -> (r: DeezBatchWriteBuilder)
        requires
            self.wf(),
            forall|i: int| 0 <= i < entities@.len() ==> (#[trigger] entities@[i]).wf(),
        ensures
            r.wf(),
            r@ == spec_batch_deletes(schema, self@, entities@, 0),
    {
        let mut b = self;
        let ghost init = b@;
        let n = entities.len();
        let mut g: usize = 0;
        while g < n
            invariant
                b.wf(),
                0 <= g <= n,
                spec_batch_deletes(schema, init, entities@, 0) == spec_batch_deletes(
                    schema,
                    b@,
                    entities@,
                    g as int,
                ),
            decreases n - g,
        {
            let pairs = schema.primary_key_pairs(&entities[g]);
            let unit = WriteUnit::Delete(pairs);
            proof {
                assert(unit@ == spec_delete_unit(schema, entities@[g as int]@)) by {
                    assert(unit@ matches WriteUnitSpec::Delete(ps) ==> ps =~= seq![
                        (
                            schema.primary_index.partition_key.spec_key().field@,
                            schema.spec_composed_side(
                                schema.primary_index.partition_key,
                                entities@[g as int]@,
                            ),
                        ),
                        (
                            schema.primary_index.sort_key.spec_key().field@,
                            schema.spec_composed_side(
                                schema.primary_index.sort_key,
                                entities@[g as int]@,
                            ),
                        ),
                    ]);
                }
            }
            b.add_unit(schema.table.as_str(), unit);
            g = g + 1;
        }
        b
    }

    /// The finished batch write description.
    pub fn build(self) -> (r: BatchWriteRequest)
        ensures
            r.requests == self.writes,
    {
        BatchWriteRequest { requests: self.writes }
    }
}

impl Schema {
    /// Describes a batched read of every entity's record by primary key.
    #[verifier::loop_isolation(false)]
    pub fn batch_get(&self, entities: &Vec<AttrMap>) -> (r: BatchGetRequest)
        requires
            forall|i: int| 0 <= i < entities@.len() ==> (#[trigger] entities@[i]).wf(),
        ensures
            r.table@ == self.table@,
            r.keys@.len() == entities@.len(),
            forall|i: int|
                0 <= i < entities@.len() ==> self.composed_matches(
                    self.primary_index,
                    entities@[i]@,
                    #[trigger] r.keys@[i],
                ),
    {
        let n = entities.len();
        let mut keys: Vec<IndexKeysComposed> = Vec::new();
        let mut g: usize = 0;
        while g < n
            invariant
                0 <= g <= n,
                keys@.len() == g,
                forall|i: int|
                    0 <= i < g ==> self.composed_matches(
                        self.primary_index,
                        entities@[i]@,
                        #[trigger] keys@[i],
                    ),
            decreases n - g,
        {
            keys.push(self.composed_index(&self.primary_index, &entities[g]));
            g = g + 1;
        }
        BatchGetRequest { table: self.table.clone(), keys }
    }
}

} // verus!
