//! Range-query request descriptions: partition equality plus a sort-key
//! comparison. The default comparison is begins-with over the composed sort
//! key; the other operators replace only the sort-key side, reusing the same
//! composed partition key.

use vstd::prelude::*;
use vstd::string::StringExecFns;
use crate::avmap::AttrMap;
use crate::error::DeezError;
use crate::schema::{Index, IndexKeys, Schema};
use crate::strutil::str_eq;
use crate::value::{AttrValue, SpecValue};

verus! {

/// A described range query.
#[derive(Debug)]
pub struct QueryRequest {
    pub table: String,
    pub index_name: Option<String>,
    pub key_condition_expression: String,
    pub expression_attribute_names: Vec<(String, String)>,
    pub expression_attribute_values: Vec<(String, AttrValue)>,
}

/// An in-progress query description: the partition condition is fixed, the
/// sort-key comparison can be swapped before building.
#[derive(Debug)]
pub struct DeezQueryBuilder<'a> {
    pub schema: &'a Schema,
    pub index: Index,
    pub index_name: Option<String>,
    pub exp: String,
    pub exp_appendix: String,
    pub names: Vec<(String, String)>,
    pub values: Vec<(String, AttrValue)>,
}

impl Schema {
    /// Whether the selector names an index this schema registers.
    pub open spec fn spec_has_index(&self, index: Index) -> bool {
        match index {
            Index::Primary => true,
            Index::Gsi(nm) => exists|g: int|
                0 <= g < self.global_secondary_indexes@.len()
                    && (#[trigger] self.global_secondary_indexes@[g]).0@ == nm@,
        }
    }

    /// Whether `ik` is a pair of keys the selector names.
    pub open spec fn spec_keys_for(&self, index: Index, ik: IndexKeys) -> bool {
        match index {
            Index::Primary => ik == self.primary_index,
            Index::Gsi(nm) => exists|g: int|
                0 <= g < self.global_secondary_indexes@.len()
                    && (#[trigger] self.global_secondary_indexes@[g]).0@ == nm@
                    && self.global_secondary_indexes@[g].1 == ik,
        }
    }

    /// Looks the selected index's keys up.
    #[verifier::loop_isolation(false)]
    fn find_index_keys<'a>(&'a self, index: &Index) -> (r: Option<&'a IndexKeys>)
        ensures
            match r {
                Some(ik) => self.spec_keys_for(*index, *ik),
                None => !self.spec_has_index(*index),
            },
    {
        match index {
            Index::Primary => Some(&self.primary_index),
            Index::Gsi(nm) => {
                let n = self.global_secondary_indexes.len();
                let mut g: usize = 0;
                while g < n
                    invariant
                        n == self.global_secondary_indexes@.len(),
                        0 <= g <= n,
                        forall|x: int|
                            0 <= x < g ==> (#[trigger] self.global_secondary_indexes@[x]).0@
                                != nm@,
                    decreases n - g,
                {
                    if str_eq(self.global_secondary_indexes[g].0.as_str(), nm.as_str()) {
                        proof {
                            assert(self.global_secondary_indexes@[g as int].0@ == nm@);
                            assert(self.spec_keys_for(
                                *index,
                                self.global_secondary_indexes@[g as int].1,
                            ));
                        }
                        return Some(&self.global_secondary_indexes[g].1);
                    }
                    g = g + 1;
                }
                None
            },
        }
    }
}

/// Whether the builder's names and values carry the fields of `ik` and the
/// keys composed from attribute map `m`, with the sort value under `:sk1`.
pub open spec fn spec_fresh_query<'a>(
    s: &Schema,
    ik: IndexKeys,
    m: Map<Seq<char>, SpecValue>,
    b: DeezQueryBuilder<'a>,
) -> bool {
    &&& b.names@.len() == 2
    &&& b.names@[0].0@ == "#pk"@
    &&& b.names@[0].1@ == ik.partition_key.spec_key().field@
    &&& b.names@[1].0@ == "#sk1"@
    &&& b.names@[1].1@ == ik.sort_key.spec_key().field@
    &&& b.values@.len() == 2
    &&& b.values@[0].0@ == ":pk"@
    &&& b.values@[0].1@ == SpecValue::Str(s.spec_composed_side(ik.partition_key, m))
    &&& b.values@[1].0@ == ":sk1"@
    &&& b.values@[1].1@ == SpecValue::Str(s.spec_composed_side(ik.sort_key, m))
}

/// Whether some entry of the builder's values carries the key `:sk1`.
pub open spec fn spec_has_sk1(values: Seq<(String, AttrValue)>) -> bool {
    exists|i: int| 0 <= i < values.len() && (#[trigger] values[i]).0@ == ":sk1"@
}

/// Whether builder `b` is builder `prev` with the first `:sk1` value
/// replaced by the sort key composed from attribute map `m`, and everything
/// else but the sort-key comparison left as it stands.
pub open spec fn spec_sk1_replaced<'a>(
    prev: DeezQueryBuilder<'a>,
    m: Map<Seq<char>, SpecValue>,
    b: DeezQueryBuilder<'a>,
) -> bool {
    &&& b.schema == prev.schema
    &&& b.index == prev.index
    &&& b.index_name == prev.index_name
    &&& b.exp == prev.exp
    &&& b.names == prev.names
    &&& exists|i: int, ik: IndexKeys|
        {
            &&& 0 <= i < prev.values@.len()
            &&& (#[trigger] prev.values@[i]).0@ == ":sk1"@
            &&& forall|x: int| 0 <= x < i ==> (#[trigger] prev.values@[x]).0@ != ":sk1"@
            &&& #[trigger] prev.schema.spec_keys_for(prev.index, ik)
            &&& b.values@.len() == prev.values@.len()
            &&& (forall|x: int|
                0 <= x < prev.values@.len() && x != i ==> (#[trigger] b.values@[x])
                    == prev.values@[x])
            &&& b.values@[i].0 == prev.values@[i].0
            &&& b.values@[i].1@ == SpecValue::Str(
                prev.schema.spec_composed_side(ik.sort_key, m),
            )
        }
}

impl Schema {
    /// Begins a query over the selected index: partition key equals the
    /// composed partition key of the template entity, and by default the
    /// sort key begins with its composed sort key. Fails exactly when the
    /// selector names an unregistered index.
    pub fn query<'a>(&'a self, index: Index, entity: &AttrMap) -> (r: Result<
        DeezQueryBuilder<'a>,
        DeezError,
    >)
        requires
            entity.wf(),
        ensures
            (r is Ok) <==> self.spec_has_index(index),
            r matches Ok(b) ==> {
                &&& b.schema == self
                &&& b.index == index
                &&& (match index {
                    Index::Primary => b.index_name is None,
                    Index::Gsi(nm) => b.index_name matches Some(n) && n@ == nm@,
                })
                &&& b.exp@ == "#pk = :pk"@
                &&& b.exp_appendix@ == "and begins_with(#sk1, :sk1)"@
                &&& exists|ik: IndexKeys|
                    #[trigger] self.spec_keys_for(index, ik) && spec_fresh_query(
                        self,
                        ik,
                        entity@,
                        b,
                    )
            },
            r matches Err(e) ==> e matches DeezError::UnknownSchemaIndex(n) && index matches
                Index::Gsi(nm) && n@ == nm@,
    {
        let keys = match self.find_index_keys(&index) {
            Some(ik) => ik,
            None => {
                let nm = match index {
                    Index::Gsi(nm) => nm,
                    Index::Primary => {
                        proof {
                            assert(false);
                        }
                        String::new()
                    },
                };
                return Err(DeezError::UnknownSchemaIndex(nm));
            },
        };
        let c = self.composed_index(keys, entity);
        let index_name = match &index {
            Index::Primary => None,
            Index::Gsi(nm) => Some(nm.clone()),
        };
        let mut names: Vec<(String, String)> = Vec::new();
        names.push((String::from_str("#pk"), c.partition_key.0));
        names.push((String::from_str("#sk1"), c.sort_key.0));
        let mut values: Vec<(String, AttrValue)> = Vec::new();
        values.push((String::from_str(":pk"), AttrValue::Str(c.partition_key.1)));
        values.push((String::from_str(":sk1"), AttrValue::Str(c.sort_key.1)));
        Ok(
            DeezQueryBuilder {
                schema: self,
                index,
                index_name,
                exp: String::from_str("#pk = :pk"),
                exp_appendix: String::from_str("and begins_with(#sk1, :sk1)"),
                names,
                values,
            },
        )
    }
}

impl<'a> DeezQueryBuilder<'a> {
    /// Recomposes the sort key for a new template entity and stores it under
    /// the first `:sk1` entry, leaving everything else as it stands. Fails
    /// when the builder's index is not registered or its values carry no
    /// `:sk1` entry.
    #[verifier::loop_isolation(false)]
    fn replace_sk1(self, entity: &AttrMap) -> (r: Result<DeezQueryBuilder<'a>, DeezError>)
        requires
            entity.wf(),
        ensures
            (r is Ok) <==> (self.schema.spec_has_index(self.index) && spec_has_sk1(self.values@)),
            r matches Ok(b) ==> spec_sk1_replaced(self, entity@, b) && b.exp_appendix
                == self.exp_appendix,
            r matches Err(e) ==> if self.schema.spec_has_index(self.index) {
                e matches DeezError::UnknownAttributeValueKey(n) && n@ == ":sk1"@
            } else {
                e is UnknownSchemaIndex
            },
    {
        let keys = match self.schema.find_index_keys(&self.index) {
            Some(ik) => ik,
            None => {
                return Err(DeezError::UnknownSchemaIndex(self.index.name()));
            },
        };
        let composed = self.schema.composed_key(&keys.sort_key, entity);
        let n = self.values.len();
        let mut i: usize = 0;
        while i < n
            invariant
                n == self.values@.len(),
                0 <= i <= n,
                forall|x: int| 0 <= x < i ==> (#[trigger] self.values@[x]).0@ != ":sk1"@,
            decreases n - i,
        {
            if str_eq(self.values[i].0.as_str(), ":sk1") {
                let ghost prev = self;
                let mut out = self;
                out.values[i].1 = AttrValue::Str(composed);
                proof {
                    let j = i as int;
                    assert(out.values@[j].0 == prev.values@[j].0);
                    assert(out.values@[j].1@ == SpecValue::Str(
                        prev.schema.spec_composed_side(keys.sort_key, entity@),
                    ));
                    assert(forall|x: int|
                        0 <= x < prev.values@.len() && x != j ==> (#[trigger] out.values@[x])
                            == prev.values@[x]);
                    assert(prev.schema.spec_keys_for(prev.index, *keys));
                    assert(spec_sk1_replaced(prev, entity@, out));
                }
                return Ok(out);
            }
            i = i + 1;
        }
        proof {
            reveal_strlit(":sk1");
        }
        Err(DeezError::UnknownAttributeValueKey(String::from_str(":sk1")))
    }

    /// Keeps the begins-with comparison but recomposes the sort-key bound
    /// from a new template entity.
    pub fn begins(self, entity: &AttrMap) -> (r: Result<DeezQueryBuilder<'a>, DeezError>)
        requires
            entity.wf(),
        ensures
            (r is Ok) <==> (self.schema.spec_has_index(self.index) && spec_has_sk1(self.values@)),
            r matches Ok(b) ==> spec_sk1_replaced(self, entity@, b) && b.exp_appendix
                == self.exp_appendix,
    {
        self.replace_sk1(entity)
    }

    /// Swaps the comparison to: sort key strictly below the bound composed
    /// from the template entity.
    pub fn lt(self, entity: &AttrMap) -> (r: Result<DeezQueryBuilder<'a>, DeezError>)
        requires
            entity.wf(),
        ensures
            (r is Ok) <==> (self.schema.spec_has_index(self.index) && spec_has_sk1(self.values@)),
            r matches Ok(b) ==> spec_sk1_replaced(self, entity@, b) && b.exp_appendix@
                == "and #sk1 < :sk1"@,
    {
        match self.replace_sk1(entity) {
            Ok(mut b) => {
                b.exp_appendix = String::from_str("and #sk1 < :sk1");
                Ok(b)
            },
            Err(e) => Err(e),
        }
    }

    /// Swaps the comparison to: sort key at or above the bound composed from
    /// the template entity.
    pub fn gte(self, entity: &AttrMap) -> (r: Result<DeezQueryBuilder<'a>, DeezError>)
        requires
            entity.wf(),
        ensures
            (r is Ok) <==> (self.schema.spec_has_index(self.index) && spec_has_sk1(self.values@)),
            r matches Ok(b) ==> spec_sk1_replaced(self, entity@, b) && b.exp_appendix@
                == "and #sk1 >= :sk1"@,
    {
        match self.replace_sk1(entity) {
            Ok(mut b) => {
                b.exp_appendix = String::from_str("and #sk1 >= :sk1");
                Ok(b)
            },
            Err(e) => Err(e),
        }
    }

    /// Swaps the comparison to: sort key between the bounds composed from
    /// the two template entities, the low one under `:sk1` and the high one
    /// appended under `:sk2`.
    pub fn between(self, low: &AttrMap, high: &AttrMap) -> (r: Result<
        DeezQueryBuilder<'a>,
        DeezError,
    >)
        requires
            low.wf(),
            high.wf(),
        ensures
            (r is Ok) <==> (self.schema.spec_has_index(self.index) && spec_has_sk1(self.values@)),
            r matches Ok(b) ==> {
                &&& b.exp_appendix@ == "and #sk1 BETWEEN :sk1 AND :sk2"@
                &&& b.values@.len() >= 1
                &&& b.values@.last().0@ == ":sk2"@
                &&& exists|ik: IndexKeys|
                    #[trigger] self.schema.spec_keys_for(self.index, ik)
                        && b.values@.last().1@ == SpecValue::Str(
                        self.schema.spec_composed_side(ik.sort_key, high@),
                    )
                &&& exists|b1: DeezQueryBuilder<'a>|
                    #[trigger] spec_sk1_replaced(self, low@, b1) && b.values@
                        == b1.values@.push(b.values@.last()) && b.names == b1.names
                        && b.index_name == b1.index_name && b.exp == b1.exp
            },
    {
        match self.replace_sk1(low) {
            Ok(mut b) => {
                let keys = match b.schema.find_index_keys(&b.index) {
                    Some(ik) => ik,
                    None => {
                        proof {
                            assert(false);
                        }
                        return Err(DeezError::UnknownSchemaIndex(b.index.name()));
                    },
                };
                let composed = b.schema.composed_key(&keys.sort_key, high);
                b.values.push((String::from_str(":sk2"), AttrValue::Str(composed)));
                b.exp_appendix = String::from_str("and #sk1 BETWEEN :sk1 AND :sk2");
                Ok(b)
            },
            Err(e) => Err(e),
        }
    }

    /// Renders the finished query description: the key condition joins the
    /// fixed partition equality with the chosen sort-key comparison.
    pub fn build(self) -> (r: QueryRequest)
        ensures
            r.table@ == self.schema.table@,
            r.index_name == self.index_name,
            r.key_condition_expression@ == self.exp@ + " "@ + self.exp_appendix@,
            r.expression_attribute_names == self.names,
            r.expression_attribute_values == self.values,
    {
        let kce = self.exp.concat(" ").concat(self.exp_appendix.as_str());
        QueryRequest {
            table: self.schema.table.clone(),
            index_name: self.index_name,
            key_condition_expression: kce,
            expression_attribute_names: self.names,
            expression_attribute_values: self.values,
        }
    }
}

} // verus!
