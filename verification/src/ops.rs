//! Write-side request descriptions: put, create, delete and remove. Each
//! builder is a pure constructor of a request description; sending it to the
//! store is the caller's concern.

use vstd::prelude::*;
use vstd::string::StringExecFns;
use crate::avmap::AttrMap;
use crate::record::spec_with_keys;
use crate::schema::Schema;

verus! {

/// A described put: write the record unconditionally, or, with the
/// create condition, only when no record holds that primary key yet.
#[derive(Debug)]
pub struct PutRequest {
    pub table: String,
    pub item: AttrMap,
    pub condition_expression: Option<String>,
    pub expression_attribute_names: Vec<(String, String)>,
}

/// A described delete: remove the record under the primary key, with the
/// remove condition demanding that it exists.
#[derive(Debug)]
pub struct DeleteRequest {
    pub table: String,
    pub key: Vec<(String, String)>,
    pub condition_expression: Option<String>,
    pub expression_attribute_names: Vec<(String, String)>,
}

impl Schema {
    /// The two primary key pairs of an entity: each physical field with its
    /// composed string.
    pub fn primary_key_pairs(&self, entity: &AttrMap) -> (r: Vec<(String, String)>)
        requires
            entity.wf(),
        ensures
            r@.len() == 2,
            r@[0].0@ == self.primary_index.partition_key.spec_key().field@,
            r@[0].1@ == self.spec_composed_side(self.primary_index.partition_key, entity@),
            r@[1].0@ == self.primary_index.sort_key.spec_key().field@,
            r@[1].1@ == self.spec_composed_side(self.primary_index.sort_key, entity@),
    {
        let c = self.composed_index(&self.primary_index, entity);
        let mut out: Vec<(String, String)> = Vec::new();
        out.push(c.partition_key);
        out.push(c.sort_key);
        out
    }

    /// The `#pk`/`#sk` name pairs for a condition over the primary key.
    pub(crate) fn primary_name_pairs(&self) -> (r: Vec<(String, String)>)
        ensures
            r@.len() == 2,
            r@[0].0@ == "#pk"@,
            r@[0].1@ == self.primary_index.partition_key.spec_key().field@,
            r@[1].0@ == "#sk"@,
            r@[1].1@ == self.primary_index.sort_key.spec_key().field@,
    {
        let mut names: Vec<(String, String)> = Vec::new();
        names.push((String::from_str("#pk"), self.primary_index.partition_key.field()));
        names.push((String::from_str("#sk"), self.primary_index.sort_key.field()));
        names
    }

    /// Describes an unconditional write of the entity's full store record.
    pub fn put(&self, entity: &AttrMap) -> (r: PutRequest)
        requires
            entity.wf(),
        ensures
            r.table@ == self.table@,
            r.item.wf(),
            r.item@ == spec_with_keys(self, entity@),
            r.condition_expression is None,
            r.expression_attribute_names@.len() == 0,
    {
        PutRequest {
            table: self.table.clone(),
            item: self.to_av_map_with_keys(entity),
            condition_expression: None,
            expression_attribute_names: Vec::new(),
        }
    }

    /// Describes a write of the entity's full store record that the store
    /// must refuse when a record with this primary key already exists.
    pub fn create(&self, entity: &AttrMap) -> (r: PutRequest)
        requires
            entity.wf(),
        ensures
            r.table@ == self.table@,
            r.item.wf(),
            r.item@ == spec_with_keys(self, entity@),
            r.condition_expression matches Some(c) && c@
                == "attribute_not_exists(#pk) AND attribute_not_exists(#sk)"@,
            r.expression_attribute_names@.len() == 2,
            r.expression_attribute_names@[0].0@ == "#pk"@,
            r.expression_attribute_names@[0].1@
                == self.primary_index.partition_key.spec_key().field@,
            r.expression_attribute_names@[1].0@ == "#sk"@,
            r.expression_attribute_names@[1].1@ == self.primary_index.sort_key.spec_key().field@,
    {
        PutRequest {
            table: self.table.clone(),
            item: self.to_av_map_with_keys(entity),
            condition_expression: Some(
                String::from_str("attribute_not_exists(#pk) AND attribute_not_exists(#sk)"),
            ),
            expression_attribute_names: self.primary_name_pairs(),
        }
    }

    /// Describes an unconditional delete of the record under the entity's
    /// primary key.
    pub fn delete(&self, entity: &AttrMap) -> (r: DeleteRequest)
        requires
            entity.wf(),
        ensures
            r.table@ == self.table@,
            r.key@.len() == 2,
            r.key@[0].0@ == self.primary_index.partition_key.spec_key().field@,
            r.key@[0].1@ == self.spec_composed_side(self.primary_index.partition_key, entity@),
            r.key@[1].0@ == self.primary_index.sort_key.spec_key().field@,
            r.key@[1].1@ == self.spec_composed_side(self.primary_index.sort_key, entity@),
            r.condition_expression is None,
            r.expression_attribute_names@.len() == 0,
    {
        DeleteRequest {
            table: self.table.clone(),
            key: self.primary_key_pairs(entity),
            condition_expression: None,
            expression_attribute_names: Vec::new(),
        }
    }

    /// Describes a delete of the record under the entity's primary key that
    /// the store must refuse when no such record exists.
    pub fn remove(&self, entity: &AttrMap) -> (r: DeleteRequest)
        requires
            entity.wf(),
        ensures
            r.table@ == self.table@,
            r.key@.len() == 2,
            r.key@[0].0@ == self.primary_index.partition_key.spec_key().field@,
            r.key@[0].1@ == self.spec_composed_side(self.primary_index.partition_key, entity@),
            r.key@[1].0@ == self.primary_index.sort_key.spec_key().field@,
            r.key@[1].1@ == self.spec_composed_side(self.primary_index.sort_key, entity@),
            r.condition_expression matches Some(c) && c@
                == "attribute_exists(#pk) AND attribute_exists(#sk)"@,
            r.expression_attribute_names@.len() == 2,
            r.expression_attribute_names@[0].0@ == "#pk"@,
            r.expression_attribute_names@[0].1@
                == self.primary_index.partition_key.spec_key().field@,
            r.expression_attribute_names@[1].0@ == "#sk"@,
            r.expression_attribute_names@[1].1@ == self.primary_index.sort_key.spec_key().field@,
    {
        DeleteRequest {
            table: self.table.clone(),
            key: self.primary_key_pairs(entity),
            condition_expression: Some(
                String::from_str("attribute_exists(#pk) AND attribute_exists(#sk)"),
            ),
            expression_attribute_names: self.primary_name_pairs(),
        }
    }
}

} // verus!
