//! Partial-update request descriptions and the update synchronizer. Setting
//! a string or numeric attribute rewrites the scalar and, for every
//! secondary index whose partition or sort key composes over that attribute,
//! restages that side's key field with the key recomposed from the updated
//! attribute map — all composites of the side, not just the changed one,
//! since composition is positional.

use vstd::prelude::*;
use vstd::string::StringExecFns;
use crate::avmap::AttrMap;
use crate::error::DeezError;
use crate::schema::{IndexKeysComposed, Key, Schema};
use crate::strutil::{dec_string, spec_dec, str_eq};
use crate::value::{AttrValue, SpecValue};

verus! {

/// One staged update action: the attribute or key field it writes, the
/// expression value variable it binds, and the value bound to it.
#[derive(Debug)]
pub struct UpdateAction {
    pub name: String,
    pub var: String,
    pub value: AttrValue,
}

/// The model of one staged action.
pub struct UpdateActionSpec {
    pub name: Seq<char>,
    pub var: Seq<char>,
    pub value: SpecValue,
}

impl View for UpdateAction {
    type V = UpdateActionSpec;

    open spec fn view(&self) -> UpdateActionSpec {
        UpdateActionSpec { name: self.name@, var: self.var@, value: self.value@ }
    }
}

/// A described partial update.
#[derive(Debug)]
pub struct UpdateRequest {
    pub table: String,
    pub key: Vec<(String, String)>,
    pub update_expression: String,
    pub expression_attribute_names: Vec<(String, String)>,
    pub expression_attribute_values: Vec<(String, AttrValue)>,
    pub condition_expression: Option<String>,
}

/// An in-progress partial update: the primary key is fixed, scalar writes
/// and the key fields they touch accumulate until the description is built.
#[derive(Debug)]
pub struct DeezUpdateBuilder<'a> {
    pub schema: &'a Schema,
    pub key: IndexKeysComposed,
    pub condition_expression: Option<String>,
    pub condition_names: Vec<(String, String)>,
    pub av_map: AttrMap,
    pub sets: Vec<UpdateAction>,
    pub adds: Vec<UpdateAction>,
    pub subtracts: Vec<UpdateAction>,
}

/// The updates of one call as name/value pairs: string values by default,
/// numeric text when `numeric` is set.
pub open spec fn spec_tagged_updates(s: Seq<(String, String)>, numeric: bool) -> Seq<
    (Seq<char>, SpecValue),
> {
    s.map(
        |i: int, p: (String, String)|
            (
                p.0@,
                if numeric {
                    SpecValue::Num(p.1@)
                } else {
                    SpecValue::Str(p.1@)
                },
            ),
    )
}

/// The attribute map with the updates from `i` on applied in order.
pub open spec fn spec_apply_updates(
    m: Map<Seq<char>, SpecValue>,
    u: Seq<(Seq<char>, SpecValue)>,
    i: int,
) -> Map<Seq<char>, SpecValue>
    decreases u.len() - i,
    when i <= u.len()
{
    if i >= u.len() {
        m
    } else {
        spec_apply_updates(m.insert(u[i].0, u[i].1), u, i + 1)
    }
}

/// Whether every updated attribute already stands in the map by the time it
/// is processed: present at the start, or written by an earlier update.
pub open spec fn spec_updates_applicable(
    m: Map<Seq<char>, SpecValue>,
    u: Seq<(Seq<char>, SpecValue)>,
) -> bool {
    forall|j: int|
        0 <= j < u.len() ==> m.contains_key((#[trigger] u[j]).0) || (exists|x: int|
            0 <= x < j && (#[trigger] u[x]).0 == u[j].0)
}

/// Whether one of the key's composites is the attribute `name`.
pub open spec fn spec_key_mentions(k: Key, name: Seq<char>) -> bool {
    exists|t: int| 0 <= t < k.composite@.len() && (#[trigger] k.composite@[t])@ == name
}

/// Whether one of the key's composites is among the updated attributes.
pub open spec fn spec_key_touched(k: Key, u: Seq<(Seq<char>, SpecValue)>) -> bool {
    exists|j: int| 0 <= j < u.len() && spec_key_mentions(k, (#[trigger] u[j]).0)
}

/// Whether an action staged at position `from` or later writes `value`
/// under `name`.
pub open spec fn spec_staged(
    sets: Seq<UpdateAction>,
    from: int,
    name: Seq<char>,
    value: SpecValue,
) -> bool {
    exists|x: int|
        from <= x < sets.len() && (#[trigger] sets[x])@.name == name && sets[x]@.value == value
}

/// Decides whether one of the key's composites is the attribute `name`.
fn key_mentions(k: &Key, name: &str) -> (r: bool)
    ensures
        r == spec_key_mentions(*k, name@),
{
    let n = k.composite.len();
    let mut t: usize = 0;
    while t < n
        invariant
            n == k.composite@.len(),
            0 <= t <= n,
            forall|x: int| 0 <= x < t ==> (#[trigger] k.composite@[x])@ != name@,
        decreases n - t,
    {
        if str_eq(k.composite[t].as_str(), name) {
            return true;
        }
        t = t + 1;
    }
    false
}

/// How many actions already write under `name`.
pub open spec fn spec_count_name(s: Seq<UpdateAction>, name: Seq<char>) -> int
    decreases s.len(),
{
    if s.len() == 0 {
        0
    } else {
        spec_count_name(s.drop_last(), name) + if s.last()@.name == name {
            1int
        } else {
            0int
        }
    }
}

/// Counts the actions of one list that write under `name`.
#[verifier::loop_isolation(false)]
fn count_name(s: &Vec<UpdateAction>, name: &str) -> (r: usize)
    ensures
        r == spec_count_name(s@, name@),
        r <= s@.len(),
{
    let n = s.len();
    let mut i: usize = 0;
    let mut cnt: usize = 0;
    proof {
        assert(s@.take(0) =~= Seq::empty());
    }
    while i < n
        invariant
            0 <= i <= n,
            cnt <= i,
            cnt == spec_count_name(s@.take(i as int), name@),
        decreases n - i,
    {
        proof {
            assert(s@.take(i + 1).drop_last() =~= s@.take(i as int));
            assert(s@.take(i + 1).last() == s@[i as int]);
        }
        if str_eq(s[i].name.as_str(), name) {
            cnt = cnt + 1;
        }
        i = i + 1;
    }
    proof {
        assert(s@.take(n as int) =~= s@);
    }
    cnt
}

impl Schema {
    /// Begins a partial update of the record under the entity's primary
    /// key. The entity's attribute map seeds the synchronizer: key fields
    /// are recomposed from it with the updates applied.
    pub fn update<'a>(&'a self, entity: &AttrMap) -> (r: DeezUpdateBuilder<'a>)
        requires
            entity.wf(),
        ensures
            r.schema == self,
            self.composed_matches(self.primary_index, entity@, r.key),
            r.av_map.wf(),
            r.av_map@ == entity@,
            r.sets@.len() == 0,
            r.adds@.len() == 0,
            r.subtracts@.len() == 0,
            r.condition_expression is None,
            r.condition_names@.len() == 0,
    {
        DeezUpdateBuilder {
            schema: self,
            key: self.composed_index(&self.primary_index, entity),
            condition_expression: None,
            condition_names: Vec::new(),
            av_map: entity.dup(),
            sets: Vec::new(),
            adds: Vec::new(),
            subtracts: Vec::new(),
        }
    }

    /// Begins a partial update that the store must refuse when a record
    /// with this primary key already exists.
    pub fn patch<'a>(&'a self, entity: &AttrMap) -> (r: DeezUpdateBuilder<'a>)
        requires
            entity.wf(),
        ensures
            r.schema == self,
            self.composed_matches(self.primary_index, entity@, r.key),
            r.av_map.wf(),
            r.av_map@ == entity@,
            r.sets@.len() == 0,
            r.adds@.len() == 0,
            r.subtracts@.len() == 0,
            r.condition_expression matches Some(c) && c@
                == "attribute_not_exists(#pk) AND attribute_not_exists(#sk)"@,
            r.condition_names@.len() == 2,
            r.condition_names@[0].0@ == "#pk"@,
            r.condition_names@[0].1@ == self.primary_index.partition_key.spec_key().field@,
            r.condition_names@[1].0@ == "#sk"@,
            r.condition_names@[1].1@ == self.primary_index.sort_key.spec_key().field@,
    {
        DeezUpdateBuilder {
            schema: self,
            key: self.composed_index(&self.primary_index, entity),
            condition_expression: Some(
                String::from_str("attribute_not_exists(#pk) AND attribute_not_exists(#sk)"),
            ),
            condition_names: self.primary_name_pairs(),
            av_map: entity.dup(),
            sets: Vec::new(),
            adds: Vec::new(),
            subtracts: Vec::new(),
        }
    }
}

/// Everything a scalar-set call leaves untouched.
pub open spec fn spec_update_frame<'a>(
    prev: DeezUpdateBuilder<'a>,
    b: DeezUpdateBuilder<'a>,
) -> bool {
    &&& b.schema == prev.schema
    &&& b.key == prev.key
    &&& b.condition_expression == prev.condition_expression
    &&& b.condition_names == prev.condition_names
    &&& b.adds == prev.adds
    &&& b.subtracts == prev.subtracts
    &&& b.sets@.len() >= prev.sets@.len()
    &&& forall|x: int| 0 <= x < prev.sets@.len() ==> (#[trigger] b.sets@[x]) == prev.sets@[x]
}

/// What a scalar-set call stages, over the updated attribute map `m2`:
/// every update's scalar write, and, for every secondary index side that
/// composes over an updated attribute, that side's key recomposed from
/// `m2`. Nothing else is staged.
pub open spec fn spec_sets_synced<'a>(
    prev: DeezUpdateBuilder<'a>,
    u: Seq<(Seq<char>, SpecValue)>,
    m2: Map<Seq<char>, SpecValue>,
    b: DeezUpdateBuilder<'a>,
) -> bool {
    let s = prev.schema;
    let from = prev.sets@.len() as int;
    &&& forall|j: int|
        0 <= j < u.len() ==> spec_staged(b.sets@, from, (#[trigger] u[j]).0, u[j].1)
    &&& forall|g: int|
        0 <= g < s.global_secondary_indexes@.len() ==> {
            let ik = (#[trigger] s.global_secondary_indexes@[g]).1;
            &&& (spec_key_touched(ik.partition_key.spec_key(), u) ==> spec_staged(
                b.sets@,
                from,
                ik.partition_key.spec_key().field@,
                SpecValue::Str(s.spec_composed_side(ik.partition_key, m2)),
            ))
            &&& (spec_key_touched(ik.sort_key.spec_key(), u) ==> spec_staged(
                b.sets@,
                from,
                ik.sort_key.spec_key().field@,
                SpecValue::Str(s.spec_composed_side(ik.sort_key, m2)),
            ))
        }
    &&& forall|x: int|
        from <= x < b.sets@.len() ==> {
            let a = #[trigger] b.sets@[x];
            (exists|j: int| 0 <= j < u.len() && a@.name == (#[trigger] u[j]).0 && a@.value == u[j].1)
                || (exists|g: int|
                {
                    let side = (#[trigger] s.global_secondary_indexes@[g]).1.partition_key;
                    &&& 0 <= g < s.global_secondary_indexes@.len()
                    &&& spec_key_touched(side.spec_key(), u)
                    &&& a@.name == side.spec_key().field@
                    &&& a@.value == SpecValue::Str(s.spec_composed_side(side, m2))
                }) || (exists|g: int|
                {
                    let side = (#[trigger] s.global_secondary_indexes@[g]).1.sort_key;
                    &&& 0 <= g < s.global_secondary_indexes@.len()
                    &&& spec_key_touched(side.spec_key(), u)
                    &&& a@.name == side.spec_key().field@
                    &&& a@.value == SpecValue::Str(s.spec_composed_side(side, m2))
                })
        }
}

impl<'a> DeezUpdateBuilder<'a> {
    /// A fresh expression value variable for `name`: the name suffixed with
    /// `_u` and the number of actions already writing under it.
    fn next_var(&self, name: &str) -> (r: String)
        ensures
            r@ == name@ + "_u"@ + spec_dec(
                (spec_count_name(self.sets@, name@) + spec_count_name(self.subtracts@, name@)
                    + spec_count_name(self.adds@, name@)) as nat,
            ),
    {
        let c1 = count_name(&self.sets, name);
        let c2 = count_name(&self.subtracts, name);
        let c3 = count_name(&self.adds, name);
        let total: u128 = c1 as u128 + c2 as u128 + c3 as u128;
        String::from_str(name).concat("_u").concat(dec_string(total).as_str())
    }

    /// Rewrites string attributes and restages every secondary key they
    /// feed. Each pair sets its attribute; afterwards, for every secondary
    /// index side composing over any updated attribute, the side's key field
    /// is staged anew, recomposed from the fully updated attribute map.
    /// Fails exactly when an update names an attribute the map does not
    /// hold.
    pub fn set_string(self, updates: &Vec<(String, String)>) -> (r: Result<
        DeezUpdateBuilder<'a>,
        DeezError,
    >)
        requires
            self.av_map.wf(),
        ensures
            (r is Ok) <==> spec_updates_applicable(
                self.av_map@,
                spec_tagged_updates(updates@, false),
            ),
            r matches Ok(b) ==> {
                let u = spec_tagged_updates(updates@, false);
                &&& spec_update_frame(self, b)
                &&& b.av_map.wf()
                &&& b.av_map@ == spec_apply_updates(self.av_map@, u, 0)
                &&& spec_sets_synced(self, u, b.av_map@, b)
            },
            r matches Err(e) ==> e matches DeezError::UnknownAttribute(nm) && exists|j: int|
                0 <= j < updates@.len() && nm@ == (#[trigger] updates@[j]).0@,
    {
        self.set_scalars(updates, false)
    }

    /// Rewrites numeric attributes, carried as decimal text, and restages
    /// every secondary key they feed, exactly as `set_string` does for
    /// strings.
    pub fn set_number(self, updates: &Vec<(String, String)>) -> (r: Result<
        DeezUpdateBuilder<'a>,
        DeezError,
    >)
        requires
            self.av_map.wf(),
        ensures
            (r is Ok) <==> spec_updates_applicable(
                self.av_map@,
                spec_tagged_updates(updates@, true),
            ),
            r matches Ok(b) ==> {
                let u = spec_tagged_updates(updates@, true);
                &&& spec_update_frame(self, b)
                &&& b.av_map.wf()
                &&& b.av_map@ == spec_apply_updates(self.av_map@, u, 0)
                &&& spec_sets_synced(self, u, b.av_map@, b)
            },
            r matches Err(e) ==> e matches DeezError::UnknownAttribute(nm) && exists|j: int|
                0 <= j < updates@.len() && nm@ == (#[trigger] updates@[j]).0@,
    {
        self.set_scalars(updates, true)
    }

    /// The shared body of the scalar-set calls.
    #[verifier::loop_isolation(false)]
    fn set_scalars(self, updates: &Vec<(String, String)>, numeric: bool) -> (r: Result<
        DeezUpdateBuilder<'a>,
        DeezError,
    >)
        requires
            self.av_map.wf(),
        ensures
            (r is Ok) <==> spec_updates_applicable(
                self.av_map@,
                spec_tagged_updates(updates@, numeric),
            ),
            r matches Ok(b) ==> {
                let u = spec_tagged_updates(updates@, numeric);
                &&& spec_update_frame(self, b)
                &&& b.av_map.wf()
                &&& b.av_map@ == spec_apply_updates(self.av_map@, u, 0)
                &&& spec_sets_synced(self, u, b.av_map@, b)
            },
            r matches Err(e) ==> e matches DeezError::UnknownAttribute(nm) && exists|j: int|
                0 <= j < updates@.len() && nm@ == (#[trigger] updates@[j]).0@,
    {
        let ghost prev = self;
        let ghost u = spec_tagged_updates(updates@, numeric);
        let ghost m0 = self.av_map@;
        let mut b = self;
        let n = updates.len();

        let mut j: usize = 0;
        while j < n
            invariant
                b.av_map.wf(),
                0 <= j <= n,
                b.schema == prev.schema,
                b.key == prev.key,
                b.condition_expression == prev.condition_expression,
                b.condition_names == prev.condition_names,
                b.sets == prev.sets,
                b.adds == prev.adds,
                b.subtracts == prev.subtracts,
                spec_apply_updates(m0, u, 0) == spec_apply_updates(b.av_map@, u, j as int),
                forall|k: Seq<char>|
                    #[trigger] b.av_map@.contains_key(k) <==> (m0.contains_key(k) || exists|x: int|
                        0 <= x < j && (#[trigger] u[x]).0 == k),
                forall|x: int|
                    0 <= x < j ==> m0.contains_key((#[trigger] u[x]).0) || (exists|y: int|
                        0 <= y < x && (#[trigger] u[y]).0 == u[x].0),
            decreases n - j,
        {
            let name = &updates[j].0;
            let value = &updates[j].1;
            if !b.av_map.contains(name.as_str()) {
                proof {
                    assert(!m0.contains_key(u[j as int].0));
                    assert(forall|y: int| 0 <= y < j ==> (#[trigger] u[y]).0 != u[j as int].0);
                    assert(!spec_updates_applicable(m0, u));
                }
                return Err(DeezError::UnknownAttribute(name.clone()));
            }
            let v = if numeric {
                AttrValue::Num(value.clone())
            } else {
                AttrValue::Str(value.clone())
            };
            proof {
                assert(v@ == u[j as int].1);
            }
            b.av_map.insert(name.as_str(), v);
            proof {
                assert(forall|k: Seq<char>|
                    #[trigger] b.av_map@.contains_key(k) <==> (m0.contains_key(k) || exists|
                        x: int,
                    |
                        0 <= x < j + 1 && (#[trigger] u[x]).0 == k));
            }
            j = j + 1;
        }
        proof {
            assert(b.av_map@ == spec_apply_updates(m0, u, 0));
            assert(spec_updates_applicable(m0, u));
        }

        let ghost m2 = b.av_map@;
        let ghost from = b.sets@.len() as int;
        let schema = b.schema;
        let gn = schema.global_secondary_indexes.len();

        let mut j: usize = 0;
        while j < n
            invariant
                b.av_map.wf(),
                b.av_map@ == m2,
                0 <= j <= n,
                b.schema == prev.schema,
                b.key == prev.key,
                b.condition_expression == prev.condition_expression,
                b.condition_names == prev.condition_names,
                b.adds == prev.adds,
                b.subtracts == prev.subtracts,
                b.sets@.len() >= from,
                forall|x: int| 0 <= x < from ==> (#[trigger] b.sets@[x]) == prev.sets@[x],
                forall|x: int|
                    0 <= x < j ==> spec_staged(b.sets@, from, (#[trigger] u[x]).0, u[x].1),
                forall|g: int|
                    0 <= g < gn ==> {
                        let ik = (#[trigger] schema.global_secondary_indexes@[g]).1;
                        &&& ((exists|x: int|
                            0 <= x < j && spec_key_mentions(
                                ik.partition_key.spec_key(),
                                (#[trigger] u[x]).0,
                            )) ==> spec_staged(
                            b.sets@,
                            from,
                            ik.partition_key.spec_key().field@,
                            SpecValue::Str(schema.spec_composed_side(ik.partition_key, m2)),
                        ))
                        &&& ((exists|x: int|
                            0 <= x < j && spec_key_mentions(
                                ik.sort_key.spec_key(),
                                (#[trigger] u[x]).0,
                            )) ==> spec_staged(
                            b.sets@,
                            from,
                            ik.sort_key.spec_key().field@,
                            SpecValue::Str(schema.spec_composed_side(ik.sort_key, m2)),
                        ))
                    },
                forall|x: int|
                    from <= x < b.sets@.len() ==> {
                        let a = #[trigger] b.sets@[x];
                        (exists|y: int|
                            0 <= y < u.len() && a@.name == (#[trigger] u[y]).0 && a@.value
                                == u[y].1) || (exists|g: int|
                            {
                                let side = (
                                #[trigger] schema.global_secondary_indexes@[g]).1.partition_key;
                                &&& 0 <= g < gn
                                &&& spec_key_touched(side.spec_key(), u)
                                &&& a@.name == side.spec_key().field@
                                &&& a@.value == SpecValue::Str(
                                    schema.spec_composed_side(side, m2),
                                )
                            }) || (exists|g: int|
                            {
                                let side = (
                                #[trigger] schema.global_secondary_indexes@[g]).1.sort_key;
                                &&& 0 <= g < gn
                                &&& spec_key_touched(side.spec_key(), u)
                                &&& a@.name == side.spec_key().field@
                                &&& a@.value == SpecValue::Str(
                                    schema.spec_composed_side(side, m2),
                                )
                            })
                    },
            decreases n - j,
        {
            let name = &updates[j].0;
            let value = &updates[j].1;
            let var = b.next_var(name.as_str());
            let v = if numeric {
                AttrValue::Num(value.clone())
            } else {
                AttrValue::Str(value.clone())
            };
            proof {
                assert(v@ == u[j as int].1);
            }
            let ghost pre_sets = b.sets@;
            b.sets.push(UpdateAction { name: name.clone(), var, value: v });
            proof {
                assert(forall|x: int| 0 <= x < pre_sets.len() ==> b.sets@[x] == pre_sets[x]);
                assert(b.sets@[pre_sets.len() as int]@.name == u[j as int].0);
                assert(b.sets@[pre_sets.len() as int]@.value == u[j as int].1);
                assert(spec_staged(b.sets@, from, u[j as int].0, u[j as int].1));
            }

            let mut g: usize = 0;
            while g < gn
                invariant
                    b.av_map.wf(),
                    b.av_map@ == m2,
                    0 <= g <= gn,
                    j < n,
                    b.schema == prev.schema,
                    b.key == prev.key,
                    b.condition_expression == prev.condition_expression,
                    b.condition_names == prev.condition_names,
                    b.adds == prev.adds,
                    b.subtracts == prev.subtracts,
                    b.sets@.len() >= from,
                    forall|x: int| 0 <= x < from ==> (#[trigger] b.sets@[x]) == prev.sets@[x],
                    forall|x: int|
                        0 <= x <= j ==> spec_staged(b.sets@, from, (#[trigger] u[x]).0, u[x].1),
                    forall|gg: int|
                        0 <= gg < gn ==> {
                            let ik = (#[trigger] schema.global_secondary_indexes@[gg]).1;
                            &&& ((exists|x: int|
                                0 <= x < j && spec_key_mentions(
                                    ik.partition_key.spec_key(),
                                    (#[trigger] u[x]).0,
                                )) || (gg < g && spec_key_mentions(
                                ik.partition_key.spec_key(),
                                u[j as int].0,
                            )) ==> spec_staged(
                                b.sets@,
                                from,
                                ik.partition_key.spec_key().field@,
                                SpecValue::Str(schema.spec_composed_side(ik.partition_key, m2)),
                            ))
                            &&& ((exists|x: int|
                                0 <= x < j && spec_key_mentions(
                                    ik.sort_key.spec_key(),
                                    (#[trigger] u[x]).0,
                                )) || (gg < g && spec_key_mentions(
                                ik.sort_key.spec_key(),
                                u[j as int].0,
                            )) ==> spec_staged(
                                b.sets@,
                                from,
                                ik.sort_key.spec_key().field@,
                                SpecValue::Str(schema.spec_composed_side(ik.sort_key, m2)),
                            ))
                        },
                    forall|x: int|
                        from <= x < b.sets@.len() ==> {
                            let a = #[trigger] b.sets@[x];
                            (exists|y: int|
                                0 <= y < u.len() && a@.name == (#[trigger] u[y]).0 && a@.value
                                    == u[y].1) || (exists|gg: int|
                                {
                                    let side = (
                                    #[trigger] schema.global_secondary_indexes@[gg]).1.partition_key;
                                    &&& 0 <= gg < gn
                                    &&& spec_key_touched(side.spec_key(), u)
                                    &&& a@.name == side.spec_key().field@
                                    &&& a@.value == SpecValue::Str(
                                        schema.spec_composed_side(side, m2),
                                    )
                                }) || (exists|gg: int|
                                {
                                    let side = (
                                    #[trigger] schema.global_secondary_indexes@[gg]).1.sort_key;
                                    &&& 0 <= gg < gn
                                    &&& spec_key_touched(side.spec_key(), u)
                                    &&& a@.name == side.spec_key().field@
                                    &&& a@.value == SpecValue::Str(
                                        schema.spec_composed_side(side, m2),
                                    )
                                })
                        },
                decreases gn - g,
            {
                let ik = &schema.global_secondary_indexes[g].1;
                if key_mentions(ik.partition_key.key_ref(), name.as_str()) {
                    let field = ik.partition_key.field();
                    let composed = schema.composed_key(&ik.partition_key, &b.av_map);
                    let var = b.next_var(field.as_str());
                    let ghost pre_sets = b.sets@;
                    b.sets.push(UpdateAction { name: field, var, value: AttrValue::Str(composed) });
                    proof {
                        let gi = g as int;
                        let ikg = schema.global_secondary_indexes@[gi].1;
                        assert(forall|x: int|
                            0 <= x < pre_sets.len() ==> b.sets@[x] == pre_sets[x]);
                        assert(b.sets@[pre_sets.len() as int]@.name
                            == ikg.partition_key.spec_key().field@);
                        assert(b.sets@[pre_sets.len() as int]@.value == SpecValue::Str(
                            schema.spec_composed_side(ikg.partition_key, m2),
                        ));
                        assert(spec_key_touched(ikg.partition_key.spec_key(), u)) by {
                            assert(spec_key_mentions(ikg.partition_key.spec_key(), u[j as int].0));
                        }
                        assert(spec_staged(
                            b.sets@,
                            from,
                            ikg.partition_key.spec_key().field@,
                            SpecValue::Str(schema.spec_composed_side(ikg.partition_key, m2)),
                        ));
                    }
                }
                let ik = &schema.global_secondary_indexes[g].1;
                if key_mentions(ik.sort_key.key_ref(), name.as_str()) {
                    let field = ik.sort_key.field();
                    let composed = schema.composed_key(&ik.sort_key, &b.av_map);
                    let var = b.next_var(field.as_str());
                    let ghost pre_sets = b.sets@;
                    b.sets.push(UpdateAction { name: field, var, value: AttrValue::Str(composed) });
                    proof {
                        let gi = g as int;
                        let ikg = schema.global_secondary_indexes@[gi].1;
                        assert(forall|x: int|
                            0 <= x < pre_sets.len() ==> b.sets@[x] == pre_sets[x]);
                        assert(b.sets@[pre_sets.len() as int]@.name
                            == ikg.sort_key.spec_key().field@);
                        assert(b.sets@[pre_sets.len() as int]@.value == SpecValue::Str(
                            schema.spec_composed_side(ikg.sort_key, m2),
                        ));
                        assert(spec_key_touched(ikg.sort_key.spec_key(), u)) by {
                            assert(spec_key_mentions(ikg.sort_key.spec_key(), u[j as int].0));
                        }
                        assert(spec_staged(
                            b.sets@,
                            from,
                            ikg.sort_key.spec_key().field@,
                            SpecValue::Str(schema.spec_composed_side(ikg.sort_key, m2)),
                        ));
                    }
                }
                g = g + 1;
            }
            j = j + 1;
        }
        proof {
            assert forall|g: int| 0 <= g < gn implies {
                let ik = (#[trigger] schema.global_secondary_indexes@[g]).1;
                (spec_key_touched(ik.partition_key.spec_key(), u) ==> spec_staged(
                    b.sets@,
                    from,
                    ik.partition_key.spec_key().field@,
                    SpecValue::Str(schema.spec_composed_side(ik.partition_key, m2)),
                )) && (spec_key_touched(ik.sort_key.spec_key(), u) ==> spec_staged(
                    b.sets@,
                    from,
                    ik.sort_key.spec_key().field@,
                    SpecValue::Str(schema.spec_composed_side(ik.sort_key, m2)),
                ))
            } by {
                let ik = schema.global_secondary_indexes@[g].1;
                if spec_key_touched(ik.partition_key.spec_key(), u) {
                    let x = choose|x: int|
                        0 <= x < u.len() && spec_key_mentions(
                            ik.partition_key.spec_key(),
                            (#[trigger] u[x]).0,
                        );
                    assert(0 <= x < n);
                }
                if spec_key_touched(ik.sort_key.spec_key(), u) {
                    let x = choose|x: int|
                        0 <= x < u.len() && spec_key_mentions(
                            ik.sort_key.spec_key(),
                            (#[trigger] u[x]).0,
                        );
                    assert(0 <= x < n);
                }
            }
        }
        Ok(b)
    }
}

/// The rendered text of one scalar or key set: `#name = :var`.
pub open spec fn spec_set_item(a: UpdateActionSpec) -> Seq<char> {
    "#"@ + a.name + " = :"@ + a.var
}

/// The rendered text of one subtraction: `#name = #name - :var`.
pub open spec fn spec_subtract_item(a: UpdateActionSpec) -> Seq<char> {
    "#"@ + a.name + " = #"@ + a.name + " - :"@ + a.var
}

/// The rendered text of one addition: `#name :var`.
pub open spec fn spec_add_item(a: UpdateActionSpec) -> Seq<char> {
    "#"@ + a.name + " :"@ + a.var
}

/// The items from `i` on, each preceded by a comma separator.
pub open spec fn spec_join_rest(items: Seq<Seq<char>>, i: int) -> Seq<char>
    decreases items.len() - i,
    when i <= items.len()
{
    if i >= items.len() {
        Seq::empty()
    } else {
        ", "@ + items[i] + spec_join_rest(items, i + 1)
    }
}

/// The items joined with comma separators.
pub open spec fn spec_clause(items: Seq<Seq<char>>) -> Seq<char> {
    if items.len() == 0 {
        Seq::empty()
    } else {
        items[0] + spec_join_rest(items, 1)
    }
}

/// The whole update expression: a `SET` clause over the sets and the
/// subtractions, then an `ADD` clause over the additions, each present only
/// when it has items.
pub open spec fn spec_update_expression(
    sets: Seq<UpdateAction>,
    subtracts: Seq<UpdateAction>,
    adds: Seq<UpdateAction>,
) -> Seq<char> {
    let setsub = sets.map(|i: int, a: UpdateAction| spec_set_item(a@)) + subtracts.map(
        |i: int, a: UpdateAction| spec_subtract_item(a@),
    );
    let addi = adds.map(|i: int, a: UpdateAction| spec_add_item(a@));
    (if setsub.len() > 0 {
        "SET "@ + spec_clause(setsub)
    } else {
        Seq::empty()
    }) + (if addi.len() > 0 {
        (if setsub.len() > 0 {
            " ADD "@
        } else {
            "ADD "@
        }) + spec_clause(addi)
    } else {
        Seq::empty()
    })
}

/// Renders one scalar or key set.
fn render_set_item(a: &UpdateAction) -> (r: String)
    ensures
        r@ == spec_set_item(a@),
{
    let mut s = String::new();
    s.append("#");
    s.append(a.name.as_str());
    s.append(" = :");
    s.append(a.var.as_str());
    s
}

/// Renders one subtraction.
fn render_subtract_item(a: &UpdateAction) -> (r: String)
    ensures
        r@ == spec_subtract_item(a@),
{
    let mut s = String::new();
    s.append("#");
    s.append(a.name.as_str());
    s.append(" = #");
    s.append(a.name.as_str());
    s.append(" - :");
    s.append(a.var.as_str());
    s
}

/// Renders one addition.
fn render_add_item(a: &UpdateAction) -> (r: String)
    ensures
        r@ == spec_add_item(a@),
{
    let mut s = String::new();
    s.append("#");
    s.append(a.name.as_str());
    s.append(" :");
    s.append(a.var.as_str());
    s
}

/// Joins rendered items with comma separators.
#[verifier::loop_isolation(false)]
fn join_items(items: &Vec<String>) -> (r: String)
    ensures
        r@ == spec_clause(items.deep_view()),
{
    let n = items.len();
    if n == 0 {
        return String::new();
    }
    let mut out = items[0].clone();
    let mut i: usize = 1;
    proof {
        assert(out@ == items.deep_view()[0]);
    }
    while i < n
        invariant
            1 <= i <= n,
            spec_clause(items.deep_view()) == out@ + spec_join_rest(items.deep_view(), i as int),
        decreases n - i,
    {
        let ghost pre = out@;
        out.append(", ");
        out.append(items[i].as_str());
        proof {
            assert(out@ =~= pre + (", "@ + items.deep_view()[i as int]));
            assert(pre + spec_join_rest(items.deep_view(), i as int) =~= out@ + spec_join_rest(
                items.deep_view(),
                i + 1,
            ));
        }
        i = i + 1;
    }
    proof {
        assert(out@ + Seq::<char>::empty() =~= out@);
    }
    out
}

impl<'a> DeezUpdateBuilder<'a> {
    /// Stages one boolean write per pair. Booleans feed no composed key, so
    /// nothing is recomposed and the attribute map is left alone.
    #[verifier::loop_isolation(false)]
    pub fn set_bool(self, updates: &Vec<(String, bool)>) -> (r: DeezUpdateBuilder<'a>)
        ensures
            spec_update_frame(self, r),
            r.av_map == self.av_map,
            r.sets@.len() == self.sets@.len() + updates@.len(),
            forall|j: int|
                0 <= j < updates@.len() ==> {
                    &&& (#[trigger] r.sets@[self.sets@.len() + j])@.name == updates@[j].0@
                    &&& r.sets@[self.sets@.len() + j]@.value == SpecValue::Boolean(updates@[j].1)
                },
    {
        let ghost prev = self;
        let mut b = self;
        let n = updates.len();
        let mut j: usize = 0;
        while j < n
            invariant
                0 <= j <= n,
                b.schema == prev.schema,
                b.key == prev.key,
                b.condition_expression == prev.condition_expression,
                b.condition_names == prev.condition_names,
                b.av_map == prev.av_map,
                b.adds == prev.adds,
                b.subtracts == prev.subtracts,
                b.sets@.len() == prev.sets@.len() + j,
                forall|x: int| 0 <= x < prev.sets@.len() ==> (#[trigger] b.sets@[x]) == prev.sets@[x],
                forall|x: int|
                    0 <= x < j ==> {
                        &&& (#[trigger] b.sets@[prev.sets@.len() + x])@.name == updates@[x].0@
                        &&& b.sets@[prev.sets@.len() + x]@.value == SpecValue::Boolean(
                            updates@[x].1,
                        )
                    },
            decreases n - j,
        {
            let name = &updates[j].0;
            let var = b.next_var(name.as_str());
            b.sets.push(
                UpdateAction { name: name.clone(), var, value: AttrValue::Boolean(updates[j].1) },
            );
            j = j + 1;
        }
        b
    }

    /// Stages one numeric addition per pair, the amount carried as decimal
    /// text. Additions feed no composed key.
    #[verifier::loop_isolation(false)]
    pub fn add(self, updates: &Vec<(String, String)>) -> (r: DeezUpdateBuilder<'a>)
        ensures
            r.schema == self.schema,
            r.key == self.key,
            r.condition_expression == self.condition_expression,
            r.condition_names == self.condition_names,
            r.av_map == self.av_map,
            r.sets == self.sets,
            r.subtracts == self.subtracts,
            r.adds@.len() == self.adds@.len() + updates@.len(),
            forall|x: int| 0 <= x < self.adds@.len() ==> (#[trigger] r.adds@[x]) == self.adds@[x],
            forall|j: int|
                0 <= j < updates@.len() ==> {
                    &&& (#[trigger] r.adds@[self.adds@.len() + j])@.name == updates@[j].0@
                    &&& r.adds@[self.adds@.len() + j]@.value == SpecValue::Num(updates@[j].1@)
                },
    {
        let ghost prev = self;
        let mut b = self;
        let n = updates.len();
        let mut j: usize = 0;
        while j < n
            invariant
                0 <= j <= n,
                b.schema == prev.schema,
                b.key == prev.key,
                b.condition_expression == prev.condition_expression,
                b.condition_names == prev.condition_names,
                b.av_map == prev.av_map,
                b.sets == prev.sets,
                b.subtracts == prev.subtracts,
                b.adds@.len() == prev.adds@.len() + j,
                forall|x: int| 0 <= x < prev.adds@.len() ==> (#[trigger] b.adds@[x]) == prev.adds@[x],
                forall|x: int|
                    0 <= x < j ==> {
                        &&& (#[trigger] b.adds@[prev.adds@.len() + x])@.name == updates@[x].0@
                        &&& b.adds@[prev.adds@.len() + x]@.value == SpecValue::Num(updates@[x].1@)
                    },
            decreases n - j,
        {
            let name = &updates[j].0;
            let var = b.next_var(name.as_str());
            b.adds.push(
                UpdateAction {
                    name: name.clone(),
                    var,
                    value: AttrValue::Num(updates[j].1.clone()),
                },
            );
            j = j + 1;
        }
        b
    }

    /// Stages one numeric subtraction per pair, the amount carried as
    /// decimal text. Subtractions feed no composed key.
    #[verifier::loop_isolation(false)]
    pub fn subtract(self, updates: &Vec<(String, String)>) -> (r: DeezUpdateBuilder<'a>)
        ensures
            r.schema == self.schema,
            r.key == self.key,
            r.condition_expression == self.condition_expression,
            r.condition_names == self.condition_names,
            r.av_map == self.av_map,
            r.sets == self.sets,
            r.adds == self.adds,
            r.subtracts@.len() == self.subtracts@.len() + updates@.len(),
            forall|x: int|
                0 <= x < self.subtracts@.len() ==> (#[trigger] r.subtracts@[x])
                    == self.subtracts@[x],
            forall|j: int|
                0 <= j < updates@.len() ==> {
                    &&& (#[trigger] r.subtracts@[self.subtracts@.len() + j])@.name
                        == updates@[j].0@
                    &&& r.subtracts@[self.subtracts@.len() + j]@.value == SpecValue::Num(
                        updates@[j].1@,
                    )
                },
    {
        let ghost prev = self;
        let mut b = self;
        let n = updates.len();
        let mut j: usize = 0;
        while j < n
            invariant
                0 <= j <= n,
                b.schema == prev.schema,
                b.key == prev.key,
                b.condition_expression == prev.condition_expression,
                b.condition_names == prev.condition_names,
                b.av_map == prev.av_map,
                b.sets == prev.sets,
                b.adds == prev.adds,
                b.subtracts@.len() == prev.subtracts@.len() + j,
                forall|x: int|
                    0 <= x < prev.subtracts@.len() ==> (#[trigger] b.subtracts@[x])
                        == prev.subtracts@[x],
                forall|x: int|
                    0 <= x < j ==> {
                        &&& (#[trigger] b.subtracts@[prev.subtracts@.len() + x])@.name
                            == updates@[x].0@
                        &&& b.subtracts@[prev.subtracts@.len() + x]@.value == SpecValue::Num(
                            updates@[x].1@,
                        )
                    },
            decreases n - j,
        {
            let name = &updates[j].0;
            let var = b.next_var(name.as_str());
            b.subtracts.push(
                UpdateAction {
                    name: name.clone(),
                    var,
                    value: AttrValue::Num(updates[j].1.clone()),
                },
            );
            j = j + 1;
        }
        b
    }

    /// Renders the finished update description: the update expression joins
    /// the staged sets and subtractions under `SET` and the additions under
    /// `ADD`; every action contributes its name pair and its value binding,
    /// after the condition's own name pairs.
    #[verifier::loop_isolation(false)]
    pub fn build(self) -> (r: UpdateRequest)
        ensures
            r.table@ == self.schema.table@,
            r.key@.len() == 2,
            r.key@[0] == self.key.partition_key,
            r.key@[1] == self.key.sort_key,
            r.condition_expression == self.condition_expression,
            r.update_expression@ == spec_update_expression(self.sets@, self.subtracts@, self.adds@),
            ({
                let all = self.sets@ + self.subtracts@ + self.adds@;
                let cn = self.condition_names@.len() as int;
                &&& r.expression_attribute_names@.len() == cn + all.len()
                &&& (forall|x: int|
                    0 <= x < cn ==> (#[trigger] r.expression_attribute_names@[x])
                        == self.condition_names@[x])
                &&& (forall|x: int|
                    0 <= x < all.len() ==> {
                        &&& (#[trigger] r.expression_attribute_names@[cn + x]).0@ == "#"@
                            + all[x]@.name
                        &&& r.expression_attribute_names@[cn + x].1@ == all[x]@.name
                    })
                &&& r.expression_attribute_values@.len() == all.len()
                &&& (forall|x: int|
                    0 <= x < all.len() ==> {
                        &&& (#[trigger] r.expression_attribute_values@[x]).0@ == ":"@
                            + all[x]@.var
                        &&& r.expression_attribute_values@[x].1@ == all[x]@.value
                    })
            }),
    {
        let ghost all = self.sets@ + self.subtracts@ + self.adds@;
        let ns = self.sets.len();
        let nu = self.subtracts.len();
        let na = self.adds.len();

        let mut setsub_items: Vec<String> = Vec::new();
        let mut i: usize = 0;
        while i < ns
            invariant
                0 <= i <= ns,
                setsub_items@.len() == i,
                forall|x: int|
                    0 <= x < i ==> setsub_items.deep_view()[x] == spec_set_item(
                        (#[trigger] self.sets@[x])@,
                    ),
            decreases ns - i,
        {
            setsub_items.push(render_set_item(&self.sets[i]));
            i = i + 1;
        }
        let mut i: usize = 0;
        while i < nu
            invariant
                0 <= i <= nu,
                setsub_items@.len() == ns + i,
                forall|x: int|
                    0 <= x < ns ==> setsub_items.deep_view()[x] == spec_set_item(
                        (#[trigger] self.sets@[x])@,
                    ),
                forall|x: int|
                    0 <= x < i ==> setsub_items.deep_view()[ns + x] == spec_subtract_item(
                        (#[trigger] self.subtracts@[x])@,
                    ),
            decreases nu - i,
        {
            setsub_items.push(render_subtract_item(&self.subtracts[i]));
            i = i + 1;
        }
        let mut add_items: Vec<String> = Vec::new();
        let mut i: usize = 0;
        while i < na
            invariant
                0 <= i <= na,
                add_items@.len() == i,
                forall|x: int|
                    0 <= x < i ==> add_items.deep_view()[x] == spec_add_item(
                        (#[trigger] self.adds@[x])@,
                    ),
            decreases na - i,
        {
            add_items.push(render_add_item(&self.adds[i]));
            i = i + 1;
        }
        proof {
            assert(setsub_items.deep_view() =~= self.sets@.map(
                |i: int, a: UpdateAction| spec_set_item(a@),
            ) + self.subtracts@.map(|i: int, a: UpdateAction| spec_subtract_item(a@)));
            assert(add_items.deep_view() =~= self.adds@.map(
                |i: int, a: UpdateAction| spec_add_item(a@),
            ));
        }

        let mut exp = String::new();
        if setsub_items.len() > 0 {
            exp.append("SET ");
            let joined = join_items(&setsub_items);
            exp.append(joined.as_str());
        }
        if add_items.len() > 0 {
            if setsub_items.len() > 0 {
                exp.append(" ADD ");
            } else {
                exp.append("ADD ");
            }
            let joined = join_items(&add_items);
            exp.append(joined.as_str());
        }
        proof {
            assert(exp@ =~= spec_update_expression(self.sets@, self.subtracts@, self.adds@));
        }

        let mut names: Vec<(String, String)> = Vec::new();
        let cn = self.condition_names.len();
        let mut i: usize = 0;
        while i < cn
            invariant
                0 <= i <= cn,
                names@.len() == i,
                forall|x: int| 0 <= x < i ==> (#[trigger] names@[x]) == self.condition_names@[x],
            decreases cn - i,
        {
            names.push((self.condition_names[i].0.clone(), self.condition_names[i].1.clone()));
            i = i + 1;
        }
        let mut values: Vec<(String, AttrValue)> = Vec::new();
        let mut i: usize = 0;
        while i < ns
            invariant
                0 <= i <= ns,
                names@.len() == cn + i,
                values@.len() == i,
                forall|x: int| 0 <= x < cn ==> (#[trigger] names@[x]) == self.condition_names@[x],
                forall|x: int|
                    0 <= x < i ==> (#[trigger] names@[cn + x]).0@ == "#"@ + self.sets@[x]@.name
                        && names@[cn + x].1@ == self.sets@[x]@.name,
                forall|x: int|
                    0 <= x < i ==> (#[trigger] values@[x]).0@ == ":"@ + self.sets@[x]@.var
                        && values@[x].1@ == self.sets@[x]@.value,
            decreases ns - i,
        {
            let a = &self.sets[i];
            names.push((String::from_str("#").concat(a.name.as_str()), a.name.clone()));
            values.push((String::from_str(":").concat(a.var.as_str()), a.value.dup()));
            i = i + 1;
        }
        let mut i: usize = 0;
        while i < nu
            invariant
                0 <= i <= nu,
                names@.len() == cn + ns + i,
                values@.len() == ns + i,
                forall|x: int| 0 <= x < cn ==> (#[trigger] names@[x]) == self.condition_names@[x],
                forall|x: int|
                    0 <= x < ns ==> (#[trigger] names@[cn + x]).0@ == "#"@ + self.sets@[x]@.name
                        && names@[cn + x].1@ == self.sets@[x]@.name,
                forall|x: int|
                    0 <= x < ns ==> (#[trigger] values@[x]).0@ == ":"@ + self.sets@[x]@.var
                        && values@[x].1@ == self.sets@[x]@.value,
                forall|x: int|
                    0 <= x < i ==> (#[trigger] names@[cn + ns + x]).0@ == "#"@
                        + self.subtracts@[x]@.name && names@[cn + ns + x].1@
                        == self.subtracts@[x]@.name,
                forall|x: int|
                    0 <= x < i ==> (#[trigger] values@[ns + x]).0@ == ":"@
                        + self.subtracts@[x]@.var && values@[ns + x].1@
                        == self.subtracts@[x]@.value,
            decreases nu - i,
        {
            let a = &self.subtracts[i];
            names.push((String::from_str("#").concat(a.name.as_str()), a.name.clone()));
            values.push((String::from_str(":").concat(a.var.as_str()), a.value.dup()));
            i = i + 1;
        }
        let mut i: usize = 0;
        while i < na
            invariant
                0 <= i <= na,
                names@.len() == cn + ns + nu + i,
                values@.len() == ns + nu + i,
                forall|x: int| 0 <= x < cn ==> (#[trigger] names@[x]) == self.condition_names@[x],
                forall|x: int|
                    0 <= x < ns ==> (#[trigger] names@[cn + x]).0@ == "#"@ + self.sets@[x]@.name
                        && names@[cn + x].1@ == self.sets@[x]@.name,
                forall|x: int|
                    0 <= x < ns ==> (#[trigger] values@[x]).0@ == ":"@ + self.sets@[x]@.var
                        && values@[x].1@ == self.sets@[x]@.value,
                forall|x: int|
                    0 <= x < nu ==> (#[trigger] names@[cn + ns + x]).0@ == "#"@
                        + self.subtracts@[x]@.name && names@[cn + ns + x].1@
                        == self.subtracts@[x]@.name,
                forall|x: int|
                    0 <= x < nu ==> (#[trigger] values@[ns + x]).0@ == ":"@
                        + self.subtracts@[x]@.var && values@[ns + x].1@
                        == self.subtracts@[x]@.value,
                forall|x: int|
                    0 <= x < i ==> (#[trigger] names@[cn + ns + nu + x]).0@ == "#"@
                        + self.adds@[x]@.name && names@[cn + ns + nu + x].1@
                        == self.adds@[x]@.name,
                forall|x: int|
                    0 <= x < i ==> (#[trigger] values@[ns + nu + x]).0@ == ":"@
                        + self.adds@[x]@.var && values@[ns + nu + x].1@ == self.adds@[x]@.value,
            decreases na - i,
        {
            let a = &self.adds[i];
            names.push((String::from_str("#").concat(a.name.as_str()), a.name.clone()));
            values.push((String::from_str(":").concat(a.var.as_str()), a.value.dup()));
            i = i + 1;
        }
        proof {
            let cni = cn as int;
            let nsi = ns as int;
            let nui = nu as int;
            assert(forall|x: int|
                0 <= x < all.len() ==> #[trigger] all[x] == if x < nsi {
                    self.sets@[x]
                } else if x < nsi + nui {
                    self.subtracts@[x - nsi]
                } else {
                    self.adds@[x - nsi - nui]
                });
            assert forall|x: int|
                0 <= x < all.len() implies (#[trigger] names@[cni + x]).0@ == "#"@ + all[x]@.name
                && names@[cni + x].1@ == all[x]@.name by {
                if x < nsi {
                } else if x < nsi + nui {
                    assert(names@[cni + nsi + (x - nsi)] == names@[cni + x]);
                } else {
                    assert(names@[cni + nsi + nui + (x - nsi - nui)] == names@[cni + x]);
                }
            }
            assert forall|x: int|
                0 <= x < all.len() implies (#[trigger] values@[x]).0@ == ":"@ + all[x]@.var
                && values@[x].1@ == all[x]@.value by {
                if x < nsi {
                } else if x < nsi + nui {
                    assert(values@[nsi + (x - nsi)] == values@[x]);
                } else {
                    assert(values@[nsi + nui + (x - nsi - nui)] == values@[x]);
                }
            }
        }

        let mut key: Vec<(String, String)> = Vec::new();
        key.push(self.key.partition_key);
        key.push(self.key.sort_key);
        UpdateRequest {
            table: self.schema.table.clone(),
            key,
            update_expression: exp,
            expression_attribute_names: names,
            expression_attribute_values: values,
            condition_expression: self.condition_expression,
        }
    }
}

} // verus!