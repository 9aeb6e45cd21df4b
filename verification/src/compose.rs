//! The key composer: the pure, total function from an index key and an
//! attribute map to the composed physical key string.
//!
//! A partition key reads `$service#entity` followed by zero or more
//! `#name_value` segments; a sort key reads `$entity` followed by the same.
//! Composition walks the composites in order and stops at the first one
//! whose value is absent, renders empty, or renders as the canonical zero:
//! truncation is a feature, not an error, and is what lets a partially
//! populated entity act as a range-query prefix.

use vstd::prelude::*;
use vstd::string::{StrSliceExecFns, StringExecFns};
use crate::avmap::AttrMap;
use crate::error::DeezError;
use crate::schema::{Index, IndexKey, IndexKeys, IndexKeysComposed, Schema};
use crate::strutil::str_eq;
use crate::value::{spec_composite_string, SpecValue};

verus! {

/// Whether a rendered composite value ends composition: the empty rendering
/// or the canonical numeric zero truncates the key.
pub open spec fn spec_cut(s: Seq<char>) -> bool {
    s.len() == 0 || s == seq!['0']
}

/// The `#name_value` segments contributed by `names[i..]`, stopping at the
/// first name that is absent from `m` or whose value renders empty or zero.
pub open spec fn segments_from(
    names: Seq<Seq<char>>,
    m: Map<Seq<char>, SpecValue>,
    i: int,
) -> Seq<char>
    decreases names.len() - i,
    when i <= names.len()
{
    if i >= names.len() {
        Seq::empty()
    } else if !m.contains_key(names[i]) {
        Seq::empty()
    } else if spec_cut(spec_composite_string(m[names[i]])) {
        Seq::empty()
    } else {
        seq!['#'] + names[i] + seq!['_'] + spec_composite_string(m[names[i]]) + segments_from(
            names,
            m,
            i + 1,
        )
    }
}

/// All segments of one key side.
pub open spec fn spec_composed_segments(
    names: Seq<Seq<char>>,
    m: Map<Seq<char>, SpecValue>,
) -> Seq<char> {
    segments_from(names, m, 0)
}

/// The fixed prefix of a composed key: partition keys carry the service and
/// the entity, sort keys the entity alone. The asymmetry is deliberate:
/// partition keys must be unique across entity types sharing a table, sort
/// keys only within a partition.
pub open spec fn spec_key_prefix(
    service: Seq<char>,
    entity: Seq<char>,
    is_partition: bool,
) -> Seq<char> {
    if is_partition {
        seq!['$'] + service + seq!['#'] + entity
    } else {
        seq!['$'] + entity
    }
}

/// The whole composed key string of one side.
pub open spec fn spec_composed_key(
    service: Seq<char>,
    entity: Seq<char>,
    is_partition: bool,
    names: Seq<Seq<char>>,
    m: Map<Seq<char>, SpecValue>,
) -> Seq<char> {
    spec_key_prefix(service, entity, is_partition) + spec_composed_segments(names, m)
}

/// Decides whether a rendered composite value truncates composition.
fn rendered_cuts(s: &String) -> (r: bool)
    ensures
        r == spec_cut(s@),
{
    let n = s.as_str().unicode_len();
    if n == 0 {
        true
    } else if n == 1 && s.as_str().get_char(0) == '0' {
        proof {
            assert(s@ =~= seq!['0']);
        }
        true
    } else {
        false
    }
}

impl Schema {
    /// The composed string of one index side over one attribute map.
    pub open spec fn spec_composed_side(&self, ik: IndexKey, m: Map<Seq<char>, SpecValue>) -> Seq<
        char,
    > {
        spec_composed_key(
            self.service@,
            self.entity@,
            ik.is_partition(),
            ik.spec_key().composite.deep_view(),
            m,
        )
    }

    /// Whether `c` holds exactly the fields and composed strings of `keys`
    /// over the attribute map `m`.
    pub open spec fn composed_matches(
        &self,
        keys: IndexKeys,
        m: Map<Seq<char>, SpecValue>,
        c: IndexKeysComposed,
    ) -> bool {
        &&& c.partition_key.0@ == keys.partition_key.spec_key().field@
        &&& c.partition_key.1@ == self.spec_composed_side(keys.partition_key, m)
        &&& c.sort_key.0@ == keys.sort_key.spec_key().field@
        &&& c.sort_key.1@ == self.spec_composed_side(keys.sort_key, m)
    }

    /// Composes one side of an index into its physical key string. Total:
    /// a missing, empty or zero composite value truncates the string, it
    /// never fails.
    #[verifier::loop_isolation(false)]
    pub fn composed_key(&self, index_key: &IndexKey, av_map: &AttrMap) -> (r: String)
        requires
            av_map.wf(),
        ensures
            r@ == self.spec_composed_side(*index_key, av_map@),
    {
        let mut composed = String::new();
        composed.append("$");
        let key = match index_key {
            IndexKey::Partition(k) => {
                composed.append(self.service.as_str());
                composed.append("#");
                composed.append(self.entity.as_str());
                k
            },
            IndexKey::Sort(k) => {
                composed.append(self.entity.as_str());
                k
            },
        };
        proof {
            reveal_strlit("$");
            reveal_strlit("#");
            assert("$"@ =~= seq!['$']);
            assert("#"@ =~= seq!['#']);
            assert(*key == index_key.spec_key());
            assert(composed@ =~= spec_key_prefix(
                self.service@,
                self.entity@,
                index_key.is_partition(),
            ));
        }
        let ghost names = index_key.spec_key().composite.deep_view();
        let ghost m = av_map@;
        let ghost prefix = spec_key_prefix(self.service@, self.entity@, index_key.is_partition());
        let n = key.composite.len();
        let mut i: usize = 0;
        proof {
            assert(names.len() == n);
            assert(prefix + segments_from(names, m, 0) == composed@ + segments_from(names, m, 0));
        }
        while i < n
            invariant
                av_map.wf(),
                m == av_map@,
                n == key.composite@.len(),
                names == key.composite.deep_view(),
                names.len() == n,
                0 <= i <= n,
                prefix + segments_from(names, m, 0) == composed@ + segments_from(
                    names,
                    m,
                    i as int,
                ),
            decreases n - i,
        {
            let name = &key.composite[i];
            proof {
                assert(names[i as int] == name@);
            }
            match av_map.get(name.as_str()) {
                None => {
                    proof {
                        assert(segments_from(names, m, i as int) =~= Seq::empty());
                        assert(composed@ + Seq::<char>::empty() =~= composed@);
                    }
                    return composed;
                },
                Some(v) => {
                    let sv = v.composite_string();
                    if rendered_cuts(&sv) {
                        proof {
                            assert(segments_from(names, m, i as int) =~= Seq::empty());
                            assert(composed@ + Seq::<char>::empty() =~= composed@);
                        }
                        return composed;
                    }
                    let ghost pre = composed@;
                    composed.append("#");
                    composed.append(name.as_str());
                    composed.append("_");
                    composed.append(sv.as_str());
                    proof {
                        reveal_strlit("#");
                        reveal_strlit("_");
                        assert("#"@ =~= seq!['#']);
                        assert("_"@ =~= seq!['_']);
                        assert(segments_from(names, m, i as int) == seq!['#'] + names[i as int]
                            + seq!['_'] + spec_composite_string(m[names[i as int]])
                            + segments_from(names, m, i + 1));
                        assert(composed@ =~= pre + (seq!['#'] + names[i as int] + seq!['_']
                            + spec_composite_string(m[names[i as int]])));
                        assert(pre + segments_from(names, m, i as int) =~= composed@
                            + segments_from(names, m, i + 1));
                    }
                },
            }
            i = i + 1;
        }
        proof {
            assert(segments_from(names, m, n as int) =~= Seq::empty());
            assert(composed@ + Seq::<char>::empty() =~= composed@);
        }
        composed
    }

    /// Composes both sides of one index, pairing each composed string with
    /// the physical field it is stored under.
    pub fn composed_index(&self, keys: &IndexKeys, av_map: &AttrMap) -> (r: IndexKeysComposed)
        requires
            av_map.wf(),
        ensures
            self.composed_matches(*keys, av_map@, r),
    {
        IndexKeysComposed {
            partition_key: (keys.partition_key.field(), self.composed_key(
                &keys.partition_key,
                av_map,
            )),
            sort_key: (keys.sort_key.field(), self.composed_key(&keys.sort_key, av_map)),
        }
    }

    /// Composes the index selected by `index`: the primary index always
    /// composes; a secondary index composes exactly when its name is
    /// registered, and an unregistered name is reported as such.
    #[verifier::loop_isolation(false)]
    pub fn get_composed_index(&self, index: &Index, av_map: &AttrMap) -> (r: Result<
        IndexKeysComposed,
        DeezError,
    >)
        requires
            av_map.wf(),
        ensures
            match index {
                Index::Primary => r matches Ok(c) && self.composed_matches(
                    self.primary_index,
                    av_map@,
                    c,
                ),
                Index::Gsi(nm) => {
                    &&& (r is Ok) <==> (exists|g: int|
                        0 <= g < self.global_secondary_indexes@.len()
                            && (#[trigger] self.global_secondary_indexes@[g]).0@ == nm@)
                    &&& r matches Ok(c) ==> exists|g: int|
                        0 <= g < self.global_secondary_indexes@.len()
                            && (#[trigger] self.global_secondary_indexes@[g]).0@ == nm@
                            && self.composed_matches(
                            self.global_secondary_indexes@[g].1,
                            av_map@,
                            c,
                        )
                    &&& r matches Err(e) ==> e matches DeezError::UnknownSchemaIndex(n) && n@
                        == nm@
                },
            },
    {
        match index {
            Index::Primary => Ok(self.composed_index(&self.primary_index, av_map)),
            Index::Gsi(nm) => {
                let n = self.global_secondary_indexes.len();
                let mut g: usize = 0;
                while g < n
                    invariant
                        n == self.global_secondary_indexes@.len(),
                        0 <= g <= n,
                        forall|x: int|
                            0 <= x < g ==> (#[trigger] self.global_secondary_indexes@[x]).0@
                                != nm@,
                    decreases n - g,
                {
                    if str_eq(self.global_secondary_indexes[g].0.as_str(), nm.as_str()) {
                        return Ok(self.composed_index(&self.global_secondary_indexes[g].1, av_map));
                    }
                    g = g + 1;
                }
                Err(DeezError::UnknownSchemaIndex(nm.clone()))
            },
        }
    }
}

/// Composition is deterministic: one index side composed twice over equal
/// attribute maps yields identical strings.
pub proof fn lemma_composed_key_deterministic(
    service: Seq<char>,
    entity: Seq<char>,
    is_partition: bool,
    names: Seq<Seq<char>>,
    m1: Map<Seq<char>, SpecValue>,
    m2: Map<Seq<char>, SpecValue>,
)
    requires
        m1 == m2,
    ensures
        spec_composed_key(service, entity, is_partition, names, m1) == spec_composed_key(
            service,
            entity,
            is_partition,
            names,
            m2,
        ),
{
}

/// A key with no composites composes to exactly its fixed prefix, whatever
/// the attribute map holds.
pub proof fn lemma_composed_key_boundary(
    service: Seq<char>,
    entity: Seq<char>,
    is_partition: bool,
    names: Seq<Seq<char>>,
    m: Map<Seq<char>, SpecValue>,
)
    requires
        names.len() == 0,
    ensures
        spec_composed_key(service, entity, is_partition, names, m) == spec_key_prefix(
            service,
            entity,
            is_partition,
        ),
{
    assert(segments_from(names, m, 0) =~= Seq::empty());
    assert(spec_key_prefix(service, entity, is_partition) + Seq::<char>::empty()
        =~= spec_key_prefix(service, entity, is_partition));
}

/// Appending a common prefix on the left preserves the prefix relation.
proof fn lemma_concat_prefix(x: Seq<char>, a: Seq<char>, b: Seq<char>)
    requires
        a.is_prefix_of(b),
    ensures
        (x + a).is_prefix_of(x + b),
{
    assert((x + a) =~= (x + b).subrange(0, x.len() + a.len() as int));
}

/// The segment strings from position `i` on: if `ma` agrees with `mb` on the
/// composites before `k` and truncates at `k`, its segments are a prefix of
/// `mb`'s.
proof fn lemma_segments_prefix(
    names: Seq<Seq<char>>,
    ma: Map<Seq<char>, SpecValue>,
    mb: Map<Seq<char>, SpecValue>,
    k: int,
    i: int,
)
    requires
        0 <= i <= k <= names.len(),
        forall|j: int|
            i <= j < k ==> (ma.contains_key(#[trigger] names[j]) <==> mb.contains_key(names[j])),
        forall|j: int|
            i <= j < k && ma.contains_key(#[trigger] names[j]) ==> ma[names[j]] == mb[names[j]],
        k < names.len() ==> (!ma.contains_key(names[k]) || spec_cut(
            spec_composite_string(ma[names[k]]),
        )),
    ensures
        segments_from(names, ma, i).is_prefix_of(segments_from(names, mb, i)),
    decreases k - i,
{
    if i == k {
        assert(segments_from(names, ma, i) =~= Seq::empty());
        assert(Seq::<char>::empty() =~= segments_from(names, mb, i).subrange(0, 0));
    } else {
        if !ma.contains_key(names[i]) {
            assert(segments_from(names, ma, i) =~= Seq::empty());
            assert(Seq::<char>::empty() =~= segments_from(names, mb, i).subrange(0, 0));
        } else if spec_cut(spec_composite_string(ma[names[i]])) {
            assert(segments_from(names, ma, i) =~= Seq::empty());
            assert(Seq::<char>::empty() =~= segments_from(names, mb, i).subrange(0, 0));
        } else {
            lemma_segments_prefix(names, ma, mb, k, i + 1);
            let seg = seq!['#'] + names[i] + seq!['_'] + spec_composite_string(ma[names[i]]);
            assert(segments_from(names, ma, i) == seg + segments_from(names, ma, i + 1));
            assert(segments_from(names, mb, i) == seg + segments_from(names, mb, i + 1));
            lemma_concat_prefix(seg, segments_from(names, ma, i + 1), segments_from(
                names,
                mb,
                i + 1,
            ));
        }
    }
}

/// Prefix property: when attribute map `ma` agrees with `mb` on the first
/// `k` composites of a key and is absent, empty or zero at composite `k`,
/// the key composed from `ma` is a string prefix of the key composed from
/// `mb`. This is what makes a partially populated entity a valid
/// begins-with query prefix.
pub proof fn lemma_composed_key_prefix(
    service: Seq<char>,
    entity: Seq<char>,
    is_partition: bool,
    names: Seq<Seq<char>>,
    ma: Map<Seq<char>, SpecValue>,
    mb: Map<Seq<char>, SpecValue>,
    k: int,
)
    requires
        0 <= k <= names.len(),
        forall|j: int|
            0 <= j < k ==> (ma.contains_key(#[trigger] names[j]) <==> mb.contains_key(names[j])),
        forall|j: int|
            0 <= j < k && ma.contains_key(#[trigger] names[j]) ==> ma[names[j]] == mb[names[j]],
        k < names.len() ==> (!ma.contains_key(names[k]) || spec_cut(
            spec_composite_string(ma[names[k]]),
        )),
    ensures
        spec_composed_key(service, entity, is_partition, names, ma).is_prefix_of(
            spec_composed_key(service, entity, is_partition, names, mb),
        ),
{
    lemma_segments_prefix(names, ma, mb, k, 0);
    lemma_concat_prefix(
        spec_key_prefix(service, entity, is_partition),
        segments_from(names, ma, 0),
        segments_from(names, mb, 0),
    );
}

} // verus!
