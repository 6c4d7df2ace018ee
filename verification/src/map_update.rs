//! Bringing a kernel table to a new content: which keys to delete and which
//! entries to write.
use vstd::prelude::*;
use crate::config::Configuration;
use crate::filters::{
    filter_tables, key_set, spec_blocking_threshold, spec_filter_config, spec_pid_table,
    spec_text_table, Equality, FilterConfig, TextField,
};
use crate::keyed_map::{KeyedMap, MapKey};

verus! {

/// The changes to make to a table: delete `removals`, then write `inserts`.
pub struct MapUpdate<K, V> {
    pub removals: Vec<K>,
    pub inserts: Vec<(K, V)>,
}

/// The map that `inserts` writes, later entries winning.
pub open spec fn insert_map<K: MapKey, V>(inserts: Seq<(K, V)>) -> Map<K::KeyView, V>
    decreases inserts.len(),
{
    if inserts.len() == 0 {
        Map::empty()
    } else {
        insert_map(inserts.drop_last()).insert(inserts.last().0.key_view(), inserts.last().1)
    }
}

/// The table after deleting the keys in `removals` and writing `inserts`.
pub open spec fn apply_update<KV, V>(table: Map<KV, V>, removals: Set<KV>, inserts: Map<KV, V>) -> Map<
    KV,
    V,
> {
    table.remove_keys(removals).union_prefer_right(inserts)
}

proof fn lemma_insert_map_entries<K: MapKey, V>(m: KeyedMap<K, V>, n: int)
    requires
        m.wf(),
        0 <= n <= m.entry_seq().len(),
    ensures
        insert_map(m.entry_seq().take(n)).dom() == key_set(m.entry_seq().take(n).map_values(
            |e: (K, V)| e.0,
        )),
        forall|kv: K::KeyView| #[trigger]
            insert_map(m.entry_seq().take(n)).contains_key(kv) ==> m@.contains_key(kv)
                && insert_map(m.entry_seq().take(n))[kv] == m@[kv],
    decreases n,
{
    m.lemma_entries();
    let s = m.entry_seq().take(n);
    let keys = s.map_values(|e: (K, V)| e.0);
    if n > 0 {
        lemma_insert_map_entries(m, n - 1);
        assert(s.drop_last() =~= m.entry_seq().take(n - 1));
        let prev_keys = m.entry_seq().take(n - 1).map_values(|e: (K, V)| e.0);
        assert forall|kv: K::KeyView| insert_map(s).dom().contains(kv) == key_set(keys).contains(kv) by {
            if key_set(keys).contains(kv) {
                let i = choose|i: int| 0 <= i < keys.len() && #[trigger] keys[i].key_view() == kv;
                if i < n - 1 {
                    assert(prev_keys[i].key_view() == kv);
                }
            }
            if key_set(prev_keys).contains(kv) {
                let i = choose|i: int| 0 <= i < prev_keys.len() && #[trigger] prev_keys[i].key_view() == kv;
                assert(keys[i].key_view() == kv);
            }
            if kv == s.last().0.key_view() {
                assert(keys[n - 1].key_view() == kv);
            }
        }
        assert(insert_map(s).dom() =~= key_set(keys));
    } else {
        assert(insert_map(s).dom() =~= key_set(keys));
    }
}

/// The changes that make a table whose keys are `current_keys` hold exactly
/// the entries of `target`: every current key that `target` lacks is deleted,
/// and every entry of `target` is written.
pub fn plan_update<K: MapKey, V: Copy>(current_keys: &Vec<K>, target: &KeyedMap<K, V>) -> (u: MapUpdate<K, V>)
    requires
        target.wf(),
    ensures
        key_set(u.removals@) == key_set(current_keys@).difference(target@.dom()),
        insert_map(u.inserts@) == target@,
{
    let mut removals: Vec<K> = Vec::new();
    let mut i: usize = 0;
    while i < current_keys.len()
        invariant
            target.wf(),
            i <= current_keys@.len(),
            key_set(removals@) == key_set(current_keys@.take(i as int)).difference(target@.dom()),
        decreases current_keys@.len() - i,
    {
        let k = &current_keys[i];
        let ghost before = removals@;
        if !target.contains_key(k) {
            removals.push(k.key_clone());
        }
        proof {
            let kv = current_keys@[i as int].key_view();
            let a = key_set(removals@);
            let b = key_set(current_keys@.take(i + 1)).difference(target@.dom());
            assert forall|x: K::KeyView| a.contains(x) == b.contains(x) by {
                if a.contains(x) {
                    let j = choose|j: int| 0 <= j < removals@.len() && #[trigger] removals@[j].key_view() == x;
                    if j < before.len() {
                        assert(key_set(before).contains(x));
                        let t = choose|t: int| 0 <= t < i && #[trigger] current_keys@.take(i as int)[t].key_view() == x;
                        assert(current_keys@.take(i + 1)[t].key_view() == x);
                    } else {
                        assert(current_keys@.take(i + 1)[i as int].key_view() == x);
                    }
                }
                if b.contains(x) {
                    let t = choose|t: int| 0 <= t < i + 1 && #[trigger] current_keys@.take(i + 1)[t].key_view() == x;
                    if t < i {
                        assert(current_keys@.take(i as int)[t].key_view() == x);
                        assert(key_set(before).contains(x));
                        let j = choose|j: int| 0 <= j < before.len() && #[trigger] before[j].key_view() == x;
                        assert(removals@[j].key_view() == x);
                    } else {
                        assert(removals@[removals@.len() - 1].key_view() == x);
                    }
                }
            }
            assert(a =~= b);
        }
        i = i + 1;
    }
    proof {
        assert(current_keys@.take(current_keys@.len() as int) =~= current_keys@);
    }
    let entries = target.entries();
    let mut inserts: Vec<(K, V)> = Vec::new();
    let mut j: usize = 0;
    while j < entries.len()
        invariant
            target.wf(),
            entries@ == target.entry_seq(),
            j <= entries@.len(),
            inserts@.len() == j,
            forall|t: int|
                0 <= t < j ==> #[trigger] inserts@[t].0.key_view() == entries@[t].0.key_view()
                    && inserts@[t].1 == entries@[t].1,
            insert_map(inserts@) == insert_map(entries@.take(j as int)),
        decreases entries@.len() - j,
    {
        let ghost before = inserts@;
        inserts.push((entries[j].0.key_clone(), entries[j].1));
        proof {
            assert(inserts@.drop_last() =~= before);
            assert(entries@.take(j + 1).drop_last() =~= entries@.take(j as int));
        }
        j = j + 1;
    }
    proof {
        assert(entries@.take(entries@.len() as int) =~= entries@);
        lemma_insert_map_entries(*target, entries@.len() as int);
        target.lemma_entries();
        let keys = entries@.map_values(|e: (K, V)| e.0);
        assert forall|kv: K::KeyView| target@.contains_key(kv) implies insert_map(inserts@).contains_key(kv) by {
            let t = choose|t: int| 0 <= t < entries@.len() && #[trigger] entries@[t].0.key_view() == kv;
            assert(keys[t].key_view() == kv);
        }
        assert(insert_map(inserts@) =~= target@);
    }
    MapUpdate { removals, inserts }
}

/// Applying a planned update to a table with the current keys leaves it
/// holding exactly the target entries.
pub proof fn lemma_update_reaches_target<KV, V>(
    table: Map<KV, V>,
    current: Set<KV>,
    target: Map<KV, V>,
    removals: Set<KV>,
    inserts: Map<KV, V>,
)
    requires
        table.dom() == current,
        removals == current.difference(target.dom()),
        inserts == target,
    ensures
        apply_update(table, removals, inserts) == target,
{
    assert(apply_update(table, removals, inserts) =~= target);
}

/// The table entries for a list of pids: each pid with value zero.
pub open spec fn pid_entries(pids: Seq<u32>) -> Map<u32, u64> {
    Map::new(|pid: u32| pids.contains(pid), |pid: u32| 0u64)
}

/// The entries that track the given pids, each with value zero.
pub fn pids_to_entries(pids: &[u32]) -> (m: KeyedMap<u32, u64>)
    ensures
        m.wf(),
        m@ == pid_entries(pids@),
{
    let mut m: KeyedMap<u32, u64> = KeyedMap::new();
    let mut i: usize = 0;
    while i < pids.len()
        invariant
            i <= pids@.len(),
            m.wf(),
            m@ == pid_entries(pids@.take(i as int)),
        decreases pids@.len() - i,
    {
        let ghost before = m@;
        m.insert(pids[i], 0);
        proof {
            let prev = pids@.take(i as int);
            let next = pids@.take(i + 1);
            assert(next =~= prev.push(pids@[i as int]));
            assert forall|p: u32| #[trigger] next.contains(p) == (prev.contains(p) || p == pids@[i as int]) by {
                if next.contains(p) {
                    let t = choose|t: int| 0 <= t < next.len() && next[t] == p;
                    if t < i {
                        assert(prev[t] == p);
                    }
                }
                if prev.contains(p) {
                    let t = choose|t: int| 0 <= t < prev.len() && prev[t] == p;
                    assert(next[t] == p);
                }
                if p == pids@[i as int] {
                    assert(next[i as int] == p);
                }
            }
            assert forall|p: u32| #[trigger] m@.contains_key(p) == pid_entries(next).contains_key(p) by {
                assert(next.contains(p) == (prev.contains(p) || p == pids@[i as int]));
            }
            assert(m@ =~= pid_entries(next));
        }
        i = i + 1;
    }
    proof {
        assert(pids@.take(pids@.len() as int) =~= pids@);
    }
    m
}

/// The keys that the filter tables of the kernel hold now.
pub struct CurrentKeys {
    pub pids: Vec<u32>,
    pub comms: Vec<Vec<u8>>,
    pub exe_paths: Vec<Vec<u8>>,
    pub cmdlines: Vec<Vec<u8>>,
}

/// What applying a configuration writes: the changes of each filter table,
/// the setting of each event kind, and the blocking threshold if it is set.
pub struct ConfigUpdate {
    pub pid_filter: MapUpdate<u32, Equality>,
    pub comm_filter: MapUpdate<Vec<u8>, Equality>,
    pub exe_path_filter: MapUpdate<Vec<u8>, Equality>,
    pub cmdline_filter: MapUpdate<Vec<u8>, Equality>,
    pub filter_config: Vec<FilterConfig>,
    pub blocking_threshold: Option<u64>,
}

/// The changes that bring the kernel's filter tables, which hold the keys
/// `current`, to exactly the tables of `config`; with the settings of the
/// event kinds and the blocking threshold that `config` gives.
pub fn update_from_config(config: &Configuration, current: &CurrentKeys) -> (u: ConfigUpdate)
    ensures
        key_set(u.pid_filter.removals@) == key_set(current.pids@).difference(
            spec_pid_table(*config).dom(),
        ),
        insert_map(u.pid_filter.inserts@) == spec_pid_table(*config),
        key_set(u.comm_filter.removals@) == key_set(current.comms@).difference(
            spec_text_table(*config, TextField::Comm).dom(),
        ),
        insert_map(u.comm_filter.inserts@) == spec_text_table(*config, TextField::Comm),
        key_set(u.exe_path_filter.removals@) == key_set(current.exe_paths@).difference(
            spec_text_table(*config, TextField::ExePath).dom(),
        ),
        insert_map(u.exe_path_filter.inserts@) == spec_text_table(*config, TextField::ExePath),
        key_set(u.cmdline_filter.removals@) == key_set(current.cmdlines@).difference(
            spec_text_table(*config, TextField::Cmdline).dom(),
        ),
        insert_map(u.cmdline_filter.inserts@) == spec_text_table(*config, TextField::Cmdline),
        u.filter_config@ == spec_filter_config(*config),
        u.blocking_threshold == spec_blocking_threshold(*config),
{
    let tables = filter_tables(config);
    ConfigUpdate {
        pid_filter: plan_update(&current.pids, &tables.pid_filter),
        comm_filter: plan_update(&current.comms, &tables.comm_filter),
        exe_path_filter: plan_update(&current.exe_paths, &tables.exe_path_filter),
        cmdline_filter: plan_update(&current.cmdlines, &tables.cmdline_filter),
        filter_config: tables.filter_config,
        blocking_threshold: tables.blocking_threshold,
    }
}

} // verus!
