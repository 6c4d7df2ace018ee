//! How a configuration becomes the filter tables that the eBPF programs read:
//! per key, for which event kinds the key is used and for which it matches.
use vstd::prelude::*;
use crate::config::{Configuration, Filter, StringFilter, UInt32Filter, MISSING_BEHAVIOR_MATCH};
use crate::events::{EventKind, EVENT_KIND_MAX, spec_kind_index};
use crate::keyed_map::{KeyedMap, MapKey};

verus! {

/// For one key: the event kinds (as bits) for which the key matches, and those
/// for which the key is filtered at all.
#[derive(Debug, Copy, Clone, PartialEq, Eq, Structural)]
pub struct Equality {
    pub eq_for_event_kind: u32,
    pub used_for_event_kind: u32,
}

/// What the eBPF filter does with an event that has no value for a field.
#[derive(Debug, Copy, Clone, PartialEq, Eq, Structural)]
pub enum MissingBehavior {
    NotMatch,
    Match,
}

/// The setting of one filtered field for one event kind.
#[derive(Debug, Copy, Clone, PartialEq, Eq, Structural)]
pub struct FieldFilter {
    pub missing_behavior: MissingBehavior,
}

/// Which fields are filtered for one event kind, and how.
#[derive(Debug, Copy, Clone, PartialEq, Eq, Structural)]
pub struct FilterConfig {
    pub pid_filter: Option<FieldFilter>,
    pub comm_filter: Option<FieldFilter>,
    pub exe_path_filter: Option<FieldFilter>,
    pub cmdline_filter: Option<FieldFilter>,
}

/// The setting of a kind without a filter: no field filtered.
pub open spec fn spec_default_filter_config() -> FilterConfig {
    FilterConfig { pid_filter: None, comm_filter: None, exe_path_filter: None, cmdline_filter: None }
}

impl FilterConfig {
    pub fn default_config() -> (c: FilterConfig)
        ensures
            c == spec_default_filter_config(),
    {
        FilterConfig { pid_filter: None, comm_filter: None, exe_path_filter: None, cmdline_filter: None }
    }
}

/// The blocking threshold, in nanoseconds, that holds until a configuration sets one.
pub const DEFAULT_BLOCKING_THRESHOLD: u64 = 32_000_000;

/// Key widths of the text filter tables.
pub const COMM_LEN: usize = 16;
pub const EXE_PATH_LEN: usize = 4096;
pub const CMDLINE_LEN: usize = 256;

/// The behavior that a raw configuration value asks for: only an explicit
/// "match" matches.
pub open spec fn spec_missing_behavior(raw: i32) -> MissingBehavior {
    if raw == MISSING_BEHAVIOR_MATCH {
        MissingBehavior::Match
    } else {
        MissingBehavior::NotMatch
    }
}

pub fn get_missing_behavior(raw: i32) -> (b: MissingBehavior)
    ensures
        b == spec_missing_behavior(raw),
{
    if raw == MISSING_BEHAVIOR_MATCH {
        MissingBehavior::Match
    } else {
        MissingBehavior::NotMatch
    }
}

/// `bytes` cut or padded with zeros to exactly `n` bytes.
pub open spec fn spec_zero_extend(bytes: Seq<u8>, n: nat) -> Seq<u8> {
    Seq::new(n, |i: int| if i < bytes.len() { bytes[i] } else { 0u8 })
}

pub fn zero_extend(bytes: &[u8], n: usize) -> (r: Vec<u8>)
    ensures
        r@ == spec_zero_extend(bytes@, n as nat),
{
    let mut r: Vec<u8> = Vec::with_capacity(n);
    let mut i: usize = 0;
    while i < n
        invariant
            i <= n,
            r@ == spec_zero_extend(bytes@, n as nat).take(i as int),
        decreases n - i,
    {
        if i < bytes.len() {
            r.push(bytes[i]);
        } else {
            r.push(0);
        }
        i = i + 1;
        assert(r@ =~= spec_zero_extend(bytes@, n as nat).take(i as int));
    }
    assert(spec_zero_extend(bytes@, n as nat).take(n as int) =~= spec_zero_extend(
        bytes@,
        n as nat,
    ));
    r
}

/// The bit of an event kind.
pub open spec fn kind_bit(kind: EventKind) -> u32 {
    1u32 << spec_kind_index(kind)
}

/// The views of the keys in `keys`.
pub open spec fn key_set<K: MapKey>(keys: Seq<K>) -> Set<K::KeyView> {
    Set::new(|kv: K::KeyView| exists|i: int| 0 <= i < keys.len() && #[trigger] keys[i].key_view() == kv)
}

/// The equalities after recording that the keys in `matched` match, and those
/// in `not_matched` do not, for the event kind with bit `bit`. A key that does
/// not match loses all its match bits.
pub open spec fn apply_equalities<KV>(
    m: Map<KV, Equality>,
    matched: Set<KV>,
    not_matched: Set<KV>,
    bit: u32,
) -> Map<KV, Equality> {
    Map::new(
        |kv: KV| m.contains_key(kv) || matched.contains(kv) || not_matched.contains(kv),
        |kv: KV|
            if matched.contains(kv) || not_matched.contains(kv) {
                let cur = if m.contains_key(kv) {
                    m[kv]
                } else {
                    Equality { eq_for_event_kind: 0, used_for_event_kind: 0 }
                };
                Equality {
                    eq_for_event_kind: if not_matched.contains(kv) {
                        0
                    } else {
                        cur.eq_for_event_kind | bit
                    },
                    used_for_event_kind: cur.used_for_event_kind | bit,
                }
            } else {
                m[kv]
            },
    )
}

proof fn lemma_key_set_push<K: MapKey>(keys: Seq<K>, n: int)
    requires
        0 <= n < keys.len(),
    ensures
        key_set(keys.take(n + 1)) == key_set(keys.take(n)).insert(keys[n].key_view()),
{
    let a = key_set(keys.take(n + 1));
    let b = key_set(keys.take(n)).insert(keys[n].key_view());
    assert forall|kv: K::KeyView| a.contains(kv) == b.contains(kv) by {
        if a.contains(kv) {
            let i = choose|i: int| 0 <= i < n + 1 && #[trigger] keys.take(n + 1)[i].key_view() == kv;
            if i < n {
                assert(keys.take(n)[i].key_view() == kv);
            }
        }
        if key_set(keys.take(n)).contains(kv) {
            let i = choose|i: int| 0 <= i < n && #[trigger] keys.take(n)[i].key_view() == kv;
            assert(keys.take(n + 1)[i].key_view() == kv);
        }
        if kv == keys[n].key_view() {
            assert(keys.take(n + 1)[n].key_view() == kv);
        }
    }
    assert(a =~= b);
}

proof fn lemma_or_idempotent(x: u32, bit: u32)
    ensures
        (x | bit) | bit == x | bit,
        x & (0u32 << 0u32) == 0,
{
    assert((x | bit) | bit == x | bit) by (bit_vector);
    assert(x & (0u32 << 0u32) == 0) by (bit_vector);
}

/// Records in `dest` that the keys `matches` match, and the keys `not_matches`
/// do not, for events of kind `kind`.
pub fn add_equalities<K: MapKey>(
    dest: &mut KeyedMap<K, Equality>,
    matches: &Vec<K>,
    not_matches: &Vec<K>,
    kind: EventKind,
)
    requires
        old(dest).wf(),
    ensures
        final(dest).wf(),
        final(dest)@ == apply_equalities(
            old(dest)@,
            key_set(matches@),
            key_set(not_matches@),
            kind_bit(kind),
        ),
{
    let ghost start = dest@;
    let shift = kind.index();
    let bit: u32 = 1u32 << shift;
    let mut i: usize = 0;
    proof {
        assert(key_set(matches@.take(0)) =~= Set::<K::KeyView>::empty());
        assert(apply_equalities(start, Set::empty(), Set::empty(), bit) =~= start);
    }
    while i < matches.len()
        invariant
            i <= matches@.len(),
            bit == kind_bit(kind),
            dest.wf(),
            dest@ == apply_equalities(start, key_set(matches@.take(i as int)), Set::empty(), bit),
        decreases matches@.len() - i,
    {
        let key = &matches[i];
        let cur = match dest.get(key) {
            Some(e) => *e,
            None => Equality { eq_for_event_kind: 0, used_for_event_kind: 0 },
        };
        let updated = Equality {
            eq_for_event_kind: cur.eq_for_event_kind | bit,
            used_for_event_kind: cur.used_for_event_kind | bit,
        };
        let ghost before = dest@;
        dest.insert(key.key_clone(), updated);
        proof {
            lemma_key_set_push(matches@, i as int);
            let kv = matches@[i as int].key_view();
            let after = apply_equalities(start, key_set(matches@.take(i + 1)), Set::empty(), bit);
            if start.contains_key(kv) {
                lemma_or_idempotent(start[kv].eq_for_event_kind, bit);
                lemma_or_idempotent(start[kv].used_for_event_kind, bit);
            }
            lemma_or_idempotent(0, bit);
            assert(dest@ =~= after);
        }
        i = i + 1;
    }
    proof {
        assert(matches@.take(matches@.len() as int) =~= matches@);
        assert(key_set(not_matches@.take(0)) =~= Set::<K::KeyView>::empty());
    }
    let ghost mset = key_set(matches@);
    let mut j: usize = 0;
    while j < not_matches.len()
        invariant
            j <= not_matches@.len(),
            bit == kind_bit(kind),
            shift < EVENT_KIND_MAX,
            dest.wf(),
            dest@ == apply_equalities(start, mset, key_set(not_matches@.take(j as int)), bit),
        decreases not_matches@.len() - j,
    {
        let key = &not_matches[j];
        let cur = match dest.get(key) {
            Some(e) => *e,
            None => Equality { eq_for_event_kind: 0, used_for_event_kind: 0 },
        };
        let updated = Equality {
            eq_for_event_kind: cur.eq_for_event_kind & (0u32 << shift),
            used_for_event_kind: cur.used_for_event_kind | bit,
        };
        proof {
            let e = cur.eq_for_event_kind;
            assert(e & (0u32 << shift) == 0) by (bit_vector)
                requires
                    shift < 6,
            ;
        }
        dest.insert(key.key_clone(), updated);
        proof {
            lemma_key_set_push(not_matches@, j as int);
            let kv = not_matches@[j as int].key_view();
            if start.contains_key(kv) {
                lemma_or_idempotent(start[kv].used_for_event_kind, bit);
            }
            lemma_or_idempotent(0, bit);
            assert(dest@ =~= apply_equalities(start, mset, key_set(not_matches@.take(j + 1)), bit));
        }
        j = j + 1;
    }
    proof {
        assert(not_matches@.take(not_matches@.len() as int) =~= not_matches@);
    }
}

/// Recording the values of a filter marks each of them as used for the
/// event kind, clears the match bits of each value that does not match, sets
/// the kind's match bit of each value that only matches, and leaves every
/// other value as it was.
pub proof fn lemma_equalities_mark_values<KV>(
    m: Map<KV, Equality>,
    matched: Set<KV>,
    not_matched: Set<KV>,
    kind: EventKind,
    kv: KV,
)
    ensures
        (matched.contains(kv) || not_matched.contains(kv)) ==> apply_equalities(
            m,
            matched,
            not_matched,
            kind_bit(kind),
        )[kv].used_for_event_kind & kind_bit(kind) == kind_bit(kind),
        not_matched.contains(kv) ==> apply_equalities(
            m,
            matched,
            not_matched,
            kind_bit(kind),
        )[kv].eq_for_event_kind == 0,
        matched.contains(kv) && !not_matched.contains(kv) ==> apply_equalities(
            m,
            matched,
            not_matched,
            kind_bit(kind),
        )[kv].eq_for_event_kind & kind_bit(kind) == kind_bit(kind),
        !matched.contains(kv) && !not_matched.contains(kv) ==> (apply_equalities(
            m,
            matched,
            not_matched,
            kind_bit(kind),
        ).contains_key(kv) == m.contains_key(kv) && (m.contains_key(kv) ==> apply_equalities(
            m,
            matched,
            not_matched,
            kind_bit(kind),
        )[kv] == m[kv])),
{
    let bit = kind_bit(kind);
    let cur = if m.contains_key(kv) {
        m[kv]
    } else {
        Equality { eq_for_event_kind: 0, used_for_event_kind: 0 }
    };
    let u = cur.used_for_event_kind;
    let e = cur.eq_for_event_kind;
    assert((u | bit) & bit == bit) by (bit_vector);
    assert((e | bit) & bit == bit) by (bit_vector);
}

/// One value of a filter, tagged with whether events carrying it match.
pub enum Entry<T> {
    Match(T),
    NotMatch(T),
}

/// The value an entry carries, whichever its tag.
pub open spec fn entry_value<T>(e: Entry<T>) -> T {
    match e {
        Entry::Match(v) => v,
        Entry::NotMatch(v) => v,
    }
}

impl<T> Entry<T> {
    /// The value this entry carries.
    pub fn value(&self) -> (v: &T)
        ensures
            *v == entry_value(*self),
    {
        match self {
            Entry::Match(value) => value,
            Entry::NotMatch(value) => value,
        }
    }
}

} // verus!

verus! {

/// The text fields that can be filtered.
#[derive(Debug, Copy, Clone, PartialEq, Eq, Structural)]
pub enum TextField {
    Comm,
    ExePath,
    Cmdline,
}

/// The filter of a text field.
pub open spec fn text_filter(f: Filter, field: TextField) -> Option<StringFilter> {
    match field {
        TextField::Comm => f.comm_filter,
        TextField::ExePath => f.exe_path_filter,
        TextField::Cmdline => f.cmdline_filter,
    }
}

/// The key width of a text field's table.
pub open spec fn text_width(field: TextField) -> nat {
    match field {
        TextField::Comm => COMM_LEN as nat,
        TextField::ExePath => EXE_PATH_LEN as nat,
        TextField::Cmdline => CMDLINE_LEN as nat,
    }
}

/// The table keys of some text values: their UTF-8 bytes, cut or padded to `n`.
pub open spec fn text_keys(values: Seq<String>, n: nat) -> Set<Seq<u8>> {
    Set::new(
        |kv: Seq<u8>|
            exists|i: int|
                0 <= i < values.len() && spec_zero_extend(vstd::utf8::encode_utf8(#[trigger] values[i]@), n)
                    == kv,
    )
}

/// The pid table after the filter of one event kind.
#[verifier::opaque]
pub open spec fn pid_step(m: Map<u32, Equality>, filter: Option<Filter>, kind: EventKind) -> Map<
    u32,
    Equality,
> {
    match filter {
        Some(f) => match f.pid_filter {
            Some(pf) => apply_equalities(
                m,
                key_set(pf.matching@),
                key_set(pf.not_matching@),
                kind_bit(kind),
            ),
            None => m,
        },
        None => m,
    }
}

/// A text table after the filter of one event kind.
#[verifier::opaque]
pub open spec fn text_step(
    m: Map<Seq<u8>, Equality>,
    filter: Option<Filter>,
    kind: EventKind,
    field: TextField,
) -> Map<Seq<u8>, Equality> {
    match filter {
        Some(f) => match text_filter(f, field) {
            Some(sf) => apply_equalities(
                m,
                text_keys(sf.matching@, text_width(field)),
                text_keys(sf.not_matching@, text_width(field)),
                kind_bit(kind),
            ),
            None => m,
        },
        None => m,
    }
}

/// The filter of an event configuration, if the kind is enabled and filtered.
pub open spec fn event_filter(c: Option<crate::config::EventConfig>) -> Option<Filter> {
    match c {
        Some(ec) => ec.filter,
        None => None,
    }
}

/// The filter of the blocking configuration.
pub open spec fn blocking_filter(c: Option<crate::config::BlockingConfig>) -> Option<Filter> {
    match c {
        Some(bc) => bc.filter,
        None => None,
    }
}

/// The pid table of a configuration: the event kinds are taken in the order
/// write, blocking, JNI references, signal, file descriptor change, garbage
/// collection.
pub open spec fn spec_pid_table(c: Configuration) -> Map<u32, Equality> {
    pid_step(
        pid_step(
            pid_step(
                pid_step(
                    pid_step(
                        pid_step(Map::empty(), event_filter(c.write_config), EventKind::Write),
                        blocking_filter(c.blocking_config),
                        EventKind::Blocking,
                    ),
                    event_filter(c.jni_references_config),
                    EventKind::JniReferences,
                ),
                event_filter(c.signal_config),
                EventKind::Signal,
            ),
            event_filter(c.file_descriptor_change_config),
            EventKind::FileDescriptorChange,
        ),
        event_filter(c.garbage_collect_config),
        EventKind::GarbageCollect,
    )
}

/// A text table of a configuration, with the event kinds in the same order.
pub open spec fn spec_text_table(c: Configuration, field: TextField) -> Map<Seq<u8>, Equality> {
    text_step(
        text_step(
            text_step(
                text_step(
                    text_step(
                        text_step(Map::empty(), event_filter(c.write_config), EventKind::Write, field),
                        blocking_filter(c.blocking_config),
                        EventKind::Blocking,
                        field,
                    ),
                    event_filter(c.jni_references_config),
                    EventKind::JniReferences,
                    field,
                ),
                event_filter(c.signal_config),
                EventKind::Signal,
                field,
            ),
            event_filter(c.file_descriptor_change_config),
            EventKind::FileDescriptorChange,
            field,
        ),
        event_filter(c.garbage_collect_config),
        EventKind::GarbageCollect,
        field,
    )
}

/// How a field of a filtered kind is set: filtered, with the configured
/// missing behavior, or "does not match" where the field has no filter.
pub open spec fn field_setting(raw: Option<i32>) -> Option<FieldFilter> {
    match raw {
        Some(r) => Some(FieldFilter { missing_behavior: spec_missing_behavior(r) }),
        None => Some(FieldFilter { missing_behavior: MissingBehavior::NotMatch }),
    }
}

/// The setting of one event kind.
pub open spec fn spec_kind_setting(filter: Option<Filter>) -> FilterConfig {
    match filter {
        Some(f) => FilterConfig {
            pid_filter: field_setting(
                match f.pid_filter {
                    Some(pf) => Some(pf.missing_behavior),
                    None => None,
                },
            ),
            comm_filter: field_setting(
                match f.comm_filter {
                    Some(sf) => Some(sf.missing_behavior),
                    None => None,
                },
            ),
            exe_path_filter: field_setting(
                match f.exe_path_filter {
                    Some(sf) => Some(sf.missing_behavior),
                    None => None,
                },
            ),
            cmdline_filter: field_setting(
                match f.cmdline_filter {
                    Some(sf) => Some(sf.missing_behavior),
                    None => None,
                },
            ),
        },
        None => spec_default_filter_config(),
    }
}

/// The filter of the event kind `kind` in a configuration.
pub open spec fn filter_of_kind(c: Configuration, kind: EventKind) -> Option<Filter> {
    match kind {
        EventKind::Write => event_filter(c.write_config),
        EventKind::Blocking => blocking_filter(c.blocking_config),
        EventKind::Signal => event_filter(c.signal_config),
        EventKind::GarbageCollect => event_filter(c.garbage_collect_config),
        EventKind::FileDescriptorChange => event_filter(c.file_descriptor_change_config),
        EventKind::JniReferences => event_filter(c.jni_references_config),
    }
}

/// The filter table of a configuration, indexed by event kind.
pub open spec fn spec_filter_config(c: Configuration) -> Seq<FilterConfig> {
    seq![
        spec_kind_setting(filter_of_kind(c, EventKind::Write)),
        spec_kind_setting(filter_of_kind(c, EventKind::Blocking)),
        spec_kind_setting(filter_of_kind(c, EventKind::Signal)),
        spec_kind_setting(filter_of_kind(c, EventKind::GarbageCollect)),
        spec_kind_setting(filter_of_kind(c, EventKind::FileDescriptorChange)),
        spec_kind_setting(filter_of_kind(c, EventKind::JniReferences)),
    ]
}

/// The blocking threshold that a configuration sets, if any.
pub open spec fn spec_blocking_threshold(c: Configuration) -> Option<u64> {
    match c.blocking_config {
        Some(bc) => bc.threshold,
        None => None,
    }
}

/// Everything that the eBPF programs read of a configuration.
pub struct FilterTables {
    pub pid_filter: KeyedMap<u32, Equality>,
    pub comm_filter: KeyedMap<Vec<u8>, Equality>,
    pub exe_path_filter: KeyedMap<Vec<u8>, Equality>,
    pub cmdline_filter: KeyedMap<Vec<u8>, Equality>,
    /// One setting per event kind, at the kind's index.
    pub filter_config: Vec<FilterConfig>,
    /// A new blocking threshold, if the configuration sets one.
    pub blocking_threshold: Option<u64>,
}

impl FilterTables {
    /// Each table is well formed, and there is one setting per event kind.
    pub open spec fn wf(&self) -> bool {
        &&& self.pid_filter.wf()
        &&& self.comm_filter.wf()
        &&& self.exe_path_filter.wf()
        &&& self.cmdline_filter.wf()
        &&& self.filter_config@.len() == EVENT_KIND_MAX
    }

    /// The table of a text field.
    pub open spec fn text_table(&self, field: TextField) -> Map<Seq<u8>, Equality> {
        match field {
            TextField::Comm => self.comm_filter@,
            TextField::ExePath => self.exe_path_filter@,
            TextField::Cmdline => self.cmdline_filter@,
        }
    }
}

fn text_key_vec(values: &Vec<String>, n: usize) -> (keys: Vec<Vec<u8>>)
    ensures
        key_set(keys@) == text_keys(values@, n as nat),
{
    let mut keys: Vec<Vec<u8>> = Vec::new();
    let mut i: usize = 0;
    while i < values.len()
        invariant
            i <= values@.len(),
            keys@.len() == i,
            forall|j: int|
                0 <= j < i ==> #[trigger] keys@[j]@ == spec_zero_extend(
                    vstd::utf8::encode_utf8(values@[j]@),
                    n as nat,
                ),
        decreases values@.len() - i,
    {
        let bytes = values[i].as_str().as_bytes();
        keys.push(zero_extend(bytes, n));
        i = i + 1;
    }
    proof {
        let a = key_set(keys@);
        let b = text_keys(values@, n as nat);
        assert forall|kv: Seq<u8>| a.contains(kv) == b.contains(kv) by {
            if a.contains(kv) {
                let j = choose|j: int| 0 <= j < keys@.len() && #[trigger] keys@[j].key_view() == kv;
                assert(spec_zero_extend(vstd::utf8::encode_utf8(values@[j]@), n as nat) == kv);
            }
            if b.contains(kv) {
                let j = choose|j: int|
                    0 <= j < values@.len() && spec_zero_extend(
                        vstd::utf8::encode_utf8(#[trigger] values@[j]@),
                        n as nat,
                    ) == kv;
                assert(keys@[j].key_view() == kv);
            }
        }
        assert(a =~= b);
    }
    keys
}

fn width_of(field: TextField) -> (n: usize)
    ensures
        n == text_width(field),
{
    match field {
        TextField::Comm => COMM_LEN,
        TextField::ExePath => EXE_PATH_LEN,
        TextField::Cmdline => CMDLINE_LEN,
    }
}

fn apply_text_filter(
    dest: &mut KeyedMap<Vec<u8>, Equality>,
    sf: &Option<StringFilter>,
    kind: EventKind,
    field: TextField,
) -> (setting: Option<FieldFilter>)
    requires
        old(dest).wf(),
    ensures
        final(dest).wf(),
        final(dest)@ == match sf {
            Some(s) => apply_equalities(
                old(dest)@,
                text_keys(s.matching@, text_width(field)),
                text_keys(s.not_matching@, text_width(field)),
                kind_bit(kind),
            ),
            None => old(dest)@,
        },
        setting == field_setting(
            match sf {
                Some(s) => Some(s.missing_behavior),
                None => None,
            },
        ),
{
    match sf {
        Some(s) => {
            let n = width_of(field);
            let matches = text_key_vec(&s.matching, n);
            let not_matches = text_key_vec(&s.not_matching, n);
            add_equalities(dest, &matches, &not_matches, kind);
            Some(FieldFilter { missing_behavior: get_missing_behavior(s.missing_behavior) })
        },
        None => Some(FieldFilter { missing_behavior: MissingBehavior::NotMatch }),
    }
}

fn apply_pid_filter(dest: &mut KeyedMap<u32, Equality>, pf: &Option<UInt32Filter>, kind: EventKind) -> (setting: Option<FieldFilter>)
    requires
        old(dest).wf(),
    ensures
        final(dest).wf(),
        final(dest)@ == match pf {
            Some(p) => apply_equalities(
                old(dest)@,
                key_set(p.matching@),
                key_set(p.not_matching@),
                kind_bit(kind),
            ),
            None => old(dest)@,
        },
        setting == field_setting(
            match pf {
                Some(p) => Some(p.missing_behavior),
                None => None,
            },
        ),
{
    match pf {
        Some(p) => {
            add_equalities(dest, &p.matching, &p.not_matching, kind);
            Some(FieldFilter { missing_behavior: get_missing_behavior(p.missing_behavior) })
        },
        None => Some(FieldFilter { missing_behavior: MissingBehavior::NotMatch }),
    }
}

impl FilterTables {
    fn empty() -> (t: FilterTables)
        ensures
            t.wf(),
            t.pid_filter@ == Map::<u32, Equality>::empty(),
            t.comm_filter@ == Map::<Seq<u8>, Equality>::empty(),
            t.exe_path_filter@ == Map::<Seq<u8>, Equality>::empty(),
            t.cmdline_filter@ == Map::<Seq<u8>, Equality>::empty(),
            t.filter_config@ == Seq::new(EVENT_KIND_MAX as nat, |i: int| spec_default_filter_config()),
            t.blocking_threshold is None,
    {
        let mut filter_config: Vec<FilterConfig> = Vec::new();
        let mut i: usize = 0;
        while i < EVENT_KIND_MAX
            invariant
                i <= EVENT_KIND_MAX,
                filter_config@ == Seq::new(i as nat, |k: int| spec_default_filter_config()),
            decreases EVENT_KIND_MAX - i,
        {
            filter_config.push(FilterConfig::default_config());
            i = i + 1;
            assert(filter_config@ =~= Seq::new(i as nat, |k: int| spec_default_filter_config()));
        }
        FilterTables {
            pid_filter: KeyedMap::new(),
            comm_filter: KeyedMap::new(),
            exe_path_filter: KeyedMap::new(),
            cmdline_filter: KeyedMap::new(),
            filter_config,
            blocking_threshold: None,
        }
    }

    /// Takes in the filter of one event kind.
    fn apply(&mut self, filter: &Option<Filter>, kind: EventKind)
        requires
            old(self).wf(),
        ensures
            final(self).wf(),
            final(self).pid_filter@ == pid_step(old(self).pid_filter@, *filter, kind),
            final(self).comm_filter@ == text_step(old(self).comm_filter@, *filter, kind, TextField::Comm),
            final(self).exe_path_filter@ == text_step(
                old(self).exe_path_filter@,
                *filter,
                kind,
                TextField::ExePath,
            ),
            final(self).cmdline_filter@ == text_step(
                old(self).cmdline_filter@,
                *filter,
                kind,
                TextField::Cmdline,
            ),
            filter is Some ==> final(self).filter_config@ == old(self).filter_config@.update(
                spec_kind_index(kind) as int,
                spec_kind_setting(*filter),
            ),
            filter is None ==> final(self).filter_config@ == old(self).filter_config@,
            final(self).blocking_threshold == old(self).blocking_threshold,
    {
        proof {
            reveal(pid_step);
            reveal(text_step);
        }
        match filter {
            Some(f) => {
                let pid = apply_pid_filter(&mut self.pid_filter, &f.pid_filter, kind);
                let comm = apply_text_filter(&mut self.comm_filter, &f.comm_filter, kind, TextField::Comm);
                let exe_path = apply_text_filter(
                    &mut self.exe_path_filter,
                    &f.exe_path_filter,
                    kind,
                    TextField::ExePath,
                );
                let cmdline = apply_text_filter(
                    &mut self.cmdline_filter,
                    &f.cmdline_filter,
                    kind,
                    TextField::Cmdline,
                );
                let idx = kind.index();
                self.filter_config.set(
                    idx as usize,
                    FilterConfig {
                        pid_filter: pid,
                        comm_filter: comm,
                        exe_path_filter: exe_path,
                        cmdline_filter: cmdline,
                    },
                );
            },
            None => {},
        }
    }
}

/// Builds the filter tables of a configuration.
pub fn filter_tables(config: &Configuration) -> (t: FilterTables)
    ensures
        t.wf(),
        t.pid_filter@ == spec_pid_table(*config),
        t.comm_filter@ == spec_text_table(*config, TextField::Comm),
        t.exe_path_filter@ == spec_text_table(*config, TextField::ExePath),
        t.cmdline_filter@ == spec_text_table(*config, TextField::Cmdline),
        t.filter_config@ == spec_filter_config(*config),
        t.blocking_threshold == spec_blocking_threshold(*config),
{
    let none: Option<Filter> = None;
    let mut t = FilterTables::empty();
    let write = match &config.write_config {
        Some(c) => &c.filter,
        None => &none,
    };
    t.apply(write, EventKind::Write);
    let blocking = match &config.blocking_config {
        Some(c) => &c.filter,
        None => &none,
    };
    t.apply(blocking, EventKind::Blocking);
    let jni = match &config.jni_references_config {
        Some(c) => &c.filter,
        None => &none,
    };
    t.apply(jni, EventKind::JniReferences);
    let signal = match &config.signal_config {
        Some(c) => &c.filter,
        None => &none,
    };
    t.apply(signal, EventKind::Signal);
    let fd = match &config.file_descriptor_change_config {
        Some(c) => &c.filter,
        None => &none,
    };
    t.apply(fd, EventKind::FileDescriptorChange);
    let gc = match &config.garbage_collect_config {
        Some(c) => &c.filter,
        None => &none,
    };
    t.apply(gc, EventKind::GarbageCollect);
    t.blocking_threshold = match &config.blocking_config {
        Some(c) => c.threshold,
        None => None,
    };
    proof {
        assert(t.filter_config@ =~= spec_filter_config(*config));
    }
    t
}

} // verus!
