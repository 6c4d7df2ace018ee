//! The configuration that clients send to the daemon, and the checks made on
//! a configuration before it replaces the stored one.
use vstd::prelude::*;

verus! {

/// Raw value of an unspecified missing behavior.
pub const MISSING_BEHAVIOR_UNSPECIFIED: i32 = 0;
/// Raw value of "an event with no value for the filtered field matches".
pub const MISSING_BEHAVIOR_MATCH: i32 = 1;
/// Raw value of "an event with no value for the filtered field does not match".
pub const MISSING_BEHAVIOR_NOT_MATCH: i32 = 2;

/// A filter on a numeric field of events (a pid).
#[derive(Debug, Clone)]
pub struct UInt32Filter {
    /// Values for which events are kept.
    pub matching: Vec<u32>,
    /// Values for which events are dropped.
    pub not_matching: Vec<u32>,
    /// What happens to events without a value (raw enum value).
    pub missing_behavior: i32,
}

/// A filter on a text field of events (command name, executable path, command line).
#[derive(Debug, Clone)]
pub struct StringFilter {
    pub matching: Vec<String>,
    pub not_matching: Vec<String>,
    pub missing_behavior: i32,
}

/// The filters that apply to one kind of event.
#[derive(Debug, Clone)]
pub struct Filter {
    pub pid_filter: Option<UInt32Filter>,
    pub comm_filter: Option<StringFilter>,
    pub exe_path_filter: Option<StringFilter>,
    pub cmdline_filter: Option<StringFilter>,
}

/// The configuration of one kind of event; present means enabled.
#[derive(Debug, Clone)]
pub struct EventConfig {
    pub filter: Option<Filter>,
}

/// The configuration of blocking detection.
#[derive(Debug, Clone)]
pub struct BlockingConfig {
    pub filter: Option<Filter>,
    /// Minimal duration of a reported blocking, in nanoseconds.
    pub threshold: Option<u64>,
}

/// The whole configuration of the daemon.
#[derive(Debug, Clone)]
pub struct Configuration {
    pub write_config: Option<EventConfig>,
    pub blocking_config: Option<BlockingConfig>,
    pub jni_references_config: Option<EventConfig>,
    pub signal_config: Option<EventConfig>,
    pub file_descriptor_change_config: Option<EventConfig>,
    pub garbage_collect_config: Option<EventConfig>,
}

// ---------------------------------------------------------------------------
// Validation of a configuration given as a list of entries

/// One eBPF program entry of a configuration.
#[derive(Debug, Clone)]
pub struct EbpfEntry {
    pub ebpf_name: String,
}

/// A configuration given as a list of eBPF program entries.
#[derive(Debug, Clone)]
pub struct EntryConfiguration {
    pub entries: Vec<EbpfEntry>,
}

#[verifier::external_type_specification]
#[verifier::external_body]
pub struct ExIoError(std::io::Error);

/// Why a configuration was refused or could not be stored.
#[derive(Debug)]
pub enum ConfigError {
    /// The new configuration has another number of entries than the old one.
    WrongEntryCount { old_config_count: u32, new_config_count: u32 },
    /// Entries of the old configuration are not in the new one; their names.
    EntryDropped { entry_names: Vec<String> },
    LoadFailed(std::io::Error),
    SaveFailed(std::io::Error),
}

/// Whether `entries` holds an entry named `name`.
pub open spec fn has_entry(entries: Seq<EbpfEntry>, name: Seq<char>) -> bool {
    exists|i: int| 0 <= i < entries.len() && #[trigger] entries[i].ebpf_name@ == name
}

/// Whether two entries describe the same program.
pub fn equal_entries(old: &EbpfEntry, new: &EbpfEntry) -> (b: bool)
    ensures
        b == (old.ebpf_name@ == new.ebpf_name@),
{
    old.ebpf_name == new.ebpf_name
}

fn contains_entry(entries: &Vec<EbpfEntry>, entry: &EbpfEntry) -> (b: bool)
    ensures
        b == has_entry(entries@, entry.ebpf_name@),
{
    let mut i: usize = 0;
    while i < entries.len()
        invariant
            i <= entries@.len(),
            forall|j: int| 0 <= j < i ==> entries@[j].ebpf_name@ != entry.ebpf_name@,
        decreases entries@.len() - i,
    {
        if equal_entries(&entries[i], entry) {
            return true;
        }
        i = i + 1;
    }
    false
}

/// The names, in order, of the entries of `old` that `new` does not hold.
pub open spec fn dropped_names(old: Seq<EbpfEntry>, new: Seq<EbpfEntry>) -> Seq<Seq<char>>
    decreases old.len(),
{
    if old.len() == 0 {
        Seq::empty()
    } else {
        let rest = dropped_names(old.drop_last(), new);
        if has_entry(new, old.last().ebpf_name@) {
            rest
        } else {
            rest.push(old.last().ebpf_name@)
        }
    }
}

proof fn lemma_dropped_names_empty(old: Seq<EbpfEntry>, new: Seq<EbpfEntry>)
    ensures
        (dropped_names(old, new).len() == 0) == (forall|i: int|
            0 <= i < old.len() ==> has_entry(new, #[trigger] old[i].ebpf_name@)),
    decreases old.len(),
{
    if old.len() > 0 {
        let d = old.drop_last();
        lemma_dropped_names_empty(d, new);
        if has_entry(new, old.last().ebpf_name@) {
            if forall|i: int| 0 <= i < d.len() ==> has_entry(new, #[trigger] d[i].ebpf_name@) {
                assert forall|i: int| 0 <= i < old.len() implies has_entry(
                    new,
                    #[trigger] old[i].ebpf_name@,
                ) by {
                    if i < d.len() {
                        assert(d[i] == old[i]);
                    }
                }
            }
            if forall|i: int| 0 <= i < old.len() ==> has_entry(new, #[trigger] old[i].ebpf_name@) {
                assert forall|i: int| 0 <= i < d.len() implies has_entry(
                    new,
                    #[trigger] d[i].ebpf_name@,
                ) by {
                    assert(d[i] == old[i]);
                }
            }
        } else {
            assert(!has_entry(new, old[old.len() - 1].ebpf_name@));
        }
    }
}

/// Checks that `new_config` may replace `old_config`: it must have as many
/// entries, and every old entry must still be there. The entries that were
/// dropped are reported by name, in the order of the old configuration.
pub fn validate(new_config: &EntryConfiguration, old_config: &EntryConfiguration) -> (r: Result<
    (),
    ConfigError,
>)
    ensures
        old_config.entries@.len() != new_config.entries@.len() ==> (r matches Err(
            ConfigError::WrongEntryCount { old_config_count, new_config_count },
        ) && old_config_count == old_config.entries@.len() as u32 && new_config_count
            == new_config.entries@.len() as u32),
        old_config.entries@.len() == new_config.entries@.len() ==> {
            if dropped_names(old_config.entries@, new_config.entries@).len() > 0 {
                (r matches Err(ConfigError::EntryDropped { entry_names }) && entry_names@.map_values(
                    |s: String| s@,
                ) == dropped_names(old_config.entries@, new_config.entries@))
            } else {
                r is Ok
            }
        },
        r is Ok <==> (old_config.entries@.len() == new_config.entries@.len() && forall|i: int|
            0 <= i < old_config.entries@.len() ==> has_entry(
                new_config.entries@,
                #[trigger] old_config.entries@[i].ebpf_name@,
            )),
{
    proof {
        lemma_dropped_names_empty(old_config.entries@, new_config.entries@);
    }
    if old_config.entries.len() != new_config.entries.len() {
        return Err(
            ConfigError::WrongEntryCount {
                old_config_count: old_config.entries.len() as u32,
                new_config_count: new_config.entries.len() as u32,
            },
        );
    }
    let ghost old_entries = old_config.entries@;
    let ghost new_entries = new_config.entries@;
    let mut entry_names: Vec<String> = Vec::new();
    let mut i: usize = 0;
    while i < old_config.entries.len()
        invariant
            old_entries == old_config.entries@,
            new_entries == new_config.entries@,
            i <= old_entries.len(),
            entry_names@.map_values(|s: String| s@) == dropped_names(old_entries.take(i as int), new_entries),
        decreases old_entries.len() - i,
    {
        proof {
            assert(old_entries.take(i + 1).drop_last() =~= old_entries.take(i as int));
        }
        let ghost before = entry_names@;
        if !contains_entry(&new_config.entries, &old_config.entries[i]) {
            entry_names.push(old_config.entries[i].ebpf_name.clone());
            proof {
                assert(entry_names@.map_values(|s: String| s@) =~= before.map_values(|s: String| s@).push(
                    old_entries[i as int].ebpf_name@,
                ));
            }
        }
        i = i + 1;
    }
    proof {
        assert(old_entries.take(old_entries.len() as int) =~= old_entries);
    }
    if entry_names.len() > 0 {
        return Err(ConfigError::EntryDropped { entry_names });
    }
    Ok(())
}

/// A configuration may always replace itself: every one of its entries is
/// found in it, so validating it against itself succeeds.
pub proof fn lemma_validate_reflexive(entries: Seq<EbpfEntry>)
    ensures
        forall|i: int| 0 <= i < entries.len() ==> has_entry(entries, #[trigger] entries[i].ebpf_name@),
{
    assert forall|i: int| 0 <= i < entries.len() implies has_entry(entries, #[trigger] entries[i].ebpf_name@) by {
        assert(entries[i].ebpf_name@ == entries[i].ebpf_name@);
    }
}

} // verus!
