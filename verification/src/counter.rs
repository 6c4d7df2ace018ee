//! The bookkeeping of the packet counter: which interfaces its program is
//! attached to, whether it is collecting, and the counts it reads.
use vstd::prelude::*;
use crate::keyed_map::KeyedMap;
use crate::calls::le_bytes;

verus! {

/// Why a counter operation failed.
pub enum CounterError {
    /// The eBPF object exports no program of that name.
    ProgramDoesNotExist { program: String },
    /// The program is not attached to the interface.
    InterfaceNotAttached { iface: String },
    /// Counts are being collected already.
    AlreadyCollecting,
    /// Counts are not being collected.
    NotCollecting,
}

/// The links of the counter program, by interface name.
pub struct CounterLinks<L> {
    links: KeyedMap<String, L>,
}

impl<L> CounterLinks<L> {
    /// The link of each attached interface.
    pub closed spec fn links(&self) -> Map<Seq<char>, L> {
        self.links@
    }

    /// The table is well formed.
    pub closed spec fn wf(&self) -> bool {
        self.links.wf()
    }

    /// No interface attached.
    pub fn new() -> (c: Self)
        ensures
            c.wf(),
            c.links() == Map::<Seq<char>, L>::empty(),
    {
        CounterLinks { links: KeyedMap::new() }
    }

    /// Notes that the program is attached to `iface` by `link`.
    pub fn attach(&mut self, iface: String, link: L)
        requires
            old(self).wf(),
        ensures
            final(self).wf(),
            final(self).links() == old(self).links().insert(iface@, link),
    {
        self.links.insert(iface, link);
    }

    /// Takes the link of `iface` out, to detach it; an interface that is not
    /// attached is an error.
    pub fn detach(&mut self, iface: String) -> (r: Result<L, CounterError>)
        requires
            old(self).wf(),
        ensures
            final(self).wf(),
            final(self).links() == old(self).links().remove(iface@),
            old(self).links().contains_key(iface@) ==> r == Ok::<L, CounterError>(
                old(self).links()[iface@],
            ),
            !old(self).links().contains_key(iface@) ==> r == Err::<L, CounterError>(
                CounterError::InterfaceNotAttached { iface },
            ),
    {
        match self.links.remove(&iface) {
            Some(l) => Ok(l),
            None => Err(CounterError::InterfaceNotAttached { iface }),
        }
    }

    /// Forgets every link, as unloading the program does.
    pub fn clear(&mut self)
        ensures
            final(self).wf(),
            final(self).links() == Map::<Seq<char>, L>::empty(),
    {
        self.links = KeyedMap::new();
    }
}

/// Detaching an interface right after attaching it gives back the link that
/// was attached and leaves the other interfaces as they were.
pub proof fn lemma_attach_detach<L>(links: Map<Seq<char>, L>, iface: Seq<char>, link: L)
    ensures
        links.insert(iface, link).contains_key(iface),
        links.insert(iface, link)[iface] == link,
        links.insert(iface, link).remove(iface) == links.remove(iface),
{
    assert(links.insert(iface, link).remove(iface) =~= links.remove(iface));
}

/// Whether the counter collects counts.
pub struct CollectingState {
    active: bool,
}

impl CollectingState {
    /// Whether counts are being collected.
    pub closed spec fn is_active(&self) -> bool {
        self.active
    }

    /// Not collecting.
    pub fn new() -> (s: Self)
        ensures
            !s.is_active(),
    {
        CollectingState { active: false }
    }

    /// Starts collecting; collecting already is an error.
    pub fn start(&mut self) -> (r: Result<(), CounterError>)
        ensures
            final(self).is_active(),
            old(self).is_active() ==> r == Err::<(), CounterError>(CounterError::AlreadyCollecting),
            !old(self).is_active() ==> r is Ok,
    {
        if self.active {
            return Err(CounterError::AlreadyCollecting);
        }
        self.active = true;
        Ok(())
    }

    /// Stops collecting, whether it was or not; tells whether it was.
    pub fn stop(&mut self) -> (was_active: bool)
        ensures
            !final(self).is_active(),
            was_active == old(self).is_active(),
    {
        let was = self.active;
        self.active = false;
        was
    }

    /// Succeeds while counts are collected: only then is there a count to
    /// follow.
    pub fn server_count(&self) -> (r: Result<(), CounterError>)
        ensures
            self.is_active() ==> r is Ok,
            !self.is_active() ==> r == Err::<(), CounterError>(CounterError::NotCollecting),
    {
        if self.active {
            Ok(())
        } else {
            Err(CounterError::NotCollecting)
        }
    }
}

/// The count that an item of the counter's ring buffer carries: four bytes,
/// little endian.
pub fn count_from_item(item: &[u8]) -> (count: u32)
    requires
        item@.len() == 4,
    ensures
        count == le_bytes(item@, 0, 4),
{
    crate::calls::read_u32(item, 0)
}

} // verus!
