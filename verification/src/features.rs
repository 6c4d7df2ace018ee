//! What the eBPF features attach, and when.
use vstd::prelude::*;

verus! {

/// What applying a configuration to a feature does.
#[derive(Debug, Clone, Copy, PartialEq, Eq, Structural)]
pub enum FeatureAction {
    /// The feature is configured: attach its programs.
    Attach,
    /// The feature is not configured: detach them.
    Detach,
}

/// A feature attaches when it has a configuration and detaches when not.
pub fn feature_action<C>(config: &Option<C>) -> (a: FeatureAction)
    ensures
        a == (if config is Some {
            FeatureAction::Attach
        } else {
            FeatureAction::Detach
        }),
{
    match config {
        Some(_) => FeatureAction::Attach,
        None => FeatureAction::Detach,
    }
}

/// The program of the file descriptor tracking that a syscall feeds.
#[derive(Debug, Clone, Copy, PartialEq, Eq, Structural)]
pub enum FdProgram {
    /// The program that notes a new file descriptor.
    CreateFd,
    /// The program that notes a closed one.
    DestroyFd,
}

/// The syscall tracepoints that the file descriptor tracking attaches to,
/// in the order it attaches them, each with the program it attaches there.
pub open spec fn spec_fd_tracking_syscalls() -> Seq<(FdProgram, Seq<char>)> {
    seq![
        (FdProgram::CreateFd, "open"@),
        (FdProgram::CreateFd, "creat"@),
        (FdProgram::CreateFd, "socket"@),
        (FdProgram::CreateFd, "accept"@),
        (FdProgram::CreateFd, "socketpair"@),
        (FdProgram::CreateFd, "pipe"@),
        (FdProgram::CreateFd, "epoll_create"@),
        (FdProgram::CreateFd, "signalfd"@),
        (FdProgram::CreateFd, "eventfd"@),
        (FdProgram::CreateFd, "timerfd_create"@),
        (FdProgram::CreateFd, "memfd_create"@),
        (FdProgram::CreateFd, "userfaultfd"@),
        (FdProgram::CreateFd, "fanotify_init"@),
        (FdProgram::CreateFd, "inotify_init"@),
        (FdProgram::CreateFd, "clone"@),
        (FdProgram::CreateFd, "pidfd_open"@),
        (FdProgram::CreateFd, "open_by_handle_at"@),
        (FdProgram::DestroyFd, "close"@),
        (FdProgram::DestroyFd, "closefrom"@),
        (FdProgram::DestroyFd, "close_range"@),
        (FdProgram::CreateFd, "dup"@),
        (FdProgram::CreateFd, "openat"@),
    ]
}

proof fn lemma_not_prefix(p: Seq<char>, s: Seq<char>, k: int)
    requires
        0 <= k < p.len(),
        k < s.len(),
        p[k] != s[k],
    ensures
        !p.is_prefix_of(s),
{
    if p.is_prefix_of(s) {
        assert(s.subrange(0, p.len() as int)[k] == s[k]);
    }
}

/// The file descriptor tracking feeds the program that notes a closed
/// descriptor from exactly the syscalls whose name starts with `close`
/// (`close`, `closefrom`, `close_range`), and the program that notes a new
/// descriptor from all the others.
pub proof fn lemma_fd_programs_by_name()
    ensures
        forall|i: int|
            0 <= i < spec_fd_tracking_syscalls().len() ==> ((#[trigger] spec_fd_tracking_syscalls()[i]).0
                == FdProgram::DestroyFd <==> "close"@.is_prefix_of(spec_fd_tracking_syscalls()[i].1)),
{
    assert forall|i: int|
        0 <= i < spec_fd_tracking_syscalls().len() implies ((#[trigger] spec_fd_tracking_syscalls()[i]).0
            == FdProgram::DestroyFd <==> "close"@.is_prefix_of(spec_fd_tracking_syscalls()[i].1)) by {
        reveal_strlit("close");
        let close = "close"@;
        let name = spec_fd_tracking_syscalls()[i].1;
        if i == 0 {
            reveal_strlit("open");
            assert(!close.is_prefix_of(name));
        }
        else if i == 1 {
            reveal_strlit("creat");
            lemma_not_prefix(close, name, 1);
        }
        else if i == 2 {
            reveal_strlit("socket");
            lemma_not_prefix(close, name, 0);
        }
        else if i == 3 {
            reveal_strlit("accept");
            lemma_not_prefix(close, name, 0);
        }
        else if i == 4 {
            reveal_strlit("socketpair");
            lemma_not_prefix(close, name, 0);
        }
        else if i == 5 {
            reveal_strlit("pipe");
            assert(!close.is_prefix_of(name));
        }
        else if i == 6 {
            reveal_strlit("epoll_create");
            lemma_not_prefix(close, name, 0);
        }
        else if i == 7 {
            reveal_strlit("signalfd");
            lemma_not_prefix(close, name, 0);
        }
        else if i == 8 {
            reveal_strlit("eventfd");
            lemma_not_prefix(close, name, 0);
        }
        else if i == 9 {
            reveal_strlit("timerfd_create");
            lemma_not_prefix(close, name, 0);
        }
        else if i == 10 {
            reveal_strlit("memfd_create");
            lemma_not_prefix(close, name, 0);
        }
        else if i == 11 {
            reveal_strlit("userfaultfd");
            lemma_not_prefix(close, name, 0);
        }
        else if i == 12 {
            reveal_strlit("fanotify_init");
            lemma_not_prefix(close, name, 0);
        }
        else if i == 13 {
            reveal_strlit("inotify_init");
            lemma_not_prefix(close, name, 0);
        }
        else if i == 14 {
            reveal_strlit("clone");
            lemma_not_prefix(close, name, 3);
        }
        else if i == 15 {
            reveal_strlit("pidfd_open");
            lemma_not_prefix(close, name, 0);
        }
        else if i == 16 {
            reveal_strlit("open_by_handle_at");
            lemma_not_prefix(close, name, 0);
        }
        else if i == 17 {
            reveal_strlit("close");
            assert(close =~= name.subrange(0, 5));
        }
        else if i == 18 {
            reveal_strlit("closefrom");
            assert(close =~= name.subrange(0, 5));
        }
        else if i == 19 {
            reveal_strlit("close_range");
            assert(close =~= name.subrange(0, 5));
        }
        else if i == 20 {
            reveal_strlit("dup");
            assert(!close.is_prefix_of(name));
        }
        else if i == 21 {
            reveal_strlit("openat");
            lemma_not_prefix(close, name, 0);
        }
    }
}

/// The tracepoint category of all of them.
pub const SYSCALLS_CATEGORY: &'static str = "syscalls";

/// The syscall tracepoints of the file descriptor tracking, in order, each
/// with its program.
pub fn fd_tracking_syscalls() -> (v: Vec<(FdProgram, &'static str)>)
    ensures
        v@.map_values(|e: (FdProgram, &'static str)| (e.0, e.1@)) == spec_fd_tracking_syscalls(),
{
    let v = vec![
        (FdProgram::CreateFd, "open"),
        (FdProgram::CreateFd, "creat"),
        (FdProgram::CreateFd, "socket"),
        (FdProgram::CreateFd, "accept"),
        (FdProgram::CreateFd, "socketpair"),
        (FdProgram::CreateFd, "pipe"),
        (FdProgram::CreateFd, "epoll_create"),
        (FdProgram::CreateFd, "signalfd"),
        (FdProgram::CreateFd, "eventfd"),
        (FdProgram::CreateFd, "timerfd_create"),
        (FdProgram::CreateFd, "memfd_create"),
        (FdProgram::CreateFd, "userfaultfd"),
        (FdProgram::CreateFd, "fanotify_init"),
        (FdProgram::CreateFd, "inotify_init"),
        (FdProgram::CreateFd, "clone"),
        (FdProgram::CreateFd, "pidfd_open"),
        (FdProgram::CreateFd, "open_by_handle_at"),
        (FdProgram::DestroyFd, "close"),
        (FdProgram::DestroyFd, "closefrom"),
        (FdProgram::DestroyFd, "close_range"),
        (FdProgram::CreateFd, "dup"),
        (FdProgram::CreateFd, "openat"),
    ];
    assert(v@.map_values(|e: (FdProgram, &'static str)| (e.0, e.1@)) =~= spec_fd_tracking_syscalls());
    v
}

/// The links of a feature, one slot for each attach point.
pub struct LinkSlots<L> {
    slots: Vec<Option<L>>,
}

impl<L> LinkSlots<L> {
    /// The link in each slot.
    pub closed spec fn view_slots(&self) -> Seq<Option<L>> {
        self.slots@
    }

    /// `n` empty slots.
    pub fn new(n: usize) -> (s: Self)
        ensures
            s.view_slots() == Seq::new(n as nat, |i: int| None::<L>),
    {
        let mut slots: Vec<Option<L>> = Vec::new();
        let mut i: usize = 0;
        while i < n
            invariant
                i <= n,
                slots@ == Seq::new(i as nat, |j: int| None::<L>),
            decreases n - i,
        {
            slots.push(None);
            i = i + 1;
            assert(slots@ =~= Seq::new(i as nat, |j: int| None::<L>));
        }
        LinkSlots { slots }
    }

    /// Keeps `link` in slot `i` if the slot is empty; a link already there
    /// stays, and the new one is dropped, which detaches it.
    pub fn keep(&mut self, i: usize, link: L)
        requires
            i < old(self).view_slots().len(),
        ensures
            final(self).view_slots() == (if old(self).view_slots()[i as int] is Some {
                old(self).view_slots()
            } else {
                old(self).view_slots().update(i as int, Some(link))
            }),
    {
        if self.slots[i].is_none() {
            self.slots.set(i, Some(link));
        }
    }

    /// The link in slot `i`, if any.
    pub fn slot(&self, i: usize) -> (r: &Option<L>)
        requires
            i < self.view_slots().len(),
        ensures
            *r == self.view_slots()[i as int],
    {
        &self.slots[i]
    }

    /// Empties every slot, detaching the links held.
    pub fn clear(&mut self)
        ensures
            final(self).view_slots() == Seq::new(old(self).view_slots().len(), |i: int| None::<L>),
    {
        let n = self.slots.len();
        let mut i: usize = 0;
        while i < n
            invariant
                i <= n,
                n == self.slots@.len(),
                n == old(self).view_slots().len(),
                forall|j: int| 0 <= j < i ==> #[trigger] self.slots@[j] is None,
            decreases n - i,
        {
            self.slots.set(i, None);
            i = i + 1;
        }
        assert(self.slots@ =~= Seq::new(n as nat, |j: int| None::<L>));
    }
}

/// Some call of `attach` on `i` succeeds with a link.
pub open spec fn call_succeeds<L, E, F: FnMut(usize) -> Result<L, E>>(attach: F, i: usize) -> bool {
    exists|l: L| #[trigger] call_ensures(attach, (i,), Ok::<L, E>(l))
}

impl<L> LinkSlots<L> {
    /// Attaches every empty slot in increasing order, with the link that
    /// `attach` makes for its index; slots that hold a link are left alone,
    /// and the loop calls `attach` only for empty slots (the contract says
    /// what the slots hold and which call gave each new link; Verus does not
    /// follow the calls of an `FnMut`, so which calls were made is not part
    /// of it). At the first error the slots attached before it keep their
    /// links and the rest stay as they were.
    pub fn attach_missing<E, F: FnMut(usize) -> Result<L, E>>(&mut self, attach: F) -> (r: Result<(), E>)
        requires
            forall|i: usize| call_requires(attach, (i,)),
        ensures
            final(self).view_slots().len() == old(self).view_slots().len(),
            forall|i: int| 0 <= i < old(self).view_slots().len() && old(self).view_slots()[i] is Some
                ==> #[trigger] final(self).view_slots()[i] == old(self).view_slots()[i],
            forall|i: int| 0 <= i < old(self).view_slots().len() && old(self).view_slots()[i] is None
                && #[trigger] final(self).view_slots()[i] is Some ==> call_ensures(attach, (i as usize,),
                Ok(final(self).view_slots()[i]->0)),
            r is Ok <==> forall|i: int| 0 <= i < final(self).view_slots().len() ==> #[trigger] final(self).view_slots()[i] is Some,
            r matches Err(e) ==> exists|k: int| 0 <= k < old(self).view_slots().len()
                && #[trigger] old(self).view_slots()[k] is None && final(self).view_slots()[k] is None
                && call_ensures(attach, (k as usize,), Err(e))
                && (forall|j: int| 0 <= j < k ==> #[trigger] final(self).view_slots()[j] is Some)
                && (forall|j: int| k < j < old(self).view_slots().len() ==> #[trigger] final(self).view_slots()[j] == old(self).view_slots()[j]),
    {
        let mut call = attach;
        let n = self.slots.len();
        let mut i: usize = 0;
        while i < n
            invariant
                i <= n,
                n == self.slots@.len(),
                n == old(self).view_slots().len(),
                call == attach,
                forall|k: usize| call_requires(attach, (k,)),
                forall|j: int| 0 <= j < n && old(self).view_slots()[j] is Some ==> #[trigger] self.slots@[j] == old(self).view_slots()[j],
                forall|j: int| i <= j < n ==> #[trigger] self.slots@[j] == old(self).view_slots()[j],
                forall|j: int| 0 <= j < i ==> #[trigger] self.slots@[j] is Some,
                forall|j: int| 0 <= j < i && old(self).view_slots()[j] is None ==> call_ensures(attach, (j as usize,), Ok(#[trigger] self.slots@[j]->0)),
            decreases n - i,
        {
            if self.slots[i].is_none() {
                match call(i) {
                    Ok(link) => {
                        self.slots.set(i, Some(link));
                    },
                    Err(e) => {
                        assert(call_ensures(attach, (i,), Err(e)));
                        return Err(e);
                    },
                }
            }
            i = i + 1;
        }
        Ok(())
    }

    /// Attaches every slot in increasing order, calling `attach` for each
    /// one; a slot that holds a link keeps it and the new link is dropped,
    /// which detaches it. At the first error the slots before it are
    /// attached and the rest stay as they were.
    pub fn attach_all<E, F: FnMut(usize) -> Result<L, E>>(&mut self, attach: F) -> (r: Result<(), E>)
        requires
            forall|i: usize| call_requires(attach, (i,)),
        ensures
            final(self).view_slots().len() == old(self).view_slots().len(),
            forall|i: int| 0 <= i < old(self).view_slots().len() && old(self).view_slots()[i] is Some
                ==> #[trigger] final(self).view_slots()[i] == old(self).view_slots()[i],
            forall|i: int| 0 <= i < old(self).view_slots().len() && old(self).view_slots()[i] is None
                && #[trigger] final(self).view_slots()[i] is Some ==> call_ensures(attach, (i as usize,),
                Ok(final(self).view_slots()[i]->0)),
            r is Ok ==> forall|i: int| 0 <= i < final(self).view_slots().len() ==> #[trigger] final(self).view_slots()[i] is Some,
            r is Ok ==> forall|i: usize| i < old(self).view_slots().len() ==> #[trigger] call_succeeds(attach, i),
            r matches Err(e) ==> exists|k: int| 0 <= k < old(self).view_slots().len()
                && #[trigger] final(self).view_slots()[k] == old(self).view_slots()[k]
                && call_ensures(attach, (k as usize,), Err(e))
                && (forall|j: usize| j < k ==> #[trigger] call_succeeds(attach, j))
                && (forall|j: int| 0 <= j < k ==> #[trigger] final(self).view_slots()[j] is Some)
                && (forall|j: int| k <= j < old(self).view_slots().len() ==> #[trigger] final(self).view_slots()[j] == old(self).view_slots()[j]),
    {
        let mut call = attach;
        let n = self.slots.len();
        let mut i: usize = 0;
        while i < n
            invariant
                i <= n,
                n == self.slots@.len(),
                n == old(self).view_slots().len(),
                call == attach,
                forall|k: usize| call_requires(attach, (k,)),
                forall|j: int| 0 <= j < n && old(self).view_slots()[j] is Some ==> #[trigger] self.slots@[j] == old(self).view_slots()[j],
                forall|j: int| i <= j < n ==> #[trigger] self.slots@[j] == old(self).view_slots()[j],
                forall|j: int| 0 <= j < i ==> #[trigger] self.slots@[j] is Some,
                forall|j: int| 0 <= j < i && old(self).view_slots()[j] is None ==> call_ensures(attach, (j as usize,), Ok(#[trigger] self.slots@[j]->0)),
                forall|j: usize| j < i ==> #[trigger] call_succeeds(attach, j),
            decreases n - i,
        {
            match call(i) {
                Ok(link) => {
                    assert(call_ensures(attach, (i,), Ok::<L, E>(link)));
                    self.keep(i, link);
                },
                Err(e) => {
                    assert(call_ensures(attach, (i,), Err(e)));
                    assert(self.view_slots()[i as int] == old(self).view_slots()[i as int]);
                    return Err(e);
                },
            }
            i = i + 1;
        }
        Ok(())
    }
}

/// Emptying the slots twice leaves them as emptying them once: a second
/// detach changes nothing.
pub proof fn lemma_clear_twice<L>(n: nat)
    ensures
        Seq::new(Seq::new(n, |i: int| None::<L>).len(), |i: int| None::<L>) == Seq::new(
            n,
            |i: int| None::<L>,
        ),
{
    assert(Seq::new(Seq::new(n, |i: int| None::<L>).len(), |i: int| None::<L>) =~= Seq::new(
        n,
        |i: int| None::<L>,
    ));
}

/// The JNI operation whose probe sits in slot `i` of the JNI feature's
/// links, which is also the order in which the feature attaches them.
pub open spec fn spec_jni_method_at(i: int) -> JNIMethod {
    if i == 0 {
        JNIMethod::AddLocal
    } else if i == 1 {
        JNIMethod::DelLocal
    } else if i == 2 {
        JNIMethod::AddGlobal
    } else {
        JNIMethod::DelGlobal
    }
}

/// The number of JNI probes.
pub const JNI_METHOD_COUNT: usize = 4;

/// The JNI operation whose probe sits in slot `i`.
pub fn jni_method_at(i: usize) -> (m: JNIMethod)
    requires
        i < JNI_METHOD_COUNT,
    ensures
        m == spec_jni_method_at(i as int),
{
    if i == 0 {
        JNIMethod::AddLocal
    } else if i == 1 {
        JNIMethod::DelLocal
    } else if i == 2 {
        JNIMethod::AddGlobal
    } else {
        JNIMethod::DelGlobal
    }
}

/// Why a program could not be detached.
#[derive(Debug, Clone, Copy, PartialEq, Eq, Structural)]
pub enum DetachError {
    /// It holds no link: it is not attached.
    NotAttached,
}

/// Takes the link out of `slot`, to detach it; an empty slot means the
/// program is not attached.
pub fn take_link<L>(slot: &mut Option<L>) -> (r: Result<L, DetachError>)
    ensures
        *final(slot) is None,
        match *old(slot) {
            Some(l) => r == Ok::<L, DetachError>(l),
            None => r == Err::<L, DetachError>(DetachError::NotAttached),
        },
{
    match slot.take() {
        Some(l) => Ok(l),
        None => Err(DetachError::NotAttached),
    }
}

/// A JNI reference operation that the daemon traces.
#[derive(Debug, Clone, Copy, PartialEq, Eq, Structural)]
pub enum JNIMethod {
    AddLocal,
    DelLocal,
    AddGlobal,
    DelGlobal,
}

/// The library whose functions the JNI probes attach to.
pub const LIBART_PATH: &'static str = "/apex/com.android.art/lib64/libart.so";

/// The symbol of the libart function behind each JNI operation.
pub open spec fn spec_jni_symbol_name(method: JNIMethod) -> Seq<char> {
    match method {
        JNIMethod::AddLocal => "art::JNIEnvExt::NewLocalRef(art::mirror::Object*)"@,
        JNIMethod::DelLocal => "art::JNIEnvExt::DeleteLocalRef(_jobject*)"@,
        JNIMethod::AddGlobal => "art::JavaVMExt::AddGlobalRef(art::Thread*, art::ObjPtr<art::mirror::Object>)"@,
        JNIMethod::DelGlobal => "art::JavaVMExt::DeleteGlobalRef(art::Thread*, _jobject*)"@,
    }
}

/// The symbol of the libart function behind `method`.
pub fn jni_symbol_name(method: JNIMethod) -> (s: &'static str)
    ensures
        s@ == spec_jni_symbol_name(method),
{
    match method {
        JNIMethod::AddLocal => "art::JNIEnvExt::NewLocalRef(art::mirror::Object*)",
        JNIMethod::DelLocal => "art::JNIEnvExt::DeleteLocalRef(_jobject*)",
        JNIMethod::AddGlobal => "art::JavaVMExt::AddGlobalRef(art::Thread*, art::ObjPtr<art::mirror::Object>)",
        JNIMethod::DelGlobal => "art::JavaVMExt::DeleteGlobalRef(art::Thread*, _jobject*)",
    }
}

/// Each JNI probe attaches to the libart function of its own operation: the
/// global operations to functions of `art::JavaVMExt`, the local ones to
/// functions of `art::JNIEnvExt`, and the deleting operations, and only
/// they, to a function whose name starts with `Delete`.
pub proof fn lemma_jni_symbols_match_operations(m: JNIMethod)
    ensures
        spec_jni_symbol_name(m).len() > 16,
        "art::JavaVMExt::"@.is_prefix_of(spec_jni_symbol_name(m)) <==> (m == JNIMethod::AddGlobal || m
            == JNIMethod::DelGlobal),
        "art::JNIEnvExt::"@.is_prefix_of(spec_jni_symbol_name(m)) <==> (m == JNIMethod::AddLocal || m
            == JNIMethod::DelLocal),
        "Delete"@.is_prefix_of(spec_jni_symbol_name(m).skip(16)) <==> (m == JNIMethod::DelLocal || m
            == JNIMethod::DelGlobal),
{
    reveal_strlit("art::JavaVMExt::");
    reveal_strlit("art::JNIEnvExt::");
    reveal_strlit("Delete");
    let vm = "art::JavaVMExt::"@;
    let env = "art::JNIEnvExt::"@;
    let del = "Delete"@;
    let sym = spec_jni_symbol_name(m);
    match m {
        JNIMethod::AddLocal => {
            reveal_strlit("art::JNIEnvExt::NewLocalRef(art::mirror::Object*)");
            lemma_not_prefix(vm, sym, 6);
            assert(env =~= sym.subrange(0, 16));
            assert(sym.skip(16)[0] == sym[16]);
            lemma_not_prefix(del, sym.skip(16), 0);
        },
        JNIMethod::DelLocal => {
            reveal_strlit("art::JNIEnvExt::DeleteLocalRef(_jobject*)");
            lemma_not_prefix(vm, sym, 6);
            assert(env =~= sym.subrange(0, 16));
            assert(del =~= sym.skip(16).subrange(0, 6));
        },
        JNIMethod::AddGlobal => {
            reveal_strlit("art::JavaVMExt::AddGlobalRef(art::Thread*, art::ObjPtr<art::mirror::Object>)");
            lemma_not_prefix(env, sym, 6);
            assert(vm =~= sym.subrange(0, 16));
            assert(sym.skip(16)[0] == sym[16]);
            lemma_not_prefix(del, sym.skip(16), 0);
        },
        JNIMethod::DelGlobal => {
            reveal_strlit("art::JavaVMExt::DeleteGlobalRef(art::Thread*, _jobject*)");
            lemma_not_prefix(env, sym, 6);
            assert(vm =~= sym.subrange(0, 16));
            assert(del =~= sym.skip(16).subrange(0, 6));
        },
    }
}

/// Why a JNI probe could not be attached.
pub enum JniAttachError {
    /// The symbol index knows no offset for the function.
    SymbolOffsetNotFound { symbol_name: String },
}

/// Where the probe for `method` attaches, given the offset that the symbol
/// index gave for its function: that offset, or an error naming the
/// function when there is none.
pub fn jni_attach_point(method: JNIMethod, offset: Option<u64>) -> (r: Result<u64, JniAttachError>)
    ensures
        match offset {
            Some(o) => r == Ok::<u64, JniAttachError>(o),
            None => r matches Err(JniAttachError::SymbolOffsetNotFound { symbol_name })
                && symbol_name@ == spec_jni_symbol_name(method),
        },
{
    match offset {
        Some(o) => Ok(o),
        None => Err(
            JniAttachError::SymbolOffsetNotFound { symbol_name: String::from_str(jni_symbol_name(method)) },
        ),
    }
}

} // verus!
