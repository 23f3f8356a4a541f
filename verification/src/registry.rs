use vstd::prelude::*;

use crate::config::PortConfig;
use crate::error::SerialError;
use crate::signal::send_signal;
use crate::signal::signal_channel;
use std::sync::mpsc::Receiver;
use std::sync::mpsc::Sender;

verus! {

/// One open session: the resolved line configuration, an opaque token for
/// the port handle the session owns, and the cancellation sender of its
/// background reader. The sender is present exactly while a reader is
/// active for this session.
pub struct SessionEntry {
    pub config: PortConfig,
    pub handle: u64,
    pub sender: Option<Sender<usize>>,
}

impl SessionEntry {
    /// Whether a background reader is active for this session.
    pub open spec fn reading(self) -> bool {
        self.sender is Some
    }

    /// The same session with its reader cancelled: the sender is gone, the
    /// handle and configuration stay.
    pub open spec fn cleared(self) -> SessionEntry {
        SessionEntry { config: self.config, handle: self.handle, sender: Option::None }
    }
}

/// The first entry keyed by `id`, scanning front to back.
pub open spec fn spec_lookup(s: Seq<(String, SessionEntry)>, id: Seq<char>) -> Option<SessionEntry>
    decreases s.len(),
{
    if s.len() == 0 {
        Option::None
    } else if s[0].0@ == id {
        Option::Some(s[0].1)
    } else {
        spec_lookup(s.drop_first(), id)
    }
}

/// No two entries share an identifier.
pub open spec fn wf_entries(s: Seq<(String, SessionEntry)>) -> bool
    decreases s.len(),
{
    s.len() == 0 || (spec_lookup(s.drop_first(), s[0].0@) is None && wf_entries(s.drop_first()))
}

proof fn lemma_lookup_skip(s: Seq<(String, SessionEntry)>, id: Seq<char>, i: int)
    requires
        0 <= i < s.len(),
    ensures
        spec_lookup(s.skip(i), id) == (if s[i].0@ == id {
            Option::Some(s[i].1)
        } else {
            spec_lookup(s.skip(i + 1), id)
        }),
{
    assert(s.skip(i).drop_first() =~= s.skip(i + 1));
    assert(s.skip(i)[0] == s[i]);
}

proof fn lemma_lookup_present(s: Seq<(String, SessionEntry)>, i: int)
    requires
        0 <= i < s.len(),
    ensures
        spec_lookup(s, s[i].0@) is Some,
    decreases i,
{
    if s[0].0@ == s[i].0@ {
    } else {
        assert(s.drop_first()[i - 1] == s[i]);
        lemma_lookup_present(s.drop_first(), i - 1);
    }
}

proof fn lemma_lookup_push(s: Seq<(String, SessionEntry)>, p: (String, SessionEntry))
    requires
        wf_entries(s),
        spec_lookup(s, p.0@) is None,
    ensures
        wf_entries(s.push(p)),
        spec_lookup(s.push(p), p.0@) == Option::Some(p.1),
        forall|x: Seq<char>| x != p.0@ ==> spec_lookup(s.push(p), x) == spec_lookup(s, x),
    decreases s.len(),
{
    if s.len() == 0 {
        assert(s.push(p).drop_first() =~= s);
        assert(s.push(p)[0] == p);
    } else {
        lemma_lookup_push(s.drop_first(), p);
        assert(s.push(p).drop_first() =~= s.drop_first().push(p));
        assert(s.push(p)[0] == s[0]);
        assert forall|x: Seq<char>| x != p.0@ implies spec_lookup(s.push(p), x) == spec_lookup(
            s,
            x,
        ) by {
            if s[0].0@ == x {
                assert(spec_lookup(s.push(p), x) == Option::Some(s[0].1));
                assert(spec_lookup(s, x) == Option::Some(s[0].1));
            } else {
                assert(spec_lookup(s.push(p), x) == spec_lookup(s.drop_first().push(p), x));
                assert(spec_lookup(s, x) == spec_lookup(s.drop_first(), x));
            }
        }
    }
}

proof fn lemma_lookup_remove(s: Seq<(String, SessionEntry)>, i: int)
    requires
        wf_entries(s),
        0 <= i < s.len(),
    ensures
        wf_entries(s.remove(i)),
        spec_lookup(s.remove(i), s[i].0@) is None,
        forall|x: Seq<char>| x != s[i].0@ ==> spec_lookup(s.remove(i), x) == spec_lookup(s, x),
    decreases s.len(),
{
    if i == 0 {
        assert(s.remove(0) =~= s.drop_first());
    } else {
        assert(s.drop_first()[i - 1] == s[i]);
        lemma_lookup_present(s.drop_first(), i - 1);
        lemma_lookup_remove(s.drop_first(), i - 1);
        assert(s.remove(i).drop_first() =~= s.drop_first().remove(i - 1));
        assert(s.remove(i)[0] == s[0]);
        assert forall|x: Seq<char>| x != s[i].0@ implies spec_lookup(s.remove(i), x)
            == spec_lookup(s, x) by {
            if s[0].0@ == x {
                assert(spec_lookup(s.remove(i), x) == Option::Some(s[0].1));
                assert(spec_lookup(s, x) == Option::Some(s[0].1));
            } else {
                assert(spec_lookup(s.remove(i), x) == spec_lookup(s.drop_first().remove(i - 1), x));
                assert(spec_lookup(s, x) == spec_lookup(s.drop_first(), x));
            }
        }
    }
}

proof fn lemma_lookup_update(s: Seq<(String, SessionEntry)>, i: int, p: (String, SessionEntry))
    requires
        wf_entries(s),
        0 <= i < s.len(),
        p.0@ == s[i].0@,
    ensures
        wf_entries(s.update(i, p)),
        spec_lookup(s.update(i, p), p.0@) == Option::Some(p.1),
        forall|x: Seq<char>| x != p.0@ ==> spec_lookup(s.update(i, p), x) == spec_lookup(s, x),
    decreases s.len(),
{
    if i == 0 {
        assert(s.update(0, p).drop_first() =~= s.drop_first());
        assert(s.update(0, p)[0] == p);
    } else {
        assert(s.drop_first()[i - 1] == s[i]);
        lemma_lookup_present(s.drop_first(), i - 1);
        lemma_lookup_update(s.drop_first(), i - 1, p);
        assert(s.update(i, p).drop_first() =~= s.drop_first().update(i - 1, p));
        assert(s.update(i, p)[0] == s[0]);
        assert forall|x: Seq<char>| x != p.0@ implies spec_lookup(s.update(i, p), x)
            == spec_lookup(s, x) by {
            if s[0].0@ == x {
                assert(spec_lookup(s.update(i, p), x) == Option::Some(s[0].1));
                assert(spec_lookup(s, x) == Option::Some(s[0].1));
            } else {
                assert(spec_lookup(s.update(i, p), x) == spec_lookup(s.drop_first().update(i - 1, p), x));
                assert(spec_lookup(s, x) == spec_lookup(s.drop_first(), x));
            }
        }
    }
}

/// Every identifier but `id` maps to the same session in both registries.
pub open spec fn unchanged_except(a: SessionRegistry, b: SessionRegistry, id: Seq<char>) -> bool {
    forall|x: Seq<char>| x != id ==> b.lookup(x) == a.lookup(x)
}

/// The session registry: the single source of truth for which ports are
/// open and which are being read. One entry per identifier; the caller
/// holds it under exclusive access.
pub struct SessionRegistry {
    entries: Vec<(String, SessionEntry)>,
}

/// What starting a reader requires for a given identifier.
#[derive(Debug, Clone, Copy, PartialEq, Eq, Structural)]
pub enum ReadPlan {
    /// A reader is already active; starting again keeps it (idempotent).
    AlreadyReading,
    /// No reader is active: clone the handle with this token and start one.
    StartReader(u64),
}

impl SessionRegistry {
    /// The entries, in insertion order.
    pub closed spec fn entries_seq(self) -> Seq<(String, SessionEntry)> {
        self.entries@
    }

    /// Registry invariant: at most one open session per identifier.
    pub open spec fn wf(self) -> bool {
        wf_entries(self.entries_seq())
    }

    /// The session for `id`, if one is open.
    pub open spec fn lookup(self, id: Seq<char>) -> Option<SessionEntry> {
        spec_lookup(self.entries_seq(), id)
    }

    /// Whether a session is open for `id`.
    pub open spec fn contains(self, id: Seq<char>) -> bool {
        self.lookup(id) is Some
    }

    /// How many sessions are open.
    pub open spec fn session_count(self) -> nat {
        self.entries_seq().len()
    }

    /// No session has an active reader.
    pub open spec fn all_idle(self) -> bool {
        forall|j: int|
            0 <= j < self.entries_seq().len() ==> (#[trigger] self.entries_seq()[j]).1.sender
                is None
    }

    /// An empty registry: nothing open.
    pub fn new() -> (r: SessionRegistry)
        ensures
            r.wf(),
            r.session_count() == 0,
            forall|x: Seq<char>| r.lookup(x) is None,
    {
        SessionRegistry { entries: Vec::new() }
    }

    fn find_index(&self, id: &String) -> (r: Option<usize>)
        ensures
            match r {
                Some(i) => i < self.entries_seq().len() && self.entries_seq()[i as int].0@ == id@
                    && self.lookup(id@) == Option::Some(self.entries_seq()[i as int].1),
                None => self.lookup(id@) is None,
            },
    {
        let n = self.entries.len();
        let mut i: usize = 0;
        proof {
            assert(self.entries@.skip(0) =~= self.entries@);
        }
        while i < n
            invariant
                n == self.entries@.len(),
                i <= n,
                spec_lookup(self.entries@, id@) == spec_lookup(
                    self.entries@.skip(i as int),
                    id@,
                ),
            decreases n - i,
        {
            proof {
                lemma_lookup_skip(self.entries@, id@, i as int);
            }
            if self.entries[i].0 == *id {
                return Some(i);
            }
            i += 1;
        }
        proof {
            assert(self.entries@.skip(n as int) =~= Seq::<(String, SessionEntry)>::empty());
        }
        None
    }

    /// Whether `id` has an open session.
    pub fn contains_id(&self, id: &String) -> (r: bool)
        ensures
            r == self.contains(id@),
    {
        self.find_index(id).is_some()
    }

    /// How many sessions are open.
    pub fn len(&self) -> (n: usize)
        ensures
            n == self.session_count(),
    {
        self.entries.len()
    }

    /// The configuration the session for `id` was opened with.
    pub fn session_config(&self, id: &String) -> (r: Result<PortConfig, SerialError>)
        ensures
            self.lookup(id@) is None <==> r == Err::<PortConfig, SerialError>(
                SerialError::NotFound,
            ),
            self.lookup(id@) matches Some(e) ==> r == Ok::<PortConfig, SerialError>(e.config),
    {
        match self.find_index(id) {
            None => Err(SerialError::NotFound),
            Some(i) => Ok(self.entries[i].1.config),
        }
    }

    /// Records the outcome of an open request. The caller first checks
    /// `contains_id` and attempts the hardware open only for an identifier
    /// with no session; `hardware` is that attempt's outcome. An identifier
    /// already present is rejected with `AlreadyOpen` and the registry —
    /// in particular the first session's configuration — is untouched. On
    /// hardware failure nothing is inserted; on success the new session
    /// starts with no active reader.
    pub fn open(&mut self, id: String, config: PortConfig, hardware: Result<u64, String>) -> (r:
        Result<(), SerialError>)
        requires
            old(self).wf(),
        ensures
            final(self).wf(),
            old(self).contains(id@) ==> r == Err::<(), SerialError>(SerialError::AlreadyOpen)
                && *final(self) == *old(self),
            !old(self).contains(id@) ==> match hardware {
                Ok(h) => r is Ok && final(self).lookup(id@) == Option::Some(
                    SessionEntry { config, handle: h, sender: Option::None },
                ) && unchanged_except(*old(self), *final(self), id@) && final(self).session_count() == old(
                    self,
                ).session_count() + 1,
                Err(m) => r == Err::<(), SerialError>(SerialError::OpenFailed(m)) && *final(self) == *old(self),
            },
    {
        match self.find_index(&id) {
            Some(_) => Err(SerialError::AlreadyOpen),
            None => match hardware {
                Ok(h) => {
                    let entry = SessionEntry { config, handle: h, sender: None };
                    proof {
                        lemma_lookup_push(self.entries@, (id, entry));
                    }
                    self.entries.push((id, entry));
                    Ok(())
                },
                Err(m) => Err(SerialError::OpenFailed(m)),
            },
        }
    }

    /// Closes the session for `id`: signals an active reader (delivery
    /// failure is not fatal) and removes the entry, releasing its handle.
    /// An identifier with no session is rejected with `NotFound`.
    pub fn close(&mut self, id: &String) -> (r: Result<(), SerialError>)
        requires
            old(self).wf(),
        ensures
            final(self).wf(),
            old(self).lookup(id@) is None ==> r == Err::<(), SerialError>(SerialError::NotFound)
                && *final(self) == *old(self),
            old(self).lookup(id@) is Some ==> r is Ok && final(self).lookup(id@) is None
                && unchanged_except(*old(self), *final(self), id@) && final(self).session_count() + 1 == old(
                self,
            ).session_count(),
    {
        match self.find_index(id) {
            None => Err(SerialError::NotFound),
            Some(i) => {
                match &self.entries[i].1.sender {
                    Some(sender) => {
                        let _delivered = send_signal(sender, 1);
                    },
                    None => {},
                }
                proof {
                    lemma_lookup_remove(self.entries@, i as int);
                }
                self.entries.remove(i);
                Ok(())
            },
        }
    }

    /// Closes the session for `id` if one is open: signals an active reader
    /// (delivery failure is not fatal) and removes the entry. Succeeds even
    /// if no session or no reader exists.
    pub fn force_close(&mut self, id: &String) -> (r: Result<(), SerialError>)
        requires
            old(self).wf(),
        ensures
            final(self).wf(),
            r is Ok,
            final(self).lookup(id@) is None,
            unchanged_except(*old(self), *final(self), id@),
            old(self).lookup(id@) is None ==> *final(self) == *old(self),
            old(self).lookup(id@) is Some ==> final(self).session_count() + 1 == old(
                self,
            ).session_count(),
    {
        match self.find_index(id) {
            None => Ok(()),
            Some(i) => {
                match &self.entries[i].1.sender {
                    Some(sender) => {
                        let _delivered = send_signal(sender, 1);
                    },
                    None => {},
                }
                proof {
                    lemma_lookup_remove(self.entries@, i as int);
                }
                self.entries.remove(i);
                Ok(())
            },
        }
    }

    /// Signals every active reader, then empties the registry. If any
    /// signal cannot be delivered the whole operation fails with
    /// `CancelFailed` and the registry is left completely unchanged — never
    /// a partial clear.
    pub fn close_all(&mut self) -> (r: Result<(), SerialError>)
        requires
            old(self).wf(),
        ensures
            final(self).wf(),
            r is Ok ==> final(self).session_count() == 0 && (forall|x: Seq<char>| final(self).lookup(x) is None),
            r is Err ==> r == Err::<(), SerialError>(SerialError::CancelFailed) && *final(self) == *old(self),
            old(self).all_idle() ==> r is Ok,
    {
        let n = self.entries.len();
        let mut i: usize = 0;
        while i < n
            invariant
                *self == *old(self),
                old(self).wf(),
                n == self.entries@.len(),
                i <= n,
            decreases n - i,
        {
            let delivered = match &self.entries[i].1.sender {
                Some(sender) => send_signal(sender, 1),
                None => true,
            };
            if !delivered {
                return Err(SerialError::CancelFailed);
            }
            i += 1;
        }
        self.entries.clear();
        Ok(())
    }

    /// Cancels the reader for `id`: sends the cancellation signal if a
    /// sender is stored, and always clears the stored sender afterward,
    /// restoring the no-active-reader state regardless of delivery. Fails
    /// with `CancelFailed` when the signal could not be delivered, with
    /// `NotFound` when no session exists.
    pub fn cancel_read(&mut self, id: &String) -> (r: Result<(), SerialError>)
        requires
            old(self).wf(),
        ensures
            final(self).wf(),
            old(self).lookup(id@) is None ==> r == Err::<(), SerialError>(SerialError::NotFound)
                && *final(self) == *old(self),
            old(self).lookup(id@) matches Some(e) ==> {
                &&& final(self).lookup(id@) == Option::Some(e.cleared())
                &&& unchanged_except(*old(self), *final(self), id@)
                &&& final(self).session_count() == old(self).session_count()
                &&& (r is Ok || r == Err::<(), SerialError>(SerialError::CancelFailed))
                &&& (e.sender is None ==> r is Ok && *final(self) == *old(self))
            },
    {
        match self.find_index(id) {
            None => Err(SerialError::NotFound),
            Some(i) => {
                let delivered: Option<bool> = match &self.entries[i].1.sender {
                    Some(sender) => Some(send_signal(sender, 1)),
                    None => None,
                };
                match delivered {
                    None => Ok(()),
                    Some(ok) => {
                        let key = self.entries[i].0.clone();
                        let config = self.entries[i].1.config;
                        let handle = self.entries[i].1.handle;
                        let entry = SessionEntry { config, handle, sender: None };
                        proof {
                            lemma_lookup_update(self.entries@, i as int, (key, entry));
                        }
                        self.entries.set(i, (key, entry));
                        if ok {
                            Ok(())
                        } else {
                            Err(SerialError::CancelFailed)
                        }
                    },
                }
            },
        }
    }

    /// What starting a reader for `id` would take: `NotFound` with no
    /// session, `AlreadyReading` while a reader is active, and otherwise
    /// the handle token whose clone the new reader should poll.
    pub fn read_precheck(&self, id: &String) -> (r: Result<ReadPlan, SerialError>)
        ensures
            self.lookup(id@) is None <==> r == Err::<ReadPlan, SerialError>(SerialError::NotFound),
            self.lookup(id@) matches Some(e) ==> r == Ok::<ReadPlan, SerialError>(
                if e.reading() {
                    ReadPlan::AlreadyReading
                } else {
                    ReadPlan::StartReader(e.handle)
                },
            ),
    {
        match self.find_index(id) {
            None => Err(SerialError::NotFound),
            Some(i) => {
                if self.entries[i].1.sender.is_some() {
                    Ok(ReadPlan::AlreadyReading)
                } else {
                    Ok(ReadPlan::StartReader(self.entries[i].1.handle))
                }
            },
        }
    }

    /// Starts the reader for `id`, given the outcome `cloned` of the
    /// caller's attempt to clone the port handle. With no session it fails
    /// with `NotFound`; with a reader already active it is a no-op success
    /// returning no receiver, so exactly one reader stays active; on clone
    /// failure it fails with `ReadFailed` and stores nothing; otherwise it
    /// stores a fresh cancellation sender and returns the matching receiver
    /// for the new reader to poll.
    pub fn read(&mut self, id: &String, cloned: Result<(), String>) -> (r: Result<
        Option<Receiver<usize>>,
        SerialError,
    >)
        requires
            old(self).wf(),
        ensures
            final(self).wf(),
            old(self).lookup(id@) is None ==> r == Err::<Option<Receiver<usize>>, SerialError>(
                SerialError::NotFound,
            ) && *final(self) == *old(self),
            old(self).lookup(id@) matches Some(e) ==> {
                &&& e.sender is Some ==> (r matches Ok(o) && o is None && *final(self) == *old(self))
                &&& e.sender is None && cloned is Err ==> r == Err::<
                    Option<Receiver<usize>>,
                    SerialError,
                >(SerialError::ReadFailed(cloned->Err_0)) && *final(self) == *old(self)
                &&& e.sender is None && cloned is Ok ==> {
                    &&& r matches Ok(o) && o is Some
                    &&& final(self).lookup(id@) matches Some(e2) && e2.config == e.config && e2.handle
                        == e.handle && e2.sender is Some
                    &&& unchanged_except(*old(self), *final(self), id@)
                    &&& final(self).session_count() == old(self).session_count()
                }
            },
    {
        match self.find_index(id) {
            None => Err(SerialError::NotFound),
            Some(i) => {
                if self.entries[i].1.sender.is_some() {
                    Ok(None)
                } else {
                    match cloned {
                        Err(m) => Err(SerialError::ReadFailed(m)),
                        Ok(_) => {
                            let (sender, receiver) = signal_channel();
                            let key = self.entries[i].0.clone();
                            let config = self.entries[i].1.config;
                            let handle = self.entries[i].1.handle;
                            let entry = SessionEntry { config, handle, sender: Some(sender) };
                            proof {
                                lemma_lookup_update(self.entries@, i as int, (key, entry));
                            }
                            self.entries.set(i, (key, entry));
                            Ok(Some(receiver))
                        },
                    }
                }
            },
        }
    }

    /// The handle token to write to: `NotFound` with no session, and the
    /// session's own handle otherwise.
    pub fn prepare_write(&self, id: &String) -> (r: Result<u64, SerialError>)
        ensures
            self.lookup(id@) is None <==> r == Err::<u64, SerialError>(SerialError::NotFound),
            self.lookup(id@) matches Some(e) ==> r == Ok::<u64, SerialError>(e.handle),
    {
        match self.find_index(id) {
            None => Err(SerialError::NotFound),
            Some(i) => Ok(self.entries[i].1.handle),
        }
    }
}

/// Maps the outcome of one hardware write: success returns exactly the
/// number of bytes the handle accepted, and any I/O error surfaces as
/// `WriteFailed` with its reason.
pub fn write_result(outcome: Result<usize, String>) -> (r: Result<usize, SerialError>)
    ensures
        outcome matches Ok(n) ==> r == Ok::<usize, SerialError>(n),
        outcome matches Err(m) ==> r == Err::<usize, SerialError>(SerialError::WriteFailed(m)),
{
    match outcome {
        Ok(n) => Ok(n),
        Err(m) => Err(SerialError::WriteFailed(m)),
    }
}

} // verus!
