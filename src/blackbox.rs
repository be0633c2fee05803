//! The per-process event log: a slot that holds a buffered log once it is
//! initialised, and does nothing before that.

use vstd::prelude::*;

verus! {

/// A buffered event log. Entries are encoded events; `sync` hands the
/// buffered ones out to be appended to the file at `path`.
pub struct Blackbox {
    pub path: String,
    pub buffered: Vec<Vec<u8>>,
}

impl Blackbox {
    pub fn new(path: String) -> (r: Self)
        ensures
            r.path == path,
            r.buffered@.len() == 0,
    {
        Blackbox { path, buffered: Vec::new() }
    }

    /// Buffers one encoded event.
    pub fn log(&mut self, entry: Vec<u8>)
        ensures
            final(self).path == old(self).path,
            final(self).buffered@ == old(self).buffered@.push(entry),
    {
        self.buffered.push(entry);
    }

    /// Hands out the buffered events, oldest first, and empties the buffer.
    pub fn take_buffered(&mut self) -> (r: Vec<Vec<u8>>)
        ensures
            final(self).path == old(self).path,
            final(self).buffered@.len() == 0,
            r@ == old(self).buffered@,
    {
        let mut out: Vec<Vec<u8>> = Vec::new();
        core::mem::swap(&mut out, &mut self.buffered);
        out
    }
}

/// Where a process keeps its event log; empty until `init`.
pub struct BlackboxSlot {
    pub inner: Option<Blackbox>,
}

impl BlackboxSlot {
    pub fn new() -> (r: Self)
        ensures
            r.inner is None,
    {
        BlackboxSlot { inner: None }
    }
}

/// Replaces the slot's event log.
pub fn init(slot: &mut BlackboxSlot, blackbox: Blackbox)
    ensures
        final(slot).inner == Some(blackbox),
{
    slot.inner = Some(blackbox);
}

/// Buffers `entry` in the slot's event log; does nothing if `init` was not called.
pub fn log(slot: &mut BlackboxSlot, entry: Vec<u8>)
    ensures
        match old(slot).inner {
            None => final(slot).inner is None,
            Some(b) => final(slot).inner matches Some(c) && c.path == b.path && c.buffered@
                == b.buffered@.push(entry),
        },
{
    if let Some(blackbox) = &mut slot.inner {
        blackbox.log(entry);
    }
}

/// Takes the buffered events of the slot's event log, to be written to its
/// file; nothing if `init` was not called.
pub fn sync(slot: &mut BlackboxSlot) -> (r: Vec<Vec<u8>>)
    ensures
        match old(slot).inner {
            None => final(slot).inner is None && r@.len() == 0,
            Some(b) => final(slot).inner matches Some(c) && c.path == b.path && c.buffered@.len()
                == 0 && r@ == b.buffered@,
        },
{
    match &mut slot.inner {
        Some(blackbox) => blackbox.take_buffered(),
        None => Vec::new(),
    }
}

} // verus!
