//! Execution state shared by the statements of one event: local variables,
//! binary file handles, and the view of the room's instances that evaluation
//! sees while updates are pending.

use std::collections::HashMap;

use vstd::prelude::*;
use vstd::hash_map::StringHashMap;

use crate::overlay::{spec_drained, RuntimeSparseInstanceOverlay};
use crate::text::char_len;

verus! {

/// Outcome of running the step events of a room.
#[derive(Clone, Copy, Debug, Default, PartialEq, Eq)]
pub struct StepExecutionResult {
    pub interrupted: bool,
    pub player_motion_changed: bool,
    pub player_jump_owned_by_script: bool,
}

// ----------------------------------------------------------------------------
// Local variables

/// The position of the first `[` in `s`, if any.
pub open spec fn spec_first_bracket(s: Seq<char>) -> Option<int> {
    if exists|i: int| 0 <= i < s.len() && s[i] == '[' {
        Some(choose|i: int| 0 <= i < s.len() && s[i] == '[' && forall|j: int| 0 <= j < i ==> s[j] != '[')
    } else {
        None
    }
}

/// The local variables declared by `var` in the code being run. A declared
/// variable holds no value until assigned.
#[verifier::reject_recursive_types(V)]
pub struct RuntimeExecutionScope<V> {
    locals: StringHashMap<Option<V>>,
}

impl<V: Clone> RuntimeExecutionScope<V> {
    /// The declared variables, each with its value if it has been assigned.
    pub closed spec fn locals(&self) -> Map<Seq<char>, Option<V>> {
        self.locals@
    }

    /// `key` is a declared variable, or an element `base[...]` of one.
    pub open spec fn spec_is_local_key(&self, key: Seq<char>) -> bool {
        self.locals().contains_key(key) || match spec_first_bracket(key) {
            Some(i) => self.locals().contains_key(key.take(i)),
            None => false,
        }
    }

    /// A scope with no variables.
    pub fn new() -> (r: Self)
        ensures
            r.locals() == Map::<Seq<char>, Option<V>>::empty(),
    {
        RuntimeExecutionScope { locals: StringHashMap::new() }
    }

    /// Declares `name`, keeping its value if it is already declared.
    pub fn declare(&mut self, name: &str)
        ensures
            final(self).locals() == if old(self).locals().contains_key(name@) {
                old(self).locals()
            } else {
                old(self).locals().insert(name@, None)
            },
    {
        if !self.locals.contains_key(name) {
            self.locals.insert(name.to_owned(), None);
        }
    }

    /// A clone of the value of the declared variable `key`, if it has one.
    pub fn get(&self, key: &str) -> (r: Option<V>)
        ensures
            match r {
                Some(v) => self.locals().contains_key(key@) && self.locals()[key@] is Some && cloned(
                    self.locals()[key@]->Some_0,
                    v,
                ),
                None => !self.locals().contains_key(key@) || self.locals()[key@] is None,
            },
    {
        match self.locals.get(key) {
            Some(Some(v)) => Some(v.clone()),
            _ => None,
        }
    }

    /// Whether `key` is a declared variable, or an element `base[...]` of one.
    pub fn is_local_key(&self, key: &str) -> (r: bool)
        ensures
            r == self.spec_is_local_key(key@),
    {
        if self.locals.contains_key(key) {
            return true;
        }
        let n = char_len(key);
        let mut i: usize = 0;
        while i < n
            invariant
                n == key@.len(),
                i <= n,
                !self.locals@.contains_key(key@),
                forall|j: int| 0 <= j < i ==> key@[j] != '[',
            decreases n - i,
        {
            if key.get_char(i) == '[' {
                let base = key.substring_char(0, i);
                let ghost first = spec_first_bracket(key@);
                assert(first == Some(i as int)) by {
                    let c = choose|c: int| 0 <= c < key@.len() && key@[c] == '[' && forall|j: int| 0 <= j < c ==> key@[j] != '[';
                    assert(c == i);
                }
                assert(base@ =~= key@.take(i as int));
                return self.locals.contains_key(base);
            }
            i = i + 1;
        }
        false
    }

    /// Gives the declared variable `key`, or element of a declared array, the
    /// value `value`; returns whether `key` is local. A key that is not local is
    /// left to the instance or globals, and the scope does not change.
    pub fn assign(&mut self, key: &str, value: V) -> (r: bool)
        ensures
            r == old(self).spec_is_local_key(key@),
            final(self).locals() == if r {
                old(self).locals().insert(key@, Some(value))
            } else {
                old(self).locals()
            },
    {
        if self.is_local_key(key) {
            self.locals.insert(key.to_owned(), Some(value));
            true
        } else {
            false
        }
    }
}


// ----------------------------------------------------------------------------
// Binary files

/// How a binary file was opened, with its bytes.
#[derive(Debug)]
pub enum RuntimeBinaryFileMode {
    Read { bytes: Vec<u8>, cursor: usize },
    Write { bytes: Vec<u8> },
    Append { bytes: Vec<u8> },
}

/// An open binary file.
#[derive(Debug)]
pub struct RuntimeBinaryFileHandle {
    pub path: String,
    pub mode: RuntimeBinaryFileMode,
}

/// The binary files a game has open, by handle.
#[derive(Debug)]
pub struct RuntimeBinaryFileState {
    next_handle: i32,
    handles: HashMap<i32, RuntimeBinaryFileHandle>,
}

/// `a + 1`, saturating at the largest value.
pub open spec fn spec_saturating_inc(a: usize) -> usize {
    if a == usize::MAX { a } else { (a + 1) as usize }
}

/// What a binary file holds, by the mode it was opened in.
pub enum BinaryFileContents {
    Read { bytes: Seq<u8>, cursor: usize },
    Write { bytes: Seq<u8> },
    Append { bytes: Seq<u8> },
}

impl View for RuntimeBinaryFileHandle {
    type V = (Seq<char>, BinaryFileContents);

    open spec fn view(&self) -> (Seq<char>, BinaryFileContents) {
        (self.path@, match self.mode {
            RuntimeBinaryFileMode::Read { bytes, cursor } => BinaryFileContents::Read { bytes: bytes@, cursor },
            RuntimeBinaryFileMode::Write { bytes } => BinaryFileContents::Write { bytes: bytes@ },
            RuntimeBinaryFileMode::Append { bytes } => BinaryFileContents::Append { bytes: bytes@ },
        })
    }
}

/// The open binary files, by handle.
pub type BinaryFiles = Map<i32, (Seq<char>, BinaryFileContents)>;

/// Reading a byte from `handle`: the byte under the cursor of a file open for
/// reading (0 past its end), with the cursor advanced; 0 with nothing changed
/// for a handle that is not open for reading.
pub open spec fn spec_read_byte(files: BinaryFiles, handle: i32) -> (u8, BinaryFiles) {
    match files.get(handle) {
        Some((path, BinaryFileContents::Read { bytes, cursor })) => (
            if cursor < bytes.len() { bytes[cursor as int] } else { 0 },
            files.insert(handle, (path, BinaryFileContents::Read { bytes, cursor: spec_saturating_inc(cursor) })),
        ),
        _ => (0, files),
    }
}

/// Writing `byte` to `handle`: appended to a file open for writing or
/// appending; nothing changes for any other handle.
pub open spec fn spec_write_byte(files: BinaryFiles, handle: i32, byte: u8) -> BinaryFiles {
    match files.get(handle) {
        Some((path, BinaryFileContents::Write { bytes })) => files.insert(
            handle,
            (path, BinaryFileContents::Write { bytes: bytes.push(byte) }),
        ),
        Some((path, BinaryFileContents::Append { bytes })) => files.insert(
            handle,
            (path, BinaryFileContents::Append { bytes: bytes.push(byte) }),
        ),
        _ => files,
    }
}

/// What closing `handle` hands the host to store: the path and bytes of a file
/// open for writing or appending.
pub open spec fn spec_closed_contents(files: BinaryFiles, handle: i32) -> Option<(Seq<char>, Seq<u8>)> {
    match files.get(handle) {
        Some((path, BinaryFileContents::Write { bytes })) => Some((path, bytes)),
        Some((path, BinaryFileContents::Append { bytes })) => Some((path, bytes)),
        _ => None,
    }
}

/// Reading `n` bytes from `handle` in turn: the bytes read, and the files
/// afterwards.
pub open spec fn spec_read_bytes(files: BinaryFiles, handle: i32, n: nat) -> (Seq<u8>, BinaryFiles)
    decreases n,
{
    if n == 0 {
        (Seq::empty(), files)
    } else {
        let (read, after) = spec_read_bytes(files, handle, (n - 1) as nat);
        let (byte, last) = spec_read_byte(after, handle);
        (read.push(byte), last)
    }
}

/// Writing `data` to `handle`, one byte after another.
pub open spec fn spec_write_bytes(files: BinaryFiles, handle: i32, data: Seq<u8>) -> BinaryFiles
    decreases data.len(),
{
    if data.len() == 0 {
        files
    } else {
        spec_write_byte(spec_write_bytes(files, handle, data.drop_last()), handle, data.last())
    }
}

impl RuntimeBinaryFileState {
    /// The open files, by handle: each file's path and contents.
    pub closed spec fn files(&self) -> Map<i32, (Seq<char>, BinaryFileContents)> {
        self.handles@.map_values(|h: RuntimeBinaryFileHandle| h@)
    }

    /// The handle the next open will try first.
    pub closed spec fn next(&self) -> i32 {
        self.next_handle
    }

    /// No file open.
    pub fn new() -> (r: Self)
        ensures
            r.files() == Map::<i32, (Seq<char>, BinaryFileContents)>::empty(),
            r.next() == 0,
    {
        let r = RuntimeBinaryFileState { next_handle: 0, handles: HashMap::new() };
        assert(r.files() =~= Map::<i32, (Seq<char>, BinaryFileContents)>::empty());
        r
    }

    /// Opens `path` and returns its handle: the next handle, at least 1. Mode 0
    /// reads `existing` from its start, mode 2 appends to `existing`, any other
    /// mode writes a new, empty file. `existing` is what the host holds at
    /// `path`, empty where it holds nothing.
    pub fn open(&mut self, path: String, mode: i32, existing: Vec<u8>) -> (handle: i32)
        ensures
            handle == (if old(self).next() >= 1 { old(self).next() } else { 1 }),
            final(self).next() == (if handle == i32::MAX { handle } else { (handle + 1) as i32 }),
            final(self).files() == old(self).files().insert(
                handle,
                (path@, if mode == 0 {
                    BinaryFileContents::Read { bytes: existing@, cursor: 0 }
                } else if mode == 2 {
                    BinaryFileContents::Append { bytes: existing@ }
                } else {
                    BinaryFileContents::Write { bytes: Seq::empty() }
                }),
            ),
    {
        broadcast use vstd::std_specs::hash::group_hash_axioms;
        let ghost before = self.files();
        let handle = if self.next_handle >= 1 { self.next_handle } else { 1 };
        self.next_handle = if handle == i32::MAX { handle } else { handle + 1 };
        let file_mode = if mode == 0 {
            RuntimeBinaryFileMode::Read { bytes: existing, cursor: 0 }
        } else if mode == 2 {
            RuntimeBinaryFileMode::Append { bytes: existing }
        } else {
            RuntimeBinaryFileMode::Write { bytes: Vec::new() }
        };
        let file = RuntimeBinaryFileHandle { path, mode: file_mode };
        let ghost v = file@;
        self.handles.insert(handle, file);
        assert(self.files() =~= before.insert(handle, v));
        handle
    }

    /// Reads the byte under the cursor of a file open for reading and advances
    /// the cursor; 0 past the end, and 0 with nothing changed for a handle that
    /// is not open for reading.
    pub fn read_byte(&mut self, handle: i32) -> (byte: u8)
        ensures
            (byte, final(self).files()) == spec_read_byte(old(self).files(), handle),
            final(self).next() == old(self).next(),
    {
        broadcast use vstd::std_specs::hash::group_hash_axioms;
        let ghost before = self.files();
        let ghost raw = self.handles@;
        match self.handles.remove(&handle) {
            None => {
                assert(self.handles@ =~= raw);
                0
            },
            Some(file) => {
                let RuntimeBinaryFileHandle { path, mode } = file;
                match mode {
                    RuntimeBinaryFileMode::Read { bytes, cursor } => {
                        let byte = if cursor < bytes.len() { bytes[cursor] } else { 0 };
                        let next = if cursor == usize::MAX { cursor } else { cursor + 1 };
                        let file = RuntimeBinaryFileHandle { path, mode: RuntimeBinaryFileMode::Read { bytes, cursor: next } };
                        let ghost v = file@;
                        self.handles.insert(handle, file);
                        assert(self.files() =~= before.insert(handle, v));
                        byte
                    },
                    other => {
                        self.handles.insert(handle, RuntimeBinaryFileHandle { path, mode: other });
                        assert(self.handles@ =~= raw);
                        0
                    },
                }
            },
        }
    }

    /// Appends `byte` to a file open for writing or appending; a handle that is
    /// not open for writing changes nothing.
    pub fn write_byte(&mut self, handle: i32, byte: u8)
        ensures
            final(self).files() == spec_write_byte(old(self).files(), handle, byte),
            final(self).next() == old(self).next(),
    {
        broadcast use vstd::std_specs::hash::group_hash_axioms;
        let ghost before = self.files();
        let ghost raw = self.handles@;
        match self.handles.remove(&handle) {
            None => {
                assert(self.handles@ =~= raw);
            },
            Some(file) => {
                let RuntimeBinaryFileHandle { path, mode } = file;
                match mode {
                    RuntimeBinaryFileMode::Write { mut bytes } => {
                        bytes.push(byte);
                        let file = RuntimeBinaryFileHandle { path, mode: RuntimeBinaryFileMode::Write { bytes } };
                        let ghost v = file@;
                        self.handles.insert(handle, file);
                        assert(self.files() =~= before.insert(handle, v));
                    },
                    RuntimeBinaryFileMode::Append { mut bytes } => {
                        bytes.push(byte);
                        let file = RuntimeBinaryFileHandle { path, mode: RuntimeBinaryFileMode::Append { bytes } };
                        let ghost v = file@;
                        self.handles.insert(handle, file);
                        assert(self.files() =~= before.insert(handle, v));
                    },
                    other => {
                        self.handles.insert(handle, RuntimeBinaryFileHandle { path, mode: other });
                        assert(self.handles@ =~= raw);
                    },
                }
            },
        }
    }

    /// Closes a handle. For a file open for writing or appending, returns its
    /// path and bytes, which the host is to store; nothing for a file open for
    /// reading or a handle that is not open.
    pub fn close(&mut self, handle: i32) -> (r: Option<(String, Vec<u8>)>)
        ensures
            final(self).files() == old(self).files().remove(handle),
            final(self).next() == old(self).next(),
            match spec_closed_contents(old(self).files(), handle) {
                Some((path, bytes)) => r matches Some((p, b)) && p@ == path && b@ == bytes,
                None => r is None,
            },
    {
        broadcast use vstd::std_specs::hash::group_hash_axioms;
        let ghost before = self.files();
        let removed = self.handles.remove(&handle);
        assert(self.files() =~= before.remove(handle));
        match removed {
            None => None,
            Some(file) => {
                let RuntimeBinaryFileHandle { path, mode } = file;
                match mode {
                    RuntimeBinaryFileMode::Write { bytes } => Some((path, bytes)),
                    RuntimeBinaryFileMode::Append { bytes } => Some((path, bytes)),
                    RuntimeBinaryFileMode::Read { .. } => None,
                }
            },
        }
    }
}

// ----------------------------------------------------------------------------
// The room's instances as evaluation sees them

/// The last update of `updates` at `index`, if any.
pub open spec fn spec_last_update<T>(updates: Seq<(usize, T)>, index: usize) -> Option<T>
    decreases updates.len(),
{
    if updates.len() == 0 {
        None
    } else if updates.last().0 == index {
        Some(updates.last().1)
    } else {
        spec_last_update(updates.drop_last(), index)
    }
}

/// `b` holds the updates of `a`, in order, at the same indices, each instance a
/// clone of the one in `a`.
pub open spec fn spec_cloned_updates<T: Clone>(a: Seq<(usize, T)>, b: Seq<(usize, T)>) -> bool {
    &&& a.len() == b.len()
    &&& forall|i: int| 0 <= i < a.len() ==> (#[trigger] b[i]).0 == a[i].0 && cloned(a[i].1, b[i].1)
}

/// Instance updates of a room that are not yet in its instance list: those
/// committed earlier, those pending in the running event, and the instance the
/// event runs for.
pub struct RuntimeRoomInstanceOverlay<'a, T> {
    committed_updates: Option<&'a HashMap<usize, T>>,
    pending_updates: Vec<(usize, T)>,
    current_instance: Option<(usize, T)>,
}

impl<'a, T: Clone> RuntimeRoomInstanceOverlay<'a, T> {
    /// The committed updates, by room index, where there are any.
    pub closed spec fn committed(&self) -> Option<Map<usize, T>> {
        match self.committed_updates {
            Some(m) => Some(m@),
            None => None,
        }
    }

    /// The pending updates, oldest first.
    pub closed spec fn pending(&self) -> Seq<(usize, T)> {
        self.pending_updates@
    }

    /// The running instance and its room index, where there is one.
    pub closed spec fn current(&self) -> Option<(usize, T)> {
        self.current_instance
    }

    /// The instance at `index` as evaluation sees it: the running instance,
    /// else the last pending update, else the committed update, else `fallback`.
    pub open spec fn spec_instance_at(&self, index: usize, fallback: T) -> T {
        match self.current() {
            Some((ci, inst)) if ci == index => inst,
            _ => match spec_last_update(self.pending(), index) {
                Some(inst) => inst,
                None => match self.committed() {
                    Some(m) if m.contains_key(index) => m[index],
                    _ => fallback,
                },
            },
        }
    }

    /// An overlay that changes nothing.
    pub fn empty() -> (r: Self)
        ensures
            r.committed() is None,
            r.pending() == Seq::<(usize, T)>::empty(),
            r.current() is None,
    {
        RuntimeRoomInstanceOverlay { committed_updates: None, pending_updates: Vec::new(), current_instance: None }
    }

    /// An overlay of the committed updates, clones of the pending updates, and a
    /// clone of the running instance at `current_index`.
    pub fn with_current(
        committed_updates: &'a HashMap<usize, T>,
        pending_updates: &[(usize, T)],
        current_index: usize,
        current_instance: &T,
    ) -> (r: Self)
        ensures
            r.committed() == Some(committed_updates@),
            spec_cloned_updates(pending_updates@, r.pending()),
            r.current() matches Some((ci, inst)) && ci == current_index && cloned(*current_instance, inst),
    {
        let mut pending: Vec<(usize, T)> = Vec::new();
        append_cloned_updates(&mut pending, pending_updates);
        assert(pending@.skip(0) =~= pending@);
        RuntimeRoomInstanceOverlay {
            committed_updates: Some(committed_updates),
            pending_updates: pending,
            current_instance: Some((current_index, current_instance.clone())),
        }
    }

    /// This overlay with `pending_updates` after its own pending updates, and
    /// `current_instance` as the running instance at `current_index`; clones
    /// throughout.
    pub fn merge_pending_current(
        &self,
        pending_updates: &[(usize, T)],
        current_index: usize,
        current_instance: &T,
    ) -> (r: Self)
        ensures
            r.committed() == self.committed(),
            r.pending().len() == self.pending().len() + pending_updates@.len(),
            spec_cloned_updates(self.pending(), r.pending().take(self.pending().len() as int)),
            spec_cloned_updates(pending_updates@, r.pending().skip(self.pending().len() as int)),
            r.current() matches Some((ci, inst)) && ci == current_index && cloned(*current_instance, inst),
    {
        let mut merged: Vec<(usize, T)> = Vec::new();
        append_cloned_updates(&mut merged, self.pending_updates.as_slice());
        let ghost first = merged@;
        assert(first.skip(0) =~= first);
        append_cloned_updates(&mut merged, pending_updates);
        proof {
            assert(merged@.len() == merged@.take(first.len() as int).len() + merged@.skip(first.len() as int).len());
        }
        RuntimeRoomInstanceOverlay {
            committed_updates: self.committed_updates,
            pending_updates: merged,
            current_instance: Some((current_index, current_instance.clone())),
        }
    }

    /// The instance at `index` as evaluation sees it, `fallback` where nothing
    /// overlays it.
    pub fn instance_at<'b>(&'b self, index: usize, fallback: &'b T) -> (r: &'b T)
        where 'a: 'b
        ensures
            *r == self.spec_instance_at(index, *fallback),
    {
        broadcast use vstd::std_specs::hash::group_hash_axioms;
        if let Some((current_index, instance)) = &self.current_instance {
            if *current_index == index {
                return instance;
            }
        }
        let mut i = self.pending_updates.len();
        assert(self.pending_updates@.take(i as int) =~= self.pending_updates@);
        while i > 0
            invariant
                i <= self.pending_updates@.len(),
                self.current() is None || self.current().unwrap().0 != index,
                spec_last_update(self.pending_updates@, index)
                    == spec_last_update(self.pending_updates@.take(i as int), index),
            decreases i,
        {
            i = i - 1;
            proof {
                assert(self.pending_updates@.take(i + 1).drop_last() =~= self.pending_updates@.take(i as int));
            }
            if self.pending_updates[i].0 == index {
                assert(self.pending_updates@.take(i + 1).last() == self.pending_updates@[i as int]);
                assert(spec_last_update(self.pending_updates@, index) == Some(self.pending_updates@[i as int].1));
                return &self.pending_updates[i].1;
            }
        }
        assert(self.pending_updates@.take(0) =~= Seq::<(usize, T)>::empty());
        match self.committed_updates {
            Some(updates) => match updates.get(&index) {
                Some(instance) => instance,
                None => fallback,
            },
            None => fallback,
        }
    }

    /// The running instance with its index, where its index is at or past
    /// `base_len`, the length of the room's instance list.
    pub fn extra_current_instance<'b>(&'b self, base_len: usize) -> (r: Option<(usize, &'b T)>)
        where 'a: 'b
        ensures
            r == (match self.current() {
                Some((ci, inst)) if ci >= base_len => Some((ci, &inst)),
                _ => None,
            }),
    {
        match &self.current_instance {
            Some((index, instance)) => {
                if *index >= base_len {
                    Some((*index, instance))
                } else {
                    None
                }
            },
            None => None,
        }
    }
}

/// Pushes clones of `updates` onto `out`, in order.
fn append_cloned_updates<T: Clone>(out: &mut Vec<(usize, T)>, updates: &[(usize, T)])
    ensures
        final(out)@.len() == old(out)@.len() + updates@.len(),
        final(out)@.take(old(out)@.len() as int) == old(out)@,
        spec_cloned_updates(updates@, final(out)@.skip(old(out)@.len() as int)),
{
    let ghost start = out@;
    let mut i: usize = 0;
    while i < updates.len()
        invariant
            i <= updates@.len(),
            out@.len() == start.len() + i,
            out@.take(start.len() as int) == start,
            spec_cloned_updates(updates@.take(i as int), out@.skip(start.len() as int)),
        decreases updates@.len() - i,
    {
        let (index, instance) = &updates[i];
        let copy = instance.clone();
        let ghost before = out@;
        out.push((*index, copy));
        proof {
            assert(out@.take(start.len() as int) =~= before.take(start.len() as int));
            assert forall|j: int| 0 <= j < i + 1 implies (#[trigger] out@.skip(start.len() as int)[j]).0
                == updates@.take(i + 1)[j].0 && cloned(updates@.take(i + 1)[j].1, out@.skip(start.len() as int)[j].1) by {
                if j < i {
                    assert(out@.skip(start.len() as int)[j] == before.skip(start.len() as int)[j]);
                    assert(updates@.take(i + 1)[j] == updates@.take(i as int)[j]);
                }
            }
        }
        i = i + 1;
    }
    assert(updates@.take(updates@.len() as int) =~= updates@);
}

/// The overlay `base_overlay` gives with the instances `pending_updates` holds
/// added after its own pending updates, in the order their indices were
/// written, and `current_instance` running at `current_index`; clones
/// throughout.
pub fn merged_statement_overlay<'a, T: Clone>(
    base_overlay: &RuntimeRoomInstanceOverlay<'a, T>,
    pending_updates: &RuntimeSparseInstanceOverlay<T>,
    current_index: usize,
    current_instance: &T,
) -> (r: RuntimeRoomInstanceOverlay<'a, T>)
    requires
        pending_updates.wf(),
    ensures
        r.committed() == base_overlay.committed(),
        r.pending().len() == base_overlay.pending().len()
            + spec_drained(pending_updates.dirty(), pending_updates.held()).len(),
        spec_cloned_updates(base_overlay.pending(), r.pending().take(base_overlay.pending().len() as int)),
        spec_cloned_updates(
            spec_drained(pending_updates.dirty(), pending_updates.held()),
            r.pending().skip(base_overlay.pending().len() as int),
        ),
        r.current() matches Some((ci, inst)) && ci == current_index && cloned(*current_instance, inst),
{
    let mut merged: Vec<(usize, T)> = Vec::new();
    append_cloned_updates(&mut merged, base_overlay.pending_updates.as_slice());
    let ghost first = merged@;
    assert(first.skip(0) =~= first);
    let dirty = pending_updates.dirty_indices();
    let ghost held = pending_updates.held();
    let mut k: usize = 0;
    while k < dirty.len()
        invariant
            pending_updates.wf(),
            dirty@ == pending_updates.dirty(),
            held == pending_updates.held(),
            k <= dirty@.len(),
            merged@.len() >= first.len(),
            merged@.take(first.len() as int) == first,
            spec_cloned_updates(spec_drained(dirty@.take(k as int), held), merged@.skip(first.len() as int)),
        decreases dirty@.len() - k,
    {
        let index = dirty[k];
        let ghost before = merged@;
        proof {
            assert(dirty@.take(k + 1).drop_last() =~= dirty@.take(k as int));
            assert(dirty@.take(k + 1).last() == index);
        }
        match pending_updates.get(index) {
            Some(instance) => {
                let copy = instance.clone();
                merged.push((index, copy));
                proof {
                    assert(merged@.take(first.len() as int) =~= before.take(first.len() as int));
                    let d = spec_drained(dirty@.take(k + 1), held);
                    let d0 = spec_drained(dirty@.take(k as int), held);
                    assert(d == d0.push((index, held[index])));
                    assert forall|j: int| 0 <= j < d.len() implies (#[trigger] merged@.skip(first.len() as int)[j]).0
                        == d[j].0 && cloned(d[j].1, merged@.skip(first.len() as int)[j].1) by {
                        if j < d0.len() {
                            assert(merged@.skip(first.len() as int)[j] == before.skip(first.len() as int)[j]);
                        }
                    }
                }
            },
            None => {},
        }
        k = k + 1;
    }
    assert(dirty@.take(dirty@.len() as int) =~= dirty@);
    RuntimeRoomInstanceOverlay {
        committed_updates: base_overlay.committed_updates,
        pending_updates: merged,
        current_instance: Some((current_index, current_instance.clone())),
    }
}

// ----------------------------------------------------------------------------
// Laws of binary files

/// A file opened for reading reads back its bytes in order: right after `open`
/// in mode 0 with `existing`, `n` calls of `read_byte` give the first `n` bytes
/// of `existing`, then zeros past its end.
pub proof fn law_reads_give_bytes_in_order(
    files: BinaryFiles,
    handle: i32,
    path: Seq<char>,
    existing: Seq<u8>,
    n: nat,
)
    requires
        files.get(handle) == Some((path, BinaryFileContents::Read { bytes: existing, cursor: 0 })),
        n <= usize::MAX,
    ensures
        spec_read_bytes(files, handle, n).0 == Seq::new(
            n,
            |i: int| if i < existing.len() { existing[i] } else { 0u8 },
        ),
        spec_read_bytes(files, handle, n).1.get(handle) == Some(
            (path, BinaryFileContents::Read { bytes: existing, cursor: n as usize }),
        ),
    decreases n,
{
    if n > 0 {
        law_reads_give_bytes_in_order(files, handle, path, existing, (n - 1) as nat);
        let (read, after) = spec_read_bytes(files, handle, (n - 1) as nat);
        assert(spec_read_bytes(files, handle, n).0 =~= Seq::new(
            n,
            |i: int| if i < existing.len() { existing[i] } else { 0u8 },
        ));
    }
}

/// What is written is what closing hands over: right after `open` in a
/// writing mode, writing `data` byte by byte and then closing gives `data` and
/// the file's path; after `open` in mode 2, the existing bytes followed by
/// `data`.
pub proof fn law_close_gives_written_bytes(
    files: BinaryFiles,
    handle: i32,
    path: Seq<char>,
    existing: Seq<u8>,
    data: Seq<u8>,
    append: bool,
)
    requires
        files.get(handle) == Some(
            (path, if append {
                BinaryFileContents::Append { bytes: existing }
            } else {
                BinaryFileContents::Write { bytes: Seq::empty() }
            }),
        ),
    ensures
        spec_closed_contents(spec_write_bytes(files, handle, data), handle) == Some(
            (path, if append { existing + data } else { data }),
        ),
    decreases data.len(),
{
    if data.len() > 0 {
        law_close_gives_written_bytes(files, handle, path, existing, data.drop_last(), append);
        assert(existing + data.drop_last().push(data.last()) =~= existing + data);
        assert(data.drop_last().push(data.last()) =~= data);
    } else {
        assert(existing + data =~= existing);
    }
}

// ----------------------------------------------------------------------------
// Laws of the local scope

/// A declared variable and every element of it are local: once `name` (which
/// holds no `[`) is declared, `is_local_key` holds of `name` and of any key
/// `name[...]`, so `assign` to them stays in the scope.
pub proof fn law_declared_variable_and_elements_are_local<V: Clone>(
    scope: RuntimeExecutionScope<V>,
    name: Seq<char>,
    rest: Seq<char>,
)
    requires
        scope.locals().contains_key(name),
        forall|i: int| 0 <= i < name.len() ==> name[i] != '[',
    ensures
        scope.spec_is_local_key(name),
        scope.spec_is_local_key(name + seq!['['] + rest),
{
    let key = name + seq!['['] + rest;
    assert(key[name.len() as int] == '[');
    assert(forall|j: int| 0 <= j < name.len() ==> key[j] == name[j]);
    let c = choose|c: int| 0 <= c < key.len() && key[c] == '[' && forall|j: int| 0 <= j < c ==> key[j] != '[';
    assert(exists|i: int| 0 <= i < key.len() && key[i] == '[');
    assert(spec_first_bracket(key) == Some(c));
    if c < name.len() {
        assert(key[c] == name[c]);
    } else if c > name.len() {
        assert(key[name.len() as int] != '[');
    }
    assert(key.take(name.len() as int) =~= name);
}

} // verus!
