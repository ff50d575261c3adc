//! The cache of compiler binaries.
//!
//! A binary is fetched once and then kept for good. While a version is
//! being fetched, everyone else who wants it waits for that fetch instead
//! of starting one of their own. A fetched binary is only stored if its
//! checksum is the expected one; a fetch that failed leaves no trace, so
//! that it can be tried again.

use vstd::prelude::*;
use crate::matcher::same_bytes;
use crate::version::CompilerVersion;

verus! {

/// A compiler binary on local storage.
#[derive(Debug)]
pub struct CompilerBinary {
    pub version: CompilerVersion,
    pub path: String,
    pub checksum: Vec<u8>,
}

/// What the cache holds for one version: the binary, or nothing yet while
/// it is being fetched.
#[derive(Debug)]
pub struct Slot {
    pub version: CompilerVersion,
    pub binary: Option<CompilerBinary>,
}

/// The answer to a request for a binary.
#[derive(Debug)]
pub enum Resolution {
    /// The binary is in the cache, under this path.
    Ready(String),
    /// The binary is not in the cache and nobody is fetching it: the caller
    /// is to fetch it and report back.
    Fetch,
    /// Somebody else is fetching the binary: the caller is to wait.
    Wait,
}

/// What became of a fetched binary that was handed in.
#[derive(Clone, Copy, Debug, PartialEq, Eq, Structural)]
pub enum Completion {
    /// The binary is in the cache now.
    Stored,
    /// The checksum is not the expected one. The binary was dropped and may
    /// be fetched again.
    Corrupt,
    /// Nobody was fetching this version. Nothing changed.
    Unexpected,
}

/// What to do after a fetch failed.
#[derive(Clone, Copy, Debug, PartialEq, Eq, Structural)]
pub enum Retry {
    Again,
    GiveUp,
}

/// The index of the first slot for `version`, or the number of slots where
/// there is none for it.
pub open spec fn slot_of(slots: Seq<Slot>, version: CompilerVersion) -> int
    decreases slots.len(),
{
    if slots.len() == 0 {
        0
    } else if slots[0].version == version {
        0
    } else {
        1 + slot_of(slots.drop_first(), version)
    }
}

/// The version has a slot.
pub open spec fn is_held(slots: Seq<Slot>, version: CompilerVersion) -> bool {
    slot_of(slots, version) < slots.len()
}

/// The version is being fetched.
pub open spec fn is_fetching(slots: Seq<Slot>, version: CompilerVersion) -> bool {
    is_held(slots, version) && slots[slot_of(slots, version)].binary.is_none()
}

/// The binary that the cache holds for a version.
pub open spec fn binary_of(slots: Seq<Slot>, version: CompilerVersion) -> Option<CompilerBinary> {
    if is_held(slots, version) {
        slots[slot_of(slots, version)].binary
    } else {
        None
    }
}

/// The slots after a binary for `version` was asked for.
pub open spec fn begun(slots: Seq<Slot>, version: CompilerVersion) -> Seq<Slot> {
    if is_held(slots, version) {
        slots
    } else {
        slots.push(Slot { version, binary: None })
    }
}

/// The slots after the fetch of `version` was given up.
pub open spec fn abandoned(slots: Seq<Slot>, version: CompilerVersion) -> Seq<Slot> {
    if is_fetching(slots, version) {
        slots.remove(slot_of(slots, version))
    } else {
        slots
    }
}

/// The slots after a fetched binary was handed in together with the
/// checksum it should have.
pub open spec fn completed(slots: Seq<Slot>, binary: CompilerBinary, expected: Seq<u8>) -> Seq<
    Slot,
> {
    if !is_fetching(slots, binary.version) {
        slots
    } else if binary.checksum@ == expected {
        slots.update(
            slot_of(slots, binary.version),
            Slot { version: binary.version, binary: Some(binary) },
        )
    } else {
        slots.remove(slot_of(slots, binary.version))
    }
}

/// The cache of compiler binaries.
#[derive(Debug)]
pub struct BinaryCache {
    slots: Vec<Slot>,
}

impl View for BinaryCache {
    type V = Seq<Slot>;

    closed spec fn view(&self) -> Seq<Slot> {
        self.slots@
    }
}

impl BinaryCache {
    /// An empty cache.
    pub fn new() -> (cache: Self)
        ensures
            cache@ == Seq::<Slot>::empty(),
    {
        BinaryCache { slots: Vec::new() }
    }

    fn find(&self, version: &CompilerVersion) -> (at: usize)
        ensures
            at == slot_of(self@, *version),
            at <= self@.len(),
    {
        let mut at: usize = 0;
        while at < self.slots.len() && self.slots[at].version != *version
            invariant
                at <= self.slots.len(),
                forall|j: int| 0 <= j < at ==> self@[j].version != *version,
            decreases self.slots.len() - at,
        {
            at += 1;
        }
        proof {
            lemma_slot_of(self@, *version, at as int);
        }
        at
    }

    /// The binary held for a version, if it has been fetched.
    pub fn resolved(&self, version: &CompilerVersion) -> (binary: Option<&CompilerBinary>)
        ensures
            match binary {
                Some(found) => binary_of(self@, *version) == Some(*found),
                None => binary_of(self@, *version).is_none(),
            },
    {
        let at = self.find(version);
        if at < self.slots.len() {
            self.slots[at].binary.as_ref()
        } else {
            None
        }
    }

    /// Asks for the binary of a version. The first to ask for a version
    /// that is not held is told to fetch it; whoever asks while that fetch
    /// is under way is told to wait.
    pub fn begin(&mut self, version: CompilerVersion) -> (answer: Resolution)
        ensures
            final(self)@ == begun(old(self)@, version),
            match answer {
                Resolution::Ready(path) => binary_of(old(self)@, version) matches Some(binary)
                    && path == binary.path,
                Resolution::Fetch => !is_held(old(self)@, version),
                Resolution::Wait => is_fetching(old(self)@, version),
            },
            is_held(final(self)@, version),
    {
        let at = self.find(&version);
        if at < self.slots.len() {
            match &self.slots[at].binary {
                Some(binary) => Resolution::Ready(binary.path.clone()),
                None => Resolution::Wait,
            }
        } else {
            proof {
                lemma_slot_is_first(self@, version);
            }
            self.slots.push(Slot { version, binary: None });
            proof {
                lemma_slot_of(self@, version, at as int);
            }
            Resolution::Fetch
        }
    }

    /// Hands in a fetched binary together with the checksum that it should
    /// have. It is stored only if its version was being fetched and the
    /// checksums agree.
    pub fn complete(&mut self, binary: CompilerBinary, expected: &Vec<u8>) -> (done: Completion)
        ensures
            final(self)@ == completed(old(self)@, binary, expected@),
            done == if !is_fetching(old(self)@, binary.version) {
                Completion::Unexpected
            } else if binary.checksum@ == expected@ {
                Completion::Stored
            } else {
                Completion::Corrupt
            },
    {
        let at = self.find(&binary.version);
        if at >= self.slots.len() || self.slots[at].binary.is_some() {
            return Completion::Unexpected;
        }
        if same_bytes(binary.checksum.as_slice(), expected.as_slice()) {
            let version = binary.version;
            self.slots.set(at, Slot { version, binary: Some(binary) });
            Completion::Stored
        } else {
            self.slots.remove(at);
            Completion::Corrupt
        }
    }

    /// Gives up the fetch of a version, and says whether one was under way.
    /// A binary that is held is never dropped.
    pub fn abandon(&mut self, version: &CompilerVersion) -> (dropped: bool)
        ensures
            final(self)@ == abandoned(old(self)@, *version),
            dropped == is_fetching(old(self)@, *version),
    {
        let at = self.find(version);
        if at < self.slots.len() && self.slots[at].binary.is_none() {
            self.slots.remove(at);
            true
        } else {
            false
        }
    }
}

/// Whether a failed fetch is tried again: `attempts` fetches have failed,
/// and no more than `limit` are made.
pub fn after_failed_fetch(attempts: u32, limit: u32) -> (next: Retry)
    ensures
        next == if attempts < limit {
            Retry::Again
        } else {
            Retry::GiveUp
        },
{
    if attempts < limit {
        Retry::Again
    } else {
        Retry::GiveUp
    }
}

proof fn lemma_slot_of(slots: Seq<Slot>, version: CompilerVersion, at: int)
    requires
        0 <= at <= slots.len(),
        forall|j: int| 0 <= j < at ==> slots[j].version != version,
        at < slots.len() ==> slots[at].version == version,
    ensures
        slot_of(slots, version) == at,
    decreases at,
{
    if at > 0 {
        let rest = slots.drop_first();
        assert(slots[0].version != version);
        assert forall|j: int| 0 <= j < at - 1 implies rest[j].version != version by {
            assert(rest[j] == slots[j + 1]);
        }
        lemma_slot_of(rest, version, at - 1);
    }
}

/// The slot of a version is the first one that is for it.
pub proof fn lemma_slot_is_first(slots: Seq<Slot>, version: CompilerVersion)
    ensures
        0 <= slot_of(slots, version) <= slots.len(),
        forall|j: int| 0 <= j < slot_of(slots, version) ==> slots[j].version != version,
        slot_of(slots, version) < slots.len() ==> slots[slot_of(slots, version)].version
            == version,
    decreases slots.len(),
{
    if slots.len() > 0 && slots[0].version != version {
        let rest = slots.drop_first();
        lemma_slot_is_first(rest, version);
        assert forall|j: int| 0 <= j < slot_of(slots, version) implies slots[j].version
            != version by {
            if j > 0 {
                assert(rest[j - 1] == slots[j]);
            }
        }
    }
}

/// A binary that the cache holds stays in it, unchanged, whatever is asked
/// for, handed in or given up afterwards.
pub proof fn lemma_held_binary_stays(
    slots: Seq<Slot>,
    version: CompilerVersion,
    other: CompilerVersion,
    handed_in: CompilerBinary,
    expected: Seq<u8>,
)
    requires
        binary_of(slots, version).is_some(),
    ensures
        binary_of(begun(slots, other), version) == binary_of(slots, version),
        binary_of(abandoned(slots, other), version) == binary_of(slots, version),
        binary_of(completed(slots, handed_in, expected), version) == binary_of(slots, version),
{
    let at = slot_of(slots, version);
    lemma_slot_is_first(slots, version);
    lemma_slot_is_first(slots, other);
    lemma_slot_is_first(slots, handed_in.version);
    // asking for a version adds at most a slot at the end
    lemma_slot_of(begun(slots, other), version, at);
    // giving up takes out a slot that holds nothing
    if is_fetching(slots, other) {
        let gone = slot_of(slots, other);
        let left = slots.remove(gone);
        if gone < at {
            lemma_slot_of(left, version, at - 1);
        } else {
            lemma_slot_of(left, version, at);
        }
    }
    // handing in fills or takes out a slot that holds nothing
    if is_fetching(slots, handed_in.version) {
        let place = slot_of(slots, handed_in.version);
        if handed_in.checksum@ == expected {
            let filled = slots.update(
                place,
                Slot { version: handed_in.version, binary: Some(handed_in) },
            );
            lemma_slot_of(filled, version, at);
        } else {
            let left = slots.remove(place);
            if place < at {
                lemma_slot_of(left, version, at - 1);
            } else {
                lemma_slot_of(left, version, at);
            }
        }
    }
}

/// While a version is being fetched, nobody else is told to fetch it.
pub proof fn lemma_single_flight(slots: Seq<Slot>, version: CompilerVersion)
    ensures
        is_held(begun(slots, version), version),
        begun(begun(slots, version), version) == begun(slots, version),
{
    lemma_slot_is_first(slots, version);
    if !is_held(slots, version) {
        lemma_slot_of(begun(slots, version), version, slots.len() as int);
    }
}

} // verus!
