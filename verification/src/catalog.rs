//! The catalog of known compiler versions.
//!
//! The catalog keeps one entry per version, newest first. A refresh merges a
//! freshly fetched manifest into it: versions that are new are added, and
//! what is already known is never changed or dropped.

use vstd::prelude::*;
use vstd::string::*;
use vstd::utf8::encode_utf8;
use crate::outcome::VerificationError;
use crate::version::{parse_version_bytes, parsed_version, CompilerVersion};

verus! {

/// One known compiler version: how it is listed and where its binary can be
/// fetched from. The catalog takes an entry only if its label reads as its
/// version; [`CatalogEntry::from_label`] makes such entries.
#[derive(Debug)]
pub struct CatalogEntry {
    pub version: CompilerVersion,
    /// The text under which the version is listed.
    pub label: String,
    /// Where the binary of this version is fetched from.
    pub location: String,
}

/// The label of the entry reads as its version.
pub open spec fn names_its_version(entry: CatalogEntry) -> bool {
    parsed_version(encode_utf8(entry.label@)) == Some(entry.version)
}

/// Every entry of the list is listed under a label that reads as its
/// version.
pub open spec fn well_labelled(entries: Seq<CatalogEntry>) -> bool {
    forall|i: int| 0 <= i < entries.len() ==> names_its_version(#[trigger] entries[i])
}

impl CatalogEntry {
    /// The entry for the version that a label names, if it names one.
    pub fn from_label(label: String, location: String) -> (entry: Option<Self>)
        ensures
            match entry {
                Some(made) => names_its_version(made) && made.label == label && made.location
                    == location,
                None => parsed_version(encode_utf8(label@)).is_none(),
            },
    {
        match parse_version_bytes(label.as_str().as_bytes()) {
            Some(version) => Some(CatalogEntry { version, label, location }),
            None => None,
        }
    }

    /// Whether the label of the entry reads as its version.
    pub fn is_well_labelled(&self) -> (named: bool)
        ensures
            named == names_its_version(*self),
    {
        match parse_version_bytes(self.label.as_str().as_bytes()) {
            Some(version) => version == self.version,
            None => false,
        }
    }

    /// A copy of this entry.
    pub fn duplicate(&self) -> (copy: Self)
        ensures
            copy == *self,
    {
        CatalogEntry {
            version: self.version,
            label: self.label.clone(),
            location: self.location.clone(),
        }
    }
}

/// The versions of a list of entries, in the list's order.
pub open spec fn versions_of(entries: Seq<CatalogEntry>) -> Seq<CompilerVersion> {
    entries.map_values(|e: CatalogEntry| e.version)
}

/// Every version is newer than all that follow it. Such a list holds no
/// version twice.
pub open spec fn newest_first(versions: Seq<CompilerVersion>) -> bool {
    forall|i: int, j: int| 0 <= i < j < versions.len() ==> versions[j].older_than(versions[i])
}

/// Some entry of the list is for `version`.
pub open spec fn known_in(entries: Seq<CatalogEntry>, version: CompilerVersion) -> bool {
    exists|i: int| 0 <= i < entries.len() && (#[trigger] entries[i]).version == version
}

/// How many entries of the list are for a version newer than `version`.
pub open spec fn newer_count(entries: Seq<CatalogEntry>, version: CompilerVersion) -> int
    decreases entries.len(),
{
    if entries.len() == 0 {
        0
    } else {
        newer_count(entries.drop_last(), version) + if entries.last().version.newer_than(
            version,
        ) {
            1int
        } else {
            0int
        }
    }
}

/// The list after one entry was offered to it: unchanged where the entry's
/// label does not read as its version or the version is known, else with
/// the entry put behind all newer versions.
pub open spec fn grown(entries: Seq<CatalogEntry>, entry: CatalogEntry) -> Seq<CatalogEntry> {
    if !names_its_version(entry) || known_in(entries, entry.version) {
        entries
    } else {
        entries.insert(newer_count(entries, entry.version), entry)
    }
}

/// The list after every entry of a manifest was offered to it, in the
/// manifest's order.
pub open spec fn merged(entries: Seq<CatalogEntry>, manifest: Seq<CatalogEntry>) -> Seq<
    CatalogEntry,
>
    decreases manifest.len(),
{
    if manifest.len() == 0 {
        entries
    } else {
        grown(merged(entries, manifest.drop_last()), manifest.last())
    }
}

/// A range of versions: from `lower` on, where given, and below `upper`,
/// where given.
#[derive(Clone, Copy, Debug, PartialEq, Eq, Structural)]
pub struct VersionConstraint {
    pub lower: Option<CompilerVersion>,
    pub upper: Option<CompilerVersion>,
}

impl VersionConstraint {
    pub open spec fn admits(self, version: CompilerVersion) -> bool {
        &&& self.lower matches Some(low) ==> !version.older_than(low)
        &&& self.upper matches Some(high) ==> version.older_than(high)
    }

    /// Whether `version` lies in the range.
    pub fn allows(&self, version: &CompilerVersion) -> (inside: bool)
        ensures
            inside == self.admits(*version),
    {
        let above = match &self.lower {
            Some(low) => !version.precedes(low),
            None => true,
        };
        let below = match &self.upper {
            Some(high) => version.precedes(high),
            None => true,
        };
        above && below
    }
}

/// The known compiler versions, newest first.
pub struct VersionCatalog {
    entries: Vec<CatalogEntry>,
}

impl View for VersionCatalog {
    type V = Seq<CatalogEntry>;

    closed spec fn view(&self) -> Seq<CatalogEntry> {
        self.entries@
    }
}

impl VersionCatalog {
    /// The catalog's invariant: its entries stand newest first, each under
    /// a label that reads as its version.
    pub open spec fn wf(&self) -> bool {
        newest_first(versions_of(self@)) && well_labelled(self@)
    }

    pub open spec fn knows(&self, version: CompilerVersion) -> bool {
        known_in(self@, version)
    }

    /// The set of known versions.
    pub open spec fn known(&self) -> Set<CompilerVersion> {
        Set::new(|v: CompilerVersion| known_in(self@, v))
    }

    /// A catalog that knows no version.
    pub fn new() -> (catalog: Self)
        ensures
            catalog.wf(),
            catalog@ == Seq::<CatalogEntry>::empty(),
    {
        VersionCatalog { entries: Vec::new() }
    }

    /// Builds the catalog at startup from what the first fetch of the list
    /// came to. Without a list there is no catalog: the failure to fetch or
    /// read it is a failure to start, with the reason that was given.
    pub fn from_manifest(fetched: Result<Vec<CatalogEntry>, String>) -> (built: Result<
        VersionCatalog,
        VerificationError,
    >)
        ensures
            match fetched {
                Ok(manifest) => built matches Ok(catalog) && catalog.wf() && catalog@ == merged(
                    Seq::<CatalogEntry>::empty(),
                    manifest@,
                ),
                Err(reason) => built matches Err(VerificationError::Initialization(told))
                    && told == reason,
            },
    {
        match fetched {
            Ok(manifest) => {
                let mut catalog = VersionCatalog::new();
                catalog.refresh(&manifest);
                Ok(catalog)
            },
            Err(reason) => Err(VerificationError::Initialization(reason)),
        }
    }

    pub fn len(&self) -> (count: usize)
        ensures
            count == self@.len(),
    {
        self.entries.len()
    }

    /// The index of the first entry whose version is not newer than
    /// `version`.
    fn slot_for(&self, version: &CompilerVersion) -> (slot: usize)
        requires
            self.wf(),
        ensures
            slot <= self@.len(),
            slot == newer_count(self@, *version),
            self.knows(*version) <==> (slot < self@.len() && self@[slot as int].version
                == *version),
            forall|j: int| 0 <= j < slot ==> (#[trigger] self@[j]).version.newer_than(*version),
            forall|j: int|
                slot <= j < self@.len() ==> !(#[trigger] self@[j]).version.newer_than(*version),
    {
        let ghost versions = versions_of(self@);
        let mut slot: usize = 0;
        while slot < self.entries.len() && self.entries[slot].version.follows(version)
            invariant
                slot <= self.entries.len(),
                forall|j: int| 0 <= j < slot ==> (#[trigger] self@[j]).version.newer_than(*version),
            decreases self.entries.len() - slot,
        {
            slot += 1;
        }
        proof {
            assert forall|j: int| slot <= j < self@.len() implies !(#[trigger] self@[j]).version.newer_than(
                *version,
            ) by {
                if j > slot {
                    assert(versions[j].older_than(versions[slot as int]));
                }
            }
            lemma_newer_count(self@, *version, slot as int);
            if self.knows(*version) {
                let i = choose|i: int| 0 <= i < self@.len() && (#[trigger] self@[i]).version == *version;
                if i > slot {
                    assert(versions[i].older_than(versions[slot as int]));
                }
            }
        }
        slot
    }

    /// Whether the catalog knows `version`.
    pub fn contains(&self, version: &CompilerVersion) -> (known: bool)
        requires
            self.wf(),
        ensures
            known == self.knows(*version),
    {
        let slot = self.slot_for(version);
        slot < self.entries.len() && self.entries[slot].version == *version
    }

    /// The entry for `version`, if the catalog knows it.
    pub fn lookup(&self, version: &CompilerVersion) -> (found: Option<&CatalogEntry>)
        requires
            self.wf(),
        ensures
            match found {
                Some(entry) => entry.version == *version && self@.contains(*entry),
                None => !self.knows(*version),
            },
    {
        let slot = self.slot_for(version);
        if slot < self.entries.len() && self.entries[slot].version == *version {
            assert(self@[slot as int] == self.entries[slot as int]);
            Some(&self.entries[slot])
        } else {
            None
        }
    }

    /// Offers one entry to the catalog. It is added if its label reads as
    /// its version and the version is not known yet; a known version keeps
    /// the entry it has.
    pub fn insert(&mut self, entry: CatalogEntry) -> (added: bool)
        requires
            old(self).wf(),
        ensures
            final(self).wf(),
            added == (names_its_version(entry) && !old(self).knows(entry.version)),
            final(self)@ == grown(old(self)@, entry),
            final(self)@.len() == old(self)@.len() + if added {
                1int
            } else {
                0int
            },
    {
        if !entry.is_well_labelled() {
            return false;
        }
        let slot = self.slot_for(&entry.version);
        if slot < self.entries.len() && self.entries[slot].version == entry.version {
            return false;
        }
        proof {
            lemma_grown_keeps_order(self@, entry);
            lemma_grown_keeps_labels(self@, entry);
        }
        self.entries.insert(slot, entry);
        true
    }

    /// Merges a manifest into the catalog and says how many versions were
    /// new. Nothing that was known before is changed or lost.
    pub fn refresh(&mut self, manifest: &Vec<CatalogEntry>) -> (added: usize)
        requires
            old(self).wf(),
        ensures
            final(self).wf(),
            final(self)@ == merged(old(self)@, manifest@),
            old(self).known().subset_of(final(self).known()),
            added == final(self)@.len() - old(self)@.len(),
    {
        let mut added: usize = 0;
        let mut i: usize = 0;
        while i < manifest.len()
            invariant
                i <= manifest.len(),
                self.wf(),
                self@ == merged(old(self)@, manifest@.take(i as int)),
                added <= i,
                added == self@.len() - old(self)@.len(),
            decreases manifest.len() - i,
        {
            proof {
                assert(manifest@.take(i + 1).drop_last() =~= manifest@.take(i as int));
                assert(manifest@.take(i + 1).last() == manifest@[i as int]);
            }
            let entry = manifest[i].duplicate();
            if self.insert(entry) {
                added += 1;
            }
            i += 1;
        }
        proof {
            assert(manifest@.take(manifest.len() as int) =~= manifest@);
            lemma_merge_grows(old(self)@, manifest@);
        }
        added
    }

    /// The known versions, newest first.
    pub fn list_versions_sorted(&self) -> (versions: Vec<CompilerVersion>)
        requires
            self.wf(),
        ensures
            versions@ == versions_of(self@),
            newest_first(versions@),
    {
        let mut versions: Vec<CompilerVersion> = Vec::new();
        let mut i: usize = 0;
        while i < self.entries.len()
            invariant
                i <= self.entries.len(),
                versions@ == versions_of(self@).take(i as int),
            decreases self.entries.len() - i,
        {
            versions.push(self.entries[i].version);
            assert(versions@ =~= versions_of(self@).take(i + 1));
            i += 1;
        }
        assert(versions@ =~= versions_of(self@));
        versions
    }

    /// The labels of the known versions, newest first: each text reads as
    /// the version at its place in [`VersionCatalog::list_versions_sorted`].
    pub fn all_versions_sorted_str(&self) -> (labels: Vec<String>)
        requires
            self.wf(),
        ensures
            labels@ == self@.map_values(|e: CatalogEntry| e.label),
            labels@.len() == versions_of(self@).len(),
            forall|i: int|
                0 <= i < labels@.len() ==> parsed_version(encode_utf8(#[trigger] labels@[i]@))
                    == Some(versions_of(self@)[i]),
    {
        let mut labels: Vec<String> = Vec::new();
        let mut i: usize = 0;
        while i < self.entries.len()
            invariant
                i <= self.entries.len(),
                labels@ == self@.map_values(|e: CatalogEntry| e.label).take(i as int),
            decreases self.entries.len() - i,
        {
            labels.push(self.entries[i].label.clone());
            assert(labels@ =~= self@.map_values(|e: CatalogEntry| e.label).take(i + 1));
            i += 1;
        }
        assert(labels@ =~= self@.map_values(|e: CatalogEntry| e.label));
        assert forall|i: int| 0 <= i < labels@.len() implies parsed_version(
            encode_utf8(#[trigger] labels@[i]@),
        ) == Some(versions_of(self@)[i]) by {
            assert(names_its_version(self@[i]));
        }
        labels
    }

    /// The known versions that lie in a range, newest first.
    pub fn matching(&self, constraint: &VersionConstraint) -> (versions: Vec<CompilerVersion>)
        ensures
            versions@ == versions_of(self@).filter(|v: CompilerVersion| constraint.admits(v)),
    {
        let ghost all = versions_of(self@);
        let ghost wanted = |v: CompilerVersion| constraint.admits(v);
        let mut versions: Vec<CompilerVersion> = Vec::new();
        let mut i: usize = 0;
        while i < self.entries.len()
            invariant
                i <= self.entries.len(),
                all == versions_of(self@),
                wanted == (|v: CompilerVersion| constraint.admits(v)),
                versions@ == all.take(i as int).filter(wanted),
            decreases self.entries.len() - i,
        {
            proof {
                assert(all.take(i + 1) =~= all.take(i as int).push(all[i as int]));
                all.take(i as int).lemma_filter_push(all[i as int], wanted);
            }
            if constraint.allows(&self.entries[i].version) {
                versions.push(self.entries[i].version);
            }
            i += 1;
        }
        assert(all.take(self.entries.len() as int) =~= all);
        versions
    }
}

/// The versions that a request asks to be tried.
#[derive(Debug)]
pub enum VersionDemand {
    /// One version, by its text.
    Exact(String),
    /// Every known version in a range.
    Within(VersionConstraint),
    /// Every known version in a range, for a request that names a version
    /// by its text: the version named must be known.
    NamedWithin(String, VersionConstraint),
}

/// The version that a text names is known.
pub open spec fn names_known(entries: Seq<CatalogEntry>, text: String) -> bool {
    parsed_version(encode_utf8(text@)) matches Some(version) && known_in(entries, version)
}

/// The candidates for a demand: for an exact version that version alone,
/// which must be known; for a range every known version in it, newest
/// first. A version named by its text that is not known, or whose text
/// names no version at all, is reported as not found, by its text, also
/// where a range says what to try.
pub open spec fn is_candidates(
    entries: Seq<CatalogEntry>,
    demand: VersionDemand,
    found: Result<Vec<CompilerVersion>, VerificationError>,
) -> bool {
    match demand {
        VersionDemand::Exact(text) => match parsed_version(encode_utf8(text@)) {
            Some(version) => if known_in(entries, version) {
                found matches Ok(list) && list@ == seq![version]
            } else {
                found matches Err(VerificationError::VersionNotFound(named)) && named@ == text@
            },
            None => found matches Err(VerificationError::VersionNotFound(named)) && named@
                == text@,
        },
        VersionDemand::Within(constraint) => found matches Ok(list) && list@ == versions_of(
            entries,
        ).filter(|v: CompilerVersion| constraint.admits(v)),
        VersionDemand::NamedWithin(text, constraint) => if names_known(entries, text) {
            found matches Ok(list) && list@ == versions_of(entries).filter(
                |v: CompilerVersion| constraint.admits(v),
            )
        } else {
            found matches Err(VerificationError::VersionNotFound(named)) && named@ == text@
        },
    }
}

impl VersionCatalog {
    /// The versions to try for a demand, in the order in which to try them.
    pub fn candidates(&self, demand: &VersionDemand) -> (found: Result<
        Vec<CompilerVersion>,
        VerificationError,
    >)
        requires
            self.wf(),
        ensures
            is_candidates(self@, *demand, found),
    {
        match demand {
            VersionDemand::Exact(text) => {
                match parse_version_bytes(text.as_str().as_bytes()) {
                    Some(version) => {
                        if self.contains(&version) {
                            let mut list: Vec<CompilerVersion> = Vec::new();
                            list.push(version);
                            assert(list@ =~= seq![version]);
                            Ok(list)
                        } else {
                            Err(VerificationError::VersionNotFound(text.clone()))
                        }
                    },
                    None => Err(VerificationError::VersionNotFound(text.clone())),
                }
            },
            VersionDemand::Within(constraint) => Ok(self.matching(constraint)),
            VersionDemand::NamedWithin(text, constraint) => {
                let known = match parse_version_bytes(text.as_str().as_bytes()) {
                    Some(version) => self.contains(&version),
                    None => false,
                };
                if known {
                    Ok(self.matching(constraint))
                } else {
                    Err(VerificationError::VersionNotFound(text.clone()))
                }
            },
        }
    }
}

proof fn lemma_newer_count(entries: Seq<CatalogEntry>, version: CompilerVersion, slot: int)
    requires
        0 <= slot <= entries.len(),
        forall|j: int| 0 <= j < slot ==> (#[trigger] entries[j]).version.newer_than(version),
        forall|j: int| slot <= j < entries.len() ==> !(#[trigger] entries[j]).version.newer_than(version),
    ensures
        newer_count(entries, version) == slot,
    decreases entries.len(),
{
    if entries.len() > 0 {
        let front = entries.drop_last();
        assert(forall|j: int| 0 <= j < front.len() ==> front[j] == entries[j]);
        if slot == entries.len() {
            lemma_newer_count(front, version, slot - 1);
        } else {
            lemma_newer_count(front, version, slot);
        }
    }
}

/// In a list that stands newest first, the entries newer than a version are
/// exactly those in front of the count of them.
proof fn lemma_newer_count_splits(entries: Seq<CatalogEntry>, version: CompilerVersion)
    requires
        newest_first(versions_of(entries)),
    ensures
        0 <= newer_count(entries, version) <= entries.len(),
        forall|j: int|
            0 <= j < newer_count(entries, version) ==> (#[trigger] entries[j]).version.newer_than(version),
        forall|j: int|
            newer_count(entries, version) <= j < entries.len() ==> !(#[trigger] entries[j]).version.newer_than(
                version,
            ),
    decreases entries.len(),
{
    if entries.len() > 0 {
        let front = entries.drop_last();
        let versions = versions_of(entries);
        assert(versions_of(front) =~= versions.drop_last());
        lemma_newer_count_splits(front, version);
        let n = newer_count(front, version);
        if entries.last().version.newer_than(version) {
            assert forall|j: int| 0 <= j < front.len() implies (#[trigger] entries[j]).version.newer_than(
                version,
            ) by {
                assert(versions[entries.len() - 1].older_than(versions[j]));
            }
            if n < front.len() {
                assert(front[n] == entries[n]);
            }
        } else {
            assert forall|j: int| n <= j < entries.len() implies !(#[trigger] entries[j]).version.newer_than(
                version,
            ) by {
                if j < front.len() {
                    assert(front[j] == entries[j]);
                }
            }
            assert forall|j: int| 0 <= j < n implies (#[trigger] entries[j]).version.newer_than(version) by {
                assert(front[j] == entries[j]);
            }
        }
    }
}

/// Offering an entry to a list that stands newest first leaves it standing
/// so, keeps every entry it had, and makes the entry's version known if
/// the entry's label reads as it.
pub proof fn lemma_grown_keeps_order(entries: Seq<CatalogEntry>, entry: CatalogEntry)
    requires
        newest_first(versions_of(entries)),
    ensures
        newest_first(versions_of(grown(entries, entry))),
        forall|e: CatalogEntry| entries.contains(e) ==> grown(entries, entry).contains(e),
        forall|v: CompilerVersion|
            known_in(grown(entries, entry), v) <==> (known_in(entries, v) || (v == entry.version
                && names_its_version(entry))),
{
    let after = grown(entries, entry);
    if !names_its_version(entry) || known_in(entries, entry.version) {
    } else {
        lemma_newer_count_splits(entries, entry.version);
        let slot = newer_count(entries, entry.version);
        let before = versions_of(entries);
        let versions = versions_of(after);
        assert forall|j: int| slot <= j < entries.len() implies (#[trigger] entries[j]).version.older_than(
            entry.version,
        ) by {
            assert(!entries[j].version.newer_than(entry.version));
            assert(entries[j].version != entry.version);
        }
        assert forall|i: int, j: int| 0 <= i < j < versions.len() implies versions[j].older_than(
            versions[i],
        ) by {
            let a = if i < slot {
                i
            } else {
                i - 1
            };
            let b = if j < slot {
                j
            } else {
                j - 1
            };
            if i != slot && j != slot {
                assert(before[b].older_than(before[a]));
            } else if i == slot {
                assert(entries[b].version.older_than(entry.version));
            } else {
                assert(entries[a].version.newer_than(entry.version));
            }
        }
        assert forall|e: CatalogEntry| entries.contains(e) implies after.contains(e) by {
            let i = choose|i: int| 0 <= i < entries.len() && entries[i] == e;
            if i < slot {
                assert(after[i] == e);
            } else {
                assert(after[i + 1] == e);
            }
        }
        assert forall|v: CompilerVersion| known_in(after, v) <==> (known_in(entries, v) || (v
            == entry.version && names_its_version(entry))) by {
            if known_in(after, v) {
                let i = choose|i: int| 0 <= i < after.len() && (#[trigger] after[i]).version == v;
                if i < slot {
                    assert(entries[i].version == v);
                } else if i > slot {
                    assert(entries[i - 1].version == v);
                }
            }
            if known_in(entries, v) {
                let i = choose|i: int| 0 <= i < entries.len() && (#[trigger] entries[i]).version == v;
                if i < slot {
                    assert(after[i].version == v);
                } else {
                    assert(after[i + 1].version == v);
                }
            }
            if v == entry.version {
                assert(after[slot].version == v);
            }
        }
    }
}

/// Offering an entry to a list whose labels read as their versions leaves
/// it such a list.
pub proof fn lemma_grown_keeps_labels(entries: Seq<CatalogEntry>, entry: CatalogEntry)
    requires
        newest_first(versions_of(entries)),
        well_labelled(entries),
    ensures
        well_labelled(grown(entries, entry)),
{
    let after = grown(entries, entry);
    if names_its_version(entry) && !known_in(entries, entry.version) {
        lemma_newer_count_splits(entries, entry.version);
        let slot = newer_count(entries, entry.version);
        assert forall|i: int| 0 <= i < after.len() implies names_its_version(
            #[trigger] after[i],
        ) by {
            if i < slot {
                assert(after[i] == entries[i]);
            } else if i > slot {
                assert(after[i] == entries[i - 1]);
            }
        }
    }
}

/// Some entry of a manifest is for `version` and listed under a label that
/// reads as it.
pub open spec fn offered_in(manifest: Seq<CatalogEntry>, version: CompilerVersion) -> bool {
    exists|i: int|
        0 <= i < manifest.len() && (#[trigger] manifest[i]).version == version
            && names_its_version(manifest[i])
}

/// Merging a manifest into a list that stands newest first leaves it
/// standing so and keeps every entry it had. The versions known afterwards
/// are those known before together with those that the manifest offers
/// under a label that reads as them.
pub proof fn lemma_merge_grows(entries: Seq<CatalogEntry>, manifest: Seq<CatalogEntry>)
    requires
        newest_first(versions_of(entries)),
    ensures
        newest_first(versions_of(merged(entries, manifest))),
        forall|e: CatalogEntry| entries.contains(e) ==> merged(entries, manifest).contains(e),
        forall|v: CompilerVersion|
            known_in(merged(entries, manifest), v) <==> (known_in(entries, v) || offered_in(
                manifest,
                v,
            )),
        well_labelled(entries) ==> well_labelled(merged(entries, manifest)),
    decreases manifest.len(),
{
    if manifest.len() > 0 {
        let front = manifest.drop_last();
        let middle = merged(entries, front);
        lemma_merge_grows(entries, front);
        lemma_grown_keeps_order(middle, manifest.last());
        if well_labelled(entries) {
            lemma_grown_keeps_labels(middle, manifest.last());
        }
        assert forall|v: CompilerVersion|
            known_in(merged(entries, manifest), v) <==> (known_in(entries, v) || offered_in(
                manifest,
                v,
            )) by {
            if offered_in(front, v) {
                let i = choose|i: int|
                    0 <= i < front.len() && (#[trigger] front[i]).version == v
                        && names_its_version(front[i]);
                assert(manifest[i].version == v && names_its_version(manifest[i]));
            }
            if offered_in(manifest, v) {
                let i = choose|i: int|
                    0 <= i < manifest.len() && (#[trigger] manifest[i]).version == v
                        && names_its_version(manifest[i]);
                if i < front.len() {
                    assert(front[i].version == v && names_its_version(front[i]));
                }
            }
            if v == manifest.last().version && names_its_version(manifest.last()) {
                assert(manifest[manifest.len() - 1].version == v);
            }
        }
    }
}

/// A list that stands newest first holds no version twice.
pub proof fn lemma_newest_first_distinct(versions: Seq<CompilerVersion>)
    requires
        newest_first(versions),
    ensures
        versions.no_duplicates(),
{
    assert forall|i: int, j: int| 0 <= i < versions.len() && 0 <= j < versions.len() && i
        != j implies versions[i] != versions[j] by {
        if i < j {
            assert(versions[j].older_than(versions[i]));
        } else {
            assert(versions[i].older_than(versions[j]));
        }
    }
}

/// The versions of a range, taken from a list that stands newest first,
/// stand newest first themselves, and they are the versions of the list
/// that the range admits.
pub proof fn lemma_matching_newest_first(
    versions: Seq<CompilerVersion>,
    constraint: VersionConstraint,
)
    requires
        newest_first(versions),
    ensures
        newest_first(versions.filter(|v: CompilerVersion| constraint.admits(v))),
        forall|v: CompilerVersion|
            versions.filter(|v: CompilerVersion| constraint.admits(v)).contains(v) <==> (
            versions.contains(v) && constraint.admits(v)),
    decreases versions.len(),
{
    reveal(Seq::filter);
    let wanted = |v: CompilerVersion| constraint.admits(v);
    let chosen = versions.filter(wanted);
    if versions.len() > 0 {
        let front = versions.drop_last();
        let last = versions.last();
        let before = front.filter(wanted);
        assert(forall|i: int| 0 <= i < front.len() ==> front[i] == versions[i]);
        lemma_matching_newest_first(front, constraint);
        assert forall|v: CompilerVersion| chosen.contains(v) <==> (versions.contains(v)
            && constraint.admits(v)) by {
            if chosen.contains(v) {
                let i = choose|i: int| 0 <= i < chosen.len() && chosen[i] == v;
                if i < before.len() {
                    assert(before.contains(v));
                    let j = choose|j: int| 0 <= j < front.len() && front[j] == v;
                    assert(versions[j] == v);
                } else {
                    assert(versions[versions.len() - 1] == v);
                }
            }
            if versions.contains(v) && constraint.admits(v) {
                let j = choose|j: int| 0 <= j < versions.len() && versions[j] == v;
                if j < front.len() {
                    assert(front.contains(v));
                    let i = choose|i: int| 0 <= i < before.len() && before[i] == v;
                    assert(chosen[i] == v);
                } else {
                    assert(chosen[chosen.len() - 1] == v);
                }
            }
        }
        assert forall|i: int, j: int| 0 <= i < j < chosen.len() implies chosen[j].older_than(
            chosen[i],
        ) by {
            if j < before.len() {
                assert(before[j].older_than(before[i]));
            } else {
                assert(before.contains(before[i]));
                let k = choose|k: int| 0 <= k < front.len() && front[k] == before[i];
                assert(versions[versions.len() - 1].older_than(versions[k]));
            }
        }
    }
}

/// After two refreshes in a row, every version known after the first is
/// known after the second.
pub proof fn lemma_successive_refreshes_grow(
    entries: Seq<CatalogEntry>,
    first: Seq<CatalogEntry>,
    second: Seq<CatalogEntry>,
    version: CompilerVersion,
)
    requires
        newest_first(versions_of(entries)),
        known_in(merged(entries, first), version),
    ensures
        known_in(merged(merged(entries, first), second), version),
{
    lemma_merge_grows(entries, first);
    lemma_merge_grows(merged(entries, first), second);
}

} // verus!
