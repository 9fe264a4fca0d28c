use crate::model::{first_where, lemma_first_where, lemma_first_where_found, text_of, views};
use crate::printing::copy_text;
use crate::text::same_text;
use vstd::prelude::*;
use vstd::string::*;

verus! {

/// The client on whose behalf the replica is kept.
pub const LOCAL_SYNC_CLIENT_ID: &'static str = "local-desktop";

/// The source of the catalog's card data.
pub const SCRYFALL_SOURCE_ID: &'static str = "scryfall_default_cards";

/// The source of market prices.
pub const TCGTRACKING_SOURCE_ID: &'static str = "tcgtracking_tcgplayer";

/// The source of buylist and sell prices.
pub const CK_SOURCE_ID: &'static str = "ck_buylist";

/// Where a dataset of the replica stands: its version pointer, the hash of
/// the rows under that version, and when the two were written.
#[derive(Debug)]
pub struct SyncState {
    pub dataset: String,
    pub current_version: Option<String>,
    pub state_hash: Option<String>,
    pub synced_at: String,
}

/// The mathematical value of a [`SyncState`].
pub struct SyncStateFact {
    pub dataset: Seq<char>,
    pub current_version: Option<Seq<char>>,
    pub state_hash: Option<Seq<char>>,
    pub synced_at: Seq<char>,
}

impl View for SyncState {
    type V = SyncStateFact;

    open spec fn view(&self) -> SyncStateFact {
        SyncStateFact {
            dataset: self.dataset@,
            current_version: text_of(self.current_version),
            state_hash: text_of(self.state_hash),
            synced_at: self.synced_at@,
        }
    }
}

/// One entry of the version history: how many records a source's dataset
/// held under a version, and the hash of its rows.
#[derive(Debug)]
pub struct VersionRecord {
    pub id: String,
    pub source_id: String,
    pub dataset: String,
    pub version: String,
    pub state_hash: Option<String>,
    pub record_count: u64,
    pub created_at: String,
}

/// The mathematical value of a [`VersionRecord`].
pub struct VersionFact {
    pub id: Seq<char>,
    pub source_id: Seq<char>,
    pub dataset: Seq<char>,
    pub version: Seq<char>,
    pub state_hash: Option<Seq<char>>,
    pub record_count: u64,
    pub created_at: Seq<char>,
}

impl View for VersionRecord {
    type V = VersionFact;

    open spec fn view(&self) -> VersionFact {
        VersionFact {
            id: self.id@,
            source_id: self.source_id@,
            dataset: self.dataset@,
            version: self.version@,
            state_hash: text_of(self.state_hash),
            record_count: self.record_count,
            created_at: self.created_at@,
        }
    }
}

/// One entry of the audit log: a snapshot or patch that was applied.
#[derive(Debug)]
pub struct AuditRecord {
    pub patch_id: String,
    pub history_id: String,
    pub dataset: String,
    pub from_version: Option<String>,
    pub to_version: String,
    pub strategy: String,
    pub patch_hash: Option<String>,
    pub added_count: u64,
    pub updated_count: u64,
    pub removed_count: u64,
    pub total_records: u64,
    pub applied_at: String,
}

/// The mathematical value of an [`AuditRecord`].
pub struct AuditFact {
    pub patch_id: Seq<char>,
    pub history_id: Seq<char>,
    pub dataset: Seq<char>,
    pub from_version: Option<Seq<char>>,
    pub to_version: Seq<char>,
    pub strategy: Seq<char>,
    pub patch_hash: Option<Seq<char>>,
    pub added_count: u64,
    pub updated_count: u64,
    pub removed_count: u64,
    pub total_records: u64,
    pub applied_at: Seq<char>,
}

impl View for AuditRecord {
    type V = AuditFact;

    open spec fn view(&self) -> AuditFact {
        AuditFact {
            patch_id: self.patch_id@,
            history_id: self.history_id@,
            dataset: self.dataset@,
            from_version: text_of(self.from_version),
            to_version: self.to_version@,
            strategy: self.strategy@,
            patch_hash: text_of(self.patch_hash),
            added_count: self.added_count,
            updated_count: self.updated_count,
            removed_count: self.removed_count,
            total_records: self.total_records,
            applied_at: self.applied_at@,
        }
    }
}

/// The bookkeeping of the replica: the sync state of each dataset, the
/// version history and the audit log.
#[derive(Debug)]
pub struct Ledger {
    pub states: Vec<SyncState>,
    pub versions: Vec<VersionRecord>,
    pub audits: Vec<AuditRecord>,
}

/// The mathematical value of a [`Ledger`].
pub struct LedgerFacts {
    pub states: Seq<SyncStateFact>,
    pub versions: Seq<VersionFact>,
    pub audits: Seq<AuditFact>,
}

impl View for Ledger {
    type V = LedgerFacts;

    open spec fn view(&self) -> LedgerFacts {
        LedgerFacts {
            states: views(self.states@),
            versions: views(self.versions@),
            audits: views(self.audits@),
        }
    }
}

/// Whether bytes have the shape of an identifier as it is drawn for an
/// entry of the log: 36 bytes, lower-case hexadecimal digits in groups of
/// eight, four, four, four and twelve with a hyphen between them.
pub open spec fn is_drawn_id(id: Seq<u8>) -> bool {
    &&& id.len() == 36
    &&& forall|i: int|
        0 <= i < 36 ==> {
            let byte = #[trigger] id[i];
            if i == 8 || i == 13 || i == 18 || i == 23 {
                byte == 45
            } else {
                48 <= byte <= 57 || 97 <= byte <= 102
            }
        }
}

/// The test that picks the sync state of a dataset.
pub open spec fn of_dataset(dataset: Seq<char>) -> spec_fn(SyncStateFact) -> bool {
    |state: SyncStateFact| state.dataset == dataset
}

/// The test that picks the version record with an identifier.
pub open spec fn with_id(id: Seq<char>) -> spec_fn(VersionFact) -> bool {
    |record: VersionFact| record.id == id
}

/// The sync state of a dataset.
pub open spec fn state_of(states: Seq<SyncStateFact>, dataset: Seq<char>) -> Option<SyncStateFact> {
    match first_where(states, of_dataset(dataset)) {
        Some(at) => Some(states[at]),
        None => None,
    }
}

/// The version that a dataset's pointer names.
pub open spec fn current_version_of(states: Seq<SyncStateFact>, dataset: Seq<char>) -> Option<
    Seq<char>,
> {
    match state_of(states, dataset) {
        Some(state) => state.current_version,
        None => None,
    }
}

/// The sync states after one was written: in the place of the dataset's
/// earlier state, or behind the others.
pub open spec fn with_state(states: Seq<SyncStateFact>, state: SyncStateFact) -> Seq<
    SyncStateFact,
> {
    match first_where(states, of_dataset(state.dataset)) {
        Some(at) => states.update(at, state),
        None => states.push(state),
    }
}

/// The version history after a record was written. A record with the same
/// identifier keeps its place and its source, dataset and version, and takes
/// the new hash, count and time; any other record is put behind the others.
pub open spec fn with_version(versions: Seq<VersionFact>, record: VersionFact) -> Seq<VersionFact> {
    match first_where(versions, with_id(record.id)) {
        Some(at) => versions.update(
            at,
            VersionFact {
                state_hash: record.state_hash,
                record_count: record.record_count,
                created_at: record.created_at,
                ..versions[at]
            },
        ),
        None => versions.push(record),
    }
}

/// A sync state written for a dataset is the state found for it.
pub proof fn law_written_state_reads_back(states: Seq<SyncStateFact>, state: SyncStateFact)
    ensures
        state_of(with_state(states, state), state.dataset) == Some(state),
{
    let test = of_dataset(state.dataset);
    lemma_first_where(states, test);
    let out = with_state(states, state);
    match first_where(states, test) {
        Some(at) => {
            assert(test(out[at]));
            assert forall|j: int| 0 <= j < at implies !test(#[trigger] out[j]) by {
                assert(out[j] == states[j]);
            }
            lemma_first_where_found(out, test, at);
        },
        None => {
            let at = states.len() as int;
            assert(test(out[at]));
            assert forall|j: int| 0 <= j < at implies !test(#[trigger] out[j]) by {
                assert(out[j] == states[j]);
            }
            lemma_first_where_found(out, test, at);
        },
    }
}

/// The version record with an identifier.
pub open spec fn version_of(versions: Seq<VersionFact>, id: Seq<char>) -> Option<VersionFact> {
    match first_where(versions, with_id(id)) {
        Some(at) => Some(versions[at]),
        None => None,
    }
}

/// A version record that was written is found under its identifier, with
/// the hash, the count and the time that were written.
pub proof fn law_written_version_reads_back(versions: Seq<VersionFact>, record: VersionFact)
    ensures
        version_of(with_version(versions, record), record.id) is Some,
        version_of(with_version(versions, record), record.id)->0.id == record.id,
        version_of(with_version(versions, record), record.id)->0.state_hash == record.state_hash,
        version_of(with_version(versions, record), record.id)->0.record_count
            == record.record_count,
        version_of(with_version(versions, record), record.id)->0.created_at == record.created_at,
{
    let test = with_id(record.id);
    lemma_first_where(versions, test);
    let out = with_version(versions, record);
    match first_where(versions, test) {
        Some(at) => {
            assert(test(out[at]));
            assert forall|j: int| 0 <= j < at implies !test(#[trigger] out[j]) by {
                assert(out[j] == versions[j]);
            }
            lemma_first_where_found(out, test, at);
        },
        None => {
            let at = versions.len() as int;
            assert(test(out[at]));
            assert forall|j: int| 0 <= j < at implies !test(#[trigger] out[j]) by {
                assert(out[j] == versions[j]);
            }
            lemma_first_where_found(out, test, at);
        },
    }
}

impl SyncState {
    /// A copy of the state.
    pub fn duplicate(&self) -> (copy: SyncState)
        ensures
            copy@ == self@,
    {
        SyncState {
            dataset: self.dataset.clone(),
            current_version: copy_text(&self.current_version),
            state_hash: copy_text(&self.state_hash),
            synced_at: self.synced_at.clone(),
        }
    }
}

impl VersionRecord {
    /// A copy of the record.
    pub fn duplicate(&self) -> (copy: VersionRecord)
        ensures
            copy@ == self@,
    {
        VersionRecord {
            id: self.id.clone(),
            source_id: self.source_id.clone(),
            dataset: self.dataset.clone(),
            version: self.version.clone(),
            state_hash: copy_text(&self.state_hash),
            record_count: self.record_count,
            created_at: self.created_at.clone(),
        }
    }
}

impl AuditRecord {
    /// A copy of the record.
    pub fn duplicate(&self) -> (copy: AuditRecord)
        ensures
            copy@ == self@,
    {
        AuditRecord {
            patch_id: self.patch_id.clone(),
            history_id: self.history_id.clone(),
            dataset: self.dataset.clone(),
            from_version: copy_text(&self.from_version),
            to_version: self.to_version.clone(),
            strategy: self.strategy.clone(),
            patch_hash: copy_text(&self.patch_hash),
            added_count: self.added_count,
            updated_count: self.updated_count,
            removed_count: self.removed_count,
            total_records: self.total_records,
            applied_at: self.applied_at.clone(),
        }
    }
}

/// The ledger without what it holds of a dataset: its sync state, its
/// version records and its audit entries.
pub open spec fn without_dataset(ledger: LedgerFacts, dataset: Seq<char>) -> LedgerFacts {
    LedgerFacts {
        states: ledger.states.filter(|state: SyncStateFact| state.dataset != dataset),
        versions: ledger.versions.filter(|record: VersionFact| record.dataset != dataset),
        audits: ledger.audits.filter(|record: AuditFact| record.dataset != dataset),
    }
}

impl Ledger {
    /// Forgets what the ledger holds of a dataset.
    pub fn forget_dataset(&mut self, dataset: &str)
        ensures
            final(self)@ == without_dataset(old(self)@, dataset@),
    {
        let ghost before = self@;
        let ghost keep_state = |state: SyncStateFact| state.dataset != dataset@;
        let ghost keep_version = |record: VersionFact| record.dataset != dataset@;
        let ghost keep_audit = |record: AuditFact| record.dataset != dataset@;
        let mut states: Vec<SyncState> = Vec::new();
        let mut i: usize = 0;
        proof {
            reveal(Seq::filter);
            assert(before.states.take(0) =~= Seq::<SyncStateFact>::empty());
            assert(views(states@) =~= before.states.take(0).filter(keep_state));
        }
        while i < self.states.len()
            invariant
                i <= self.states@.len(),
                before == self@,
                keep_state == (|state: SyncStateFact| state.dataset != dataset@),
                views(states@) == before.states.take(i as int).filter(keep_state),
            decreases self.states@.len() - i,
        {
            let ghost kept = views(states@);
            proof {
                reveal(Seq::filter);
                assert(before.states.take(i + 1).drop_last() =~= before.states.take(i as int));
                assert(before.states.take(i + 1).last() == self.states@[i as int]@);
            }
            if !same_text(self.states[i].dataset.as_str(), dataset) {
                states.push(self.states[i].duplicate());
                assert(views(states@) =~= kept.push(self.states@[i as int]@));
            }
            i = i + 1;
        }
        assert(before.states.take(i as int) =~= before.states);
        let mut versions: Vec<VersionRecord> = Vec::new();
        let mut j: usize = 0;
        proof {
            reveal(Seq::filter);
            assert(before.versions.take(0) =~= Seq::<VersionFact>::empty());
            assert(views(versions@) =~= before.versions.take(0).filter(keep_version));
        }
        while j < self.versions.len()
            invariant
                j <= self.versions@.len(),
                before == self@,
                keep_version == (|record: VersionFact| record.dataset != dataset@),
                views(versions@) == before.versions.take(j as int).filter(keep_version),
            decreases self.versions@.len() - j,
        {
            let ghost kept = views(versions@);
            proof {
                reveal(Seq::filter);
                assert(before.versions.take(j + 1).drop_last() =~= before.versions.take(j as int));
                assert(before.versions.take(j + 1).last() == self.versions@[j as int]@);
            }
            if !same_text(self.versions[j].dataset.as_str(), dataset) {
                versions.push(self.versions[j].duplicate());
                assert(views(versions@) =~= kept.push(self.versions@[j as int]@));
            }
            j = j + 1;
        }
        assert(before.versions.take(j as int) =~= before.versions);
        let mut audits: Vec<AuditRecord> = Vec::new();
        let mut k: usize = 0;
        proof {
            reveal(Seq::filter);
            assert(before.audits.take(0) =~= Seq::<AuditFact>::empty());
            assert(views(audits@) =~= before.audits.take(0).filter(keep_audit));
        }
        while k < self.audits.len()
            invariant
                k <= self.audits@.len(),
                before == self@,
                keep_audit == (|record: AuditFact| record.dataset != dataset@),
                views(audits@) == before.audits.take(k as int).filter(keep_audit),
            decreases self.audits@.len() - k,
        {
            let ghost kept = views(audits@);
            proof {
                reveal(Seq::filter);
                assert(before.audits.take(k + 1).drop_last() =~= before.audits.take(k as int));
                assert(before.audits.take(k + 1).last() == self.audits@[k as int]@);
            }
            if !same_text(self.audits[k].dataset.as_str(), dataset) {
                audits.push(self.audits[k].duplicate());
                assert(views(audits@) =~= kept.push(self.audits@[k as int]@));
            }
            k = k + 1;
        }
        assert(before.audits.take(k as int) =~= before.audits);
        self.states = states;
        self.versions = versions;
        self.audits = audits;
    }

    /// A ledger without entries.
    pub fn new() -> (ledger: Ledger)
        ensures
            ledger@.states.len() == 0,
            ledger@.versions.len() == 0,
            ledger@.audits.len() == 0,
    {
        Ledger { states: Vec::new(), versions: Vec::new(), audits: Vec::new() }
    }

    /// Finds the place of a dataset's sync state.
    pub fn find_state(&self, dataset: &str) -> (found: Option<usize>)
        ensures
            match found {
                Some(at) => first_where(self@.states, of_dataset(dataset@)) == Some(at as int)
                    && at < self.states@.len(),
                None => first_where(self@.states, of_dataset(dataset@)) is None,
            },
    {
        let mut at: usize = 0;
        while at < self.states.len()
            invariant
                at <= self.states@.len(),
                forall|j: int| 0 <= j < at ==> !of_dataset(dataset@)(#[trigger] self@.states[j]),
            decreases self.states@.len() - at,
        {
            if same_text(self.states[at].dataset.as_str(), dataset) {
                proof {
                    assert(of_dataset(dataset@)(self@.states[at as int]));
                    lemma_first_where_found(self@.states, of_dataset(dataset@), at as int);
                }
                return Some(at);
            }
            at = at + 1;
        }
        proof {
            lemma_first_where_found(self@.states, of_dataset(dataset@), at as int);
        }
        None
    }

    /// Finds the place of the version record with an identifier.
    pub fn find_version(&self, id: &str) -> (found: Option<usize>)
        ensures
            match found {
                Some(at) => first_where(self@.versions, with_id(id@)) == Some(at as int) && at
                    < self.versions@.len(),
                None => first_where(self@.versions, with_id(id@)) is None,
            },
    {
        let mut at: usize = 0;
        while at < self.versions.len()
            invariant
                at <= self.versions@.len(),
                forall|j: int| 0 <= j < at ==> !with_id(id@)(#[trigger] self@.versions[j]),
            decreases self.versions@.len() - at,
        {
            if same_text(self.versions[at].id.as_str(), id) {
                proof {
                    assert(with_id(id@)(self@.versions[at as int]));
                    lemma_first_where_found(self@.versions, with_id(id@), at as int);
                }
                return Some(at);
            }
            at = at + 1;
        }
        proof {
            lemma_first_where_found(self@.versions, with_id(id@), at as int);
        }
        None
    }

    /// Writes the sync state of a dataset.
    pub fn put_state(&mut self, state: SyncState)
        ensures
            final(self)@ == (LedgerFacts {
                states: with_state(old(self)@.states, state@),
                ..old(self)@
            }),
    {
        let found = self.find_state(state.dataset.as_str());
        let ghost before = self@;
        match found {
            Some(at) => {
                self.states.set(at, state);
                assert(views(self.states@) =~= with_state(before.states, state@));
            },
            None => {
                self.states.push(state);
                assert(views(self.states@) =~= with_state(before.states, state@));
            },
        }
    }

    /// Writes a record of the version history.
    pub fn put_version(&mut self, record: VersionRecord)
        ensures
            final(self)@ == (LedgerFacts {
                versions: with_version(old(self)@.versions, record@),
                ..old(self)@
            }),
    {
        let found = self.find_version(record.id.as_str());
        let ghost before = self@;
        match found {
            Some(at) => {
                let merged = VersionRecord {
                    id: self.versions[at].id.clone(),
                    source_id: self.versions[at].source_id.clone(),
                    dataset: self.versions[at].dataset.clone(),
                    version: self.versions[at].version.clone(),
                    state_hash: record.state_hash,
                    record_count: record.record_count,
                    created_at: record.created_at,
                };
                self.versions.set(at, merged);
                assert(views(self.versions@) =~= with_version(before.versions, record@));
            },
            None => {
                self.versions.push(record);
                assert(views(self.versions@) =~= with_version(before.versions, record@));
            },
        }
    }

    /// Appends an entry to the audit log.
    pub fn append_audit(&mut self, record: AuditRecord)
        ensures
            final(self)@ == (LedgerFacts {
                audits: old(self)@.audits.push(record@),
                ..old(self)@
            }),
    {
        let ghost before = self@;
        self.audits.push(record);
        assert(views(self.audits@) =~= before.audits.push(record@));
    }

    /// Reads a dataset's version pointer, state hash and sync time; all
    /// three are absent where the dataset was never synced.
    pub fn read_catalog_sync_row(&self, dataset: &str) -> (row: (
        Option<String>,
        Option<String>,
        Option<String>,
    ))
        ensures
            match state_of(self@.states, dataset@) {
                Some(state) => {
                    &&& text_of(row.0) == state.current_version
                    &&& text_of(row.1) == state.state_hash
                    &&& text_of(row.2) == Some(state.synced_at)
                },
                None => row.0 is None && row.1 is None && row.2 is None,
            },
    {
        match self.find_state(dataset) {
            Some(at) => {
                let state = &self.states[at];
                assert(self@.states[at as int] == state@);
                (
                    copy_text(&state.current_version),
                    copy_text(&state.state_hash),
                    Some(state.synced_at.clone()),
                )
            },
            None => (None, None, None),
        }
    }
}

} // verus!
