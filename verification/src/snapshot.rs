use crate::catalog::{
    records_upserted, sync_state_written, upsert_catalog_record, write_catalog_sync_state,
    Catalog, CatalogFacts,
};
use crate::clock::{new_record_id, now_iso};
use crate::error::{fault_error, CatalogError, ErrorFact};
use crate::hash::{hash_state, state_hash};
use crate::count::{count_catalog_records_for_version, priced_count};
use crate::ledger::{
    current_version_of, is_drawn_id, AuditFact, AuditRecord, Ledger, LedgerFacts,
};
use crate::model::{lemma_first_where, text_of, views};
use crate::printing::copy_text;
use crate::record::{
    find_fault, first_fault, is_faulty, normal_records, normalize_records, record_fault,
    CatalogRecord, NormalFact, NormalRecord, RecordFact,
};
use crate::store::without_version;
use crate::text::{normalize, normalized, same_text, trim, trimmed};
use crate::version::{
    current_captured_ymd, dataset_decided, is_clock_day, is_clock_time,
    normalize_catalog_dataset, CATALOG_DATASET_DEFAULT,
};
use vstd::utf8::*;
use vstd::prelude::*;
use vstd::string::*;

verus! {

/// A request to replace the rows of a version by a full set of records.
#[derive(Debug)]
pub struct SnapshotInput {
    pub dataset: Option<String>,
    pub version: String,
    pub records: Vec<CatalogRecord>,
    pub snapshot_hash: Option<String>,
    pub strategy: Option<String>,
}

/// The mathematical value of a [`SnapshotInput`].
pub struct SnapshotFact {
    pub dataset: Option<Seq<char>>,
    pub version: Seq<char>,
    pub records: Seq<RecordFact>,
    pub snapshot_hash: Option<Seq<char>>,
    pub strategy: Option<Seq<char>>,
}

impl View for SnapshotInput {
    type V = SnapshotFact;

    open spec fn view(&self) -> SnapshotFact {
        SnapshotFact {
            dataset: text_of(self.dataset),
            version: self.version@,
            records: views(self.records@),
            snapshot_hash: text_of(self.snapshot_hash),
            strategy: text_of(self.strategy),
        }
    }
}

/// A snapshot request in normal form: the dataset accepted, the version
/// trimmed and not empty, the records in normal form. `expected_hash` is the
/// hash to hold the rows to, if any; `patch_hash` is what came with the
/// request, for the audit log.
#[derive(Debug)]
pub struct NormalSnapshot {
    pub dataset: String,
    pub to_version: String,
    pub records: Vec<NormalRecord>,
    pub patch_hash: Option<String>,
    pub expected_hash: Option<String>,
    pub strategy: String,
}

/// The mathematical value of a [`NormalSnapshot`].
pub struct NormalSnapshotFact {
    pub dataset: Seq<char>,
    pub to_version: Seq<char>,
    pub records: Seq<NormalFact>,
    pub patch_hash: Option<Seq<char>>,
    pub expected_hash: Option<Seq<char>>,
    pub strategy: Seq<char>,
}

impl View for NormalSnapshot {
    type V = NormalSnapshotFact;

    open spec fn view(&self) -> NormalSnapshotFact {
        NormalSnapshotFact {
            dataset: self.dataset@,
            to_version: self.to_version@,
            records: views(self.records@),
            patch_hash: text_of(self.patch_hash),
            expected_hash: text_of(self.expected_hash),
            strategy: self.strategy@,
        }
    }
}

/// What an applied snapshot or patch reports.
#[derive(Debug)]
pub struct ApplyResult {
    pub dataset: String,
    pub from_version: Option<String>,
    pub to_version: String,
    pub strategy: String,
    pub patch_hash: Option<String>,
    pub state_hash: String,
    pub total_records: u64,
    pub added_count: u64,
    pub updated_count: u64,
    pub removed_count: u64,
}

/// The mathematical value of an [`ApplyResult`].
pub struct ApplyFact {
    pub dataset: Seq<char>,
    pub from_version: Option<Seq<char>>,
    pub to_version: Seq<char>,
    pub strategy: Seq<char>,
    pub patch_hash: Option<Seq<char>>,
    pub state_hash: Seq<char>,
    pub total_records: u64,
    pub added_count: u64,
    pub updated_count: u64,
    pub removed_count: u64,
}

impl View for ApplyResult {
    type V = ApplyFact;

    open spec fn view(&self) -> ApplyFact {
        ApplyFact {
            dataset: self.dataset@,
            from_version: text_of(self.from_version),
            to_version: self.to_version@,
            strategy: self.strategy@,
            patch_hash: text_of(self.patch_hash),
            state_hash: self.state_hash@,
            total_records: self.total_records,
            added_count: self.added_count,
            updated_count: self.updated_count,
            removed_count: self.removed_count,
        }
    }
}

/// The mathematical value of what an operation returns.
pub open spec fn outcome_of(out: Result<ApplyResult, CatalogError>) -> Result<ApplyFact, ErrorFact> {
    match out {
        Ok(result) => Ok(result@),
        Err(error) => Err(error@),
    }
}

/// The normal form of a dataset name, or the error that refuses it. A
/// missing or a blank name is the default dataset.
pub open spec fn normal_dataset(dataset: Option<Seq<char>>) -> Result<Seq<char>, ErrorFact> {
    match dataset_decided(dataset) {
        Ok(name) => Ok(name),
        Err(message) => Err(ErrorFact::UnsupportedDataset { message }),
    }
}

/// The hash that a request asks to enforce: the one that came with it,
/// unless its trimmed form is empty.
pub open spec fn enforced_hash(given: Option<Seq<char>>) -> Option<Seq<char>> {
    match given {
        Some(hash) => if trimmed(hash).len() == 0 {
            None
        } else {
            Some(hash)
        },
        None => None,
    }
}

/// The normal form of a strategy label; `fallback` stands in for a missing
/// one as it is.
pub open spec fn normal_strategy(given: Option<Seq<char>>, fallback: Seq<char>) -> Seq<char> {
    match given {
        Some(label) => normalized(label),
        None => fallback,
    }
}

/// The normal form of a snapshot request, or the error that refuses it: an
/// unsupported dataset first, then a missing version.
pub open spec fn normal_snapshot(input: SnapshotFact, now: Seq<char>) -> Result<
    NormalSnapshotFact,
    ErrorFact,
> {
    match normal_dataset(input.dataset) {
        Err(error) => Err(error),
        Ok(dataset) => if trimmed(input.version).len() == 0 {
            Err(ErrorFact::MissingSnapshotVersion)
        } else {
            Ok(
                NormalSnapshotFact {
                    dataset,
                    to_version: trimmed(input.version),
                    records: normal_records(input.records, now),
                    patch_hash: input.snapshot_hash,
                    expected_hash: enforced_hash(input.snapshot_hash),
                    strategy: normal_strategy(input.strategy, "full"@),
                },
            )
        },
    }
}

/// Brings a dataset name into normal form.
pub fn normalize_dataset(dataset: &Option<String>) -> (out: Result<String, CatalogError>)
    ensures
        dataset is None ==> out is Ok && out->Ok_0@ == CATALOG_DATASET_DEFAULT@,
        match normal_dataset(text_of(*dataset)) {
            Ok(name) => out is Ok && out->Ok_0@ == name,
            Err(error) => out is Err && out->Err_0@ == error,
        },
{
    let given = match dataset {
        Some(name) => Some(name.as_str()),
        None => None,
    };
    match normalize_catalog_dataset(given) {
        Ok(name) => Ok(name),
        Err(message) => Err(CatalogError::UnsupportedDataset { message }),
    }
}

/// Picks the hash to enforce.
pub fn enforce_hash(given: &Option<String>) -> (out: Option<String>)
    ensures
        text_of(out) == enforced_hash(text_of(*given)),
{
    match given {
        Some(hash) => {
            if trim(hash.as_str()).is_empty() {
                None
            } else {
                Some(hash.clone())
            }
        },
        None => None,
    }
}

/// Brings a strategy label into normal form; a missing one is the
/// fallback.
pub fn normalize_strategy(given: &Option<String>, fallback: &str) -> (out: String)
    ensures
        given is None ==> out@ == fallback@,
        out@ == normal_strategy(text_of(*given), fallback@),
{
    match given {
        Some(label) => normalize(label.as_str()),
        None => fallback.to_owned(),
    }
}

/// Brings a snapshot request into normal form.
pub fn normalize_snapshot(input: &SnapshotInput, now: &str) -> (out: Result<
    NormalSnapshot,
    CatalogError,
>)
    ensures
        match normal_snapshot(input@, now@) {
            Ok(snapshot) => out is Ok && out->Ok_0@ == snapshot,
            Err(error) => out is Err && out->Err_0@ == error,
        },
{
    let dataset = match normalize_dataset(&input.dataset) {
        Ok(name) => name,
        Err(error) => {
            return Err(error);
        },
    };
    let to_version = trim(input.version.as_str());
    if to_version.is_empty() {
        return Err(CatalogError::MissingSnapshotVersion);
    }
    Ok(
        NormalSnapshot {
            dataset,
            to_version: to_version.to_owned(),
            records: normalize_records(&input.records, now),
            patch_hash: copy_text(&input.snapshot_hash),
            expected_hash: enforce_hash(&input.snapshot_hash),
            strategy: normalize_strategy(&input.strategy, "full"),
        },
    )
}

/// The rows and printings after a snapshot's records replaced the rows of
/// its version.
pub open spec fn snapshot_staged(
    catalog: CatalogFacts,
    snapshot: NormalSnapshotFact,
    today: i64,
) -> CatalogFacts {
    records_upserted(
        CatalogFacts { prices: without_version(catalog.prices, snapshot.to_version), ..catalog },
        snapshot.records,
        snapshot.to_version,
        today,
    )
}

/// The catalog after the bookkeeping of an applied snapshot or patch: the
/// sync state and version record written, and an entry added to the audit
/// log.
pub open spec fn committed(
    staged: CatalogFacts,
    report: ApplyFact,
    now: Seq<char>,
    patch_id: Seq<char>,
    history_id: Seq<char>,
) -> CatalogFacts {
    let ledger = sync_state_written(
        staged.ledger,
        staged.prices,
        report.dataset,
        Some(report.to_version),
        Some(report.state_hash),
        now,
    );
    CatalogFacts {
        ledger: LedgerFacts {
            audits: ledger.audits.push(
                AuditFact {
                    patch_id,
                    history_id,
                    dataset: report.dataset,
                    from_version: report.from_version,
                    to_version: report.to_version,
                    strategy: report.strategy,
                    patch_hash: report.patch_hash,
                    added_count: report.added_count,
                    updated_count: report.updated_count,
                    removed_count: report.removed_count,
                    total_records: report.total_records,
                    applied_at: now,
                },
            ),
            ..ledger
        },
        ..staged
    }
}

/// The number of records that a staged catalog holds once its pointer names
/// `version`.
pub open spec fn staged_total(staged: CatalogFacts, dataset: Seq<char>, version: Seq<char>) -> nat {
    if trimmed(version).len() == 0 {
        0
    } else {
        priced_count(staged.prices, version)
    }
}

/// What a snapshot in normal form reports when it is applied.
pub open spec fn snapshot_report(
    catalog: CatalogFacts,
    snapshot: NormalSnapshotFact,
    today: i64,
) -> ApplyFact {
    let staged = snapshot_staged(catalog, snapshot, today);
    ApplyFact {
        dataset: snapshot.dataset,
        from_version: current_version_of(catalog.ledger.states, snapshot.dataset),
        to_version: snapshot.to_version,
        strategy: snapshot.strategy,
        patch_hash: snapshot.patch_hash,
        state_hash: state_hash(
            snapshot.dataset,
            Some(snapshot.to_version),
            staged.prices,
            staged.printings,
        ),
        total_records: staged_total(staged, snapshot.dataset, snapshot.to_version) as u64,
        added_count: snapshot.records.len() as u64,
        updated_count: 0,
        removed_count: 0,
    }
}

/// The error that refuses a snapshot in normal form, if any: the first
/// faulty record, else a hash that the rows do not meet.
pub open spec fn snapshot_refusal(
    catalog: CatalogFacts,
    snapshot: NormalSnapshotFact,
    today: i64,
) -> Option<ErrorFact> {
    match first_fault(snapshot.records) {
        Some(at) => Some(
            fault_error(snapshot.records[at], record_fault(snapshot.records[at])->0),
        ),
        None => {
            let computed = snapshot_report(catalog, snapshot, today).state_hash;
            if snapshot.expected_hash is Some && snapshot.expected_hash->0 != computed {
                Some(ErrorFact::HashMismatch { expected: snapshot.expected_hash->0, computed })
            } else {
                None
            }
        },
    }
}

/// The catalog after a snapshot in normal form: untouched where the
/// snapshot is refused, else with the rows of its version replaced and the
/// bookkeeping done.
pub open spec fn snapshot_applied(
    catalog: CatalogFacts,
    snapshot: NormalSnapshotFact,
    now: Seq<char>,
    today: i64,
    patch_id: Seq<char>,
    history_id: Seq<char>,
) -> CatalogFacts {
    if snapshot_refusal(catalog, snapshot, today) is Some {
        catalog
    } else {
        committed(
            snapshot_staged(catalog, snapshot, today),
            snapshot_report(catalog, snapshot, today),
            now,
            patch_id,
            history_id,
        )
    }
}

/// Writes a batch of records that is known to be free of faults.
pub(crate) fn upsert_records(
    catalog: &mut Catalog,
    records: &Vec<NormalRecord>,
    sync_version: &str,
    today: i64,
)
    requires
        first_fault(views(records@)) is None,
    ensures
        final(catalog)@ == records_upserted(
            old(catalog)@,
            views(records@),
            sync_version@,
            today,
        ),
{
    let ghost all = views(records@);
    let mut i: usize = 0;
    proof {
        lemma_first_where(all, is_faulty());
        assert(all.take(0) =~= Seq::<NormalFact>::empty());
    }
    while i < records.len()
        invariant
            i <= records@.len(),
            all == views(records@),
            forall|j: int| 0 <= j < all.len() ==> !is_faulty()(#[trigger] all[j]),
            catalog@ == records_upserted(old(catalog)@, all.take(i as int), sync_version@, today),
        decreases records@.len() - i,
    {
        proof {
            assert(all.take(i + 1).drop_last() =~= all.take(i as int));
            assert(all.take(i + 1).last() == records@[i as int]@);
            assert(!is_faulty()(all[i as int]));
        }
        let _ = upsert_catalog_record(catalog, &records[i], sync_version, today);
        i = i + 1;
    }
    assert(all.take(i as int) =~= all);
}

/// Does the bookkeeping of an applied snapshot or patch: writes the sync
/// state and version record, and adds an entry to the audit log.
pub(crate) fn commit(
    catalog: &mut Catalog,
    report: &ApplyResult,
    now: &str,
    patch_id: String,
    history_id: String,
)
    ensures
        final(catalog)@ == committed(old(catalog)@, report@, now@, patch_id@, history_id@),
{
    write_catalog_sync_state(
        catalog,
        report.dataset.as_str(),
        Some(report.to_version.as_str()),
        Some(report.state_hash.as_str()),
        now,
    );
    catalog.ledger.append_audit(
        AuditRecord {
            patch_id,
            history_id,
            dataset: report.dataset.clone(),
            from_version: copy_text(&report.from_version),
            to_version: report.to_version.clone(),
            strategy: report.strategy.clone(),
            patch_hash: copy_text(&report.patch_hash),
            added_count: report.added_count,
            updated_count: report.updated_count,
            removed_count: report.removed_count,
            total_records: report.total_records,
            applied_at: now.to_owned(),
        },
    );
}

/// Counts the records of a staged catalog under the version that its
/// pointer is about to name.
pub(crate) fn count_staged(catalog: &Catalog, dataset: &str, version: &str) -> (count: u64)
    ensures
        count == staged_total(catalog@, dataset@, version@),
{
    if trim(version).is_empty() {
        0
    } else {
        count_catalog_records_for_version(&catalog.prices, version)
    }
}

/// Applies a snapshot in normal form at a given time: replaces the rows of
/// its version by its records, checks the hash that came with it, and does
/// the bookkeeping. A refused snapshot leaves the catalog as it was.
pub fn apply_snapshot(
    catalog: &mut Catalog,
    snapshot: &NormalSnapshot,
    now: &str,
    today: i64,
    patch_id: String,
    history_id: String,
) -> (out: Result<ApplyResult, CatalogError>)
    ensures
        match snapshot_refusal(old(catalog)@, snapshot@, today) {
            Some(error) => out is Err && out->Err_0@ == error,
            None => out is Ok && out->Ok_0@ == snapshot_report(old(catalog)@, snapshot@, today),
        },
        final(catalog)@ == snapshot_applied(
            old(catalog)@,
            snapshot@,
            now@,
            today,
            patch_id@,
            history_id@,
        ),
{
    match find_fault(&snapshot.records) {
        Some((at, fault)) => {
            assert(views(snapshot.records@)[at as int] == snapshot.records@[at as int]@);
            return Err(CatalogError::of_fault(&snapshot.records[at], fault));
        },
        None => {},
    }
    let (from_version, _, _) = catalog.ledger.read_catalog_sync_row(snapshot.dataset.as_str());
    let mut staged = Catalog {
        printings: catalog.printings.duplicate(),
        prices: catalog.prices.duplicate(),
        ledger: Ledger::new(),
    };
    staged.prices.remove_version(snapshot.to_version.as_str());
    let ghost start = staged@;
    upsert_records(&mut staged, &snapshot.records, snapshot.to_version.as_str(), today);
    let ghost base = CatalogFacts {
        prices: without_version(old(catalog)@.prices, snapshot@.to_version),
        ..old(catalog)@
    };
    let ghost goal = snapshot_staged(old(catalog)@, snapshot@, today);
    proof {
        lemma_records_keep_ledger(base, snapshot@.records, snapshot@.to_version, today);
        lemma_records_ignore_ledger(start, base, snapshot@.records, snapshot@.to_version, today);
        assert(staged@.prices == goal.prices);
        assert(staged@.printings == goal.printings);
        assert(goal.ledger == old(catalog)@.ledger);
    }
    let computed = hash_state(
        snapshot.dataset.as_str(),
        &Some(snapshot.to_version.clone()),
        &staged.prices,
        &staged.printings,
    );
    match &snapshot.expected_hash {
        Some(expected) => {
            if !same_text(expected.as_str(), computed.as_str()) {
                return Err(
                    CatalogError::HashMismatch { expected: expected.clone(), computed },
                );
            }
        },
        None => {},
    }
    let total = count_staged(
        &staged,
        snapshot.dataset.as_str(),
        snapshot.to_version.as_str(),
    );
    let report = ApplyResult {
        dataset: snapshot.dataset.clone(),
        from_version,
        to_version: snapshot.to_version.clone(),
        strategy: snapshot.strategy.clone(),
        patch_hash: copy_text(&snapshot.patch_hash),
        state_hash: computed,
        total_records: total,
        added_count: snapshot.records.len() as u64,
        updated_count: 0,
        removed_count: 0,
    };
    core::mem::swap(&mut catalog.printings, &mut staged.printings);
    core::mem::swap(&mut catalog.prices, &mut staged.prices);
    assert(catalog@ == goal);
    assert(report@ == snapshot_report(old(catalog)@, snapshot@, today));
    commit(catalog, &report, now, patch_id, history_id);
    Ok(report)
}

/// Writing records leaves the ledger alone.
pub proof fn lemma_records_keep_ledger(
    catalog: CatalogFacts,
    records: Seq<NormalFact>,
    version: Seq<char>,
    today: i64,
)
    ensures
        records_upserted(catalog, records, version, today).ledger == catalog.ledger,
    decreases records.len(),
{
    if records.len() > 0 {
        lemma_records_keep_ledger(catalog, records.drop_last(), version, today);
    }
}

/// What writing records does to rows and printings does not depend on the
/// ledger.
pub proof fn lemma_records_ignore_ledger(
    a: CatalogFacts,
    b: CatalogFacts,
    records: Seq<NormalFact>,
    version: Seq<char>,
    today: i64,
)
    requires
        a.printings == b.printings,
        a.prices == b.prices,
    ensures
        records_upserted(a, records, version, today).printings == records_upserted(
            b,
            records,
            version,
            today,
        ).printings,
        records_upserted(a, records, version, today).prices == records_upserted(
            b,
            records,
            version,
            today,
        ).prices,
    decreases records.len(),
{
    if records.len() > 0 {
        lemma_records_ignore_ledger(a, b, records.drop_last(), version, today);
    }
}

/// The outcome of a snapshot request: the error or report, and the catalog
/// afterwards.
pub open spec fn snapshot_outcome(
    catalog: CatalogFacts,
    input: SnapshotFact,
    now: Seq<char>,
    today: i64,
    patch_id: Seq<char>,
    history_id: Seq<char>,
) -> (Result<ApplyFact, ErrorFact>, CatalogFacts) {
    match normal_snapshot(input, now) {
        Err(error) => (Err(error), catalog),
        Ok(snapshot) => (
            match snapshot_refusal(catalog, snapshot, today) {
                Some(error) => Err(error),
                None => Ok(snapshot_report(catalog, snapshot, today)),
            },
            snapshot_applied(catalog, snapshot, now, today, patch_id, history_id),
        ),
    }
}

/// Applies a snapshot: a full replacement of the rows of one version.
///
/// The request is refused, and the catalog left as it was, where the
/// dataset is not supported, the version is empty, a record has an empty
/// identifier or an unusable market price, or a hash came with the request
/// that the new rows do not meet. Otherwise the rows of the version are
/// replaced by the records, the state hash is recomputed, the version
/// pointer moves to the version, and the version history and audit log
/// each gain an entry. The time and the identifiers of the log entries are
/// drawn when the function is called.
pub fn apply_catalog_snapshot(catalog: &mut Catalog, input: &SnapshotInput) -> (out: Result<
    ApplyResult,
    CatalogError,
>)
    ensures
        exists|now: Seq<char>, today: i64, patch_id: Seq<char>, history_id: Seq<char>|
            is_clock_time(encode_utf8(now)) && is_clock_day(today) && is_drawn_id(
                encode_utf8(patch_id),
            ) && is_drawn_id(encode_utf8(history_id)) && #[trigger] snapshot_outcome(
                old(catalog)@,
                input@,
                now,
                today,
                patch_id,
                history_id,
            ) == (outcome_of(out), final(catalog)@),
{
    let now = now_iso();
    let today = current_captured_ymd();
    let patch_id = new_record_id();
    let history_id = new_record_id();
    let ghost ids = (patch_id@, history_id@);
    let out = match normalize_snapshot(input, now.as_str()) {
        Err(error) => Err(error),
        Ok(snapshot) => apply_snapshot(catalog, &snapshot, now.as_str(), today, patch_id, history_id),
    };
    assert(is_clock_time(encode_utf8(now@)) && is_clock_day(today) && is_drawn_id(
        encode_utf8(ids.0),
    ) && is_drawn_id(encode_utf8(ids.1)) && snapshot_outcome(
        old(catalog)@,
        input@,
        now@,
        today,
        ids.0,
        ids.1,
    ) == (outcome_of(out), catalog@));
    out
}

} // verus!
