use crate::catalog::{records_upserted, Catalog, CatalogFacts};
use crate::clock::{new_record_id, now_iso};
use crate::error::{fault_error, CatalogError, ErrorFact};
use crate::hash::{hash_state, state_hash};
use crate::ledger::{current_version_of, is_drawn_id, Ledger};
use crate::model::{text_of, texts, views};
use crate::printing::copy_text;
use crate::record::{
    find_fault, first_fault, normal_records, normalize_records, record_fault, CatalogRecord,
    NormalFact, NormalRecord, RecordFact,
};
use crate::snapshot::{
    commit, committed, count_staged, lemma_records_ignore_ledger, lemma_records_keep_ledger,
    normal_dataset, normal_strategy, normalize_dataset, normalize_strategy, outcome_of,
    staged_total, upsert_records, ApplyFact, ApplyResult,
};
use crate::store::{carried_forward, without_printing, without_version, PriceFact, PriceStore};
use crate::text::{normalize, normalized, same_text, trim, trimmed};
use crate::version::{
    captured_ymd_from_sync_version, current_captured_ymd, is_clock_day, is_clock_time,
    version_captured_ymd,
};
use vstd::prelude::*;
use vstd::string::*;
use vstd::utf8::*;

verus! {

/// A request to move the catalog from one version to the next by a delta.
#[derive(Debug)]
pub struct PatchInput {
    pub dataset: Option<String>,
    pub from_version: String,
    pub to_version: String,
    pub added: Vec<CatalogRecord>,
    pub updated: Vec<CatalogRecord>,
    pub removed: Vec<String>,
    pub patch_hash: Option<String>,
    pub strategy: Option<String>,
}

/// The mathematical value of a [`PatchInput`].
pub struct PatchFact {
    pub dataset: Option<Seq<char>>,
    pub from_version: Seq<char>,
    pub to_version: Seq<char>,
    pub added: Seq<RecordFact>,
    pub updated: Seq<RecordFact>,
    pub removed: Seq<Seq<char>>,
    pub patch_hash: Option<Seq<char>>,
    pub strategy: Option<Seq<char>>,
}

impl View for PatchInput {
    type V = PatchFact;

    open spec fn view(&self) -> PatchFact {
        PatchFact {
            dataset: text_of(self.dataset),
            from_version: self.from_version@,
            to_version: self.to_version@,
            added: views(self.added@),
            updated: views(self.updated@),
            removed: texts(self.removed@),
            patch_hash: text_of(self.patch_hash),
            strategy: text_of(self.strategy),
        }
    }
}

/// A patch request in normal form: the dataset accepted, both versions
/// trimmed and not empty, the records in normal form, and of the removed
/// identifiers those that are not blank, in normal form. The counts are
/// those of the request as it arrived.
#[derive(Debug)]
pub struct NormalPatch {
    pub dataset: String,
    pub from_version: String,
    pub to_version: String,
    pub added: Vec<NormalRecord>,
    pub updated: Vec<NormalRecord>,
    pub removed: Vec<String>,
    pub removed_count: u64,
    pub patch_hash: Option<String>,
    pub strategy: String,
}

/// The mathematical value of a [`NormalPatch`].
pub struct NormalPatchFact {
    pub dataset: Seq<char>,
    pub from_version: Seq<char>,
    pub to_version: Seq<char>,
    pub added: Seq<NormalFact>,
    pub updated: Seq<NormalFact>,
    pub removed: Seq<Seq<char>>,
    pub removed_count: u64,
    pub patch_hash: Option<Seq<char>>,
    pub strategy: Seq<char>,
}

impl View for NormalPatch {
    type V = NormalPatchFact;

    open spec fn view(&self) -> NormalPatchFact {
        NormalPatchFact {
            dataset: self.dataset@,
            from_version: self.from_version@,
            to_version: self.to_version@,
            added: views(self.added@),
            updated: views(self.updated@),
            removed: texts(self.removed@),
            removed_count: self.removed_count,
            patch_hash: text_of(self.patch_hash),
            strategy: self.strategy@,
        }
    }
}

/// The identifiers to remove, in normal form: blank ones are passed over.
pub open spec fn normal_removed(given: Seq<Seq<char>>) -> Seq<Seq<char>>
    decreases given.len(),
{
    if given.len() == 0 {
        Seq::empty()
    } else if trimmed(given.last()).len() == 0 {
        normal_removed(given.drop_last())
    } else {
        normal_removed(given.drop_last()).push(normalized(given.last()))
    }
}

/// The normal form of a patch request, or the error that refuses it: an
/// unsupported dataset first, then a missing version.
pub open spec fn normal_patch(input: PatchFact, now: Seq<char>) -> Result<
    NormalPatchFact,
    ErrorFact,
> {
    match normal_dataset(input.dataset) {
        Err(error) => Err(error),
        Ok(dataset) => if trimmed(input.from_version).len() == 0 || trimmed(
            input.to_version,
        ).len() == 0 {
            Err(ErrorFact::MissingPatchVersions)
        } else {
            Ok(
                NormalPatchFact {
                    dataset,
                    from_version: trimmed(input.from_version),
                    to_version: trimmed(input.to_version),
                    added: normal_records(input.added, now),
                    updated: normal_records(input.updated, now),
                    removed: normal_removed(input.removed),
                    removed_count: input.removed.len() as u64,
                    patch_hash: input.patch_hash,
                    strategy: normal_strategy(input.strategy, "chain"@),
                },
            )
        },
    }
}

/// Brings the identifiers to remove into normal form.
pub fn normalize_removed(given: &Vec<String>) -> (out: Vec<String>)
    ensures
        texts(out@) == normal_removed(texts(given@)),
{
    let ghost all = texts(given@);
    let mut out: Vec<String> = Vec::new();
    let mut i: usize = 0;
    assert(all.take(0) =~= Seq::<Seq<char>>::empty());
    assert(texts(out@) =~= Seq::<Seq<char>>::empty());
    while i < given.len()
        invariant
            i <= given@.len(),
            all == texts(given@),
            texts(out@) == normal_removed(all.take(i as int)),
        decreases given@.len() - i,
    {
        let ghost before = texts(out@);
        proof {
            assert(all.take(i + 1).drop_last() =~= all.take(i as int));
            assert(all.take(i + 1).last() == given@[i as int]@);
        }
        let id = trim(given[i].as_str());
        if !id.is_empty() {
            out.push(normalize(given[i].as_str()));
            assert(texts(out@) =~= before.push(normalized(given@[i as int]@)));
        }
        i = i + 1;
    }
    assert(all.take(i as int) =~= all);
    out
}

/// Brings a patch request into normal form.
pub fn normalize_patch(input: &PatchInput, now: &str) -> (out: Result<NormalPatch, CatalogError>)
    ensures
        match normal_patch(input@, now@) {
            Ok(patch) => out is Ok && out->Ok_0@ == patch,
            Err(error) => out is Err && out->Err_0@ == error,
        },
{
    let dataset = match normalize_dataset(&input.dataset) {
        Ok(name) => name,
        Err(error) => {
            return Err(error);
        },
    };
    let from_version = trim(input.from_version.as_str());
    let to_version = trim(input.to_version.as_str());
    if from_version.is_empty() || to_version.is_empty() {
        return Err(CatalogError::MissingPatchVersions);
    }
    Ok(
        NormalPatch {
            dataset,
            from_version: from_version.to_owned(),
            to_version: to_version.to_owned(),
            added: normalize_records(&input.added, now),
            updated: normalize_records(&input.updated, now),
            removed: normalize_removed(&input.removed),
            removed_count: input.removed.len() as u64,
            patch_hash: copy_text(&input.patch_hash),
            strategy: normalize_strategy(&input.strategy, "chain"),
        },
    )
}

/// The version that a patch is held against: the dataset's current version,
/// if it has one.
pub open spec fn local_version(catalog: CatalogFacts, dataset: Seq<char>) -> Option<Seq<char>> {
    current_version_of(catalog.ledger.states, dataset)
}

/// Whether a patch stands on the replica's version: the dataset has a
/// current version, and it is the patch's base version.
pub open spec fn chain_holds(catalog: CatalogFacts, patch: NormalPatchFact) -> bool {
    local_version(catalog, patch.dataset) == Some(patch.from_version)
}

/// The rows after the rows of each named printing were removed under a
/// version, in turn.
pub open spec fn removed_all(rows: Seq<PriceFact>, version: Seq<char>, ids: Seq<Seq<char>>) -> Seq<
    PriceFact,
>
    decreases ids.len(),
{
    if ids.len() == 0 {
        rows
    } else {
        without_printing(removed_all(rows, version, ids.drop_last()), version, ids.last())
    }
}

/// The capture day of the rows that a patch carries forward: that of the
/// target version where it is dated, else today.
pub open spec fn carried_ymd(version: Seq<char>, today: i64) -> i64 {
    match version_captured_ymd(encode_utf8(version)) {
        Some(day) => day,
        None => today,
    }
}

/// The rows after a patch's carry-forward and removals: the rows of the
/// target version dropped, those of the base version copied forward to it,
/// and the removed printings taken out of it.
pub open spec fn patch_rows(
    rows: Seq<PriceFact>,
    patch: NormalPatchFact,
    now: Seq<char>,
    today: i64,
) -> Seq<PriceFact> {
    removed_all(
        carried_forward(
            without_version(rows, patch.to_version),
            patch.from_version,
            patch.to_version,
            carried_ymd(patch.to_version, today),
            now,
        ),
        patch.to_version,
        patch.removed,
    )
}

/// The rows and printings after a patch's delta: carry-forward, removals,
/// then the added and the updated records written.
pub open spec fn patch_staged(
    catalog: CatalogFacts,
    patch: NormalPatchFact,
    now: Seq<char>,
    today: i64,
) -> CatalogFacts {
    records_upserted(
        records_upserted(
            CatalogFacts { prices: patch_rows(catalog.prices, patch, now, today), ..catalog },
            patch.added,
            patch.to_version,
            today,
        ),
        patch.updated,
        patch.to_version,
        today,
    )
}

/// What a patch in normal form reports when it is applied.
pub open spec fn patch_report(
    catalog: CatalogFacts,
    patch: NormalPatchFact,
    now: Seq<char>,
    today: i64,
) -> ApplyFact {
    let staged = patch_staged(catalog, patch, now, today);
    ApplyFact {
        dataset: patch.dataset,
        from_version: Some(patch.from_version),
        to_version: patch.to_version,
        strategy: patch.strategy,
        patch_hash: patch.patch_hash,
        state_hash: state_hash(patch.dataset, Some(patch.to_version), staged.prices, staged.printings),
        total_records: staged_total(staged, patch.dataset, patch.to_version) as u64,
        added_count: patch.added.len() as u64,
        updated_count: patch.updated.len() as u64,
        removed_count: patch.removed_count,
    }
}

/// The error that refuses a patch in normal form, if any: a replica that
/// has no current version, or another one than the patch's base version;
/// else the first faulty record among the added and then the updated ones.
pub open spec fn patch_refusal(catalog: CatalogFacts, patch: NormalPatchFact) -> Option<ErrorFact> {
    if !chain_holds(catalog, patch) {
        Some(
            ErrorFact::VersionMismatch {
                local: local_version(catalog, patch.dataset),
                expected: patch.from_version,
            },
        )
    } else {
        match first_fault(patch.added) {
            Some(at) => Some(fault_error(patch.added[at], record_fault(patch.added[at])->0)),
            None => match first_fault(patch.updated) {
                Some(at) => Some(
                    fault_error(patch.updated[at], record_fault(patch.updated[at])->0),
                ),
                None => None,
            },
        }
    }
}

/// The catalog after a patch in normal form: untouched where the patch is
/// refused, else with the delta applied and the bookkeeping done.
pub open spec fn patch_applied(
    catalog: CatalogFacts,
    patch: NormalPatchFact,
    now: Seq<char>,
    today: i64,
    patch_id: Seq<char>,
    history_id: Seq<char>,
) -> CatalogFacts {
    if patch_refusal(catalog, patch) is Some {
        catalog
    } else {
        committed(
            patch_staged(catalog, patch, now, today),
            patch_report(catalog, patch, now, today),
            now,
            patch_id,
            history_id,
        )
    }
}

/// Removes the rows of each named printing under a version.
pub fn remove_printings(prices: &mut PriceStore, version: &str, ids: &Vec<String>)
    ensures
        final(prices)@ == removed_all(old(prices)@, version@, texts(ids@)),
{
    let ghost all = texts(ids@);
    let mut i: usize = 0;
    assert(all.take(0) =~= Seq::<Seq<char>>::empty());
    while i < ids.len()
        invariant
            i <= ids@.len(),
            all == texts(ids@),
            prices@ == removed_all(old(prices)@, version@, all.take(i as int)),
        decreases ids@.len() - i,
    {
        proof {
            assert(all.take(i + 1).drop_last() =~= all.take(i as int));
            assert(all.take(i + 1).last() == ids@[i as int]@);
        }
        prices.remove_printing(version, ids[i].as_str());
        i = i + 1;
    }
    assert(all.take(i as int) =~= all);
}

/// Applies a patch in normal form at a given time: checks that the replica
/// has a current version and that the patch was made for it, carries the rows of that version forward,
/// applies the delta and does the bookkeeping. A refused patch leaves the
/// catalog as it was.
pub fn apply_patch(
    catalog: &mut Catalog,
    patch: &NormalPatch,
    now: &str,
    today: i64,
    patch_id: String,
    history_id: String,
) -> (out: Result<ApplyResult, CatalogError>)
    ensures
        match patch_refusal(old(catalog)@, patch@) {
            Some(error) => out is Err && out->Err_0@ == error,
            None => out is Ok && out->Ok_0@ == patch_report(old(catalog)@, patch@, now@, today),
        },
        final(catalog)@ == patch_applied(
            old(catalog)@,
            patch@,
            now@,
            today,
            patch_id@,
            history_id@,
        ),
{
    let (current, _, _) = catalog.ledger.read_catalog_sync_row(patch.dataset.as_str());
    let on_base = match &current {
        Some(version) => same_text(version.as_str(), patch.from_version.as_str()),
        None => false,
    };
    if !on_base {
        return Err(
            CatalogError::VersionMismatch {
                local: current,
                expected: patch.from_version.clone(),
            },
        );
    }
    match find_fault(&patch.added) {
        Some((at, fault)) => {
            assert(views(patch.added@)[at as int] == patch.added@[at as int]@);
            return Err(CatalogError::of_fault(&patch.added[at], fault));
        },
        None => {},
    }
    match find_fault(&patch.updated) {
        Some((at, fault)) => {
            assert(views(patch.updated@)[at as int] == patch.updated@[at as int]@);
            return Err(CatalogError::of_fault(&patch.updated[at], fault));
        },
        None => {},
    }
    let to_version = patch.to_version.as_str();
    let day = match captured_ymd_from_sync_version(to_version) {
        Some(day) => day,
        None => today,
    };
    let mut staged = Catalog {
        printings: catalog.printings.duplicate(),
        prices: catalog.prices.duplicate(),
        ledger: Ledger::new(),
    };
    staged.prices.remove_version(to_version);
    staged.prices.carry_forward(patch.from_version.as_str(), to_version, day, now);
    remove_printings(&mut staged.prices, to_version, &patch.removed);
    let ghost start = staged@;
    let ghost base = CatalogFacts {
        prices: patch_rows(old(catalog)@.prices, patch@, now@, today),
        ..old(catalog)@
    };
    upsert_records(&mut staged, &patch.added, to_version, today);
    let ghost middle = staged@;
    let ghost base_middle = records_upserted(base, patch@.added, patch@.to_version, today);
    upsert_records(&mut staged, &patch.updated, to_version, today);
    let ghost goal = patch_staged(old(catalog)@, patch@, now@, today);
    proof {
        lemma_records_keep_ledger(base, patch@.added, patch@.to_version, today);
        lemma_records_keep_ledger(base_middle, patch@.updated, patch@.to_version, today);
        lemma_records_ignore_ledger(start, base, patch@.added, patch@.to_version, today);
        lemma_records_ignore_ledger(
            middle,
            base_middle,
            patch@.updated,
            patch@.to_version,
            today,
        );
        assert(staged@.prices == goal.prices);
        assert(staged@.printings == goal.printings);
        assert(goal.ledger == old(catalog)@.ledger);
    }
    let computed = hash_state(
        patch.dataset.as_str(),
        &Some(patch.to_version.clone()),
        &staged.prices,
        &staged.printings,
    );
    let total = count_staged(&staged, patch.dataset.as_str(), to_version);
    let report = ApplyResult {
        dataset: patch.dataset.clone(),
        from_version: Some(patch.from_version.clone()),
        to_version: patch.to_version.clone(),
        strategy: patch.strategy.clone(),
        patch_hash: copy_text(&patch.patch_hash),
        state_hash: computed,
        total_records: total,
        added_count: patch.added.len() as u64,
        updated_count: patch.updated.len() as u64,
        removed_count: patch.removed_count,
    };
    core::mem::swap(&mut catalog.printings, &mut staged.printings);
    core::mem::swap(&mut catalog.prices, &mut staged.prices);
    assert(catalog@ == goal);
    assert(report@ == patch_report(old(catalog)@, patch@, now@, today));
    commit(catalog, &report, now, patch_id, history_id);
    Ok(report)
}

/// The outcome of a patch request: the error or report, and the catalog
/// afterwards.
pub open spec fn patch_outcome(
    catalog: CatalogFacts,
    input: PatchFact,
    now: Seq<char>,
    today: i64,
    patch_id: Seq<char>,
    history_id: Seq<char>,
) -> (Result<ApplyFact, ErrorFact>, CatalogFacts) {
    match normal_patch(input, now) {
        Err(error) => (Err(error), catalog),
        Ok(patch) => (
            match patch_refusal(catalog, patch) {
                Some(error) => Err(error),
                None => Ok(patch_report(catalog, patch, now, today)),
            },
            patch_applied(catalog, patch, now, today, patch_id, history_id),
        ),
    }
}

/// Applies a patch: an incremental move from one version to the next.
///
/// The request is refused, and the catalog left as it was, where the
/// dataset is not supported, a version is empty, the replica has no current
/// version or another one than the patch's base version, or a record has an
/// empty identifier or an unusable market price. Otherwise the rows of the base version are
/// copied forward to the target version, the removed printings are taken
/// out of it, the added and then the updated records are written, the
/// state hash is recomputed, the version pointer moves to the target, and
/// the version history and audit log each gain an entry. The hash that
/// comes with a patch is recorded, not enforced. The time and the
/// identifiers of the log entries are drawn when the function is called.
pub fn apply_catalog_patch(catalog: &mut Catalog, input: &PatchInput) -> (out: Result<
    ApplyResult,
    CatalogError,
>)
    ensures
        exists|now: Seq<char>, today: i64, patch_id: Seq<char>, history_id: Seq<char>|
            is_clock_time(encode_utf8(now)) && is_clock_day(today) && is_drawn_id(
                encode_utf8(patch_id),
            ) && is_drawn_id(encode_utf8(history_id)) && #[trigger] patch_outcome(
                old(catalog)@,
                input@,
                now,
                today,
                patch_id,
                history_id,
            ) == (outcome_of(out), final(catalog)@),
{
    let now = now_iso();
    let today = current_captured_ymd();
    let patch_id = new_record_id();
    let history_id = new_record_id();
    let ghost ids = (patch_id@, history_id@);
    let out = match normalize_patch(input, now.as_str()) {
        Err(error) => Err(error),
        Ok(patch) => apply_patch(catalog, &patch, now.as_str(), today, patch_id, history_id),
    };
    assert(is_clock_time(encode_utf8(now@)) && is_clock_day(today) && is_drawn_id(
        encode_utf8(ids.0),
    ) && is_drawn_id(encode_utf8(ids.1)) && patch_outcome(
        old(catalog)@,
        input@,
        now@,
        today,
        ids.0,
        ids.1,
    ) == (outcome_of(out), catalog@));
    out
}

} // verus!
