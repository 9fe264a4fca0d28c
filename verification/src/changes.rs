use crate::ledger::{
    state_of, version_of, AuditRecord, Ledger, SyncState, VersionRecord,
};
use crate::model::{text_of, views};
use crate::printing::{printing_of, Printing, Printings};
use crate::store::{stored, PriceRow, PriceStore};
use crate::text::same_text;
use vstd::prelude::*;
use vstd::string::*;

verus! {

/// Whether two optional texts are the same: both missing, or both there
/// with the same characters.
pub fn same_kept_text(a: &Option<String>, b: &Option<String>) -> (same: bool)
    ensures
        same == (text_of(*a) == text_of(*b)),
{
    match (a, b) {
        (None, None) => true,
        (Some(x), Some(y)) => same_text(x.as_str(), y.as_str()),
        _ => false,
    }
}

/// Whether two price rows are the same in every field.
pub fn same_row(a: &PriceRow, b: &PriceRow) -> (same: bool)
    ensures
        same == (a@ == b@),
{
    same_text(a.printing_id.as_str(), b.printing_id.as_str()) && a.condition_id == b.condition_id
        && a.finish_id == b.finish_id && same_text(a.sync_version.as_str(), b.sync_version.as_str())
        && a.channels.tcg_low == b.channels.tcg_low && a.channels.tcg_market
        == b.channels.tcg_market && a.channels.tcg_high == b.channels.tcg_high
        && a.channels.ck_sell == b.channels.ck_sell && a.channels.ck_buylist
        == b.channels.ck_buylist && a.channels.ck_buylist_quantity_cap
        == b.channels.ck_buylist_quantity_cap && a.captured_ymd == b.captured_ymd && same_text(
        a.captured_at.as_str(),
        b.captured_at.as_str(),
    )
}

/// Whether two printings agree on who they are: identifier, card, set,
/// number, language and the time they were written.
fn same_identity(a: &Printing, b: &Printing) -> (same: bool)
    ensures
        same == (a@.id == b@.id && a@.oracle_id == b@.oracle_id && a@.name == b@.name
            && a@.set_code == b@.set_code && a@.collector_number == b@.collector_number && a@.lang
            == b@.lang && a@.updated_at == b@.updated_at && a@.tcgplayer_id == b@.tcgplayer_id
            && a@.cardmarket_id == b@.cardmarket_id && a@.mtgo_id == b@.mtgo_id && a@.mtgo_foil_id
            == b@.mtgo_foil_id),
{
    same_text(a.id.as_str(), b.id.as_str()) && same_kept_text(&a.oracle_id, &b.oracle_id)
        && same_text(a.name.as_str(), b.name.as_str()) && same_text(
        a.set_code.as_str(),
        b.set_code.as_str(),
    ) && same_text(a.collector_number.as_str(), b.collector_number.as_str()) && same_text(
        a.lang.as_str(),
        b.lang.as_str(),
    ) && same_text(a.updated_at.as_str(), b.updated_at.as_str()) && a.tcgplayer_id
        == b.tcgplayer_id && a.cardmarket_id == b.cardmarket_id && a.mtgo_id == b.mtgo_id
        && a.mtgo_foil_id == b.mtgo_foil_id
}

/// Whether two printings agree on the rules of their card.
fn same_rules(a: &Printing, b: &Printing) -> (same: bool)
    ensures
        same == (a@.mana_cost == b@.mana_cost && a@.cmc == b@.cmc && a@.type_line == b@.type_line
            && a@.oracle_text == b@.oracle_text && a@.reserved == b@.reserved && a@.keywords_json
            == b@.keywords_json && a@.colors_json == b@.colors_json && a@.color_identity_json
            == b@.color_identity_json && a@.latest_released_at == b@.latest_released_at),
{
    same_kept_text(&a.mana_cost, &b.mana_cost) && a.cmc == b.cmc && same_kept_text(
        &a.type_line,
        &b.type_line,
    ) && same_kept_text(&a.oracle_text, &b.oracle_text) && a.reserved == b.reserved
        && same_kept_text(&a.keywords_json, &b.keywords_json) && same_kept_text(
        &a.colors_json,
        &b.colors_json,
    ) && same_kept_text(&a.color_identity_json, &b.color_identity_json) && same_kept_text(
        &a.latest_released_at,
        &b.latest_released_at,
    )
}

/// Whether two printings agree on how they were printed.
fn same_print(a: &Printing, b: &Printing) -> (same: bool)
    ensures
        same == (a@.rarity == b@.rarity && a@.layout == b@.layout && a@.released_at
            == b@.released_at && a@.artist == b@.artist && a@.image_normal_url
            == b@.image_normal_url && a@.image_small_url == b@.image_small_url
            && a@.image_art_crop_url == b@.image_art_crop_url && a@.is_digital == b@.is_digital
            && a@.is_foil_available == b@.is_foil_available && a@.is_nonfoil_available
            == b@.is_nonfoil_available),
{
    same_kept_text(&a.rarity, &b.rarity) && same_kept_text(&a.layout, &b.layout) && same_kept_text(
        &a.released_at,
        &b.released_at,
    ) && same_kept_text(&a.artist, &b.artist) && same_kept_text(
        &a.image_normal_url,
        &b.image_normal_url,
    ) && same_kept_text(&a.image_small_url, &b.image_small_url) && same_kept_text(
        &a.image_art_crop_url,
        &b.image_art_crop_url,
    ) && a.is_digital == b.is_digital && a.is_foil_available == b.is_foil_available
        && a.is_nonfoil_available == b.is_nonfoil_available
}

/// Whether two printings are the same in every field.
pub fn same_printing(a: &Printing, b: &Printing) -> (same: bool)
    ensures
        same == (a@ == b@),
{
    same_identity(a, b) && same_rules(a, b) && same_print(a, b)
}

/// Whether two sync states are the same in every field.
pub fn same_state(a: &SyncState, b: &SyncState) -> (same: bool)
    ensures
        same == (a@ == b@),
{
    same_text(a.dataset.as_str(), b.dataset.as_str()) && same_kept_text(
        &a.current_version,
        &b.current_version,
    ) && same_kept_text(&a.state_hash, &b.state_hash) && same_text(
        a.synced_at.as_str(),
        b.synced_at.as_str(),
    )
}

/// Whether two entries of the version history are the same in every field.
pub fn same_version_record(a: &VersionRecord, b: &VersionRecord) -> (same: bool)
    ensures
        same == (a@ == b@),
{
    same_text(a.id.as_str(), b.id.as_str()) && same_text(a.source_id.as_str(), b.source_id.as_str())
        && same_text(a.dataset.as_str(), b.dataset.as_str()) && same_text(
        a.version.as_str(),
        b.version.as_str(),
    ) && same_kept_text(&a.state_hash, &b.state_hash) && a.record_count == b.record_count
        && same_text(a.created_at.as_str(), b.created_at.as_str())
}

/// Whether two entries of the audit log are the same in every field.
pub fn same_audit(a: &AuditRecord, b: &AuditRecord) -> (same: bool)
    ensures
        same == (a@ == b@),
{
    same_text(a.patch_id.as_str(), b.patch_id.as_str()) && same_text(
        a.history_id.as_str(),
        b.history_id.as_str(),
    ) && same_text(a.dataset.as_str(), b.dataset.as_str()) && same_kept_text(
        &a.from_version,
        &b.from_version,
    ) && same_text(a.to_version.as_str(), b.to_version.as_str()) && same_text(
        a.strategy.as_str(),
        b.strategy.as_str(),
    ) && same_kept_text(&a.patch_hash, &b.patch_hash) && a.added_count == b.added_count
        && a.updated_count == b.updated_count && a.removed_count == b.removed_count
        && a.total_records == b.total_records && same_text(
        a.applied_at.as_str(),
        b.applied_at.as_str(),
    )
}

/// Whether a store holds a row as it is: what is stored under the row's key
/// is the row. A row that a store does not hold as it is has to be written
/// to bring the store to it; one that it holds needs no writing.
pub fn row_kept(store: &PriceStore, row: &PriceRow) -> (kept: bool)
    ensures
        kept == (stored(store@, row@.key()) == Some(row@)),
{
    let (at, found) = store.locate(
        row.sync_version.as_str(),
        row.printing_id.as_str(),
        row.condition_id,
        row.finish_id,
    );
    found && same_row(store.row(at), row)
}

/// Whether the printings hold a printing as it is: the printing under its
/// identifier is the same in every field.
pub fn printing_kept(printings: &Printings, printing: &Printing) -> (kept: bool)
    ensures
        kept == (printing_of(printings@, printing@.id) == Some(printing@)),
{
    match printings.find(printing.id.as_str()) {
        Some(at) => same_printing(printings.get(at), printing),
        None => false,
    }
}

/// Whether a ledger holds a sync state as it is: the state of its dataset
/// is the same in every field.
pub fn state_kept(ledger: &Ledger, state: &SyncState) -> (kept: bool)
    ensures
        kept == (state_of(ledger@.states, state@.dataset) == Some(state@)),
{
    match ledger.find_state(state.dataset.as_str()) {
        Some(at) => same_state(&ledger.states[at], state),
        None => false,
    }
}

/// Whether a ledger holds an entry of the version history as it is: the
/// entry under its identifier is the same in every field.
pub fn version_kept(ledger: &Ledger, record: &VersionRecord) -> (kept: bool)
    ensures
        kept == (version_of(ledger@.versions, record@.id) == Some(record@)),
{
    match ledger.find_version(record.id.as_str()) {
        Some(at) => same_version_record(&ledger.versions[at], record),
        None => false,
    }
}

/// Whether a ledger holds an entry of the audit log as it is.
pub fn audit_kept(ledger: &Ledger, record: &AuditRecord) -> (kept: bool)
    ensures
        kept == ledger@.audits.contains(record@),
{
    let mut at: usize = 0;
    while at < ledger.audits.len()
        invariant
            at <= ledger.audits@.len(),
            forall|j: int| 0 <= j < at ==> (#[trigger] ledger.audits@[j])@ != record@,
        decreases ledger.audits@.len() - at,
    {
        if same_audit(&ledger.audits[at], record) {
            assert(views(ledger.audits@)[at as int] == record@);
            return true;
        }
        at = at + 1;
    }
    assert forall|j: int| 0 <= j < ledger@.audits.len() implies ledger@.audits[j] != record@ by {
        assert(views(ledger.audits@)[j] == ledger.audits@[j]@);
    }
    false
}

} // verus!
