use crate::digits::{ascii_chars, ascii_string, lemma_decimal_digits_ascii, lemma_padded_digits_ascii, price_text, push_price};
use crate::model::text_of;
use crate::price::Reading;
use crate::record::{NormalFact, NormalRecord, RecordFault};
use vstd::prelude::*;
use vstd::string::*;

verus! {

/// Why an operation on the catalog was refused.
#[derive(Debug)]
pub enum CatalogError {
    /// The dataset is not one that the catalog holds. The message quotes
    /// the name.
    UnsupportedDataset { message: String },
    /// A snapshot names no version.
    MissingSnapshotVersion,
    /// A patch does not name both of its versions.
    MissingPatchVersions,
    /// A record has an empty identifier.
    EmptyRecordId,
    /// A record's market price is not finite or is negative.
    InvalidMarketPrice { id: String, price: Reading },
    /// A patch was made for another version than the current one. `local`
    /// is the current version, if the dataset has one.
    VersionMismatch { local: Option<String>, expected: String },
    /// The rows of a snapshot do not hash to the value that came with it.
    HashMismatch { expected: String, computed: String },
}

/// The mathematical value of a [`CatalogError`].
pub enum ErrorFact {
    UnsupportedDataset { message: Seq<char> },
    MissingSnapshotVersion,
    MissingPatchVersions,
    EmptyRecordId,
    InvalidMarketPrice { id: Seq<char>, price: Reading },
    VersionMismatch { local: Option<Seq<char>>, expected: Seq<char> },
    HashMismatch { expected: Seq<char>, computed: Seq<char> },
}

/// The class of an error: a fault of the input, found before anything is
/// written, or a conflict with the replica's state, found before anything
/// is kept.
#[derive(Clone, Copy, PartialEq, Eq, Structural, Debug)]
pub enum ErrorKind {
    Validation,
    Consistency,
}

impl View for CatalogError {
    type V = ErrorFact;

    open spec fn view(&self) -> ErrorFact {
        match *self {
            CatalogError::UnsupportedDataset { message } => ErrorFact::UnsupportedDataset {
                message: message@,
            },
            CatalogError::MissingSnapshotVersion => ErrorFact::MissingSnapshotVersion,
            CatalogError::MissingPatchVersions => ErrorFact::MissingPatchVersions,
            CatalogError::EmptyRecordId => ErrorFact::EmptyRecordId,
            CatalogError::InvalidMarketPrice { id, price } => ErrorFact::InvalidMarketPrice {
                id: id@,
                price,
            },
            CatalogError::VersionMismatch { local, expected } => ErrorFact::VersionMismatch {
                local: text_of(local),
                expected: expected@,
            },
            CatalogError::HashMismatch { expected, computed } => ErrorFact::HashMismatch {
                expected: expected@,
                computed: computed@,
            },
        }
    }
}

/// The error that a faulty record gives.
pub open spec fn fault_error(record: NormalFact, fault: RecordFault) -> ErrorFact {
    match fault {
        RecordFault::EmptyId => ErrorFact::EmptyRecordId,
        RecordFault::InvalidPrice => ErrorFact::InvalidMarketPrice {
            id: record.given_id,
            price: record.market_price,
        },
    }
}

/// The class of an error.
pub open spec fn kind_of(error: ErrorFact) -> ErrorKind {
    match error {
        ErrorFact::VersionMismatch { .. } => ErrorKind::Consistency,
        ErrorFact::HashMismatch { .. } => ErrorKind::Consistency,
        _ => ErrorKind::Validation,
    }
}

/// How a reading reads in a message: an amount with six decimals, or `NaN`.
pub open spec fn reading_text(reading: Reading) -> Seq<char> {
    match reading {
        Reading::Amount(amount) => if amount < 0 {
            "-"@ + ascii_chars(price_text((-amount) as u64))
        } else {
            ascii_chars(price_text(amount as u64))
        },
        Reading::NotFinite => "NaN"@,
    }
}

/// The message of an error. It names the identifier, version or hash at
/// fault.
pub open spec fn message_of(error: ErrorFact) -> Seq<char> {
    match error {
        ErrorFact::UnsupportedDataset { message } => message,
        ErrorFact::MissingSnapshotVersion => "Catalog snapshot apply requires version."@,
        ErrorFact::MissingPatchVersions => "Catalog patch apply requires fromVersion and toVersion."@,
        ErrorFact::EmptyRecordId => "Catalog row has empty scryfallId."@,
        ErrorFact::InvalidMarketPrice { id, price } => "Catalog row "@ + id
            + " has invalid marketPrice: "@ + reading_text(price),
        ErrorFact::VersionMismatch { local, expected } => "Catalog version mismatch. Local is "@
            + (match local {
            Some(version) => version,
            None => "none"@,
        }) + ", patch expects "@ + expected + "."@,
        ErrorFact::HashMismatch { expected, computed } => "Snapshot hash mismatch. expected "@
            + expected + ", computed "@ + computed,
    }
}

/// Renders a reading for a message.
pub fn render_reading(reading: Reading) -> (text: String)
    ensures
        text@ == reading_text(reading),
{
    match reading {
        Reading::Amount(amount) => {
            let magnitude: u64 = if amount >= 0 {
                amount as u64
            } else if amount == i64::MIN {
                0x8000_0000_0000_0000u64
            } else {
                (-amount) as u64
            };
            let mut digits: Vec<u8> = Vec::new();
            push_price(&mut digits, magnitude);
            proof {
                lemma_decimal_digits_ascii((magnitude / 1_000_000) as nat);
                lemma_padded_digits_ascii((magnitude % 1_000_000) as nat, 6);
            }
            let number = ascii_string(digits);
            if amount < 0 {
                let mut text = "-".to_owned();
                text.append(number.as_str());
                text
            } else {
                number
            }
        },
        Reading::NotFinite => "NaN".to_owned(),
    }
}

impl CatalogError {
    /// The error that a faulty record gives.
    pub fn of_fault(record: &NormalRecord, fault: RecordFault) -> (error: CatalogError)
        ensures
            error@ == fault_error(record@, fault),
    {
        match fault {
            RecordFault::EmptyId => CatalogError::EmptyRecordId,
            RecordFault::InvalidPrice => CatalogError::InvalidMarketPrice {
                id: record.given_id.clone(),
                price: record.market_price,
            },
        }
    }

    /// The class of the error.
    pub fn kind(&self) -> (kind: ErrorKind)
        ensures
            kind == kind_of(self@),
    {
        match self {
            CatalogError::VersionMismatch { .. } => ErrorKind::Consistency,
            CatalogError::HashMismatch { .. } => ErrorKind::Consistency,
            _ => ErrorKind::Validation,
        }
    }

    /// The message of the error.
    pub fn message(&self) -> (text: String)
        ensures
            text@ == message_of(self@),
    {
        match self {
            CatalogError::UnsupportedDataset { message } => message.clone(),
            CatalogError::MissingSnapshotVersion => {
                "Catalog snapshot apply requires version.".to_owned()
            },
            CatalogError::MissingPatchVersions => {
                "Catalog patch apply requires fromVersion and toVersion.".to_owned()
            },
            CatalogError::EmptyRecordId => "Catalog row has empty scryfallId.".to_owned(),
            CatalogError::InvalidMarketPrice { id, price } => {
                let mut text = "Catalog row ".to_owned();
                text.append(id.as_str());
                text.append(" has invalid marketPrice: ");
                let number = render_reading(*price);
                text.append(number.as_str());
                text
            },
            CatalogError::VersionMismatch { local, expected } => {
                let mut text = "Catalog version mismatch. Local is ".to_owned();
                match local {
                    Some(version) => {
                        text.append(version.as_str());
                    },
                    None => {
                        text.append("none");
                    },
                }
                text.append(", patch expects ");
                text.append(expected.as_str());
                text.append(".");
                text
            },
            CatalogError::HashMismatch { expected, computed } => {
                let mut text = "Snapshot hash mismatch. expected ".to_owned();
                text.append(expected.as_str());
                text.append(", computed ");
                text.append(computed.as_str());
                text
            },
        }
    }
}

} // verus!
