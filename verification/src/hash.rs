use crate::digits::{
    ascii_chars, hex_lower, lemma_hex_lower_ascii, price_text, push_price, to_hex_lower,
};
use crate::model::text_of;
use crate::printing::{printing_of, Printing, PrintingFact, Printings};
use crate::store::{PriceFact, PriceRow, PriceStore};
use crate::text::same_text;
use sha2::{Digest, Sha256};
use vstd::prelude::*;
use vstd::slice::*;
use vstd::string::*;
use vstd::utf8::*;

verus! {

/// The SHA-256 digest of a byte sequence.
pub uninterp spec fn sha256_of(data: Seq<u8>) -> Seq<u8>;

/// Calls `sha2::Sha256::digest`. Trusted: the result is the digest named by
/// [`sha256_of`], and it has the 32 bytes that are the output size of
/// SHA-256.
#[verifier::external_body]
fn sha256(data: &[u8]) -> (digest: Vec<u8>)
    ensures
        digest@ == sha256_of(data@),
        digest@.len() == 32,
{
    Sha256::digest(data).to_vec()
}

/// The line that a row of the current version adds to the hashed text: the
/// printing's identifier, name, set code, collector number and image
/// address, the market price with six decimals, and the capture time,
/// separated by bars and closed by a line feed.
pub open spec fn line_bytes(row: PriceFact, printing: PrintingFact) -> Seq<u8> {
    encode_utf8(printing.id) + seq![124u8] + encode_utf8(printing.name) + seq![124u8]
        + encode_utf8(printing.set_code) + seq![124u8] + encode_utf8(printing.collector_number)
        + seq![124u8] + encode_utf8(
        match printing.image_normal_url {
            Some(address) => address,
            None => Seq::empty(),
        },
    ) + seq![124u8] + price_text(row.channels.tcg_market->0) + seq![124u8] + encode_utf8(
        row.captured_at,
    ) + seq![10u8]
}

/// Whether a row is hashed: it belongs to the version, has a market price,
/// and its printing is known.
pub open spec fn is_hashed(row: PriceFact, version: Seq<char>, printings: Seq<PrintingFact>) -> bool {
    &&& row.sync_version == version
    &&& row.channels.tcg_market is Some
    &&& printing_of(printings, row.printing_id) is Some
}

/// What one row adds to the hashed text: its line, or nothing.
pub open spec fn hashed_line(
    row: PriceFact,
    version: Seq<char>,
    printings: Seq<PrintingFact>,
) -> Seq<u8> {
    if is_hashed(row, version, printings) {
        line_bytes(row, printing_of(printings, row.printing_id)->0)
    } else {
        Seq::empty()
    }
}

/// The lines of the rows of a version, in the rows' order.
pub open spec fn hashed_lines(
    rows: Seq<PriceFact>,
    version: Seq<char>,
    printings: Seq<PrintingFact>,
) -> Seq<u8>
    decreases rows.len(),
{
    if rows.len() == 0 {
        Seq::empty()
    } else {
        hashed_lines(rows.drop_last(), version, printings) + hashed_line(
            rows.last(),
            version,
            printings,
        )
    }
}

/// The text that is hashed for a dataset: its name and a line feed, then,
/// where a version is current, the lines of that version's rows in
/// ascending order of printing.
pub open spec fn state_bytes(
    dataset: Seq<char>,
    version: Option<Seq<char>>,
    rows: Seq<PriceFact>,
    printings: Seq<PrintingFact>,
) -> Seq<u8> {
    encode_utf8(dataset) + seq![10u8] + match version {
        Some(current) => hashed_lines(rows, current, printings),
        None => Seq::empty(),
    }
}

/// The state hash of a dataset: the SHA-256 digest of its hashed text, in
/// lower-case hexadecimal.
pub open spec fn state_hash(
    dataset: Seq<char>,
    version: Option<Seq<char>>,
    rows: Seq<PriceFact>,
    printings: Seq<PrintingFact>,
) -> Seq<char> {
    ascii_chars(hex_lower(sha256_of(state_bytes(dataset, version, rows, printings))))
}

/// Appends bytes to a buffer.
pub fn push_bytes(out: &mut Vec<u8>, bytes: &[u8])
    ensures
        final(out)@ == old(out)@ + bytes@,
{
    let mut i: usize = 0;
    while i < bytes.len()
        invariant
            i <= bytes@.len(),
            out@ == old(out)@ + bytes@.take(i as int),
        decreases bytes@.len() - i,
    {
        out.push(bytes[i]);
        assert(out@ =~= old(out)@ + bytes@.take(i + 1));
        i = i + 1;
    }
    assert(bytes@.take(i as int) =~= bytes@);
}

/// Appends the line of a row and its printing.
fn push_line(out: &mut Vec<u8>, row: &PriceRow, printing: &Printing, price: u64)
    requires
        row@.channels.tcg_market == Some(price),
    ensures
        final(out)@ == old(out)@ + line_bytes(row@, printing@),
{
    push_bytes(out, printing.id.as_str().as_bytes());
    out.push(124u8);
    push_bytes(out, printing.name.as_str().as_bytes());
    out.push(124u8);
    push_bytes(out, printing.set_code.as_str().as_bytes());
    out.push(124u8);
    push_bytes(out, printing.collector_number.as_str().as_bytes());
    out.push(124u8);
    match &printing.image_normal_url {
        Some(address) => {
            push_bytes(out, address.as_str().as_bytes());
        },
        None => {
            assert(encode_utf8(Seq::<char>::empty()) =~= Seq::<u8>::empty());
        },
    }
    out.push(124u8);
    push_price(out, price);
    out.push(124u8);
    push_bytes(out, row.captured_at.as_str().as_bytes());
    out.push(10u8);
    assert(out@ =~= old(out)@ + line_bytes(row@, printing@));
}

/// Computes the state hash of a dataset from its version pointer, the price
/// rows and the printings.
pub fn hash_state(
    dataset: &str,
    version: &Option<String>,
    prices: &PriceStore,
    printings: &Printings,
) -> (hash: String)
    ensures
        hash@ == state_hash(dataset@, text_of(*version), prices@, printings@),
        hash@.len() == 64,
{
    let mut text: Vec<u8> = Vec::new();
    push_bytes(&mut text, dataset.as_bytes());
    text.push(10u8);
    match version {
        Some(current) => {
            let ghost head = text@;
            let mut i: usize = 0;
            assert(prices@.take(0) =~= Seq::<PriceFact>::empty());
            while i < prices.len()
                invariant
                    i <= prices@.len(),
                    text@ == head + hashed_lines(
                        prices@.take(i as int),
                        current@,
                        printings@,
                    ),
                decreases prices@.len() - i,
            {
                let row = prices.row(i);
                proof {
                    assert(prices@.take(i + 1).drop_last() =~= prices@.take(i as int));
                    assert(prices@.take(i + 1).last() == row@);
                }
                let ghost before = text@;
                if same_text(row.sync_version.as_str(), current.as_str()) {
                    if let Some(price) = row.channels.tcg_market {
                        if let Some(at) = printings.find(row.printing_id.as_str()) {
                            let printing = printings.get(at);
                            push_line(&mut text, row, printing, price);
                        }
                    }
                }
                assert(text@ =~= before + hashed_line(row@, current@, printings@));
                assert(text@ =~= head + hashed_lines(
                    prices@.take(i + 1),
                    current@,
                    printings@,
                ));
                i = i + 1;
            }
            assert(prices@.take(i as int) =~= prices@);
            assert(text@ =~= state_bytes(dataset@, Some(current@), prices@, printings@));
        },
        None => {
            assert(text@ =~= state_bytes(dataset@, None, prices@, printings@));
        },
    }
    let digest = sha256(text.as_slice());
    proof {
        lemma_hex_lower_ascii(digest@);
    }
    to_hex_lower(digest.as_slice())
}

} // verus!
