use crate::model::{first_where, lemma_first_where_found, text_of, views};
use crate::rank::{
    lemma_bytes_rank_flip, lemma_bytes_rank_trans, lemma_text_rank_same, rank_text, text_rank,
    Rank,
};
use crate::text::{same_text, to_uppercase, uppercased};
use vstd::prelude::*;
use vstd::string::*;
use vstd::utf8::*;

verus! {

/// What the replica knows of one printing: its identity and its card data.
#[derive(Debug)]
pub struct Printing {
    pub id: String,
    pub oracle_id: Option<String>,
    pub name: String,
    pub mana_cost: Option<String>,
    /// Mana value in millionths.
    pub cmc: Option<u64>,
    pub type_line: Option<String>,
    pub oracle_text: Option<String>,
    pub reserved: bool,
    pub keywords_json: Option<String>,
    pub colors_json: Option<String>,
    pub color_identity_json: Option<String>,
    pub latest_released_at: Option<String>,
    pub set_code: String,
    pub collector_number: String,
    pub lang: String,
    pub rarity: Option<String>,
    pub layout: Option<String>,
    pub released_at: Option<String>,
    pub artist: Option<String>,
    pub image_normal_url: Option<String>,
    pub image_small_url: Option<String>,
    pub image_art_crop_url: Option<String>,
    pub is_digital: bool,
    pub is_foil_available: bool,
    pub is_nonfoil_available: bool,
    pub tcgplayer_id: Option<i64>,
    pub cardmarket_id: Option<i64>,
    pub mtgo_id: Option<i64>,
    pub mtgo_foil_id: Option<i64>,
    pub updated_at: String,
}

/// The mathematical value of a [`Printing`].
pub struct PrintingFact {
    pub id: Seq<char>,
    pub oracle_id: Option<Seq<char>>,
    pub name: Seq<char>,
    pub mana_cost: Option<Seq<char>>,
    pub cmc: Option<u64>,
    pub type_line: Option<Seq<char>>,
    pub oracle_text: Option<Seq<char>>,
    pub reserved: bool,
    pub keywords_json: Option<Seq<char>>,
    pub colors_json: Option<Seq<char>>,
    pub color_identity_json: Option<Seq<char>>,
    pub latest_released_at: Option<Seq<char>>,
    pub set_code: Seq<char>,
    pub collector_number: Seq<char>,
    pub lang: Seq<char>,
    pub rarity: Option<Seq<char>>,
    pub layout: Option<Seq<char>>,
    pub released_at: Option<Seq<char>>,
    pub artist: Option<Seq<char>>,
    pub image_normal_url: Option<Seq<char>>,
    pub image_small_url: Option<Seq<char>>,
    pub image_art_crop_url: Option<Seq<char>>,
    pub is_digital: bool,
    pub is_foil_available: bool,
    pub is_nonfoil_available: bool,
    pub tcgplayer_id: Option<i64>,
    pub cardmarket_id: Option<i64>,
    pub mtgo_id: Option<i64>,
    pub mtgo_foil_id: Option<i64>,
    pub updated_at: Seq<char>,
}

impl View for Printing {
    type V = PrintingFact;

    open spec fn view(&self) -> PrintingFact {
        PrintingFact {
            id: self.id@,
            oracle_id: text_of(self.oracle_id),
            name: self.name@,
            mana_cost: text_of(self.mana_cost),
            cmc: self.cmc,
            type_line: text_of(self.type_line),
            oracle_text: text_of(self.oracle_text),
            reserved: self.reserved,
            keywords_json: text_of(self.keywords_json),
            colors_json: text_of(self.colors_json),
            color_identity_json: text_of(self.color_identity_json),
            latest_released_at: text_of(self.latest_released_at),
            set_code: self.set_code@,
            collector_number: self.collector_number@,
            lang: self.lang@,
            rarity: text_of(self.rarity),
            layout: text_of(self.layout),
            released_at: text_of(self.released_at),
            artist: text_of(self.artist),
            image_normal_url: text_of(self.image_normal_url),
            image_small_url: text_of(self.image_small_url),
            image_art_crop_url: text_of(self.image_art_crop_url),
            is_digital: self.is_digital,
            is_foil_available: self.is_foil_available,
            is_nonfoil_available: self.is_nonfoil_available,
            tcgplayer_id: self.tcgplayer_id,
            cardmarket_id: self.cardmarket_id,
            mtgo_id: self.mtgo_id,
            mtgo_foil_id: self.mtgo_foil_id,
            updated_at: self.updated_at@,
        }
    }
}

/// A copy of an optional text.
pub fn copy_text(text: &Option<String>) -> (copy: Option<String>)
    ensures
        text_of(copy) == text_of(*text),
{
    match text {
        Some(value) => Some(value.clone()),
        None => None,
    }
}

impl Printing {
    /// A copy of the printing.
    pub fn duplicate(&self) -> (copy: Printing)
        ensures
            copy@ == self@,
    {
        Printing {
            id: self.id.clone(),
            oracle_id: copy_text(&self.oracle_id),
            name: self.name.clone(),
            mana_cost: copy_text(&self.mana_cost),
            cmc: self.cmc,
            type_line: copy_text(&self.type_line),
            oracle_text: copy_text(&self.oracle_text),
            reserved: self.reserved,
            keywords_json: copy_text(&self.keywords_json),
            colors_json: copy_text(&self.colors_json),
            color_identity_json: copy_text(&self.color_identity_json),
            latest_released_at: copy_text(&self.latest_released_at),
            set_code: self.set_code.clone(),
            collector_number: self.collector_number.clone(),
            lang: self.lang.clone(),
            rarity: copy_text(&self.rarity),
            layout: copy_text(&self.layout),
            released_at: copy_text(&self.released_at),
            artist: copy_text(&self.artist),
            image_normal_url: copy_text(&self.image_normal_url),
            image_small_url: copy_text(&self.image_small_url),
            image_art_crop_url: copy_text(&self.image_art_crop_url),
            is_digital: self.is_digital,
            is_foil_available: self.is_foil_available,
            is_nonfoil_available: self.is_nonfoil_available,
            tcgplayer_id: self.tcgplayer_id,
            cardmarket_id: self.cardmarket_id,
            mtgo_id: self.mtgo_id,
            mtgo_foil_id: self.mtgo_foil_id,
            updated_at: self.updated_at.clone(),
        }
    }
}

/// The test that picks the printing with an identifier.
pub open spec fn has_id(id: Seq<char>) -> spec_fn(PrintingFact) -> bool {
    |printing: PrintingFact| printing.id == id
}

/// The place of the printing with an identifier: the first that carries it.
pub open spec fn printing_index(printings: Seq<PrintingFact>, id: Seq<char>) -> Option<int> {
    first_where(printings, has_id(id))
}

/// The printing with an identifier.
pub open spec fn printing_of(printings: Seq<PrintingFact>, id: Seq<char>) -> Option<PrintingFact> {
    match printing_index(printings, id) {
        Some(at) => Some(printings[at]),
        None => None,
    }
}

/// Whether printings stand in strictly ascending order of their
/// identifiers.
pub open spec fn printings_sorted(printings: Seq<PrintingFact>) -> bool {
    forall|i: int, j: int|
        0 <= i < j < printings.len() ==> text_rank(
            (#[trigger] printings[i]).id,
            (#[trigger] printings[j]).id,
        ) == Rank::Before
}

/// The number of leading printings whose identifier comes before an
/// identifier: the place where the printing with that identifier stands, or
/// would be put.
pub open spec fn id_slot(printings: Seq<PrintingFact>, id: Seq<char>) -> int
    decreases printings.len(),
{
    if printings.len() == 0 || text_rank(printings[0].id, id) != Rank::Before {
        0
    } else {
        1 + id_slot(printings.drop_first(), id)
    }
}

/// The printings after one was put among them: in the place of the printing
/// with the same identifier where there is one, in its place in the order
/// otherwise.
pub open spec fn placed(printings: Seq<PrintingFact>, printing: PrintingFact) -> Seq<PrintingFact> {
    match printing_index(printings, printing.id) {
        Some(at) => printings.update(at, printing),
        None => printings.insert(id_slot(printings, printing.id), printing),
    }
}

/// `id_slot` is the first place whose identifier does not come before the
/// identifier.
pub proof fn lemma_id_slot(printings: Seq<PrintingFact>, id: Seq<char>)
    ensures
        0 <= id_slot(printings, id) <= printings.len(),
        forall|j: int|
            0 <= j < id_slot(printings, id) ==> text_rank((#[trigger] printings[j]).id, id)
                == Rank::Before,
        id_slot(printings, id) < printings.len() ==> text_rank(
            printings[id_slot(printings, id)].id,
            id,
        ) != Rank::Before,
    decreases printings.len(),
{
    if printings.len() == 0 || text_rank(printings[0].id, id) != Rank::Before {
    } else {
        let rest = printings.drop_first();
        lemma_id_slot(rest, id);
        assert forall|j: int| 0 <= j < id_slot(printings, id) implies text_rank(
            (#[trigger] printings[j]).id,
            id,
        ) == Rank::Before by {
            if j > 0 {
                assert(printings[j] == rest[j - 1]);
            }
        }
        if id_slot(printings, id) < printings.len() {
            assert(printings[id_slot(printings, id)] == rest[id_slot(rest, id)]);
        }
    }
}

/// A place that has only earlier identifiers in front of it, and no earlier
/// identifier at it, is the `id_slot`.
pub proof fn lemma_id_slot_found(printings: Seq<PrintingFact>, id: Seq<char>, at: int)
    requires
        0 <= at <= printings.len(),
        forall|j: int|
            0 <= j < at ==> text_rank((#[trigger] printings[j]).id, id) == Rank::Before,
        at < printings.len() ==> text_rank(printings[at].id, id) != Rank::Before,
    ensures
        id_slot(printings, id) == at,
    decreases printings.len(),
{
    if at > 0 {
        let rest = printings.drop_first();
        assert(text_rank(printings[0].id, id) == Rank::Before);
        assert forall|j: int| 0 <= j < at - 1 implies text_rank((#[trigger] rest[j]).id, id)
            == Rank::Before by {
            assert(rest[j] == printings[j + 1]);
        }
        if at - 1 < rest.len() {
            assert(rest[at - 1] == printings[at]);
        }
        lemma_id_slot_found(rest, id, at - 1);
    }
}

/// Among sorted printings, the printing with an identifier stands at the
/// identifier's `id_slot`, if it is there at all.
pub proof fn lemma_index_is_slot(printings: Seq<PrintingFact>, id: Seq<char>)
    requires
        printings_sorted(printings),
    ensures
        ({
            let at = id_slot(printings, id);
            printing_index(printings, id) == if at < printings.len() && printings[at].id == id {
                Some(at)
            } else {
                None::<int>
            }
        }),
{
    let at = id_slot(printings, id);
    let test = has_id(id);
    lemma_id_slot(printings, id);
    assert forall|j: int| 0 <= j < at implies !test(#[trigger] printings[j]) by {
        lemma_text_rank_same(printings[j].id, id);
    }
    if at < printings.len() && printings[at].id == id {
        lemma_first_where_found(printings, test, at);
    } else {
        assert forall|j: int| 0 <= j < printings.len() implies !test(#[trigger] printings[j]) by {
            if j > at {
                // the identifier comes before printings[at], which comes before printings[j]
                let here = printings[at].id;
                lemma_text_rank_same(here, id);
                lemma_bytes_rank_flip(encode_utf8(id), encode_utf8(here));
                lemma_bytes_rank_flip(encode_utf8(here), encode_utf8(id));
                assert(text_rank(here, printings[j].id) == Rank::Before);
                lemma_bytes_rank_trans(
                    encode_utf8(id),
                    encode_utf8(here),
                    encode_utf8(printings[j].id),
                );
                lemma_text_rank_same(id, printings[j].id);
            }
        }
        lemma_first_where_found(printings, test, printings.len() as int);
    }
}

/// Putting a printing among sorted printings leaves them sorted.
pub proof fn lemma_placed_sorted(printings: Seq<PrintingFact>, printing: PrintingFact)
    requires
        printings_sorted(printings),
    ensures
        printings_sorted(placed(printings, printing)),
{
    let id = printing.id;
    let at = id_slot(printings, id);
    let out = placed(printings, printing);
    lemma_id_slot(printings, id);
    lemma_index_is_slot(printings, id);
    if printing_index(printings, id) is Some {
        assert forall|i: int, j: int| 0 <= i < j < out.len() implies text_rank(
            (#[trigger] out[i]).id,
            (#[trigger] out[j]).id,
        ) == Rank::Before by {
            assert(out[i].id == printings[i].id);
            assert(out[j].id == printings[j].id);
        }
    } else {
        assert forall|i: int, j: int| 0 <= i < j < out.len() implies text_rank(
            (#[trigger] out[i]).id,
            (#[trigger] out[j]).id,
        ) == Rank::Before by {
            if j < at {
                assert(out[i] == printings[i] && out[j] == printings[j]);
            } else if j == at {
                assert(out[i] == printings[i]);
            } else if i < at {
                assert(out[i] == printings[i] && out[j] == printings[j - 1]);
            } else if i == at {
                assert(out[j] == printings[j - 1]);
                let here = printings[at].id;
                lemma_text_rank_same(here, id);
                lemma_bytes_rank_flip(encode_utf8(id), encode_utf8(here));
                lemma_bytes_rank_flip(encode_utf8(here), encode_utf8(id));
                assert(text_rank(id, here) == Rank::Before);
                if at < j - 1 {
                    assert(text_rank(here, printings[j - 1].id) == Rank::Before);
                    lemma_bytes_rank_trans(
                        encode_utf8(id),
                        encode_utf8(here),
                        encode_utf8(printings[j - 1].id),
                    );
                }
            } else {
                assert(out[i] == printings[i - 1] && out[j] == printings[j - 1]);
            }
        }
    }
}

/// The printings that the replica knows, in ascending order of their
/// identifiers.
pub struct Printings {
    rows: Vec<Printing>,
}

impl View for Printings {
    type V = Seq<PrintingFact>;

    closed spec fn view(&self) -> Seq<PrintingFact> {
        views(self.rows@)
    }
}

impl Printings {
    #[verifier::type_invariant]
    spec fn well_formed(self) -> bool {
        printings_sorted(self@)
    }

    /// No printings.
    pub fn new() -> (printings: Printings)
        ensures
            printings@ == Seq::<PrintingFact>::empty(),
    {
        let printings = Printings { rows: Vec::new() };
        assert(printings@ =~= Seq::<PrintingFact>::empty());
        printings
    }

    /// States what holds of the printings of every replica.
    pub fn note_sorted(&self)
        ensures
            printings_sorted(self@),
    {
        proof {
            use_type_invariant(self);
        }
    }

    /// The number of printings.
    pub fn len(&self) -> (n: usize)
        ensures
            n == self@.len(),
    {
        self.rows.len()
    }

    /// The printing at a place in the order of identifiers.
    pub fn get(&self, at: usize) -> (printing: &Printing)
        requires
            at < self@.len(),
        ensures
            printing@ == self@[at as int],
    {
        &self.rows[at]
    }

    /// Finds, by binary search, the place where the printing with an
    /// identifier stands or would be put, and tells whether it stands there.
    pub fn locate(&self, id: &str) -> (found: (usize, bool))
        ensures
            found.0 == id_slot(self@, id@),
            found.1 == (printing_index(self@, id@) is Some),
            found.1 ==> printing_index(self@, id@) == Some(found.0 as int) && found.0
                < self@.len(),
    {
        proof {
            use_type_invariant(self);
        }
        let mut low: usize = 0;
        let mut high: usize = self.rows.len();
        while low < high
            invariant
                low <= high <= self@.len(),
                self@.len() == self.rows@.len(),
                printings_sorted(self@),
                forall|j: int|
                    0 <= j < low ==> text_rank((#[trigger] self@[j]).id, id@) == Rank::Before,
                forall|j: int|
                    high <= j < self@.len() ==> text_rank((#[trigger] self@[j]).id, id@)
                        != Rank::Before,
            decreases high - low,
        {
            let middle: usize = low + (high - low) / 2;
            let rank = rank_text(self.rows[middle].id.as_str(), id);
            assert(self@[middle as int] == self.rows@[middle as int]@);
            if rank == Rank::Before {
                assert forall|j: int| 0 <= j < middle + 1 implies text_rank(
                    (#[trigger] self@[j]).id,
                    id@,
                ) == Rank::Before by {
                    if j < middle {
                        lemma_bytes_rank_trans(
                            encode_utf8(self@[j].id),
                            encode_utf8(self@[middle as int].id),
                            encode_utf8(id@),
                        );
                    }
                }
                low = middle + 1;
            } else {
                assert forall|j: int| middle <= j < self@.len() implies text_rank(
                    (#[trigger] self@[j]).id,
                    id@,
                ) != Rank::Before by {
                    if middle < j && text_rank(self@[j].id, id@) == Rank::Before {
                        lemma_bytes_rank_trans(
                            encode_utf8(self@[middle as int].id),
                            encode_utf8(self@[j].id),
                            encode_utf8(id@),
                        );
                    }
                }
                high = middle;
            }
        }
        let found = low < self.rows.len() && same_text(self.rows[low].id.as_str(), id);
        proof {
            lemma_id_slot_found(self@, id@, low as int);
            lemma_index_is_slot(self@, id@);
            if low < self@.len() {
                assert(self@[low as int] == self.rows@[low as int]@);
            }
        }
        (low, found)
    }

    /// Finds the place of the printing with an identifier.
    pub fn find(&self, id: &str) -> (found: Option<usize>)
        ensures
            match found {
                Some(at) => printing_index(self@, id@) == Some(at as int) && at < self@.len(),
                None => printing_index(self@, id@) is None,
            },
    {
        let (at, found) = self.locate(id);
        if found {
            Some(at)
        } else {
            None
        }
    }

    /// Puts a printing among the others: in the place of the printing with
    /// the same identifier, or in its place in the order.
    pub fn place(&mut self, printing: Printing)
        ensures
            final(self)@ == placed(old(self)@, printing@),
    {
        proof {
            use_type_invariant(&*self);
            lemma_placed_sorted(self@, printing@);
            lemma_id_slot(self@, printing@.id);
        }
        let (at, found) = self.locate(printing.id.as_str());
        let ghost before = self@;
        let ghost fact = printing@;
        let mut rows: Vec<Printing> = Vec::new();
        assert(views(rows@) =~= Seq::<PrintingFact>::empty());
        core::mem::swap(&mut self.rows, &mut rows);
        assert(rows@.len() == before.len());
        assert(forall|i: int| 0 <= i < rows@.len() ==> (#[trigger] rows@[i])@ == before[i]);
        if found {
            rows.set(at, printing);
        } else {
            rows.insert(at, printing);
        }
        assert(views(rows@) =~= placed(before, fact));
        core::mem::swap(&mut self.rows, &mut rows);
    }

    /// A copy of the printings.
    pub fn duplicate(&self) -> (copy: Printings)
        ensures
            copy@ == self@,
    {
        proof {
            use_type_invariant(self);
        }
        let mut rows: Vec<Printing> = Vec::new();
        let mut i: usize = 0;
        while i < self.rows.len()
            invariant
                i <= self.rows@.len(),
                rows@.len() == i,
                forall|k: int| 0 <= k < i ==> (#[trigger] rows@[k])@ == self.rows@[k]@,
            decreases self.rows@.len() - i,
        {
            rows.push(self.rows[i].duplicate());
            i = i + 1;
        }
        assert(views(rows@) =~= self@);
        Printings { rows }
    }
}

/// The name under which a set is listed when only its code is known: the
/// code in upper case, or `UNKNOWN` for an empty code.
pub fn inferred_set_name(set_code: &str) -> (name: String)
    ensures
        name@ == if set_code@.len() == 0 {
            "UNKNOWN"@
        } else {
            uppercased(set_code@)
        },
{
    if set_code.is_empty() {
        "UNKNOWN".to_owned()
    } else {
        to_uppercase(set_code)
    }
}

} // verus!
