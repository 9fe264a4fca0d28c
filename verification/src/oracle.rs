use crate::model::{text_of, texts};
use crate::price::{clean_price, cleaned, Reading};
use crate::printing::{copy_text, id_slot, printing_index, Printing, PrintingFact, Printings};
use crate::text::{any_names, names_word, normalize, normalized, same_text, trim, trimmed};
use vstd::prelude::*;
use vstd::string::*;

verus! {

/// The JSON text that `serde_json` writes for a list of texts.
pub uninterp spec fn json_of_texts(items: Seq<Seq<char>>) -> Seq<char>;

/// Calls `serde_json::to_string` on a list of texts. Trusted: the call
/// succeeds, and its result is the JSON text named by [`json_of_texts`].
/// The call writes into a byte vector, which takes every write, and a list
/// of texts holds nothing that cannot be written.
#[verifier::external_body]
fn json_list(items: &Vec<String>) -> (out: Option<String>)
    ensures
        out is Some,
        out->0@ == json_of_texts(texts(items@)),
{
    match serde_json::to_string(items) {
        Ok(text) => Some(text),
        Err(_) => None,
    }
}

/// The image addresses of a card or of one of its faces.
#[derive(Debug)]
pub struct ImageUris {
    pub normal: Option<String>,
    pub small: Option<String>,
    pub art_crop: Option<String>,
}

/// The mathematical value of [`ImageUris`].
pub struct ImageFact {
    pub normal: Option<Seq<char>>,
    pub small: Option<Seq<char>>,
    pub art_crop: Option<Seq<char>>,
}

impl View for ImageUris {
    type V = ImageFact;

    open spec fn view(&self) -> ImageFact {
        ImageFact {
            normal: text_of(self.normal),
            small: text_of(self.small),
            art_crop: text_of(self.art_crop),
        }
    }
}

/// A card as the card-data provider describes it.
#[derive(Debug)]
pub struct OracleCard {
    pub id: String,
    pub name: Option<String>,
    pub oracle_id: Option<String>,
    pub set: Option<String>,
    pub set_name: Option<String>,
    pub collector_number: Option<String>,
    pub released_at: Option<String>,
    pub lang: Option<String>,
    pub mana_cost: Option<String>,
    pub type_line: Option<String>,
    pub oracle_text: Option<String>,
    pub reserved: Option<bool>,
    pub keywords: Option<Vec<String>>,
    pub colors: Option<Vec<String>>,
    pub color_identity: Option<Vec<String>>,
    /// Mana value in millionths.
    pub cmc: Option<Reading>,
    pub rarity: Option<String>,
    pub layout: Option<String>,
    pub artist: Option<String>,
    pub tcgplayer_id: Option<i64>,
    pub cardmarket_id: Option<i64>,
    pub mtgo_id: Option<i64>,
    pub mtgo_foil_id: Option<i64>,
    pub digital: Option<bool>,
    pub finishes: Option<Vec<String>>,
    pub image_uris: Option<ImageUris>,
    /// The image addresses of each face, for a card with faces.
    pub card_faces: Option<Vec<Option<ImageUris>>>,
}

/// The mathematical value of an [`OracleCard`].
pub struct OracleFact {
    pub id: Seq<char>,
    pub name: Option<Seq<char>>,
    pub oracle_id: Option<Seq<char>>,
    pub set: Option<Seq<char>>,
    pub set_name: Option<Seq<char>>,
    pub collector_number: Option<Seq<char>>,
    pub released_at: Option<Seq<char>>,
    pub lang: Option<Seq<char>>,
    pub mana_cost: Option<Seq<char>>,
    pub type_line: Option<Seq<char>>,
    pub oracle_text: Option<Seq<char>>,
    pub reserved: Option<bool>,
    pub keywords: Option<Seq<Seq<char>>>,
    pub colors: Option<Seq<Seq<char>>>,
    pub color_identity: Option<Seq<Seq<char>>>,
    pub cmc: Option<Reading>,
    pub rarity: Option<Seq<char>>,
    pub layout: Option<Seq<char>>,
    pub artist: Option<Seq<char>>,
    pub tcgplayer_id: Option<i64>,
    pub cardmarket_id: Option<i64>,
    pub mtgo_id: Option<i64>,
    pub mtgo_foil_id: Option<i64>,
    pub digital: Option<bool>,
    pub finishes: Option<Seq<Seq<char>>>,
    pub image_uris: Option<ImageFact>,
    pub first_face: Option<ImageFact>,
}

/// The characters of each text of an optional list.
pub open spec fn texts_of(items: Option<Vec<String>>) -> Option<Seq<Seq<char>>> {
    match items {
        Some(list) => Some(texts(list@)),
        None => None,
    }
}

/// The value of optional image addresses.
pub open spec fn images_of(images: Option<ImageUris>) -> Option<ImageFact> {
    match images {
        Some(uris) => Some(uris@),
        None => None,
    }
}

/// The image addresses of the first face, where there are faces and the
/// first has addresses.
pub open spec fn first_face_of(faces: Option<Vec<Option<ImageUris>>>) -> Option<ImageFact> {
    match faces {
        Some(list) => if list@.len() > 0 {
            images_of(list@[0])
        } else {
            None
        },
        None => None,
    }
}

impl View for OracleCard {
    type V = OracleFact;

    open spec fn view(&self) -> OracleFact {
        OracleFact {
            id: self.id@,
            name: text_of(self.name),
            oracle_id: text_of(self.oracle_id),
            set: text_of(self.set),
            set_name: text_of(self.set_name),
            collector_number: text_of(self.collector_number),
            released_at: text_of(self.released_at),
            lang: text_of(self.lang),
            mana_cost: text_of(self.mana_cost),
            type_line: text_of(self.type_line),
            oracle_text: text_of(self.oracle_text),
            reserved: self.reserved,
            keywords: texts_of(self.keywords),
            colors: texts_of(self.colors),
            color_identity: texts_of(self.color_identity),
            cmc: self.cmc,
            rarity: text_of(self.rarity),
            layout: text_of(self.layout),
            artist: text_of(self.artist),
            tcgplayer_id: self.tcgplayer_id,
            cardmarket_id: self.cardmarket_id,
            mtgo_id: self.mtgo_id,
            mtgo_foil_id: self.mtgo_foil_id,
            digital: self.digital,
            finishes: texts_of(self.finishes),
            image_uris: images_of(self.image_uris),
            first_face: first_face_of(self.card_faces),
        }
    }
}

/// An optional text trimmed; a missing or blank one is none.
pub open spec fn kept_text(value: Option<Seq<char>>) -> Option<Seq<char>> {
    match value {
        Some(text) => if trimmed(text).len() == 0 {
            None
        } else {
            Some(trimmed(text))
        },
        None => None,
    }
}

/// An optional text in normal form; a missing or a blank one is none.
pub open spec fn kept_lower(value: Option<Seq<char>>) -> Option<Seq<char>> {
    match value {
        Some(text) => if trimmed(text).len() == 0 {
            None
        } else {
            Some(normalized(text))
        },
        None => None,
    }
}

/// An optional text, or a fallback where it is none.
pub open spec fn text_or(value: Option<Seq<char>>, fallback: Seq<char>) -> Seq<char> {
    match value {
        Some(text) => text,
        None => fallback,
    }
}

/// The JSON text stored for an optional list.
pub open spec fn stored_json(items: Option<Seq<Seq<char>>>) -> Option<Seq<char>> {
    match items {
        Some(list) => Some(json_of_texts(list)),
        None => None,
    }
}

/// Whether a list of finishes names one, in any ASCII case.
pub open spec fn names_finish(finishes: Option<Seq<Seq<char>>>, finish: Seq<char>) -> bool {
    finishes is Some && names_word(finishes->0, finish)
}

/// The image address of one kind: the card's own, else that of its first
/// face.
pub open spec fn picked_image(
    own: Option<Seq<char>>,
    face: Option<Seq<char>>,
) -> Option<Seq<char>> {
    if own is Some {
        own
    } else {
        face
    }
}

/// An optional text trimmed, none where blank.
pub fn keep_text(value: &Option<String>) -> (out: Option<String>)
    ensures
        text_of(out) == kept_text(text_of(*value)),
{
    match value {
        Some(text) => {
            let core = trim(text.as_str());
            if core.is_empty() {
                None
            } else {
                Some(core.to_owned())
            }
        },
        None => None,
    }
}

/// An optional text in normal form, none where it is blank.
pub fn keep_lower(value: &Option<String>) -> (out: Option<String>)
    ensures
        text_of(out) == kept_lower(text_of(*value)),
{
    match value {
        Some(text) => {
            if trim(text.as_str()).is_empty() {
                None
            } else {
                Some(normalize(text.as_str()))
            }
        },
        None => None,
    }
}

/// An optional text, or a fallback.
pub fn or_text(value: Option<String>, fallback: &str) -> (out: String)
    ensures
        out@ == text_or(text_of(value), fallback@),
{
    match value {
        Some(text) => text,
        None => fallback.to_owned(),
    }
}

/// Writes an optional list as JSON text.
pub fn store_json(items: &Option<Vec<String>>) -> (out: Option<String>)
    ensures
        text_of(out) == stored_json(texts_of(*items)),
{
    match items {
        Some(list) => {
            match json_list(list) {
                Some(text) => Some(text),
                None => Some("[]".to_owned()),
            }
        },
        None => None,
    }
}

/// Tells whether a list of finishes names one.
pub fn has_finish(finishes: &Option<Vec<String>>, finish: &str) -> (found: bool)
    ensures
        found == names_finish(texts_of(*finishes), finish@),
{
    match finishes {
        Some(list) => any_names(list, finish),
        None => false,
    }
}

/// Picks an image address of one kind.
pub fn pick_image(own: &Option<String>, face: &Option<String>) -> (out: Option<String>)
    ensures
        text_of(out) == picked_image(text_of(*own), text_of(*face)),
{
    match own {
        Some(address) => Some(address.clone()),
        None => copy_text(face),
    }
}

/// The code under which a card's set is listed: the code in normal form,
/// and `unknown` where the card names no set.
pub open spec fn listed_code(set: Option<Seq<char>>) -> Seq<char> {
    match set {
        Some(code) => normalized(code),
        None => "unknown"@,
    }
}

/// Tells under which code a card's set is listed.
pub fn list_code(set: &Option<String>) -> (code: String)
    ensures
        set is None ==> code@ == "unknown"@,
        code@ == listed_code(text_of(*set)),
{
    match set {
        Some(code) => normalize(code.as_str()),
        None => "unknown".to_owned(),
    }
}

/// The printing that a card describes, in normal form: texts trimmed, codes
/// lower-cased, blanks dropped, defaults filled in, lists written as JSON
/// text. There is none where the card's identifier is blank.
pub open spec fn normal_card(card: OracleFact, now: Seq<char>) -> Option<PrintingFact> {
    if trimmed(card.id).len() == 0 {
        None
    } else {
        let face = match card.first_face {
            Some(images) => images,
            None => ImageFact { normal: None, small: None, art_crop: None },
        };
        let own = match card.image_uris {
            Some(images) => images,
            None => ImageFact { normal: None, small: None, art_crop: None },
        };
        Some(
            PrintingFact {
                id: normalized(card.id),
                oracle_id: card.oracle_id,
                name: text_or(kept_text(card.name), "Unknown Card"@),
                mana_cost: kept_text(card.mana_cost),
                cmc: cleaned(card.cmc),
                type_line: kept_text(card.type_line),
                oracle_text: kept_text(card.oracle_text),
                reserved: card.reserved == Some(true),
                keywords_json: stored_json(card.keywords),
                colors_json: stored_json(card.colors),
                color_identity_json: stored_json(card.color_identity),
                latest_released_at: kept_text(card.released_at),
                set_code: listed_code(card.set),
                collector_number: text_or(kept_text(card.collector_number), "0"@),
                lang: text_or(kept_lower(card.lang), "en"@),
                rarity: kept_lower(card.rarity),
                layout: kept_text(card.layout),
                released_at: kept_text(card.released_at),
                artist: kept_text(card.artist),
                image_normal_url: picked_image(own.normal, face.normal),
                image_small_url: picked_image(own.small, face.small),
                image_art_crop_url: picked_image(own.art_crop, face.art_crop),
                is_digital: card.digital == Some(true),
                is_foil_available: names_finish(card.finishes, "foil"@),
                is_nonfoil_available: names_finish(card.finishes, "nonfoil"@),
                tcgplayer_id: card.tcgplayer_id,
                cardmarket_id: card.cardmarket_id,
                mtgo_id: card.mtgo_id,
                mtgo_foil_id: card.mtgo_foil_id,
                updated_at: now,
            },
        )
    }
}

/// Whether an optional flag is set.
pub fn is_set(flag: Option<bool>) -> (set: bool)
    ensures
        set == (flag == Some(true)),
{
    match flag {
        Some(value) => value,
        None => false,
    }
}

/// Brings a card into normal form.
pub fn normalize_card(card: &OracleCard, now: &str) -> (out: Option<Printing>)
    ensures
        match normal_card(card@, now@) {
            Some(printing) => out is Some && out->0@ == printing,
            None => out is None,
        },
{
    if trim(card.id.as_str()).is_empty() {
        return None;
    }
    let id = normalize(card.id.as_str());
    let set_code = list_code(&card.set);
    let no_face = ImageUris { normal: None, small: None, art_crop: None };
    let no_own = ImageUris { normal: None, small: None, art_crop: None };
    let face: &ImageUris = match &card.card_faces {
        Some(faces) => {
            if faces.len() > 0 {
                match &faces[0] {
                    Some(images) => images,
                    None => &no_face,
                }
            } else {
                &no_face
            }
        },
        None => &no_face,
    };
    let own: &ImageUris = match &card.image_uris {
        Some(images) => images,
        None => &no_own,
    };
    let keywords_json = store_json(&card.keywords);
    let colors_json = store_json(&card.colors);
    let color_identity_json = store_json(&card.color_identity);
    let printing = Printing {
        id,
        oracle_id: copy_text(&card.oracle_id),
        name: or_text(keep_text(&card.name), "Unknown Card"),
        mana_cost: keep_text(&card.mana_cost),
        cmc: clean_price(card.cmc),
        type_line: keep_text(&card.type_line),
        oracle_text: keep_text(&card.oracle_text),
        reserved: is_set(card.reserved),
        keywords_json,
        colors_json,
        color_identity_json,
        latest_released_at: keep_text(&card.released_at),
        set_code,
        collector_number: or_text(keep_text(&card.collector_number), "0"),
        lang: or_text(keep_lower(&card.lang), "en"),
        rarity: keep_lower(&card.rarity),
        layout: keep_text(&card.layout),
        released_at: keep_text(&card.released_at),
        artist: keep_text(&card.artist),
        image_normal_url: pick_image(&own.normal, &face.normal),
        image_small_url: pick_image(&own.small, &face.small),
        image_art_crop_url: pick_image(&own.art_crop, &face.art_crop),
        is_digital: is_set(card.digital),
        is_foil_available: has_finish(&card.finishes, "foil"),
        is_nonfoil_available: has_finish(&card.finishes, "nonfoil"),
        tcgplayer_id: card.tcgplayer_id,
        cardmarket_id: card.cardmarket_id,
        mtgo_id: card.mtgo_id,
        mtgo_foil_id: card.mtgo_foil_id,
        updated_at: now.to_owned(),
    };
    assert(normal_card(card@, now@) == Some(printing@));
    Some(printing)
}

/// The set that a card belongs to, as it is listed: its code in normal
/// form, `unknown` standing in for a missing one, and its name trimmed,
/// `UNKNOWN` standing in for a missing or blank one.
pub open spec fn listed_set(card: OracleFact) -> (Seq<char>, Seq<char>) {
    (listed_code(card.set), text_or(kept_text(card.set_name), "UNKNOWN"@))
}

/// Tells under which code and name the set of a card is listed.
pub fn set_of_card(card: &OracleCard) -> (set: (String, String))
    ensures
        (set.0@, set.1@) == listed_set(card@),
{
    (list_code(&card.set), or_text(keep_text(&card.set_name), "UNKNOWN"))
}

/// An optional text as it is compared: a missing one counts as empty.
pub open spec fn text_or_empty(value: Option<Seq<char>>) -> Seq<char> {
    text_or(value, Seq::empty())
}

/// An optional identifier as it is compared: a missing one counts as -1.
pub open spec fn id_or_minus_one(value: Option<i64>) -> i64 {
    match value {
        Some(id) => id,
        None => -1i64,
    }
}

/// Whether two printings agree field by field on their card data. Missing
/// and empty texts count as the same, and so do a missing identifier and
/// -1. The provider's oracle identifier and the update time are not
/// compared.
pub open spec fn same_card_data(a: PrintingFact, b: PrintingFact) -> bool {
    &&& a.name == b.name
    &&& text_or_empty(a.mana_cost) == text_or_empty(b.mana_cost)
    &&& text_or_empty(a.type_line) == text_or_empty(b.type_line)
    &&& text_or_empty(a.oracle_text) == text_or_empty(b.oracle_text)
    &&& a.cmc == b.cmc
    &&& a.reserved == b.reserved
    &&& text_or_empty(a.keywords_json) == text_or_empty(b.keywords_json)
    &&& text_or_empty(a.colors_json) == text_or_empty(b.colors_json)
    &&& text_or_empty(a.color_identity_json) == text_or_empty(b.color_identity_json)
    &&& text_or_empty(a.latest_released_at) == text_or_empty(b.latest_released_at)
    &&& a.set_code == b.set_code
    &&& a.collector_number == b.collector_number
    &&& a.lang == b.lang
    &&& text_or_empty(a.rarity) == text_or_empty(b.rarity)
    &&& text_or_empty(a.layout) == text_or_empty(b.layout)
    &&& text_or_empty(a.released_at) == text_or_empty(b.released_at)
    &&& text_or_empty(a.artist) == text_or_empty(b.artist)
    &&& text_or_empty(a.image_normal_url) == text_or_empty(b.image_normal_url)
    &&& text_or_empty(a.image_small_url) == text_or_empty(b.image_small_url)
    &&& text_or_empty(a.image_art_crop_url) == text_or_empty(b.image_art_crop_url)
    &&& a.is_digital == b.is_digital
    &&& a.is_foil_available == b.is_foil_available
    &&& a.is_nonfoil_available == b.is_nonfoil_available
    &&& id_or_minus_one(a.tcgplayer_id) == id_or_minus_one(b.tcgplayer_id)
    &&& id_or_minus_one(a.cardmarket_id) == id_or_minus_one(b.cardmarket_id)
    &&& id_or_minus_one(a.mtgo_id) == id_or_minus_one(b.mtgo_id)
    &&& id_or_minus_one(a.mtgo_foil_id) == id_or_minus_one(b.mtgo_foil_id)
}

/// Compares two optional texts, a missing one counting as empty.
pub fn same_text_or_empty(a: &Option<String>, b: &Option<String>) -> (same: bool)
    ensures
        same == (text_or_empty(text_of(*a)) == text_or_empty(text_of(*b))),
{
    let x = match a {
        Some(text) => text.as_str(),
        None => "",
    };
    let y = match b {
        Some(text) => text.as_str(),
        None => "",
    };
    proof {
        reveal_strlit("");
        assert(""@ =~= Seq::<char>::empty());
    }
    same_text(x, y)
}

/// Compares two optional identifiers, a missing one counting as -1.
pub fn same_id_or_minus_one(a: Option<i64>, b: Option<i64>) -> (same: bool)
    ensures
        same == (id_or_minus_one(a) == id_or_minus_one(b)),
{
    let x: i64 = match a {
        Some(id) => id,
        None => -1,
    };
    let y: i64 = match b {
        Some(id) => id,
        None => -1,
    };
    x == y
}

/// Compares the card data of two printings field by field.
pub fn compare_card_data(a: &Printing, b: &Printing) -> (same: bool)
    ensures
        same == same_card_data(a@, b@),
{
    same_text(a.name.as_str(), b.name.as_str()) && same_text_or_empty(&a.mana_cost, &b.mana_cost)
        && same_text_or_empty(&a.type_line, &b.type_line) && same_text_or_empty(
        &a.oracle_text,
        &b.oracle_text,
    ) && a.cmc == b.cmc && a.reserved == b.reserved && same_text_or_empty(
        &a.keywords_json,
        &b.keywords_json,
    ) && same_text_or_empty(&a.colors_json, &b.colors_json) && same_text_or_empty(
        &a.color_identity_json,
        &b.color_identity_json,
    ) && same_text_or_empty(&a.latest_released_at, &b.latest_released_at) && same_text(
        a.set_code.as_str(),
        b.set_code.as_str(),
    ) && same_text(a.collector_number.as_str(), b.collector_number.as_str()) && same_text(
        a.lang.as_str(),
        b.lang.as_str(),
    ) && same_text_or_empty(&a.rarity, &b.rarity) && same_text_or_empty(&a.layout, &b.layout)
        && same_text_or_empty(&a.released_at, &b.released_at) && same_text_or_empty(
        &a.artist,
        &b.artist,
    ) && same_text_or_empty(&a.image_normal_url, &b.image_normal_url) && same_text_or_empty(
        &a.image_small_url,
        &b.image_small_url,
    ) && same_text_or_empty(&a.image_art_crop_url, &b.image_art_crop_url) && a.is_digital
        == b.is_digital && a.is_foil_available == b.is_foil_available && a.is_nonfoil_available
        == b.is_nonfoil_available && same_id_or_minus_one(a.tcgplayer_id, b.tcgplayer_id)
        && same_id_or_minus_one(a.cardmarket_id, b.cardmarket_id) && same_id_or_minus_one(
        a.mtgo_id,
        b.mtgo_id,
    ) && same_id_or_minus_one(a.mtgo_foil_id, b.mtgo_foil_id)
}

/// Whether a card's printing is written: it is new, or its card data
/// differ from what is known.
pub open spec fn card_changes(printings: Seq<PrintingFact>, card: PrintingFact) -> bool {
    match printing_index(printings, card.id) {
        Some(at) => !same_card_data(printings[at], card),
        None => true,
    }
}

/// The printings after a card in normal form: the card's printing put in
/// the place of the known one where the card data differ, put behind the
/// others where it is new, and nothing touched where nothing differs.
pub open spec fn card_upserted(printings: Seq<PrintingFact>, card: PrintingFact) -> Seq<
    PrintingFact,
> {
    match printing_index(printings, card.id) {
        Some(at) => if same_card_data(printings[at], card) {
            printings
        } else {
            printings.update(at, card)
        },
        None => printings.insert(id_slot(printings, card.id), card),
    }
}

/// Writes the printing of a card in normal form, unless the known printing
/// already agrees with it field by field. Tells whether it wrote.
pub fn upsert_card(printings: &mut Printings, card: Printing) -> (changed: bool)
    ensures
        changed == card_changes(old(printings)@, card@),
        final(printings)@ == card_upserted(old(printings)@, card@),
{
    match printings.find(card.id.as_str()) {
        Some(at) => {
            if compare_card_data(printings.get(at), &card) {
                false
            } else {
                printings.place(card);
                true
            }
        },
        None => {
            printings.place(card);
            true
        },
    }
}

/// Takes over what the card-data provider says of one card: writes the
/// card's printing where it is new or where a field-by-field comparison
/// with the known printing shows a change, and writes nothing otherwise. A
/// card with a blank identifier is passed over. Tells whether it wrote. No
/// price is touched.
pub fn upsert_scryfall_oracle_if_changed(
    printings: &mut Printings,
    card: &OracleCard,
    now: &str,
) -> (changed: bool)
    ensures
        match normal_card(card@, now@) {
            Some(printing) => {
                &&& changed == card_changes(old(printings)@, printing)
                &&& final(printings)@ == card_upserted(old(printings)@, printing)
            },
            None => !changed && final(printings)@ == old(printings)@,
        },
{
    match normalize_card(card, now) {
        Some(printing) => upsert_card(printings, printing),
        None => false,
    }
}

} // verus!
