use crate::model::texts;
use crate::rank::{rank_text, text_rank, Rank};
use crate::text::{
    any_names, ignoring_case_equal, lowercased, names_word, same_ignoring_ascii_case,
    to_lowercase,
};
use vstd::prelude::*;
use vstd::string::*;

verus! {

/// Whether one tag is filed behind another: its lower-cased form ranks
/// later.
pub open spec fn files_after(a: Seq<char>, b: Seq<char>) -> bool {
    text_rank(lowercased(a), lowercased(b)) == Rank::After
}

/// Where a tag is put among filed tags: in front of the first that is filed
/// behind it, so behind all that rank the same.
pub open spec fn place_for(filed: Seq<Seq<char>>, tag: Seq<char>) -> int
    decreases filed.len(),
{
    if filed.len() == 0 || files_after(filed[0], tag) {
        0
    } else {
        1 + place_for(filed.drop_first(), tag)
    }
}

/// Tags in the order of their lower-cased forms; tags that rank the same
/// keep the order in which they came.
pub open spec fn ordered(tags: Seq<Seq<char>>) -> Seq<Seq<char>>
    decreases tags.len(),
{
    if tags.len() == 0 {
        Seq::empty()
    } else {
        let filed = ordered(tags.drop_last());
        filed.insert(place_for(filed, tags.last()), tags.last())
    }
}

/// Tags without those that repeat the tag kept in front of them, but for
/// the case of ASCII letters.
pub open spec fn deduped(tags: Seq<Seq<char>>) -> Seq<Seq<char>>
    decreases tags.len(),
{
    if tags.len() == 0 {
        Seq::empty()
    } else {
        let kept = deduped(tags.drop_last());
        if kept.len() > 0 && ignoring_case_equal(tags.last(), kept.last()) {
            kept
        } else {
            kept.push(tags.last())
        }
    }
}

/// The tags with a system tag added where its rule holds and the tags do
/// not name it yet.
pub open spec fn with_tag(tags: Seq<Seq<char>>, rule: bool, tag: Seq<char>) -> Seq<Seq<char>> {
    if rule && !names_word(tags, tag) {
        tags.push(tag)
    } else {
        tags
    }
}

/// The tags of an owned card: its own tags and the system tags `foil`, for
/// foil copies, `playset`, for four copies or more, and `owned`, for any
/// copy; in order, without repeats.
pub open spec fn tags_derived(quantity: i64, foil_quantity: i64, existing: Seq<Seq<char>>) -> Seq<
    Seq<char>,
> {
    let total = quantity + foil_quantity;
    deduped(
        ordered(
            with_tag(
                with_tag(with_tag(existing, foil_quantity > 0, "foil"@), total >= 4, "playset"@),
                total > 0,
                "owned"@,
            ),
        ),
    )
}

/// A place that a scan from the front stops at is the `place_for`.
pub proof fn lemma_place_found(filed: Seq<Seq<char>>, tag: Seq<char>, at: int)
    requires
        0 <= at <= filed.len(),
        forall|j: int| 0 <= j < at ==> !files_after(#[trigger] filed[j], tag),
        at < filed.len() ==> files_after(filed[at], tag),
    ensures
        place_for(filed, tag) == at,
    decreases filed.len(),
{
    if at > 0 {
        let rest = filed.drop_first();
        assert(!files_after(filed[0], tag));
        assert forall|j: int| 0 <= j < at - 1 implies !files_after(#[trigger] rest[j], tag) by {
            assert(rest[j] == filed[j + 1]);
        }
        if at - 1 < rest.len() {
            assert(rest[at - 1] == filed[at]);
        }
        lemma_place_found(rest, tag, at - 1);
    }
}

/// Adds a system tag where its rule holds and the tags do not name it yet.
fn add_tag(tags: &mut Vec<String>, rule: bool, tag: &str)
    ensures
        texts(final(tags)@) == with_tag(texts(old(tags)@), rule, tag@),
{
    if rule && !any_names(tags, tag) {
        let ghost before = texts(tags@);
        tags.push(tag.to_owned());
        assert(texts(tags@) =~= before.push(tag@));
    }
}

/// Puts tags in the order of their lower-cased forms, keeping the order of
/// those that rank the same.
pub fn order_tags(tags: Vec<String>) -> (out: Vec<String>)
    ensures
        texts(out@) == ordered(texts(tags@)),
{
    let ghost all = texts(tags@);
    let mut out: Vec<String> = Vec::new();
    let mut keys: Vec<String> = Vec::new();
    let mut i: usize = 0;
    assert(all.take(0) =~= Seq::<Seq<char>>::empty());
    assert(texts(out@) =~= Seq::<Seq<char>>::empty());
    while i < tags.len()
        invariant
            i <= tags@.len(),
            all == texts(tags@),
            keys@.len() == out@.len(),
            forall|k: int| 0 <= k < out@.len() ==> (#[trigger] keys@[k])@ == lowercased(out@[k]@),
            texts(out@) == ordered(all.take(i as int)),
        decreases tags@.len() - i,
    {
        let tag = tags[i].clone();
        let key = to_lowercase(tag.as_str());
        let ghost filed = texts(out@);
        let mut at: usize = 0;
        while at < keys.len() && rank_text(keys[at].as_str(), key.as_str()) != Rank::After
            invariant
                at <= keys@.len(),
                keys@.len() == out@.len(),
                filed == texts(out@),
                key@ == lowercased(tag@),
                forall|k: int|
                    0 <= k < out@.len() ==> (#[trigger] keys@[k])@ == lowercased(out@[k]@),
                forall|j: int| 0 <= j < at ==> !files_after(#[trigger] filed[j], tag@),
            decreases keys@.len() - at,
        {
            assert(filed[at as int] == out@[at as int]@);
            at = at + 1;
        }
        proof {
            if at < keys@.len() {
                assert(filed[at as int] == out@[at as int]@);
            }
            lemma_place_found(filed, tag@, at as int);
            assert(all.take(i + 1).drop_last() =~= all.take(i as int));
            assert(all.take(i + 1).last() == tag@);
        }
        let ghost fact = tag@;
        out.insert(at, tag);
        keys.insert(at, key);
        assert(texts(out@) =~= filed.insert(at as int, fact));
        i = i + 1;
    }
    assert(all.take(i as int) =~= all);
    out
}

/// Drops the tags that repeat the tag kept in front of them, but for the
/// case of ASCII letters.
pub fn dedup_tags(tags: Vec<String>) -> (out: Vec<String>)
    ensures
        texts(out@) == deduped(texts(tags@)),
{
    let ghost all = texts(tags@);
    let mut out: Vec<String> = Vec::new();
    let mut i: usize = 0;
    assert(all.take(0) =~= Seq::<Seq<char>>::empty());
    assert(texts(out@) =~= Seq::<Seq<char>>::empty());
    while i < tags.len()
        invariant
            i <= tags@.len(),
            all == texts(tags@),
            texts(out@) == deduped(all.take(i as int)),
        decreases tags@.len() - i,
    {
        let ghost kept = texts(out@);
        proof {
            assert(all.take(i + 1).drop_last() =~= all.take(i as int));
            assert(all.take(i + 1).last() == tags@[i as int]@);
        }
        let repeats = out.len() > 0 && same_ignoring_ascii_case(
            tags[i].as_str(),
            out[out.len() - 1].as_str(),
        );
        proof {
            if out@.len() > 0 {
                assert(kept.last() == out@[out@.len() - 1]@);
            }
        }
        if !repeats {
            out.push(tags[i].clone());
            assert(texts(out@) =~= kept.push(tags@[i as int]@));
        }
        i = i + 1;
    }
    assert(all.take(i as int) =~= all);
    out
}

/// Derives the tags of an owned card from its own tags and from how many
/// copies are owned: adds `foil` for foil copies, `playset` for four copies
/// or more and `owned` for any copy, each unless the tags name it already;
/// then orders the tags and drops repeats.
pub fn derive_tags(quantity: i64, foil_quantity: i64, existing: Vec<String>) -> (tags: Vec<String>)
    ensures
        texts(tags@) == tags_derived(quantity, foil_quantity, texts(existing@)),
{
    let mut tags = existing;
    let total: i128 = quantity as i128 + foil_quantity as i128;
    add_tag(&mut tags, foil_quantity > 0, "foil");
    add_tag(&mut tags, total >= 4, "playset");
    add_tag(&mut tags, total > 0, "owned");
    dedup_tags(order_tags(tags))
}

} // verus!
