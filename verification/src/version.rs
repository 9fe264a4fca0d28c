use crate::clock::{now_iso, today_long, today_short};
use crate::digits::{
    all_digits, ascii_string, lemma_ascii_encoding, lemma_digits_value_positive,
    lemma_ten_digits_fit, parse_i64, parsed_i64,
};
use crate::hash::push_bytes;
use crate::text::{normalize, normalized, same_text, string_from_utf8, trim, trimmed};
use vstd::prelude::*;
use vstd::slice::*;
use vstd::string::*;
use vstd::utf8::*;

verus! {

/// The one dataset that the catalog holds.
pub const CATALOG_DATASET_DEFAULT: &'static str = "default_cards";

/// The message with which a dataset name is refused.
pub open spec fn unsupported_dataset_message(name: Seq<char>) -> Seq<char> {
    "Unsupported dataset '"@ + name + "'. Only '"@ + CATALOG_DATASET_DEFAULT@
        + "' is currently supported."@
}

/// Decides on a dataset name that is already in normal form: the default's
/// own name is accepted, and every other name is refused with a message
/// that quotes it.
pub fn dataset_from_normalized(name: String) -> (out: Result<String, String>)
    ensures
        name@ == CATALOG_DATASET_DEFAULT@ ==> out is Ok && out->Ok_0@ == CATALOG_DATASET_DEFAULT@,
        name@ != CATALOG_DATASET_DEFAULT@ ==> out is Err && out->Err_0@
            == unsupported_dataset_message(name@),
{
    if !same_text(name.as_str(), CATALOG_DATASET_DEFAULT) {
        let mut message = "Unsupported dataset '".to_owned();
        message.append(name.as_str());
        message.append("'. Only '");
        message.append(CATALOG_DATASET_DEFAULT);
        message.append("' is currently supported.");
        return Err(message);
    }
    Ok(name)
}

/// The decision on a dataset name as it was given: a missing or a blank
/// name is the default dataset, and any other is decided on in its normal
/// form.
pub open spec fn dataset_decided(dataset: Option<Seq<char>>) -> Result<Seq<char>, Seq<char>> {
    match dataset {
        None => Ok(CATALOG_DATASET_DEFAULT@),
        Some(given) => if trimmed(given).len() == 0 || normalized(given)
            == CATALOG_DATASET_DEFAULT@ {
            Ok(CATALOG_DATASET_DEFAULT@)
        } else {
            Err(unsupported_dataset_message(normalized(given)))
        },
    }
}

/// Decides on a dataset name. A missing or a blank name is the default
/// dataset; any other is brought into normal form first.
pub fn normalize_catalog_dataset(dataset: Option<&str>) -> (out: Result<String, String>)
    ensures
        dataset is None ==> out is Ok,
        match dataset_decided(
            match dataset {
                Some(given) => Some(given@),
                None => None,
            },
        ) {
            Ok(name) => out is Ok && out->Ok_0@ == name,
            Err(message) => out is Err && out->Err_0@ == message,
        },
{
    match dataset {
        Some(given) => {
            if trim(given).is_empty() {
                Ok(CATALOG_DATASET_DEFAULT.to_owned())
            } else {
                dataset_from_normalized(normalize(given))
            }
        },
        None => Ok(CATALOG_DATASET_DEFAULT.to_owned()),
    }
}

/// The bytes without the hyphens among them.
pub open spec fn dashless(bytes: Seq<u8>) -> Seq<u8> {
    bytes.filter(|byte: u8| byte != 45)
}

/// Copies the bytes of a range, leaving out the hyphens.
pub fn copy_dashless(bytes: &[u8], from: usize, to: usize) -> (out: Vec<u8>)
    requires
        from <= to <= bytes@.len(),
    ensures
        out@ == dashless(bytes@.subrange(from as int, to as int)),
{
    let ghost range = bytes@.subrange(from as int, to as int);
    let ghost pred = |byte: u8| byte != 45;
    let mut out: Vec<u8> = Vec::new();
    let mut i: usize = from;
    proof {
        reveal(Seq::filter);
        assert(range.take(0) =~= Seq::<u8>::empty());
    }
    while i < to
        invariant
            from <= i <= to <= bytes@.len(),
            range == bytes@.subrange(from as int, to as int),
            pred == (|byte: u8| byte != 45),
            out@ == range.take(i - from).filter(pred),
        decreases to - i,
    {
        let byte: u8 = bytes[i];
        proof {
            reveal(Seq::filter);
            assert(range.take(i - from + 1).drop_last() =~= range.take(i - from));
            assert(range.take(i - from + 1).last() == byte);
        }
        if byte != 45 {
            out.push(byte);
        }
        i = i + 1;
    }
    assert(range.take(to - from) =~= range);
    out
}

/// Whether no byte is a hyphen.
pub open spec fn dash_free(bytes: Seq<u8>) -> bool {
    forall|i: int| 0 <= i < bytes.len() ==> #[trigger] bytes[i] != 45
}

/// Bytes without a hyphen lose nothing.
pub proof fn lemma_dashless_keeps(bytes: Seq<u8>)
    requires
        dash_free(bytes),
    ensures
        dashless(bytes) == bytes,
    decreases bytes.len(),
{
    reveal(Seq::filter);
    if bytes.len() > 0 {
        let front = bytes.drop_last();
        assert forall|i: int| 0 <= i < front.len() implies #[trigger] front[i] != 45 by {
            assert(front[i] == bytes[i]);
        }
        lemma_dashless_keeps(front);
        assert(front.push(bytes.last()) =~= bytes);
    } else {
        assert(dashless(bytes) =~= bytes);
    }
}

/// A hyphen between two parts leaves, and what stands before it stays where
/// that holds no hyphen.
pub proof fn lemma_dashless_past_dash(front: Seq<u8>, rest: Seq<u8>)
    requires
        dash_free(front),
    ensures
        dashless(front + seq![45u8] + rest) == front + dashless(rest),
{
    let pred = |byte: u8| byte != 45;
    let dash = seq![45u8];
    Seq::filter_distributes_over_add(front + dash, rest, pred);
    Seq::filter_distributes_over_add(front, dash, pred);
    lemma_dashless_keeps(front);
    assert(dash.filter(pred) =~= Seq::<u8>::empty()) by {
        reveal_with_fuel(Seq::filter, 3);
        assert(dash.drop_last() =~= Seq::<u8>::empty());
    }
    assert(front + Seq::<u8>::empty() =~= front);
}

/// Of a year, a month and a day with hyphens between them, the three parts
/// are left.
pub proof fn lemma_dashless_date(year: Seq<u8>, month: Seq<u8>, day: Seq<u8>)
    requires
        dash_free(year),
        dash_free(month),
        dash_free(day),
    ensures
        dashless(year + seq![45u8] + month + seq![45u8] + day) == year + month + day,
{
    let dash = seq![45u8];
    assert(year + dash + month + dash + day =~= year + dash + (month + dash + day));
    lemma_dashless_past_dash(year, month + dash + day);
    lemma_dashless_past_dash(month, day);
    lemma_dashless_keeps(day);
    assert(year + (month + day) =~= year + month + day);
}

/// The sync version that a timestamp's date gives, as bytes: the letter `v`
/// and the six bytes that are left of positions 2 to 9 once the hyphens are
/// taken out. There is none where the timestamp is shorter than a date,
/// where other than six bytes are left, or where they do not form a text.
pub open spec fn iso_sync_version(timestamp: Seq<u8>) -> Option<Seq<u8>> {
    if timestamp.len() < 10 {
        None
    } else {
        let label = seq![118u8] + dashless(timestamp.subrange(2, 10));
        if label.len() == 7 && valid_utf8(label) {
            Some(label)
        } else {
            None
        }
    }
}

/// Derives the sync version from a timestamp's date, where the timestamp
/// has one: `2026-02-03T...` gives `v260203`.
pub fn sync_version_of(timestamp: &str) -> (out: Option<String>)
    ensures
        out is Some <==> iso_sync_version(timestamp.spec_bytes()) is Some,
        out is Some ==> out->0@ == decode_utf8(iso_sync_version(timestamp.spec_bytes())->0),
{
    let bytes = timestamp.as_bytes();
    if bytes.len() < 10 {
        return None;
    }
    let mut label: Vec<u8> = Vec::new();
    label.push(118u8);
    let mut date = copy_dashless(bytes, 2, 10);
    label.append(&mut date);
    assert(label@ =~= seq![118u8] + dashless(bytes@.subrange(2, 10)));
    if label.len() != 7 {
        return None;
    }
    string_from_utf8(label)
}

/// Whether bytes spell a sync version of the dated form: `v` and six
/// digits.
pub open spec fn is_dated_version(version: Seq<u8>) -> bool {
    version.len() == 7 && version[0] == 118 && all_digits(version.skip(1))
}

/// Whether bytes have the shape of the clock's short date: six digits, two
/// each for the year within its century, the month and the day.
pub open spec fn is_short_date(date: Seq<u8>) -> bool {
    date.len() == 6 && all_digits(date)
}

/// The sync version of today's date: `v` and the six digits of the clock's
/// short date.
pub fn current_sync_version() -> (out: String)
    ensures
        is_dated_version(encode_utf8(out@)),
{
    let today = today_short();
    let mut label: Vec<u8> = Vec::new();
    label.push(118u8);
    push_bytes(&mut label, today.as_str().as_bytes());
    proof {
        let date = encode_utf8(today@);
        assert(label@ =~= seq![118u8] + date);
        assert(label@.skip(1) =~= date);
        assert forall|i: int| 0 <= i < label@.len() implies #[trigger] label@[i] < 128 by {
            if i > 0 {
                assert(label@[i] == date[i - 1]);
            }
        }
        lemma_ascii_encoding(label@);
    }
    ascii_string(label)
}

/// Derives the sync version from a timestamp's date, and from today's date
/// where the timestamp has none. Either way it is a text of seven bytes that
/// begins with `v`; the one from today's date is of the dated form.
pub fn sync_version_from_iso(timestamp: &str) -> (out: String)
    ensures
        iso_sync_version(timestamp.spec_bytes()) is Some ==> out@ == decode_utf8(
            iso_sync_version(timestamp.spec_bytes())->0,
        ),
        iso_sync_version(timestamp.spec_bytes()) is None ==> is_dated_version(encode_utf8(out@)),
        encode_utf8(out@).len() == 7,
        encode_utf8(out@)[0] == 118,
{
    match sync_version_of(timestamp) {
        Some(label) => {
            proof {
                decode_utf8_encode_utf8(iso_sync_version(timestamp.spec_bytes())->0);
            }
            label
        },
        None => current_sync_version(),
    }
}

/// The capture day that a timestamp's date gives: the number spelled by its
/// first ten bytes once the hyphens are taken out.
pub open spec fn iso_captured_ymd(timestamp: Seq<u8>) -> Option<i64> {
    if timestamp.len() < 10 {
        None
    } else {
        parsed_i64(dashless(timestamp.subrange(0, 10)))
    }
}

/// Derives the capture day from a timestamp: `2026-02-03T...` gives
/// `20260203`.
pub fn captured_ymd_from_iso(timestamp: &str) -> (out: Option<i64>)
    ensures
        out == iso_captured_ymd(timestamp.spec_bytes()),
{
    let bytes = timestamp.as_bytes();
    if bytes.len() < 10 {
        return None;
    }
    let date = copy_dashless(bytes, 0, 10);
    parse_i64(date.as_slice())
}

/// The capture day that a dated sync version stands for: `v260203` stands
/// for `20260203`, the number spelled by `20` and the version's six digits.
pub open spec fn version_captured_ymd(version: Seq<u8>) -> Option<i64> {
    if is_dated_version(version) {
        parsed_i64(seq![50u8, 48u8] + version.skip(1))
    } else {
        None
    }
}

/// Derives the capture day from a sync version of the dated form.
pub fn captured_ymd_from_sync_version(sync_version: &str) -> (out: Option<i64>)
    ensures
        out == version_captured_ymd(sync_version.spec_bytes()),
{
    let bytes = sync_version.as_bytes();
    if bytes.len() != 7 || bytes[0] != 118u8 {
        return None;
    }
    let ghost digits = bytes@.skip(1);
    let mut day: Vec<u8> = Vec::new();
    day.push(50u8);
    day.push(48u8);
    let mut i: usize = 1;
    while i < 7
        invariant
            1 <= i <= 7,
            bytes@.len() == 7,
            bytes@[0] == 118,
            bytes@ == sync_version.spec_bytes(),
            digits == bytes@.skip(1),
            forall|k: int| 0 <= k < i - 1 ==> 48 <= #[trigger] digits[k] <= 57,
            day@ == seq![50u8, 48u8] + digits.take(i - 1),
        decreases 7 - i,
    {
        let byte: u8 = bytes[i];
        assert(digits[i - 1] == byte);
        if byte < 48 || byte > 57 {
            assert(!all_digits(digits));
            return None;
        }
        day.push(byte);
        assert(day@ =~= seq![50u8, 48u8] + digits.take(i as int));
        i = i + 1;
    }
    assert(digits.take(6) =~= digits);
    parse_i64(day.as_slice())
}

/// The number that a text spells, or 0 where it spells none.
pub open spec fn day_spelled(text: Seq<u8>) -> i64 {
    match parsed_i64(text) {
        Some(day) => day,
        None => 0,
    }
}

/// Reads a capture day from the eight digits of a date; a text that spells
/// no number counts as day 0.
pub fn day_from_digits(text: &str) -> (day: i64)
    ensures
        day == day_spelled(text.spec_bytes()),
{
    match parse_i64(text.as_bytes()) {
        Some(day) => day,
        None => 0,
    }
}

/// Whether bytes have the shape of the clock's long date: the digits of
/// the year, which do not begin with a zero, and two each for the month and
/// the day. They are eight in all, or from the year 10000 on nine or ten
/// behind a plus sign.
pub open spec fn is_long_date(date: Seq<u8>) -> bool {
    ||| date.len() == 8 && all_digits(date) && date[0] >= 49
    ||| 10 <= date.len() <= 11 && date[0] == 43 && all_digits(date.skip(1)) && date[1] >= 49
}

/// Whether a number is a capture day as the clock gives it: the number that
/// a long date spells.
pub open spec fn is_clock_day(day: i64) -> bool {
    exists|date: Seq<u8>| is_long_date(date) && #[trigger] parsed_i64(date) == Some(day)
}

/// A long date spells a number above zero.
pub proof fn lemma_long_date_spells(date: Seq<u8>)
    requires
        is_long_date(date),
    ensures
        parsed_i64(date) is Some,
        parsed_i64(date)->0 > 0,
{
    let digits = if date[0] == 43 {
        date.skip(1)
    } else {
        date
    };
    lemma_ten_digits_fit(digits);
    lemma_digits_value_positive(digits);
}

/// A capture day that the clock gives is above zero.
pub proof fn lemma_clock_day_positive(day: i64)
    requires
        is_clock_day(day),
    ensures
        day > 0,
{
    let date = choose|date: Seq<u8>| is_long_date(date) && #[trigger] parsed_i64(date) == Some(day);
    lemma_long_date_spells(date);
}

/// Today's capture day: the number that the clock's long date spells, which
/// is above zero.
pub fn current_captured_ymd() -> (day: i64)
    ensures
        is_clock_day(day),
        day > 0,
{
    let today = today_long();
    proof {
        lemma_long_date_spells(encode_utf8(today@));
    }
    let day = day_from_digits(today.as_str());
    assert(parsed_i64(encode_utf8(today@)) == Some(day));
    day
}

/// Whether the bytes from `year_from` on are a date and the `T` that ends
/// it: the digits of a year up to `year_to`, which do not begin with a zero,
/// a hyphen, two digits of a month, a hyphen, and two digits of a day.
pub open spec fn begins_with_date(time: Seq<u8>, year_from: int, year_to: int) -> bool {
    &&& 0 <= year_from < year_to
    &&& time.len() > year_to + 6
    &&& time[year_from] >= 49
    &&& forall|i: int| year_from <= i < year_to ==> 48 <= #[trigger] time[i] <= 57
    &&& time[year_to] == 45
    &&& 48 <= time[year_to + 1] <= 57
    &&& 48 <= time[year_to + 2] <= 57
    &&& time[year_to + 3] == 45
    &&& 48 <= time[year_to + 4] <= 57
    &&& 48 <= time[year_to + 5] <= 57
    &&& time[year_to + 6] == 84
}

/// Whether bytes have the shape of the clock's time: they begin with a date
/// whose year has four digits, or from the year 10000 on with a plus sign
/// and a date whose year has five or six.
pub open spec fn is_clock_time(time: Seq<u8>) -> bool {
    ||| begins_with_date(time, 0, 4)
    ||| time.len() > 0 && time[0] == 43 && (begins_with_date(time, 1, 6) || begins_with_date(
        time,
        1,
        7,
    ))
}

/// The date of a clock's time with a year of four digits gives a sync
/// version of the dated form and a capture day above zero.
proof fn lemma_plain_year_dated(time: Seq<u8>)
    requires
        begins_with_date(time, 0, 4),
    ensures
        iso_sync_version(time) is Some ==> is_dated_version(iso_sync_version(time)->0),
        iso_captured_ymd(time) is Some ==> iso_captured_ymd(time)->0 > 0,
{
    let dash = seq![45u8];
    let month = time.subrange(5, 7);
    let day = time.subrange(8, 10);
    let short_year = time.subrange(2, 4);
    assert(time.subrange(2, 10) =~= short_year + dash + month + dash + day);
    lemma_dashless_date(short_year, month, day);
    let label = seq![118u8] + (short_year + month + day);
    assert(label.skip(1) =~= short_year + month + day);
    let year = time.subrange(0, 4);
    assert(time.subrange(0, 10) =~= year + dash + month + dash + day);
    lemma_dashless_date(year, month, day);
    lemma_digits_value_positive(year + month + day);
}

/// The date of a clock's time with a year of five digits gives a sync
/// version of the dated form and a capture day above zero.
proof fn lemma_five_digit_year_dated(time: Seq<u8>)
    requires
        time[0] == 43,
        begins_with_date(time, 1, 6),
    ensures
        iso_sync_version(time) is Some ==> is_dated_version(iso_sync_version(time)->0),
        iso_captured_ymd(time) is Some ==> iso_captured_ymd(time)->0 > 0,
{
    let dash = seq![45u8];
    let none = Seq::<u8>::empty();
    let month = time.subrange(7, 9);
    let short_year = time.subrange(2, 6);
    assert(time.subrange(2, 10) =~= short_year + dash + month + dash + none);
    lemma_dashless_date(short_year, month, none);
    let label = seq![118u8] + (short_year + month + none);
    assert(label.skip(1) =~= short_year + month + none);
    let year = time.subrange(0, 6);
    assert(time.subrange(0, 10) =~= year + dash + month + dash + none);
    lemma_dashless_date(year, month, none);
    let digits = (year + month + none).skip(1);
    assert(digits =~= time.subrange(1, 6) + month);
    lemma_digits_value_positive(digits);
}

/// The date of a clock's time with a year of six digits gives no sync
/// version, and a capture day above zero.
proof fn lemma_six_digit_year_dated(time: Seq<u8>)
    requires
        time[0] == 43,
        begins_with_date(time, 1, 7),
    ensures
        iso_sync_version(time) is None,
        iso_captured_ymd(time) is Some ==> iso_captured_ymd(time)->0 > 0,
{
    let dash = seq![45u8];
    let month = time.subrange(8, 10);
    let short_year = time.subrange(2, 7);
    assert(time.subrange(2, 10) =~= short_year + dash + month);
    lemma_dashless_past_dash(short_year, month);
    lemma_dashless_keeps(month);
    let year = time.subrange(0, 7);
    assert(time.subrange(0, 10) =~= year + dash + month);
    lemma_dashless_past_dash(year, month);
    let digits = (year + month).skip(1);
    assert(digits =~= time.subrange(1, 7) + month);
    lemma_digits_value_positive(digits);
}

/// What the date of a clock's time gives: a sync version, where it gives
/// one, of the dated form, and a capture day, where it gives one, above
/// zero.
pub proof fn lemma_clock_time_dated(time: Seq<u8>)
    requires
        is_clock_time(time),
    ensures
        iso_sync_version(time) is Some ==> is_dated_version(iso_sync_version(time)->0),
        iso_captured_ymd(time) is Some ==> iso_captured_ymd(time)->0 > 0,
{
    if begins_with_date(time, 0, 4) {
        lemma_plain_year_dated(time);
    } else if begins_with_date(time, 1, 6) {
        lemma_five_digit_year_dated(time);
    } else {
        lemma_six_digit_year_dated(time);
    }
}

/// Whether a sync version and a capture day are those of a time: the
/// version is the label of the time's date and the day is the number that
/// the date spells. Where the time holds no date to read one of them from,
/// that one comes from the clock's date instead: such a version is of the
/// dated form, and such a day is one that the clock gives.
pub open spec fn dated_by(at: Seq<char>, version: Seq<char>, ymd: i64) -> bool {
    &&& match iso_sync_version(encode_utf8(at)) {
        Some(label) => version == decode_utf8(label),
        None => is_dated_version(encode_utf8(version)),
    }
    &&& match iso_captured_ymd(encode_utf8(at)) {
        Some(day) => ymd == day,
        None => is_clock_day(ymd),
    }
}

/// Whether a time, a sync version and a capture day are a stamp of the
/// clock: the time has the clock's shape, the version and the day are those
/// of the time, and so the version is of the dated form and the day is
/// above zero.
pub open spec fn clock_stamped(at: Seq<char>, version: Seq<char>, ymd: i64) -> bool {
    &&& is_clock_time(encode_utf8(at))
    &&& dated_by(at, version, ymd)
    &&& is_dated_version(encode_utf8(version))
    &&& ymd > 0
}

/// A version and a day that are those of a clock's time are of the dated
/// form and above zero.
pub proof fn lemma_clock_stamp(at: Seq<char>, version: Seq<char>, ymd: i64)
    requires
        is_clock_time(encode_utf8(at)),
        dated_by(at, version, ymd),
    ensures
        clock_stamped(at, version, ymd),
{
    let time = encode_utf8(at);
    lemma_clock_time_dated(time);
    if iso_sync_version(time) is Some {
        decode_utf8_encode_utf8(iso_sync_version(time)->0);
    }
    if iso_captured_ymd(time) is None {
        lemma_clock_day_positive(ymd);
    }
}

/// A moment as rows are stamped with it: the time, and the sync version
/// and capture day of that time.
#[derive(Debug)]
pub struct Stamp {
    pub at: String,
    pub sync_version: String,
    pub captured_ymd: i64,
}

/// Derives the sync version and the capture day of a time.
pub fn stamp_of(at: String) -> (stamp: Stamp)
    ensures
        stamp.at@ == at@,
        dated_by(stamp.at@, stamp.sync_version@, stamp.captured_ymd),
{
    let sync_version = sync_version_from_iso(at.as_str());
    let captured_ymd = match captured_ymd_from_iso(at.as_str()) {
        Some(day) => day,
        None => current_captured_ymd(),
    };
    Stamp { at, sync_version, captured_ymd }
}

/// Reads the clock, and derives the sync version and the capture day of its
/// time.
pub fn stamp_now() -> (stamp: Stamp)
    ensures
        clock_stamped(stamp.at@, stamp.sync_version@, stamp.captured_ymd),
{
    let stamp = stamp_of(now_iso());
    proof {
        lemma_clock_stamp(stamp.at@, stamp.sync_version@, stamp.captured_ymd);
    }
    stamp
}

} // verus!
