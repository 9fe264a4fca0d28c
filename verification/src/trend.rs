use crate::model::text_of;
use crate::price::Channel;
use crate::rank::{
    bytes_rank, lemma_bytes_rank_flip, lemma_bytes_rank_same, lemma_bytes_rank_trans, rank_text,
    text_rank, Rank,
};
use crate::store::{PriceFact, PriceStore};
use crate::text::same_text;
use vstd::prelude::*;
use vstd::string::*;
use vstd::utf8::*;

verus! {

/// The smallest move, in millionths, that is not taken for rounding noise:
/// nine thousandths of a currency unit.
pub const TREND_THRESHOLD: i128 = 9_000;

/// Which way a price moved between its last two observations.
#[derive(Clone, Copy, PartialEq, Eq, Structural, Debug)]
pub enum Direction {
    Up,
    Down,
    Flat,
    /// There are fewer than two observations.
    Unknown,
}

/// The movement of one channel of one printing.
#[derive(Debug)]
pub struct PriceTrend {
    pub current_price: Option<u64>,
    pub previous_price: Option<u64>,
    pub price_delta: Option<i128>,
    pub price_direction: Direction,
    pub last_price_at: Option<String>,
}

/// The mathematical value of a [`PriceTrend`].
pub struct TrendFact {
    pub current_price: Option<u64>,
    pub previous_price: Option<u64>,
    pub price_delta: Option<int>,
    pub price_direction: Direction,
    pub last_price_at: Option<Seq<char>>,
}

impl View for PriceTrend {
    type V = TrendFact;

    open spec fn view(&self) -> TrendFact {
        TrendFact {
            current_price: self.current_price,
            previous_price: self.previous_price,
            price_delta: match self.price_delta {
                Some(delta) => Some(delta as int),
                None => None,
            },
            price_direction: self.price_direction,
            last_price_at: text_of(self.last_price_at),
        }
    }
}

/// Whether a row is an observation of a channel of a printing.
pub open spec fn is_observation(row: PriceFact, printing_id: Seq<char>, channel: Channel) -> bool {
    row.printing_id == printing_id && row.channels.get(channel) is Some
}

/// Whether one row was captured strictly later than another.
pub open spec fn is_later(a: PriceFact, b: PriceFact) -> bool {
    text_rank(a.captured_at, b.captured_at) == Rank::After
}

/// The two most recent observations of a channel of a printing, over the
/// rows of all sync versions: the latest first. Of observations captured at
/// the same time the one that stands first in the rows counts as later.
pub open spec fn latest_two(rows: Seq<PriceFact>, printing_id: Seq<char>, channel: Channel) -> (
    Option<PriceFact>,
    Option<PriceFact>,
)
    decreases rows.len(),
{
    if rows.len() == 0 {
        (None, None)
    } else {
        let (newest, second) = latest_two(rows.drop_last(), printing_id, channel);
        let row = rows.last();
        if !is_observation(row, printing_id, channel) {
            (newest, second)
        } else if newest is None || is_later(row, newest->0) {
            (Some(row), newest)
        } else if second is None || is_later(row, second->0) {
            (newest, Some(row))
        } else {
            (newest, second)
        }
    }
}

/// The direction of a move: up or down where it exceeds the threshold,
/// flat within it, none where there is no move to speak of.
pub open spec fn direction_of(delta: Option<int>) -> Direction {
    match delta {
        Some(moved) => if moved > TREND_THRESHOLD {
            Direction::Up
        } else if moved < -TREND_THRESHOLD {
            Direction::Down
        } else {
            Direction::Flat
        },
        None => Direction::Unknown,
    }
}

/// The trend that the two most recent observations give.
pub open spec fn trend_from(
    newest: Option<PriceFact>,
    second: Option<PriceFact>,
    channel: Channel,
) -> TrendFact {
    let current = match newest {
        Some(row) => row.channels.get(channel),
        None => None,
    };
    let previous = match second {
        Some(row) => row.channels.get(channel),
        None => None,
    };
    let delta = if current is Some && previous is Some {
        Some(current->0 - previous->0)
    } else {
        None
    };
    TrendFact {
        current_price: current,
        previous_price: previous,
        price_delta: delta,
        price_direction: direction_of(delta),
        last_price_at: match newest {
            Some(row) => Some(row.captured_at),
            None => None,
        },
    }
}

/// The trend of a channel of a printing.
pub open spec fn trend_of(rows: Seq<PriceFact>, printing_id: Seq<char>, channel: Channel) -> TrendFact {
    let (newest, second) = latest_two(rows, printing_id, channel);
    trend_from(newest, second, channel)
}

/// What a trend reads as the current price is the latest there is: the
/// first of the two observations is an observation of the channel, no
/// observation of the channel was captured later, and it is there as soon
/// as there is any observation. The second is an observation too, and no
/// later than the first.
pub proof fn law_latest_observation(rows: Seq<PriceFact>, printing_id: Seq<char>, channel: Channel)
    ensures
        ({
            let (newest, second) = latest_two(rows, printing_id, channel);
            &&& newest is Some ==> is_observation(newest->0, printing_id, channel)
            &&& second is Some ==> is_observation(second->0, printing_id, channel) && newest
                is Some && !is_later(second->0, newest->0)
            &&& forall|i: int|
                0 <= i < rows.len() && is_observation(#[trigger] rows[i], printing_id, channel)
                    ==> newest is Some && !is_later(rows[i], newest->0)
        }),
    decreases rows.len(),
{
    if rows.len() > 0 {
        let front = rows.drop_last();
        law_latest_observation(front, printing_id, channel);
        let (old_newest, old_second) = latest_two(front, printing_id, channel);
        let (newest, second) = latest_two(rows, printing_id, channel);
        let row = rows.last();
        assert forall|i: int|
            0 <= i < rows.len() && is_observation(
                #[trigger] rows[i],
                printing_id,
                channel,
            ) implies newest is Some && !is_later(rows[i], newest->0) by {
            if i < front.len() {
                assert(front[i] == rows[i]);
                if is_observation(row, printing_id, channel) && is_later(row, old_newest->0) {
                    lemma_not_later_chain(rows[i], old_newest->0, row);
                }
            } else {
                lemma_bytes_rank_same(encode_utf8(row.captured_at), encode_utf8(row.captured_at));
            }
        }
        if is_observation(row, printing_id, channel) && old_newest is Some {
            if is_later(row, old_newest->0) {
                lemma_bytes_rank_flip(
                    encode_utf8(old_newest->0.captured_at),
                    encode_utf8(row.captured_at),
                );
                lemma_bytes_rank_flip(
                    encode_utf8(row.captured_at),
                    encode_utf8(old_newest->0.captured_at),
                );
            }
        }
    }
}

/// A row that is no later than a second, which a third is later than, is
/// not later than the third.
pub proof fn lemma_not_later_chain(a: PriceFact, b: PriceFact, c: PriceFact)
    requires
        !is_later(a, b),
        is_later(c, b),
    ensures
        !is_later(a, c),
{
    let (x, y, z) = (
        encode_utf8(a.captured_at),
        encode_utf8(b.captured_at),
        encode_utf8(c.captured_at),
    );
    lemma_bytes_rank_flip(y, z);
    lemma_bytes_rank_flip(z, y);
    lemma_bytes_rank_flip(x, z);
    lemma_bytes_rank_flip(z, x);
    lemma_bytes_rank_same(x, y);
    if bytes_rank(x, y) == Rank::Before {
        lemma_bytes_rank_trans(x, y, z);
    }
}

/// Classifies a move.
pub fn classify_move(delta: Option<i128>) -> (direction: Direction)
    ensures
        direction == direction_of(
            match delta {
                Some(moved) => Some(moved as int),
                None => None,
            },
        ),
{
    match delta {
        Some(moved) => {
            if moved > TREND_THRESHOLD {
                Direction::Up
            } else if moved < -TREND_THRESHOLD {
                Direction::Down
            } else {
                Direction::Flat
            }
        },
        None => Direction::Unknown,
    }
}

/// The word for a direction: `up`, `down`, `flat` or `none`.
pub fn direction_label(direction: Direction) -> (label: &'static str)
    ensures
        label@ == match direction {
            Direction::Up => "up"@,
            Direction::Down => "down"@,
            Direction::Flat => "flat"@,
            Direction::Unknown => "none"@,
        },
{
    match direction {
        Direction::Up => "up",
        Direction::Down => "down",
        Direction::Flat => "flat",
        Direction::Unknown => "none",
    }
}

/// Derives the movement of one channel of a printing from its two most
/// recent observations, over the rows of all sync versions.
pub fn build_price_trend_by_column(prices: &PriceStore, printing_id: &str, channel: Channel) -> (trend:
    PriceTrend)
    ensures
        trend@ == trend_of(prices@, printing_id@, channel),
{
    let ghost rows = prices@;
    let mut newest: Option<usize> = None;
    let mut second: Option<usize> = None;
    let mut i: usize = 0;
    assert(rows.take(0) =~= Seq::<PriceFact>::empty());
    while i < prices.len()
        invariant
            rows == prices@,
            i <= rows.len(),
            newest is Some ==> newest->0 < i,
            second is Some ==> second->0 < i,
            latest_two(rows.take(i as int), printing_id@, channel) == (
                match newest {
                    Some(at) => Some(rows[at as int]),
                    None => None,
                },
                match second {
                    Some(at) => Some(rows[at as int]),
                    None => None,
                },
            ),
        decreases rows.len() - i,
    {
        let row = prices.row(i);
        proof {
            assert(rows.take(i + 1).drop_last() =~= rows.take(i as int));
            assert(rows.take(i + 1).last() == row@);
        }
        if same_text(row.printing_id.as_str(), printing_id) && row.channels.price(channel).is_some() {
            let beats_newest = match newest {
                Some(at) => rank_text(
                    row.captured_at.as_str(),
                    prices.row(at).captured_at.as_str(),
                ) == Rank::After,
                None => true,
            };
            if beats_newest {
                second = newest;
                newest = Some(i);
            } else {
                let beats_second = match second {
                    Some(at) => rank_text(
                        row.captured_at.as_str(),
                        prices.row(at).captured_at.as_str(),
                    ) == Rank::After,
                    None => true,
                };
                if beats_second {
                    second = Some(i);
                }
            }
        }
        i = i + 1;
    }
    assert(rows.take(i as int) =~= rows);
    let current_price = match newest {
        Some(at) => prices.row(at).channels.price(channel),
        None => None,
    };
    let previous_price = match second {
        Some(at) => prices.row(at).channels.price(channel),
        None => None,
    };
    let price_delta: Option<i128> = match (current_price, previous_price) {
        (Some(current), Some(previous)) => Some(current as i128 - previous as i128),
        _ => None,
    };
    PriceTrend {
        current_price,
        previous_price,
        price_delta,
        price_direction: classify_move(price_delta),
        last_price_at: match newest {
            Some(at) => Some(prices.row(at).captured_at.clone()),
            None => None,
        },
    }
}

/// Derives the movement of a printing's market price.
pub fn build_price_trend(prices: &PriceStore, printing_id: &str) -> (trend: PriceTrend)
    ensures
        trend@ == trend_of(prices@, printing_id@, Channel::TcgMarket),
{
    build_price_trend_by_column(prices, printing_id, Channel::TcgMarket)
}

} // verus!
