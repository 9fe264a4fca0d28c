use vstd::prelude::*;

verus! {

/// A price as a feed reported it, before it is checked. Amounts count
/// millionths of a currency unit, so `1_500_000` stands for 1.50.
#[derive(Clone, Copy, PartialEq, Eq, Structural, Debug)]
pub enum Reading {
    /// A finite amount, possibly negative.
    Amount(i64),
    /// Not a number, or infinite.
    NotFinite,
}

/// One of the five price channels of a price row.
#[derive(Clone, Copy, PartialEq, Eq, Structural, Debug)]
pub enum Channel {
    TcgLow,
    TcgMarket,
    TcgHigh,
    CkSell,
    CkBuylist,
}

/// The six value slots of a price row, each present or absent on its own.
/// Prices count millionths of a currency unit.
#[derive(Clone, Copy, Debug)]
pub struct Channels {
    pub tcg_low: Option<u64>,
    pub tcg_market: Option<u64>,
    pub tcg_high: Option<u64>,
    pub ck_sell: Option<u64>,
    pub ck_buylist: Option<u64>,
    pub ck_buylist_quantity_cap: Option<u64>,
}

/// What one observation reports for the six slots, unchecked.
#[derive(Clone, Copy, Debug)]
pub struct Readings {
    pub tcg_low: Option<Reading>,
    pub tcg_market: Option<Reading>,
    pub tcg_high: Option<Reading>,
    pub ck_sell: Option<Reading>,
    pub ck_buylist: Option<Reading>,
    pub ck_buylist_quantity_cap: Option<i64>,
}

/// Whether a reading is usable as a price: finite and not negative.
pub open spec fn reading_is_valid(reading: Reading) -> bool {
    reading matches Reading::Amount(amount) && amount >= 0
}

/// The price that a reading stands for; a missing, non-finite or negative
/// reading stands for none.
pub open spec fn cleaned(value: Option<Reading>) -> Option<u64> {
    match value {
        Some(Reading::Amount(amount)) => if amount >= 0 {
            Some(amount as u64)
        } else {
            None
        },
        _ => None,
    }
}

/// The quantity cap that a reported count stands for; a missing or negative
/// count stands for none.
pub open spec fn cleaned_count(value: Option<i64>) -> Option<u64> {
    match value {
        Some(count) => if count >= 0 {
            Some(count as u64)
        } else {
            None
        },
        None => None,
    }
}

/// `newer` where it is present, else `older`.
pub open spec fn coalesced<T>(newer: Option<T>, older: Option<T>) -> Option<T> {
    if newer is Some {
        newer
    } else {
        older
    }
}

/// Drops a reading that is missing, non-finite or negative.
pub fn clean_price(value: Option<Reading>) -> (price: Option<u64>)
    ensures
        price == cleaned(value),
{
    match value {
        Some(Reading::Amount(amount)) => {
            if amount >= 0 {
                Some(amount as u64)
            } else {
                None
            }
        },
        _ => None,
    }
}

/// Drops a count that is missing or negative.
pub fn clean_count(value: Option<i64>) -> (count: Option<u64>)
    ensures
        count == cleaned_count(value),
{
    match value {
        Some(count) => {
            if count >= 0 {
                Some(count as u64)
            } else {
                None
            }
        },
        None => None,
    }
}

/// Takes the newer value where there is one and keeps the older otherwise.
pub fn coalesce(newer: Option<u64>, older: Option<u64>) -> (kept: Option<u64>)
    ensures
        kept == coalesced(newer, older),
{
    match newer {
        Some(_) => newer,
        None => older,
    }
}

impl Readings {
    /// The slots that the readings fill once invalid values are dropped.
    pub open spec fn cleaned(self) -> Channels {
        Channels {
            tcg_low: cleaned(self.tcg_low),
            tcg_market: cleaned(self.tcg_market),
            tcg_high: cleaned(self.tcg_high),
            ck_sell: cleaned(self.ck_sell),
            ck_buylist: cleaned(self.ck_buylist),
            ck_buylist_quantity_cap: cleaned_count(self.ck_buylist_quantity_cap),
        }
    }

    /// Readings that report nothing.
    pub fn none() -> (readings: Readings)
        ensures
            readings.cleaned().is_empty(),
            readings == (Readings {
                tcg_low: None,
                tcg_market: None,
                tcg_high: None,
                ck_sell: None,
                ck_buylist: None,
                ck_buylist_quantity_cap: None,
            }),
    {
        Readings {
            tcg_low: None,
            tcg_market: None,
            tcg_high: None,
            ck_sell: None,
            ck_buylist: None,
            ck_buylist_quantity_cap: None,
        }
    }

    /// Readings that report one price, in the given channel, and nothing
    /// else.
    pub fn single(channel: Channel, reading: Reading) -> (readings: Readings)
        ensures
            readings.cleaned() == Channels::empty().with(channel, cleaned(Some(reading))),
            readings.ck_buylist_quantity_cap is None,
    {
        let mut readings = Readings::none();
        match channel {
            Channel::TcgLow => {
                readings.tcg_low = Some(reading);
            },
            Channel::TcgMarket => {
                readings.tcg_market = Some(reading);
            },
            Channel::TcgHigh => {
                readings.tcg_high = Some(reading);
            },
            Channel::CkSell => {
                readings.ck_sell = Some(reading);
            },
            Channel::CkBuylist => {
                readings.ck_buylist = Some(reading);
            },
        }
        readings
    }

    /// Checks every slot and keeps the valid values.
    pub fn clean(&self) -> (channels: Channels)
        ensures
            channels == self.cleaned(),
    {
        Channels {
            tcg_low: clean_price(self.tcg_low),
            tcg_market: clean_price(self.tcg_market),
            tcg_high: clean_price(self.tcg_high),
            ck_sell: clean_price(self.ck_sell),
            ck_buylist: clean_price(self.ck_buylist),
            ck_buylist_quantity_cap: clean_count(self.ck_buylist_quantity_cap),
        }
    }
}

impl Channels {
    /// The slots with nothing in them.
    pub open spec fn empty() -> Channels {
        Channels {
            tcg_low: None,
            tcg_market: None,
            tcg_high: None,
            ck_sell: None,
            ck_buylist: None,
            ck_buylist_quantity_cap: None,
        }
    }

    /// Whether all six slots are absent.
    pub open spec fn is_empty(self) -> bool {
        &&& self.tcg_low is None
        &&& self.tcg_market is None
        &&& self.tcg_high is None
        &&& self.ck_sell is None
        &&& self.ck_buylist is None
        &&& self.ck_buylist_quantity_cap is None
    }

    /// The price in one channel.
    pub open spec fn get(self, channel: Channel) -> Option<u64> {
        match channel {
            Channel::TcgLow => self.tcg_low,
            Channel::TcgMarket => self.tcg_market,
            Channel::TcgHigh => self.tcg_high,
            Channel::CkSell => self.ck_sell,
            Channel::CkBuylist => self.ck_buylist,
        }
    }

    /// The slots with one channel replaced.
    pub open spec fn with(self, channel: Channel, price: Option<u64>) -> Channels {
        match channel {
            Channel::TcgLow => Channels { tcg_low: price, ..self },
            Channel::TcgMarket => Channels { tcg_market: price, ..self },
            Channel::TcgHigh => Channels { tcg_high: price, ..self },
            Channel::CkSell => Channels { ck_sell: price, ..self },
            Channel::CkBuylist => Channels { ck_buylist: price, ..self },
        }
    }

    /// The coalescing merge: each slot takes the newer value where the newer
    /// observation has one, and keeps the stored value otherwise.
    pub open spec fn merged(self, newer: Channels) -> Channels {
        Channels {
            tcg_low: coalesced(newer.tcg_low, self.tcg_low),
            tcg_market: coalesced(newer.tcg_market, self.tcg_market),
            tcg_high: coalesced(newer.tcg_high, self.tcg_high),
            ck_sell: coalesced(newer.ck_sell, self.ck_sell),
            ck_buylist: coalesced(newer.ck_buylist, self.ck_buylist),
            ck_buylist_quantity_cap: coalesced(
                newer.ck_buylist_quantity_cap,
                self.ck_buylist_quantity_cap,
            ),
        }
    }

    /// Whether all six slots are absent.
    pub fn has_nothing(&self) -> (nothing: bool)
        ensures
            nothing == self.is_empty(),
    {
        self.tcg_low.is_none() && self.tcg_market.is_none() && self.tcg_high.is_none()
            && self.ck_sell.is_none() && self.ck_buylist.is_none()
            && self.ck_buylist_quantity_cap.is_none()
    }

    /// Reads the price in one channel.
    pub fn price(&self, channel: Channel) -> (price: Option<u64>)
        ensures
            price == self.get(channel),
    {
        match channel {
            Channel::TcgLow => self.tcg_low,
            Channel::TcgMarket => self.tcg_market,
            Channel::TcgHigh => self.tcg_high,
            Channel::CkSell => self.ck_sell,
            Channel::CkBuylist => self.ck_buylist,
        }
    }

    /// Merges a newer set of slots into these.
    pub fn merge(&self, newer: &Channels) -> (out: Channels)
        ensures
            out == self.merged(*newer),
    {
        Channels {
            tcg_low: coalesce(newer.tcg_low, self.tcg_low),
            tcg_market: coalesce(newer.tcg_market, self.tcg_market),
            tcg_high: coalesce(newer.tcg_high, self.tcg_high),
            ck_sell: coalesce(newer.ck_sell, self.ck_sell),
            ck_buylist: coalesce(newer.ck_buylist, self.ck_buylist),
            ck_buylist_quantity_cap: coalesce(
                newer.ck_buylist_quantity_cap,
                self.ck_buylist_quantity_cap,
            ),
        }
    }
}

} // verus!
