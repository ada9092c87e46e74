//! The units of a duration: a count of milliseconds split into days, hours,
//! minutes, seconds and milliseconds.

use vstd::arithmetic::div_mod::lemma_fundamental_div_mod_converse;
use vstd::prelude::*;

verus! {

/// Milliseconds in a second.
pub const SECOND: u128 = 1_000;

/// Milliseconds in a minute.
pub const MINUTE: u128 = 60_000;

/// Milliseconds in an hour.
pub const HOUR: u128 = 3_600_000;

/// Milliseconds in a day.
pub const DAY: u128 = 86_400_000;

/// A duration as whole units, in mathematical integers.
pub struct Breakdown {
    pub days: nat,
    pub hours: nat,
    pub minutes: nat,
    pub seconds: nat,
    pub milliseconds: nat,
}

impl Breakdown {
    /// The milliseconds that the units add up to.
    pub open spec fn total(self) -> nat {
        self.days * 86_400_000 + self.hours * 3_600_000 + self.minutes * 60_000 + self.seconds
            * 1_000 + self.milliseconds
    }

    /// Every unit below the day holds less than one of the next larger unit.
    pub open spec fn normalised(self) -> bool {
        &&& self.hours < 24
        &&& self.minutes < 60
        &&& self.seconds < 60
        &&& self.milliseconds < 1_000
    }
}

/// The units of `milliseconds`, the largest unit filled first.
pub open spec fn breakdown_of(milliseconds: nat) -> Breakdown {
    Breakdown {
        days: milliseconds / 86_400_000,
        hours: milliseconds % 86_400_000 / 3_600_000,
        minutes: milliseconds % 3_600_000 / 60_000,
        seconds: milliseconds % 60_000 / 1_000,
        milliseconds: milliseconds % 1_000,
    }
}

/// A duration as whole units: days, and what is left of it in hours, minutes,
/// seconds and milliseconds.
#[derive(Clone, Copy, Debug, PartialEq, Eq, Structural)]
pub struct UnitBreakdown {
    pub days: u128,
    pub hours: u128,
    pub minutes: u128,
    pub seconds: u128,
    pub milliseconds: u128,
}

impl View for UnitBreakdown {
    type V = Breakdown;

    open spec fn view(&self) -> Breakdown {
        Breakdown {
            days: self.days as nat,
            hours: self.hours as nat,
            minutes: self.minutes as nat,
            seconds: self.seconds as nat,
            milliseconds: self.milliseconds as nat,
        }
    }
}

/// A count of milliseconds has one normalised breakdown only.
pub proof fn lemma_breakdown_unique(b: Breakdown, milliseconds: nat)
    requires
        b.normalised(),
        b.total() == milliseconds,
    ensures
        b == breakdown_of(milliseconds),
{
    let m = milliseconds as int;
    let below_minute = b.seconds * 1_000 + b.milliseconds;
    let below_hour = b.minutes * 60_000 + below_minute;
    let below_day = b.hours * 3_600_000 + below_hour;
    lemma_fundamental_div_mod_converse(m, 86_400_000, b.days as int, below_day as int);
    lemma_fundamental_div_mod_converse(
        below_day as int,
        3_600_000,
        b.hours as int,
        below_hour as int,
    );
    lemma_fundamental_div_mod_converse(
        m,
        3_600_000,
        (b.days * 24 + b.hours) as int,
        below_hour as int,
    );
    lemma_fundamental_div_mod_converse(
        below_hour as int,
        60_000,
        b.minutes as int,
        below_minute as int,
    );
    lemma_fundamental_div_mod_converse(
        m,
        60_000,
        (b.days * 1_440 + b.hours * 60 + b.minutes) as int,
        below_minute as int,
    );
    lemma_fundamental_div_mod_converse(
        below_minute as int,
        1_000,
        b.seconds as int,
        b.milliseconds as int,
    );
    lemma_fundamental_div_mod_converse(
        m,
        1_000,
        (b.days * 86_400 + b.hours * 3_600 + b.minutes * 60 + b.seconds) as int,
        b.milliseconds as int,
    );
}

/// Splitting and adding up again gives the count back, and every unit below
/// the day stays under the size of the next larger unit.
pub proof fn lemma_breakdown_reconstructs(milliseconds: nat)
    ensures
        breakdown_of(milliseconds).total() == milliseconds,
        breakdown_of(milliseconds).normalised(),
{
    let below_day = milliseconds % 86_400_000;
    let below_hour = below_day % 3_600_000;
    let below_minute = below_hour % 60_000;
    let b = Breakdown {
        days: milliseconds / 86_400_000,
        hours: below_day / 3_600_000,
        minutes: below_hour / 60_000,
        seconds: below_minute / 1_000,
        milliseconds: below_minute % 1_000,
    };
    lemma_breakdown_unique(b, milliseconds);
}

/// Splits a count of milliseconds into whole units by successive division,
/// the largest unit first, each remainder carried to the next smaller unit.
pub fn decompose(milliseconds: u128) -> (b: UnitBreakdown)
    ensures
        b@ == breakdown_of(milliseconds as nat),
        b@.normalised(),
        b@.total() == milliseconds,
{
    let days = milliseconds / DAY;
    let rest = milliseconds % DAY;
    let hours = rest / HOUR;
    let rest = rest % HOUR;
    let minutes = rest / MINUTE;
    let rest = rest % MINUTE;
    let seconds = rest / SECOND;
    let rest = rest % SECOND;
    let b = UnitBreakdown { days, hours, minutes, seconds, milliseconds: rest };
    proof {
        lemma_breakdown_unique(b@, milliseconds as nat);
    }
    b
}

} // verus!
