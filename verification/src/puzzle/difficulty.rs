//! Difficulty by request rates alone.
use vstd::prelude::*;

use crate::config::{AppConfig, MIN_DIFFICULTY};

verus! {

/// Raises a base difficulty with the rates of requests.
#[derive(Debug, Clone, Copy, PartialEq, Eq, Structural)]
pub struct DifficultyCalculator {
    pub default: u32,
    pub min: u32,
    pub max: u32,
}

/// How much the rate of an address raises the difficulty.
pub open spec fn ip_bump(ip_count: u32) -> int {
    if ip_count > 50 {
        4
    } else if ip_count > 20 {
        2
    } else if ip_count > 10 {
        1
    } else {
        0
    }
}

/// How much the rate of a site raises the difficulty.
pub open spec fn site_bump(site_count: u32) -> int {
    if site_count > 500 {
        2
    } else if site_count > 200 {
        1
    } else {
        0
    }
}

pub open spec fn clamped(x: int, min: int, max: int) -> int {
    if x < min {
        min
    } else if x > max {
        max
    } else {
        x
    }
}

impl DifficultyCalculator {
    pub fn new(config: &AppConfig) -> (r: Self)
        ensures
            r.default == config.default_difficulty,
            r.min == MIN_DIFFICULTY,
            r.max == config.max_difficulty,
    {
        DifficultyCalculator {
            default: config.default_difficulty,
            min: MIN_DIFFICULTY,
            max: config.max_difficulty,
        }
    }

    /// The base difficulty, raised by the requests from an address and to a site in the
    /// current window, within the bounds.
    pub fn compute(&self, ip_count: u32, site_count: u32) -> (r: u32)
        requires
            self.min <= self.max,
            self.default + ip_bump(ip_count) + site_bump(site_count) <= u32::MAX,
        ensures
            r == clamped(
                self.default + ip_bump(ip_count) + site_bump(site_count),
                self.min as int,
                self.max as int,
            ),
    {
        let mut difficulty: u32 = self.default;
        if ip_count > 50 {
            difficulty += 4;
        } else if ip_count > 20 {
            difficulty += 2;
        } else if ip_count > 10 {
            difficulty += 1;
        }
        if site_count > 500 {
            difficulty += 2;
        } else if site_count > 200 {
            difficulty += 1;
        }
        if difficulty < self.min {
            self.min
        } else if difficulty > self.max {
            self.max
        } else {
            difficulty
        }
    }
}

/// More requests never make a puzzle easier.
pub proof fn lemma_bumps_monotone(ip: (u32, u32), site: (u32, u32))
    requires
        ip.0 <= ip.1,
        site.0 <= site.1,
    ensures
        0 <= ip_bump(ip.0) <= ip_bump(ip.1) <= 4,
        0 <= site_bump(site.0) <= site_bump(site.1) <= 2,
{
}

/// Where the bumps begin: an address with more than 10, 20 and 50 requests adds one, two and
/// four bits; a site with more than 200 and 500 adds one and two.
pub proof fn lemma_bumps(ip: u32, site: u32)
    ensures
        ip_bump(ip) >= 1 <==> ip >= 11,
        ip_bump(ip) >= 2 <==> ip >= 21,
        ip_bump(ip) >= 4 <==> ip >= 51,
        ip_bump(ip) != 3,
        site_bump(site) >= 1 <==> site >= 201,
        site_bump(site) >= 2 <==> site >= 501,
{
}

/// A number within the bounds is itself, and any other is the nearer bound.
pub proof fn lemma_clamped(x: int, min: int, max: int)
    requires
        min <= max,
    ensures
        min <= clamped(x, min, max) <= max,
        min <= x <= max ==> clamped(x, min, max) == x,
        x < min ==> clamped(x, min, max) == min,
        x > max ==> clamped(x, min, max) == max,
{
}

} // verus!
