//! Helpers shared by the request handlers.

use vstd::prelude::*;
use crate::db::common::{DBError, DBErrorView};

verus! {

/// Which of the two things that a cell can hold a request speaks of.
#[derive(Debug, Clone, Copy, PartialEq, Eq, Structural)]
pub enum TerrainOrCharacter {
    Terrain,
    Character,
}

/// The status of a reply.
#[derive(Debug, Clone, Copy, PartialEq, Eq, Structural)]
pub enum Status {
    Success,
    BadRequest,
    NotFound,
    InternalServerError,
}

impl Status {
    /// The number of this status on the wire.
    pub open spec fn code_spec(self) -> u16 {
        match self {
            Status::Success => 200,
            Status::BadRequest => 400,
            Status::NotFound => 404,
            Status::InternalServerError => 500,
        }
    }

    /// The number of this status on the wire.
    pub fn code(&self) -> (r: u16)
        ensures
            r == self.code_spec(),
    {
        match self {
            Status::Success => 200,
            Status::BadRequest => 400,
            Status::NotFound => 404,
            Status::InternalServerError => 500,
        }
    }
}

/// The status that a store error is answered with: a record that does not
/// exist is not found, everything else is a fault of the server.
pub open spec fn db_error_status_spec(e: DBErrorView) -> Status {
    if e is FindingRecord {
        Status::NotFound
    } else {
        Status::InternalServerError
    }
}

/// The status that a store error is answered with.
pub fn db_error_status(e: &DBError) -> (r: Status)
    ensures
        r == db_error_status_spec(e@),
{
    if e.is_missing_record() {
        Status::NotFound
    } else {
        Status::InternalServerError
    }
}

/// Whether `c` is one of the ten ASCII digits.
pub open spec fn is_digit(c: char) -> bool {
    '0' <= c && c <= '9'
}

/// The number that a sequence of ASCII digits writes in base ten.
pub open spec fn decimal(digits: Seq<char>) -> nat
    decreases digits.len(),
{
    if digits.len() == 0 {
        0
    } else {
        decimal(digits.drop_last()) * 10 + (digits.last() as nat - '0' as nat) as nat
    }
}

/// The digits of a number as written in a path: the text without one leading `+`.
pub open spec fn digits_of(s: Seq<char>) -> Seq<char> {
    if s.len() > 0 && s[0] == '+' {
        s.drop_first()
    } else {
        s
    }
}

/// The id that a path segment writes: one or more ASCII digits, after an
/// optional `+`, that write a number no larger than `u32::MAX`.
pub open spec fn parse_id_spec(s: Seq<char>) -> Option<u32> {
    let digits = digits_of(s);
    if digits.len() > 0 && (forall|i: int| 0 <= i < digits.len() ==> is_digit(#[trigger] digits[i]))
        && decimal(digits) <= u32::MAX {
        Some(decimal(digits) as u32)
    } else {
        None
    }
}

/// The id that a path segment writes, if it writes one.
pub fn parse_id(s: &str) -> (r: Option<u32>)
    ensures
        r == parse_id_spec(s@),
{
    let ghost digits = digits_of(s@);
    proof {
        assert(s@.skip(1) =~= s@.drop_first());
        assert(s@.skip(0) =~= s@);
    }
    let mut value: u64 = 0;
    let mut too_large = false;
    let mut signed = false;
    let mut any = false;
    for c in it: s.chars()
        invariant
            it.seq() == s@,
            digits == digits_of(s@),
            signed ==> it.index() >= 1 && s@[0] == '+' && digits == s@.skip(1),
            !signed && it.index() >= 1 ==> s@[0] != '+' && digits == s@,
            any == (it.index() > (if signed { 1int } else { 0int })),
            forall|j: int|
                (if signed { 1int } else { 0int }) <= j < it.index() ==> is_digit(#[trigger] s@[j]),
            !too_large ==> value == decimal(
                s@.subrange(if signed { 1int } else { 0int }, it.index() as int),
            ) && value <= u32::MAX,
            too_large ==> decimal(s@.subrange(if signed { 1int } else { 0int }, it.index() as int))
                > u32::MAX,
            it.index() == 0 ==> !signed && !any && !too_large && value == 0,
    {
        let ghost k = it.index() as int;
        let ghost from = if signed { 1int } else { 0int };
        if c == '+' && !signed && !any {
            proof {
                assert(s@.subrange(1, 1) =~= Seq::<char>::empty());
                assert(it.index() == 0);
            }
            signed = true;
        } else {
            if !(c >= '0' && c <= '9') {
                proof {
                    assert(!is_digit(s@[k]));
                    assert(digits[k - from] == s@[k]);
                }
                return None;
            }
            proof {
                assert(s@.subrange(from, k + 1).drop_last() =~= s@.subrange(from, k));
                assert(s@.subrange(from, k + 1).last() == c);
            }
            let digit: u64 = (c as u32 - '0' as u32) as u64;
            if !too_large {
                value = value * 10 + digit;
                if value > 0xffff_ffff {
                    too_large = true;
                }
            }
            any = true;
        }
    }
    proof {
        let from = if signed { 1int } else { 0int };
        assert(s@.subrange(from, s@.len() as int) =~= digits);
        assert forall|j: int| 0 <= j < digits.len() implies is_digit(#[trigger] digits[j]) by {
            assert(digits[j] == s@[j + from]);
        }
    }
    if !any {
        return None;
    }
    if too_large {
        None
    } else {
        Some(value as u32)
    }
}

} // verus!
