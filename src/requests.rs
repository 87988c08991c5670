//! The on-demand calculation request and its validation.

use vstd::prelude::*;
use crate::error::AppError;

verus! {

/// Bit pattern of the binary64 value `100.0`.
pub const ACCURACY_MAX_BITS: u64 = 0x4059_0000_0000_0000;

/// Bit pattern of the binary64 value `-0.0`.
pub const NEGATIVE_ZERO_BITS: u64 = 0x8000_0000_0000_0000;

/// Whether the binary64 value with bit pattern `bits` lies in `[0, 100]`.
///
/// With the sign bit clear, binary64 values order as their bit patterns, from
/// `+0.0` (all bits clear) up through `100.0` and on to infinity and the
/// NaNs; with it set, the only value not below zero is `-0.0`, and the rest
/// are negative or NaN.
pub open spec fn accuracy_in_range(bits: u64) -> bool {
    bits <= ACCURACY_MAX_BITS || bits == NEGATIVE_ZERO_BITS
}

/// The text of the rejection of a legacy score in a new-format request.
pub open spec fn legacy_with_lazer_message() -> Seq<char> {
    "Legacy score cannot be used with lazer calculations."@
}

/// The four game modes that the scoring engine knows.
#[derive(Debug, Clone, Copy, PartialEq, Eq)]
pub enum GameMode {
    Osu,
    Taiko,
    Catch,
    Mania,
}

/// The mode with code `code`, for codes `0` to `3`.
pub open spec fn mode_of_code(code: int) -> GameMode
    recommends
        0 <= code < 4,
{
    if code == 0 {
        GameMode::Osu
    } else if code == 1 {
        GameMode::Taiko
    } else if code == 2 {
        GameMode::Catch
    } else {
        GameMode::Mania
    }
}

impl GameMode {
    /// The mode of a request's mode code.
    pub fn from_code(code: u32) -> (r: Result<GameMode, AppError>)
        ensures
            code < 4 ==> r == Ok::<GameMode, AppError>(mode_of_code(code as int)),
            code >= 4 ==> r == Err::<GameMode, AppError>(AppError::InvalidGameMode(code)),
    {
        match code {
            0 => Ok(GameMode::Osu),
            1 => Ok(GameMode::Taiko),
            2 => Ok(GameMode::Catch),
            3 => Ok(GameMode::Mania),
            _ => Err(AppError::InvalidGameMode(code)),
        }
    }
}

/// A request for the rating of one play on one beatmap.
#[derive(Debug, Clone, PartialEq, Eq)]
pub struct CalculateRequest {
    pub beatmap_id: i32,
    pub mode: u32,
    pub mods: Option<String>,
    pub max_combo: Option<u32>,
    /// The accuracy in percent, as its IEEE-754 binary64 bit pattern.
    pub accuracy_bits: u64,
    pub miss_count: Option<u32>,
    pub passed_objects: Option<u32>,
    pub legacy_score: Option<i64>,
    pub lazer: Option<bool>,
}

impl CalculateRequest {
    /// Whether a legacy total score is given for a new-format calculation.
    pub open spec fn legacy_with_lazer(&self) -> bool {
        self.legacy_score is Some && self.lazer == Some(true)
    }

    /// Whether the request passes validation.
    pub open spec fn is_valid(&self) -> bool {
        accuracy_in_range(self.accuracy_bits) && !self.legacy_with_lazer()
    }

    /// Checks the accuracy range first, then the pairing of a legacy score
    /// with the new score format.
    pub fn validate(&self) -> (r: Result<(), AppError>)
        ensures
            !accuracy_in_range(self.accuracy_bits) ==> r == Err::<(), AppError>(
                AppError::InvalidAccuracy(self.accuracy_bits),
            ),
            accuracy_in_range(self.accuracy_bits) && self.legacy_with_lazer() ==> (r matches Err(
                AppError::BadRequest(m),
            ) && m@ == legacy_with_lazer_message()),
            r is Ok <==> self.is_valid(),
    {
        if !(self.accuracy_bits <= ACCURACY_MAX_BITS || self.accuracy_bits == NEGATIVE_ZERO_BITS) {
            return Err(AppError::InvalidAccuracy(self.accuracy_bits));
        }
        let lazer = match self.lazer {
            Some(b) => b,
            None => false,
        };
        if self.legacy_score.is_some() && lazer {
            let msg = "Legacy score cannot be used with lazer calculations.";
            proof {
                reveal_strlit("Legacy score cannot be used with lazer calculations.");
            }
            return Err(AppError::BadRequest(msg.to_string()));
        }
        Ok(())
    }
}

} // verus!
