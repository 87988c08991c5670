//! The on-demand calculation: what the scoring engine is asked for a request.

use vstd::prelude::*;
use crate::error::AppError;
use crate::requests::{
    CalculateRequest, GameMode, accuracy_in_range, legacy_with_lazer_message, mode_of_code,
};

verus! {

/// How mods are handed to the mod normalizer, and how its result is applied.
#[derive(Debug, Clone, PartialEq, Eq)]
pub struct ModsPlan {
    /// The base mode the mods are read for.
    pub mode: GameMode,
    /// The mod text.
    pub text: String,
    /// Whether a legacy-bitmask result is applied as a bare number, as it is
    /// for the legacy score format.
    pub legacy_as_bits: bool,
}

/// Everything the scoring engine is handed for one on-demand calculation.
/// Absent attributes are left for the engine to choose.
#[derive(Debug, Clone, PartialEq, Eq)]
pub struct EngineRequest {
    pub mode: GameMode,
    pub lazer: bool,
    /// The accuracy in percent, as its IEEE-754 binary64 bit pattern.
    pub accuracy_bits: u64,
    pub combo: Option<u32>,
    pub misses: Option<u32>,
    pub passed_objects: Option<u32>,
    pub legacy_total_score: Option<i64>,
    pub mods: Option<ModsPlan>,
}

/// Serves on-demand calculations.
pub struct PerformanceService;

/// The plan for the request's mod text, if it has one.
pub open spec fn request_mods(request: CalculateRequest) -> Option<ModsPlan> {
    match request.mods {
        Some(t) => Some(
            ModsPlan {
                mode: mode_of_code(request.mode as int),
                text: t,
                legacy_as_bits: request.lazer != Some(true),
            },
        ),
        None => None,
    }
}

impl PerformanceService {
    pub fn new() -> Self {
        PerformanceService
    }

    /// Validates `request` and turns it into the engine's input. The caller
    /// resolves the beatmap between a successful validation and this call,
    /// so that a missing beatmap is reported before an unknown mode.
    pub fn calculate_performance(&self, request: &CalculateRequest) -> (r: Result<
        EngineRequest,
        AppError,
    >)
        ensures
            !request.is_valid() ==> (r matches Err(e) && e.is_validation()),
            !accuracy_in_range(request.accuracy_bits) ==> r == Err::<EngineRequest, AppError>(
                AppError::InvalidAccuracy(request.accuracy_bits),
            ),
            accuracy_in_range(request.accuracy_bits) && request.legacy_with_lazer() ==> (r matches Err(
                AppError::BadRequest(m),
            ) && m@ == legacy_with_lazer_message()),
            request.is_valid() && request.mode >= 4 ==> r == Err::<EngineRequest, AppError>(
                AppError::InvalidGameMode(request.mode),
            ),
            request.is_valid() && request.mode < 4 ==> r == Ok::<EngineRequest, AppError>(
                EngineRequest {
                    mode: mode_of_code(request.mode as int),
                    lazer: request.lazer == Some(true),
                    accuracy_bits: request.accuracy_bits,
                    combo: request.max_combo,
                    misses: request.miss_count,
                    passed_objects: request.passed_objects,
                    legacy_total_score: request.legacy_score,
                    mods: request_mods(*request),
                },
            ),
    {
        match request.validate() {
            Ok(()) => {},
            Err(e) => {
                return Err(e);
            },
        }
        let mode = match GameMode::from_code(request.mode) {
            Ok(m) => m,
            Err(e) => {
                return Err(e);
            },
        };
        let lazer = match request.lazer {
            Some(b) => b,
            None => false,
        };
        Ok(
            EngineRequest {
                mode,
                lazer,
                accuracy_bits: request.accuracy_bits,
                combo: request.max_combo,
                misses: request.miss_count,
                passed_objects: request.passed_objects,
                legacy_total_score: request.legacy_score,
                mods: match &request.mods {
                    Some(t) => Some(ModsPlan { mode, text: t.clone(), legacy_as_bits: !lazer }),
                    None => None,
                },
            },
        )
    }
}

} // verus!
