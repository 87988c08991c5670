//! The bulk recalculation: trigger messages, the decisions made for each
//! record and player, and the pass over all modes as a state machine that
//! the caller drives with the outcome of each store operation.

use vstd::prelude::*;
use vstd::string::StringExecFns;
use crate::performance::ModsPlan;
use crate::requests::{GameMode, mode_of_code};
use crate::score::{Score, UserInfo};
use crate::text::{
    chars_of, decimal_i32, int_text, int_to_text, lemma_int_text_round_trip, parse_i32,
    signed_decimal, trim_chars, trimmed,
};

verus! {

/// The privilege bit of players shown on public rankings.
pub const UNRESTRICTED: i32 = 1;

/// The mod bit of relax.
pub const RELAX: i32 = 128;

/// A request to recalculate everything, naming the player who asked.
#[derive(Debug, Clone, Copy, PartialEq, Eq)]
pub struct RecalculateMessage {
    pub user_id: i32,
}

/// A trigger payload that is not a player id.
#[derive(Debug, Clone, Copy, PartialEq, Eq)]
pub enum MessageError {
    InvalidUserId,
}

impl RecalculateMessage {
    /// Reads a payload: a decimal `i32`, with surrounding whitespace allowed.
    pub fn parse(message: &str) -> (r: Result<Self, MessageError>)
        ensures
            match decimal_i32(trimmed(message@)) {
                Some(v) => r == Ok::<Self, MessageError>(RecalculateMessage { user_id: v }),
                None => r == Err::<Self, MessageError>(MessageError::InvalidUserId),
            },
    {
        let chars = chars_of(message);
        let t = trim_chars(&chars);
        match parse_i32(&t) {
            Some(v) => Ok(RecalculateMessage { user_id: v }),
            None => Err(MessageError::InvalidUserId),
        }
    }
}

/// The payload announcing that the pass triggered by `user_id` finished.
pub fn completion_payload(user_id: i32) -> (r: String)
    ensures
        r@ == int_text(user_id as int),
{
    int_to_text(user_id as i64)
}

/// The completion payload reads back as the id of the player who triggered
/// the pass.
pub proof fn lemma_payload_round_trip(user_id: i32)
    ensures
        decimal_i32(int_text(user_id as int)) == Some(user_id),
        signed_decimal(int_text(user_id as int)) == Some(user_id as int),
{
    lemma_int_text_round_trip(user_id as int);
}

/// The base mode of a record's mode code.
pub open spec fn record_mode(code: i8) -> GameMode {
    mode_of_code(code as int % 4)
}

/// The play-style variants in which relax is never applied.
pub open spec fn relax_exempt(code: i8) -> bool {
    code == 12 || code == 16
}

/// The mod bitmask used for a record: the relax bit cleared in the exempt
/// variants, unchanged elsewhere.
pub open spec fn spec_effective_mods(code: i8, mods: i32) -> i32 {
    if relax_exempt(code) {
        mods & !RELAX
    } else {
        mods
    }
}

pub fn record_game_mode(code: i8) -> (r: GameMode)
    ensures
        r == record_mode(code),
{
    let base: i16 = ((code as i16) + 128) % 4;
    assert(base as int == code as int % 4);
    match base {
        0 => GameMode::Osu,
        1 => GameMode::Taiko,
        2 => GameMode::Catch,
        _ => GameMode::Mania,
    }
}

pub fn effective_mods(code: i8, mods: i32) -> (r: i32)
    ensures
        r == spec_effective_mods(code, mods),
{
    if code == 12 || code == 16 {
        mods & !RELAX
    } else {
        mods
    }
}

/// In the exempt variants a bitmask with the relax bit resolves as the same
/// bitmask without it, and no other bit changes; in every other mode the
/// bitmask is kept as it is.
pub proof fn lemma_relax_masking(code: i8, mods: i32)
    ensures
        relax_exempt(code) ==> spec_effective_mods(code, mods | RELAX) == spec_effective_mods(
            code,
            mods,
        ),
        relax_exempt(code) ==> spec_effective_mods(code, mods) & RELAX == 0,
        relax_exempt(code) ==> spec_effective_mods(code, mods) | RELAX == mods | RELAX,
        !relax_exempt(code) ==> spec_effective_mods(code, mods) == mods,
{
    assert((mods | 128i32) & !128i32 == mods & !128i32) by (bit_vector);
    assert((mods & !128i32) & 128i32 == 0) by (bit_vector);
    assert((mods & !128i32) | 128i32 == mods | 128i32) by (bit_vector);
}

pub open spec fn spec_mods_text(score: Score) -> Seq<char> {
    let bits = int_text(spec_effective_mods(score.mode, score.mods) as int);
    if score.lazer {
        match score.mods_json {
            Some(j) => j@,
            None => bits,
        }
    } else {
        bits
    }
}

pub fn mods_plan(score: &Score) -> (r: ModsPlan)
    ensures
        r.mode == record_mode(score.mode),
        r.text@ == spec_mods_text(*score),
        r.legacy_as_bits == !score.lazer,
{
    let bits = effective_mods(score.mode, score.mods);
    let text = if score.lazer {
        match &score.mods_json {
            Some(j) => j.clone(),
            None => int_to_text(bits as i64),
        }
    } else {
        int_to_text(bits as i64)
    };
    ModsPlan { mode: record_game_mode(score.mode), text, legacy_as_bits: !score.lazer }
}

/// Everything the scoring engine is handed to rate one stored record.
#[derive(Debug, Clone, PartialEq, Eq)]
pub struct ScoreCalculation {
    pub beatmap_id: i32,
    pub combo: u32,
    pub n300: u32,
    pub n100: u32,
    pub n50: u32,
    pub misses: u32,
    pub n_geki: u32,
    pub n_katu: u32,
    pub lazer: bool,
    /// Given for records in the legacy score format only.
    pub legacy_total_score: Option<i64>,
    pub mods: ModsPlan,
}

/// The engine input for a stored record, taken from its stored counts.
pub fn score_calculation(score: &Score) -> (r: ScoreCalculation)
    ensures
        r.beatmap_id == score.map_id,
        r.combo == score.max_combo as u32,
        r.n300 == score.n300 as u32,
        r.n100 == score.n100 as u32,
        r.n50 == score.n50 as u32,
        r.misses == score.nmiss as u32,
        r.n_geki == score.ngeki as u32,
        r.n_katu == score.nkatu as u32,
        r.lazer == score.lazer,
        r.legacy_total_score == if score.lazer {
            None
        } else {
            Some(score.score as i64)
        },
        r.mods.mode == record_mode(score.mode),
        r.mods.text@ == spec_mods_text(*score),
        r.mods.legacy_as_bits == !score.lazer,
{
    ScoreCalculation {
        beatmap_id: score.map_id,
        combo: #[verifier::truncate]
        (score.max_combo as u32),
        n300: #[verifier::truncate]
        (score.n300 as u32),
        n100: #[verifier::truncate]
        (score.n100 as u32),
        n50: #[verifier::truncate]
        (score.n50 as u32),
        misses: #[verifier::truncate]
        (score.nmiss as u32),
        n_geki: #[verifier::truncate]
        (score.ngeki as u32),
        n_katu: #[verifier::truncate]
        (score.nkatu as u32),
        lazer: score.lazer,
        legacy_total_score: if score.lazer {
            None
        } else {
            Some(score.score as i64)
        },
        mods: mods_plan(score),
    }
}


/// What is done for a player once their eligible best records are known.
#[derive(Debug, Clone, Copy, PartialEq, Eq)]
pub enum PlayerAction {
    /// No eligible record: the stored aggregate is left as it is.
    Skip,
    /// Compute the weighted aggregate from the records and store it.
    PersistStats,
}

/// The player-stage decision for a player with `best_count` eligible records.
pub fn player_action(best_count: usize) -> (r: PlayerAction)
    ensures
        best_count == 0 ==> r == PlayerAction::Skip,
        best_count > 0 ==> r == PlayerAction::PersistStats,
{
    if best_count == 0 {
        PlayerAction::Skip
    } else {
        PlayerAction::PersistStats
    }
}

pub open spec fn is_unrestricted(privs: i32) -> bool {
    privs & UNRESTRICTED != 0
}

pub open spec fn leaderboard_prefix() -> Seq<char> {
    "bancho:leaderboard:"@
}

/// The key of the global ranking of mode `mode`.
pub open spec fn global_key(mode: i32) -> Seq<char> {
    leaderboard_prefix() + int_text((mode as u8) as int)
}

/// The key of the ranking of mode `mode` in region `country`.
pub open spec fn regional_key(mode: i32, country: Seq<char>) -> Seq<char> {
    global_key(mode) + ":"@ + country
}

/// The rankings a player's stored aggregate is written to, after it has
/// been stored: the global and the regional ranking of the mode for an
/// unrestricted player, none for a restricted one.
pub fn leaderboard_keys(mode: i32, info: &UserInfo) -> (r: Vec<String>)
    ensures
        !is_unrestricted(info.privs) ==> r@.len() == 0,
        is_unrestricted(info.privs) ==> r@.len() == 2 && r@[0]@ == global_key(mode) && r@[1]@
            == regional_key(mode, info.country@),
{
    let mut keys: Vec<String> = Vec::new();
    if info.privs & UNRESTRICTED == 0 {
        return keys;
    }
    proof {
        reveal_strlit("bancho:leaderboard:");
        reveal_strlit(":");
    }
    let mut global = "bancho:leaderboard:".to_string();
    let code = int_to_text(#[verifier::truncate] (mode as u8) as i64);
    global.append(code.as_str());
    let mut regional = global.clone();
    regional.append(":");
    regional.append(info.country.as_str());
    keys.push(global);
    keys.push(regional);
    keys
}

/// The modes recalculated by a pass, in order: the four base modes, then
/// the play-style variants of the host server.
pub open spec fn recalc_modes() -> Seq<i32> {
    seq![0i32, 1, 2, 3, 4, 5, 6, 8, 12, 16, 20]
}

pub const MODE_COUNT: usize = 11;

/// The mode recalculated at position `index` of a pass.
pub fn recalc_mode(index: usize) -> (r: i32)
    requires
        index < MODE_COUNT,
    ensures
        r == recalc_modes()[index as int],
{
    match index {
        0 => 0,
        1 => 1,
        2 => 2,
        3 => 3,
        4 => 4,
        5 => 5,
        6 => 6,
        7 => 8,
        8 => 12,
        9 => 16,
        _ => 20,
    }
}

/// The stage of a pass.
#[derive(Debug, Clone, Copy, PartialEq, Eq, Structural)]
pub enum Stage {
    /// Rating each eligible record of the current mode.
    Records,
    /// Aggregating each player of the current mode.
    Players,
    /// Every mode has been attempted.
    Finished,
}

/// What the caller reports to the pass.
#[derive(Debug, Clone, Copy, PartialEq, Eq)]
pub enum PassEvent {
    /// One record or player was updated.
    Updated,
    /// One record or player could not be updated.
    Failed,
    /// The stream of records or players ended.
    StreamEnded,
    /// The stream of records or players broke off.
    StreamFailed,
}

/// What the pass asks the caller to do next.
#[derive(Debug, Clone, Copy, PartialEq, Eq)]
pub enum PassAction {
    /// Stream the eligible records of this mode, reporting each outcome.
    StreamRecords(i32),
    /// Stream the players, aggregating each for this mode.
    StreamPlayers(i32),
    /// Go on with the current stream.
    Continue,
    /// Announce completion for this player id.
    Publish(i32),
    /// The pass is over; nothing is left to do.
    Idle,
}

/// A pass over all modes, triggered by one player.
#[derive(Debug, Clone, Copy, PartialEq, Eq)]
pub struct RecalcPass {
    pub trigger: i32,
    /// The position of the current mode in `recalc_modes()`.
    pub mode_index: usize,
    pub stage: Stage,
    /// Items updated so far in the current stage.
    pub updated: u64,
}

impl RecalcPass {
    pub open spec fn wf(&self) -> bool {
        self.mode_index < MODE_COUNT && (self.stage == Stage::Finished ==> self.mode_index
            == MODE_COUNT - 1)
    }

    /// The pass right after a trigger.
    pub open spec fn initial(trigger: i32) -> RecalcPass {
        RecalcPass { trigger, mode_index: 0, stage: Stage::Records, updated: 0 }
    }

    /// Leaves the current mode: on to the records of the next mode, or done.
    pub open spec fn advance(self) -> (RecalcPass, PassAction) {
        if self.mode_index + 1 < MODE_COUNT {
            let i = (self.mode_index + 1) as usize;
            (
                RecalcPass { mode_index: i, stage: Stage::Records, updated: 0, ..self },
                PassAction::StreamRecords(recalc_modes()[i as int]),
            )
        } else {
            (RecalcPass { stage: Stage::Finished, updated: 0, ..self }, PassAction::Publish(
                self.trigger,
            ))
        }
    }

    /// The transition on `event`. A failed item only moves on to the next
    /// item; a record stream that ends leads to the player stage of the same
    /// mode; one that breaks off skips it; the end of the player stage moves
    /// on to the next mode.
    pub open spec fn next(self, event: PassEvent) -> (RecalcPass, PassAction) {
        if self.stage == Stage::Finished {
            (self, PassAction::Idle)
        } else {
            match event {
                PassEvent::Updated => (
                    RecalcPass {
                        updated: if self.updated < u64::MAX {
                            (self.updated + 1) as u64
                        } else {
                            self.updated
                        },
                        ..self
                    },
                    PassAction::Continue,
                ),
                PassEvent::Failed => (self, PassAction::Continue),
                PassEvent::StreamEnded => if self.stage == Stage::Records {
                    (
                        RecalcPass { stage: Stage::Players, updated: 0, ..self },
                        PassAction::StreamPlayers(recalc_modes()[self.mode_index as int]),
                    )
                } else {
                    self.advance()
                },
                PassEvent::StreamFailed => self.advance(),
            }
        }
    }

    /// Starts a pass for a trigger: the records of the first mode come first.
    pub fn start(msg: RecalculateMessage) -> (r: (RecalcPass, PassAction))
        ensures
            r.0 == RecalcPass::initial(msg.user_id),
            r.1 == PassAction::StreamRecords(recalc_modes()[0]),
            r.0.wf(),
    {
        (
            RecalcPass { trigger: msg.user_id, mode_index: 0, stage: Stage::Records, updated: 0 },
            PassAction::StreamRecords(recalc_mode(0)),
        )
    }

    fn advance_exec(&mut self) -> (r: PassAction)
        requires
            old(self).wf(),
            old(self).stage != Stage::Finished,
        ensures
            (*final(self), r) == old(self).advance(),
    {
        self.updated = 0;
        if self.mode_index + 1 < MODE_COUNT {
            self.mode_index = self.mode_index + 1;
            self.stage = Stage::Records;
            PassAction::StreamRecords(recalc_mode(self.mode_index))
        } else {
            self.stage = Stage::Finished;
            PassAction::Publish(self.trigger)
        }
    }

    /// Takes in what happened and says what to do next.
    pub fn step(&mut self, event: PassEvent) -> (r: PassAction)
        requires
            old(self).wf(),
        ensures
            (*final(self), r) == old(self).next(event),
            final(self).wf(),
    {
        if self.stage == Stage::Finished {
            return PassAction::Idle;
        }
        match event {
            PassEvent::Updated => {
                if self.updated < u64::MAX {
                    self.updated = self.updated + 1;
                }
                PassAction::Continue
            },
            PassEvent::Failed => PassAction::Continue,
            PassEvent::StreamEnded => {
                if self.stage == Stage::Records {
                    self.stage = Stage::Players;
                    self.updated = 0;
                    PassAction::StreamPlayers(recalc_mode(self.mode_index))
                } else {
                    self.advance_exec()
                }
            },
            PassEvent::StreamFailed => self.advance_exec(),
        }
    }
}


/// The pass after a trigger from `trigger` and then `events`, with every
/// action asked for along the way, the first one included.
pub open spec fn pass_run(trigger: i32, events: Seq<PassEvent>) -> (RecalcPass, Seq<PassAction>)
    decreases events.len(),
{
    if events.len() == 0 {
        (RecalcPass::initial(trigger), seq![PassAction::StreamRecords(recalc_modes()[0])])
    } else {
        let (q, acts) = pass_run(trigger, events.drop_last());
        let (q2, a) = q.next(events.last());
        (q2, acts.push(a))
    }
}

/// How many completion announcements `acts` holds.
pub open spec fn publish_count(acts: Seq<PassAction>) -> nat
    decreases acts.len(),
{
    if acts.len() == 0 {
        0
    } else {
        publish_count(acts.drop_last()) + if acts.last() is Publish {
            1nat
        } else {
            0nat
        }
    }
}

/// The modes whose records `acts` asks to stream, in order.
pub open spec fn records_streamed(acts: Seq<PassAction>) -> Seq<i32>
    decreases acts.len(),
{
    if acts.len() == 0 {
        Seq::empty()
    } else {
        match acts.last() {
            PassAction::StreamRecords(m) => records_streamed(acts.drop_last()).push(m),
            _ => records_streamed(acts.drop_last()),
        }
    }
}

/// How many streams `events` reports as ended or broken off.
pub open spec fn stream_ends(events: Seq<PassEvent>) -> nat
    decreases events.len(),
{
    if events.len() == 0 {
        0
    } else {
        stream_ends(events.drop_last()) + if events.last() is StreamEnded || events.last() is StreamFailed {
            1nat
        } else {
            0nat
        }
    }
}

/// How far a pass has come: two steps per mode.
pub open spec fn progress(p: RecalcPass) -> nat {
    if p.stage == Stage::Finished {
        2 * MODE_COUNT as nat
    } else if p.stage == Stage::Players {
        2 * p.mode_index as nat + 1
    } else {
        2 * p.mode_index as nat
    }
}

/// Whatever the outcome of each item and stream, a pass announces completion
/// at most once, only once it is finished, and then for the player who
/// triggered it; by then it has asked for the records of every mode, in
/// order; and after as many ended or broken streams as there are stages, it
/// is finished.
pub proof fn lemma_pass_run(trigger: i32, events: Seq<PassEvent>)
    ensures
        ({
            let (q, acts) = pass_run(trigger, events);
            &&& q.wf()
            &&& q.trigger == trigger
            &&& publish_count(acts) == if q.stage == Stage::Finished {
                1nat
            } else {
                0nat
            }
            &&& forall|i: int| 0 <= i < acts.len() && #[trigger] acts[i] is Publish ==> acts[i]
                == PassAction::Publish(trigger)
            &&& records_streamed(acts) == recalc_modes().subrange(0, q.mode_index + 1)
            &&& (q.stage == Stage::Finished ==> records_streamed(acts) == recalc_modes())
            &&& progress(q) >= if stream_ends(events) < 2 * MODE_COUNT {
                stream_ends(events)
            } else {
                2 * MODE_COUNT as nat
            }
            &&& (stream_ends(events) >= 2 * MODE_COUNT ==> q.stage == Stage::Finished)
        }),
    decreases events.len(),
{
    let (q, acts) = pass_run(trigger, events);
    if events.len() == 0 {
        let first = seq![PassAction::StreamRecords(recalc_modes()[0])];
        assert(first.drop_last() =~= Seq::<PassAction>::empty());
        assert(records_streamed(Seq::<PassAction>::empty()) == Seq::<i32>::empty());
        assert(publish_count(Seq::<PassAction>::empty()) == 0);
        assert(first.last() == PassAction::StreamRecords(recalc_modes()[0]));
        assert(records_streamed(first) == Seq::<i32>::empty().push(recalc_modes()[0]));
        assert(publish_count(first) == 0);
        assert(records_streamed(first) =~= recalc_modes().subrange(0, 1));
    } else {
        let prev = events.drop_last();
        let e = events.last();
        lemma_pass_run(trigger, prev);
        let (p, pacts) = pass_run(trigger, prev);
        let (p2, a) = p.next(e);
        assert(q == p2 && acts == pacts.push(a));
        assert(acts.drop_last() =~= pacts);
        assert(events.drop_last() =~= prev);
        assert forall|i: int| 0 <= i < acts.len() && #[trigger] acts[i] is Publish implies acts[i]
            == PassAction::Publish(trigger) by {
            if i < pacts.len() {
                assert(acts[i] == pacts[i]);
            }
        }
        if p.stage != Stage::Finished && (e is StreamFailed || (e is StreamEnded && p.stage
            == Stage::Players)) && p.mode_index + 1 < MODE_COUNT {
            assert(recalc_modes().subrange(0, p.mode_index + 1).push(
                recalc_modes()[p.mode_index + 1],
            ) =~= recalc_modes().subrange(0, p.mode_index + 2));
        }
        if q.stage == Stage::Finished {
            assert(recalc_modes().subrange(0, MODE_COUNT as int) =~= recalc_modes());
        }
    }
}

/// A record or player that fails is passed over and the stream goes on; the
/// end of the record stream still leads to the player stage of the same
/// mode, however many records failed.
pub proof fn lemma_failure_skips_item(p: RecalcPass)
    requires
        p.wf(),
        p.stage != Stage::Finished,
    ensures
        p.next(PassEvent::Failed) == (p, PassAction::Continue),
        p.stage == Stage::Records ==> p.next(PassEvent::StreamEnded) == (
            RecalcPass { stage: Stage::Players, updated: 0, ..p },
            PassAction::StreamPlayers(recalc_modes()[p.mode_index as int]),
        ),
{
}

} // verus!
