//! The duel rules: player count, whose turn it is, the turn counter, and
//! a log of every step. It holds no card state.
use vstd::prelude::*;
use crate::dz::ports::{copy_log, log_views, DuelEnginePort, LogEntry, LogView, PlayerId};
use crate::text::{append_int, append_str, chars_of, copy_string, dec, owned, seq_eq};

verus! {

/// The rules engine of a duel.
pub struct DuelEngine {
    player_count: u32,
    active_player: u32,
    turn: u32,
    log: Vec<LogEntry>,
}

/// Name of the `n`th player: "P<n>".
pub open spec fn player_name(n: u32) -> Seq<char> {
    "P"@ + dec(n as int)
}

/// "当前不是 <player> 的回合".
pub open spec fn not_your_turn(player: Seq<char>) -> Seq<char> {
    "当前不是 "@ + player + " 的回合"@
}

/// The player after `active` in a seating of `count`.
pub open spec fn next_seat(active: u32, count: u32) -> u32 {
    ((active % count) + 1) as u32
}

fn name_of(n: u32) -> (r: String)
    ensures
        r@ == player_name(n),
{
    let mut s = owned("P");
    append_int(&mut s, n as i64);
    s
}

impl DuelEngine {
    pub closed spec fn count(&self) -> u32 {
        self.player_count
    }

    pub closed spec fn active(&self) -> u32 {
        self.active_player
    }

    pub closed spec fn turn_number(&self) -> u32 {
        self.turn
    }

    pub closed spec fn entries(&self) -> Seq<LogView> {
        log_views(self.log@)
    }

    pub fn new() -> (r: DuelEngine)
        ensures
            r.count() == 0,
            r.active() == 0,
            r.turn_number() == 0,
            r.entries().len() == 0,
    {
        DuelEngine { player_count: 0, active_player: 0, turn: 0, log: Vec::new() }
    }

    fn record(&mut self, action: &str, actor: Option<String>, target: Option<String>, result: String)
        ensures
            final(self).player_count == old(self).player_count,
            final(self).active_player == old(self).active_player,
            final(self).turn == old(self).turn,
            log_views(final(self).log@) == log_views(old(self).log@).push(
                LogView {
                    turn: old(self).turn,
                    action: action@,
                    actor: crate::dz::ports::opt_view(actor),
                    target: crate::dz::ports::opt_view(target),
                    result: result@,
                },
            ),
    {
        let e = LogEntry { turn: self.turn, action: owned(action), actor, target, result };
        let ghost before = self.log@;
        self.log.push(e);
        assert(log_views(self.log@) =~= log_views(before).push(e@));
    }

    fn is_active(&self, player: &PlayerId) -> (r: bool)
        ensures
            r == (player@ == player_name(self.active_player)),
    {
        let expected = name_of(self.active_player);
        let a = chars_of(player.0.as_str());
        let b = chars_of(expected.as_str());
        seq_eq(&a, &b)
    }
}

impl DuelEnginePort for DuelEngine {
    closed spec fn end_turn_ok(&self, player: PlayerId) -> bool {
        player@ == player_name(self.active_player) ==> {
            &&& self.player_count > 0
            &&& next_seat(self.active_player, self.player_count) == 1 ==> self.turn < u32::MAX
        }
    }

    /// Starts a duel for 2 to 8 players: player 1 to move, turn 1, a fresh log.
    fn init_duel(&mut self, player_count: u32) -> (r: Result<(), String>)
        ensures
            (player_count < 2 || player_count > 8) ==> (r matches Err(e) && e@ == "玩家数必须在 2~8 之间"@) && *final(self) == *old(self),
            2 <= player_count <= 8 ==> {
                &&& r is Ok
                &&& final(self).count() == player_count
                &&& final(self).active() == 1
                &&& final(self).turn_number() == 1
                &&& final(self).entries() == seq![LogView { turn: 1, action: "init_duel"@, actor: None, target: None, result: dec(player_count as int) + " 名玩家"@ }]
            },
    {
        if player_count < 2 || player_count > 8 {
            return Err(owned("玩家数必须在 2~8 之间"));
        }
        self.player_count = player_count;
        self.active_player = 1;
        self.turn = 1;
        self.log = Vec::new();
        let mut text = String::new();
        append_int(&mut text, player_count as i64);
        append_str(&mut text, " 名玩家");
        self.record("init_duel", None, None, text);
        assert(log_views(Seq::<LogEntry>::empty()) =~= Seq::<LogView>::empty());
        Ok(())
    }

    /// Starts the turn of the player whose turn it is; anyone else is refused.
    fn start_turn(&mut self, player: PlayerId) -> (r: Result<(), String>)
        ensures
            player@ != player_name(old(self).active()) ==> (r matches Err(e) && e@ == not_your_turn(player@))
                && *final(self) == *old(self),
            player@ == player_name(old(self).active()) ==> {
                &&& r is Ok
                &&& final(self).count() == old(self).count()
                &&& final(self).active() == old(self).active()
                &&& final(self).turn_number() == old(self).turn_number()
                &&& final(self).entries() == old(self).entries().push(LogView {
                    turn: old(self).turn_number(),
                    action: "start_turn"@,
                    actor: Some(player@),
                    target: None,
                    result: "第"@ + dec(old(self).turn_number() as int) + "回合"@,
                })
            },
    {
        if !self.is_active(&player) {
            let mut e = owned("当前不是 ");
            append_str(&mut e, player.0.as_str());
            append_str(&mut e, " 的回合");
            return Err(e);
        }
        let mut text = owned("第");
        append_int(&mut text, self.turn as i64);
        append_str(&mut text, "回合");
        self.record("start_turn", Some(copy_string(&player.0)), None, text);
        Ok(())
    }

    /// Ends the turn of the player whose turn it is; the next seat moves,
    /// and the turn counter goes up when play comes back to player 1.
    fn end_turn(&mut self, player: PlayerId) -> (r: Result<(), String>)
        ensures
            player@ != player_name(old(self).active()) ==> (r matches Err(e) && e@ == not_your_turn(player@))
                && *final(self) == *old(self),
            player@ == player_name(old(self).active()) ==> {
                let next = next_seat(old(self).active(), old(self).count());
                &&& r is Ok
                &&& final(self).count() == old(self).count()
                &&& final(self).active() == next
                &&& final(self).turn_number() == (if next == 1 {
                    old(self).turn_number() + 1
                } else {
                    old(self).turn_number() as int
                })
                &&& final(self).entries() == old(self).entries().push(LogView {
                    turn: old(self).turn_number(),
                    action: "end_turn"@,
                    actor: Some(player@),
                    target: None,
                    result: "回合结束"@,
                })
            },
    {
        if !self.is_active(&player) {
            let mut e = owned("当前不是 ");
            append_str(&mut e, player.0.as_str());
            append_str(&mut e, " 的回合");
            return Err(e);
        }
        self.record("end_turn", Some(copy_string(&player.0)), None, owned("回合结束"));
        self.active_player = (self.active_player % self.player_count) + 1;
        if self.active_player == 1 {
            self.turn = self.turn + 1;
        }
        Ok(())
    }

    /// A winner only when one player is left.
    fn check_win_condition(&self) -> (r: Option<PlayerId>)
        ensures
            self.count() == 1 ==> (r matches Some(p) && p@ == "P1"@),
            self.count() != 1 ==> r is None,
    {
        if self.player_count == 1 {
            Some(PlayerId(owned("P1")))
        } else {
            None
        }
    }

    fn get_effect_log(&self) -> (r: Vec<LogEntry>)
        ensures
            log_views(r@) == self.entries(),
    {
        copy_log(&self.log)
    }
}

} // verus!
