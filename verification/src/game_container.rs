use vstd::prelude::*;
use crate::errors::{ServiceError, ServiceErrorKind};
use crate::regular_game::{RegularGame, RegularGameModel};

verus! {

/// What each game of a stack holds, bottom first.
pub open spec fn game_models(s: Seq<RegularGame>) -> Seq<RegularGameModel> {
    s.map_values(|g: RegularGame| g@)
}

/// The two stacks of a game's history, by what their games hold, bottom first: the
/// games that can be undone (the last one is the current game) and the games that
/// can be redone.
pub struct StacksModel {
    pub undo: Seq<RegularGameModel>,
    pub redo: Seq<RegularGameModel>,
}

/// A game as it is pushed: the same game with the next index.
pub open spec fn pushed(g: RegularGameModel) -> RegularGameModel {
    RegularGameModel { game_index: (g.game_index + 1) as u64, ..g }
}

/// The stacks after a game is pushed: it becomes the current game and nothing can be
/// redone any more.
pub open spec fn after_push(m: StacksModel, g: RegularGameModel) -> StacksModel {
    StacksModel { undo: m.undo.push(pushed(g)), redo: Seq::empty() }
}

/// A move can be undone when there is a game before the current one (the first game
/// is never undone) and the current game allows it.
pub open spec fn undo_allowed(m: StacksModel) -> bool {
    m.undo.len() >= 2 && m.undo.last().can_undo
}

/// The stacks after an undo: the current game moves to the redo stack.
pub open spec fn after_undo(m: StacksModel) -> StacksModel {
    StacksModel { undo: m.undo.drop_last(), redo: m.redo.push(m.undo.last()) }
}

/// A move can be redone when the redo stack holds a game.
pub open spec fn redo_allowed(m: StacksModel) -> bool {
    m.redo.len() >= 1
}

/// The stacks after a redo: the top of the redo stack becomes the current game.
pub open spec fn after_redo(m: StacksModel) -> StacksModel {
    StacksModel { undo: m.undo.push(m.redo.last()), redo: m.redo.drop_last() }
}

/// The undo and redo stacks of a game.
#[derive(Debug)]
pub struct StateStacks {
    undo_stack: Vec<RegularGame>,
    redo_stack: Vec<RegularGame>,
}

impl View for StateStacks {
    type V = StacksModel;

    closed spec fn view(&self) -> StacksModel {
        StacksModel { undo: game_models(self.undo_stack@), redo: game_models(self.redo_stack@) }
    }
}

/// Copies of the games of a stack, in order.
fn clone_games(v: &Vec<RegularGame>) -> (res: Vec<RegularGame>)
    ensures
        game_models(res@) == game_models(v@),
{
    let res = v.clone();
    assert(game_models(res@) =~= game_models(v@));
    res
}

impl StateStacks {
    /// Empty stacks.
    pub fn new() -> (res: StateStacks)
        ensures
            res@.undo.len() == 0,
            res@.redo.len() == 0,
    {
        let res = StateStacks { undo_stack: Vec::new(), redo_stack: Vec::new() };
        assert(res@.undo =~= Seq::empty());
        res
    }

    /// Copies of the given stacks.
    pub fn from_state_stacks(stacks: &StateStacks) -> (res: StateStacks)
        ensures
            res@ == stacks@,
    {
        StateStacks {
            undo_stack: clone_games(&stacks.undo_stack),
            redo_stack: clone_games(&stacks.redo_stack),
        }
    }

    /// Pushes a copy of the game, with its index one higher, as the current game; the
    /// redo stack is emptied.
    pub fn push_game(&mut self, game: &RegularGame)
        requires
            game.game_index < u64::MAX,
        ensures
            final(self)@ == after_push(old(self)@, game@),
    {
        let mut copy = game.clone();
        copy.game_index = copy.game_index + 1;
        let ghost before = game_models(self.undo_stack@);
        self.undo_stack.push(copy);
        self.redo_stack.clear();
        assert(game_models(self.undo_stack@) =~= before.push(pushed(game@)));
        assert(game_models(self.redo_stack@) =~= Seq::empty());
    }

    /// The current game: a copy of the top of the undo stack, or an error when there is
    /// no game.
    pub fn current(&self) -> (res: Result<RegularGame, ServiceError>)
        ensures
            self@.undo.len() > 0 ==> (res matches Ok(g) && g@ == self@.undo.last()),
            self@.undo.len() == 0 ==> (res matches Err(e) && e.kind == ServiceErrorKind::ContainerError
                && e.message@ == "no current game available in this container!"@),
    {
        let n = self.undo_stack.len();
        if n == 0 {
            Err(ServiceError::new_container_error("no current game available in this container!"))
        } else {
            Ok(self.undo_stack[n - 1].clone())
        }
    }

    /// Whether the current move can be undone: there must be a game before the current one,
    /// and the current game must allow it.
    pub fn can_undo(&self) -> (res: Result<bool, ServiceError>)
        ensures
            res matches Ok(b) && b == undo_allowed(self@),
    {
        let n = self.undo_stack.len();
        if n < 2 {
            return Ok(false);
        }
        Ok(self.undo_stack[n - 1].can_undo)
    }

    /// Whether there is a game to redo.
    pub fn can_redo(&self) -> (res: Result<bool, ServiceError>)
        ensures
            res matches Ok(b) && b == (self@.redo.len() > 0),
    {
        Ok(self.redo_stack.len() > 0)
    }

    /// Moves the current game to the redo stack and returns the game that is current
    /// after it; refused, with the stacks unchanged, where the move cannot be undone.
    pub fn undo(&mut self) -> (res: Result<RegularGame, ServiceError>)
        ensures
            undo_allowed(old(self)@) ==> final(self)@ == after_undo(old(self)@)
                && (res matches Ok(g) && g@ == final(self)@.undo.last()),
            !undo_allowed(old(self)@) ==> final(self)@ == old(self)@
                && (res matches Err(e) && e.kind == ServiceErrorKind::ContainerError
                && e.message@ == "current state does not allow an undo"@),
    {
        let allowed = match self.can_undo() {
            Ok(b) => b,
            Err(e) => { return Err(e); },
        };
        if !allowed {
            return Err(ServiceError::new_container_error("current state does not allow an undo"));
        }
        let ghost m = self@;
        let game = self.undo_stack.pop().unwrap();
        self.redo_stack.push(game);
        assert(game_models(self.undo_stack@) =~= m.undo.drop_last());
        assert(game_models(self.redo_stack@) =~= m.redo.push(m.undo.last()));
        self.current()
    }

    /// Moves the top of the redo stack back onto the undo stack and returns it as the
    /// current game; refused, with the stacks unchanged, when the redo stack is empty.
    pub fn redo(&mut self) -> (res: Result<RegularGame, ServiceError>)
        ensures
            redo_allowed(old(self)@) ==> final(self)@ == after_redo(old(self)@)
                && (res matches Ok(g) && g@ == old(self)@.redo.last()),
            !redo_allowed(old(self)@) ==> final(self)@ == old(self)@
                && (res matches Err(e) && e.kind == ServiceErrorKind::ContainerError
                && e.message@ == "nothing to redo in this container"@),
    {
        let len = self.redo_stack.len();
        if len == 0 {
            return Err(ServiceError::new_container_error("nothing to redo in this container"));
        }
        let ghost m = self@;
        let game = self.redo_stack.pop().unwrap();
        let copy = game.clone();
        self.undo_stack.push(copy);
        assert(game_models(self.undo_stack@) =~= m.undo.push(m.redo.last()));
        assert(game_models(self.redo_stack@) =~= m.redo.drop_last());
        self.current()
    }
}

/// After a game is pushed it is the current game, with its index one higher, and
/// nothing can be redone.
pub proof fn lemma_push_makes_current(m: StacksModel, g: RegularGameModel)
    requires
        g.game_index < u64::MAX,
    ensures
        after_push(m, g).undo.last() == pushed(g),
        after_push(m, g).undo.last().game_index == g.game_index + 1,
        after_push(m, g).redo.len() == 0,
        after_push(m, g).undo.drop_last() == m.undo,
{
    assert(after_push(m, g).undo.drop_last() =~= m.undo);
}

/// Undoing a move and then redoing it gives back the stacks as they were.
pub proof fn lemma_undo_then_redo(m: StacksModel)
    requires
        undo_allowed(m),
    ensures
        redo_allowed(after_undo(m)),
        after_redo(after_undo(m)) == m,
        after_undo(m).redo.last() == m.undo.last(),
{
    assert(after_redo(after_undo(m)).undo =~= m.undo);
    assert(after_redo(after_undo(m)).redo =~= m.redo);
}

/// Redoing a move and then undoing it gives back the stacks as they were, whenever the
/// redone game allows an undo.
pub proof fn lemma_redo_then_undo(m: StacksModel)
    requires
        redo_allowed(m),
        m.redo.last().can_undo,
        m.undo.len() >= 1,
    ensures
        undo_allowed(after_redo(m)),
        after_undo(after_redo(m)) == m,
{
    assert(after_undo(after_redo(m)).undo =~= m.undo);
    assert(after_undo(after_redo(m)).redo =~= m.redo);
}

} // verus!
