use vstd::prelude::*;

use crate::board::{has_config, initial, Board};
use crate::config::Config;

verus! {

/// The game session: the board, and whether the player paused or quit.
#[derive(Debug)]
pub struct App {
    /// Whether the session should end.
    pub should_quit: bool,
    /// The game state.
    pub board: Board,
    /// Whether the game is paused.
    pub paused: bool,
}

impl App {
    /// A running session on a board with the default settings.
    pub fn new() -> (r: App)
        ensures
            !r.should_quit,
            !r.paused,
            r.board.wf(),
            r.board@ == initial(r.board@, r.board@.bag, r.board@.next_bag),
    {
        App { should_quit: false, board: Board::new(), paused: false }
    }

    /// A running session on a board with the given settings.
    pub fn with_config(config: Config) -> (r: App)
        requires
            config.valid(),
        ensures
            !r.should_quit,
            !r.paused,
            r.board.wf(),
            has_config(r.board@, config),
            r.board@ == initial(r.board@, r.board@.bag, r.board@.next_bag),
    {
        App { should_quit: false, board: Board::with_config(config), paused: false }
    }

    /// Starts a fresh board with the same settings.
    pub fn reset(&mut self)
        requires
            old(self).board.wf(),
        ensures
            final(self).board.wf(),
            final(self).board@.width == old(self).board@.width,
            final(self).board@.height == old(self).board@.height,
            final(self).board@.number_of_previews == old(self).board@.number_of_previews,
            final(self).board@.lock_delay == old(self).board@.lock_delay,
            final(self).board@.tick_table == old(self).board@.tick_table,
            final(self).board@.bag_type == old(self).board@.bag_type,
            final(self).board@ == initial(final(self).board@, final(self).board@.bag, final(self).board@.next_bag),
            final(self).should_quit == old(self).should_quit,
            final(self).paused == old(self).paused,
    {
        let config = self.board.get_config().duplicate();
        self.board = Board::with_config(config);
    }

    /// Marks the session to end.
    pub fn quit(&mut self)
        ensures
            final(self).should_quit,
            final(self).board == old(self).board,
            final(self).paused == old(self).paused,
    {
        self.should_quit = true;
    }

    /// Pauses or resumes the game.
    pub fn pause(&mut self, paused: bool)
        ensures
            final(self).paused == paused,
            final(self).board == old(self).board,
            final(self).should_quit == old(self).should_quit,
    {
        self.paused = paused;
    }
}

} // verus!
