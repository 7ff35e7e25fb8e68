use vstd::prelude::*;

use crate::app::App;
use crate::board::tick;

verus! {

/// One tick of the game; the session ends when the board tops out.
pub fn update(app: &mut App)
    requires
        old(app).board.wf(),
    ensures
        final(app).board.wf(),
        final(app).board@ == tick(old(app).board@, final(app).board@.next_bag).0,
        final(app).should_quit == (old(app).should_quit || tick(
            old(app).board@,
            final(app).board@.next_bag,
        ).1 is Err),
        final(app).paused == old(app).paused,
{
    match app.board.update() {
        Ok(_) => {},
        Err(_) => app.quit(),
    }
}

} // verus!
