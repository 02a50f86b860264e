use vstd::prelude::*;
use crate::engine::{reveal_rel, toggle_rel};
use crate::grid::Grid;

verus! {

/// The phase a game session is in.
#[derive(Clone, Copy, Debug, PartialEq, Eq, Structural)]
pub enum GameState {
    Playing,
    Lost,
    Quit,
}

/// The commands the session understands; raw key and pointer events are
/// mapped to these by the surrounding program.
#[derive(Clone, Copy, Debug, PartialEq, Eq, Structural)]
pub enum Command {
    MoveUp,
    MoveDown,
    MoveLeft,
    MoveRight,
    Reveal,
    ToggleFlag,
    Quit,
    PointerMove(usize, usize),
    PointerPrimary,
    PointerSecondary,
}

/// One game: the minefield, the keyboard cursor, and the session phase.
pub struct Session {
    pub grid: Grid,
    pub cursor_x: usize,
    pub cursor_y: usize,
    pub state: GameState,
}

impl Session {
    /// The grid is well-formed, non-empty, and the cursor sits on it.
    pub open spec fn wf(self) -> bool {
        &&& self.grid.wf()
        &&& self.grid.width > 0
        &&& self.grid.height > 0
        &&& self.cursor_x < self.grid.width
        &&& self.cursor_y < self.grid.height
    }

    /// Start a session on `grid`: cursor centered, playing.
    pub fn new(grid: Grid) -> (s: Session)
        requires
            grid.wf(),
            grid.width > 0,
            grid.height > 0,
        ensures
            s.wf(),
            s.grid == grid,
            s.cursor_x == grid.width / 2,
            s.cursor_y == grid.height / 2,
            s.state == GameState::Playing,
    {
        let cursor_x = grid.width / 2;
        let cursor_y = grid.height / 2;
        Session { grid, cursor_x, cursor_y, state: GameState::Playing }
    }
}

/// A reveal dispatched at the cursor: the grid evolves by `reveal_rel`, the
/// cursor stays, and the session is lost exactly when a mine came up.
pub open spec fn reveal_step(pre: Session, post: Session) -> bool {
    let cx = pre.cursor_x as int;
    let cy = pre.cursor_y as int;
    let t = pre.grid.cell(cx, cy);
    let cont = !(t.is_hidden && !t.is_flagged && t.is_mine);
    &&& reveal_rel(pre.grid, post.grid, cx, cy, cont)
    &&& post.cursor_x == pre.cursor_x
    &&& post.cursor_y == pre.cursor_y
    &&& post.state == (if cont {
        pre.state
    } else {
        GameState::Lost
    })
}

/// A flag toggle dispatched at the cursor: the grid evolves by
/// `toggle_rel`; cursor and phase stay.
pub open spec fn toggle_step(pre: Session, post: Session) -> bool {
    &&& toggle_rel(pre.grid, post.grid, pre.cursor_x as int, pre.cursor_y as int)
    &&& post.cursor_x == pre.cursor_x
    &&& post.cursor_y == pre.cursor_y
    &&& post.state == pre.state
}

/// What one command does to a session: moves saturate at the edges and
/// never wrap, quit ends the session at once, reveal and flag toggling act
/// at the cursor, and pointer commands reposition the cursor only when the
/// target lies on the grid.
pub open spec fn step_rel(pre: Session, post: Session, cmd: Command) -> bool {
    match cmd {
        Command::MoveUp => {
            &&& post.grid == pre.grid
            &&& post.state == pre.state
            &&& post.cursor_x == pre.cursor_x
            &&& post.cursor_y as int == (if pre.cursor_y > 0 {
                pre.cursor_y - 1
            } else {
                0int
            })
        },
        Command::MoveDown => {
            &&& post.grid == pre.grid
            &&& post.state == pre.state
            &&& post.cursor_x == pre.cursor_x
            &&& post.cursor_y as int == (if pre.cursor_y + 1 < pre.grid.height {
                pre.cursor_y + 1
            } else {
                pre.grid.height - 1
            })
        },
        Command::MoveLeft => {
            &&& post.grid == pre.grid
            &&& post.state == pre.state
            &&& post.cursor_y == pre.cursor_y
            &&& post.cursor_x as int == (if pre.cursor_x > 0 {
                pre.cursor_x - 1
            } else {
                0int
            })
        },
        Command::MoveRight => {
            &&& post.grid == pre.grid
            &&& post.state == pre.state
            &&& post.cursor_y == pre.cursor_y
            &&& post.cursor_x as int == (if pre.cursor_x + 1 < pre.grid.width {
                pre.cursor_x + 1
            } else {
                pre.grid.width - 1
            })
        },
        Command::Quit => {
            &&& post.grid == pre.grid
            &&& post.cursor_x == pre.cursor_x
            &&& post.cursor_y == pre.cursor_y
            &&& post.state == GameState::Quit
        },
        Command::Reveal => reveal_step(pre, post),
        Command::ToggleFlag => toggle_step(pre, post),
        Command::PointerMove(nx, ny) => {
            if nx < pre.grid.width && ny < pre.grid.height {
                post == (Session { cursor_x: nx, cursor_y: ny, ..pre })
            } else {
                post == pre
            }
        },
        Command::PointerPrimary => reveal_step(pre, post),
        Command::PointerSecondary => toggle_step(pre, post),
    }
}

impl Session {
    /// Apply one command to a playing session.
    pub fn step(&mut self, cmd: Command)
        requires
            old(self).wf(),
            old(self).state == GameState::Playing,
        ensures
            final(self).wf(),
            step_rel(*old(self), *final(self), cmd),
    {
        match cmd {
            Command::MoveUp => {
                if self.cursor_y > 0 {
                    self.cursor_y = self.cursor_y - 1;
                }
            },
            Command::MoveDown => {
                if self.cursor_y + 1 < self.grid.height {
                    self.cursor_y = self.cursor_y + 1;
                }
            },
            Command::MoveLeft => {
                if self.cursor_x > 0 {
                    self.cursor_x = self.cursor_x - 1;
                }
            },
            Command::MoveRight => {
                if self.cursor_x + 1 < self.grid.width {
                    self.cursor_x = self.cursor_x + 1;
                }
            },
            Command::Quit => {
                self.state = GameState::Quit;
            },
            Command::Reveal => {
                let cont = self.grid.uncover(self.cursor_x, self.cursor_y);
                if !cont {
                    self.state = GameState::Lost;
                }
            },
            Command::ToggleFlag => {
                self.grid.toggle_flag(self.cursor_x, self.cursor_y);
            },
            Command::PointerMove(nx, ny) => {
                if nx < self.grid.width && ny < self.grid.height {
                    self.cursor_x = nx;
                    self.cursor_y = ny;
                }
            },
            Command::PointerPrimary => {
                let cont = self.grid.uncover(self.cursor_x, self.cursor_y);
                if !cont {
                    self.state = GameState::Lost;
                }
            },
            Command::PointerSecondary => {
                self.grid.toggle_flag(self.cursor_x, self.cursor_y);
            },
        }
    }

    /// Handle a raw pointer press at terminal column `col` and row `row`.
    /// Each grid cell is drawn two columns wide, so the targeted cell is
    /// `(col / 2, row)`; a press outside the grid is ignored entirely.  A
    /// primary press reveals the cell, any other press toggles its flag.
    /// Returns whether the game continues.
    pub fn pointer_event(&mut self, col: u16, row: u16, primary: bool) -> (continues: bool)
        requires
            old(self).wf(),
            old(self).state == GameState::Playing,
        ensures
            final(self).wf(),
            ({
                let gx = col as int / 2;
                let gy = row as int;
                if gx < old(self).grid.width && gy < old(self).grid.height {
                    let moved = Session {
                        cursor_x: (col / 2) as usize,
                        cursor_y: row as usize,
                        ..*old(self)
                    };
                    if primary {
                        reveal_step(moved, *final(self)) && continues == (final(self).state
                            == GameState::Playing)
                    } else {
                        toggle_step(moved, *final(self)) && continues
                    }
                } else {
                    *final(self) == *old(self) && continues
                }
            }),
    {
        let gx = (col / 2) as usize;
        let gy = row as usize;
        if gx >= self.grid.width || gy >= self.grid.height {
            return true;
        }
        self.cursor_x = gx;
        self.cursor_y = gy;
        if primary {
            let cont = self.grid.uncover(gx, gy);
            if !cont {
                self.state = GameState::Lost;
            }
            cont
        } else {
            self.grid.toggle_flag(gx, gy);
            true
        }
    }
}

/// `post` is reached from `pre` by applying the commands in order.
pub open spec fn steps_rel(pre: Session, post: Session, cmds: Seq<Command>) -> bool
    decreases cmds.len(),
{
    if cmds.len() == 0 {
        post == pre
    } else {
        exists|mid: Session|
            #[trigger] step_rel(pre, mid, cmds[0]) && steps_rel(mid, post, cmds.drop_first())
    }
}

/// A single command keeps a session well-formed: in particular the cursor
/// stays on the grid, since moves saturate at the edges.
pub proof fn lemma_step_rel_preserves_wf(pre: Session, post: Session, cmd: Command)
    requires
        pre.wf(),
        step_rel(pre, post, cmd),
    ensures
        post.wf(),
{
    match cmd {
        Command::Reveal | Command::PointerPrimary => {
            assert(post.grid.wf());
        },
        Command::ToggleFlag | Command::PointerSecondary => {
            assert(post.grid.wf());
        },
        _ => {},
    }
}

/// However many commands are applied, from any starting position, the
/// cursor never leaves `[0, width) x [0, height)`: movement saturates at
/// the edges instead of wrapping.
pub proof fn lemma_cursor_never_leaves_grid(pre: Session, post: Session, cmds: Seq<Command>)
    requires
        pre.wf(),
        steps_rel(pre, post, cmds),
    ensures
        post.wf(),
        post.cursor_x < post.grid.width,
        post.cursor_y < post.grid.height,
    decreases cmds.len(),
{
    if cmds.len() > 0 {
        let mid = choose|mid: Session|
            #[trigger] step_rel(pre, mid, cmds[0]) && steps_rel(mid, post, cmds.drop_first());
        lemma_step_rel_preserves_wf(pre, mid, cmds[0]);
        lemma_cursor_never_leaves_grid(mid, post, cmds.drop_first());
    }
}

} // verus!
