//! The game: paddles, ball and scores, advanced by timer ticks and key
//! presses and drawn on the framebuffer surface.

use crate::screen::{
    draw_ball, draw_center_line, draw_paddle, draw_score, ScreenWriter, BALL_SIZE, PADDLE_HEIGHT,
    PADDLE_WIDTH,
};
use crate::surface::Surface;
use vstd::prelude::*;

verus! {

/// Pixels a paddle moves per key press.
pub const PADDLE_SPEED: usize = 50;

/// Column of the left edge of the first player's paddle.
pub const PLAYER1_PADDLE_X: usize = 30;

/// Pixels between the second player's paddle and the right edge.
pub const PLAYER2_MARGIN: usize = 30;

/// Margin by which a paddle is widened when the ball is tested against it.
pub const PADDLE_BUFFER: usize = 8;

/// Score at which a player wins.
pub const WINNING_SCORE: usize = 5;

/// Speed of the ball along each axis when a game starts.
pub const BALL_SPEED: isize = 10;

/// Phase of the game.
#[derive(Clone, Copy, Debug, PartialEq, Eq)]
pub enum GameState {
    /// Waiting for the start key.
    StartScreen,
    /// The ball is in play.
    Playing,
    /// A player has won; waiting for the restart key.
    GameOver,
}

/// A key that is no character.
#[derive(Clone, Copy, Debug, PartialEq, Eq)]
pub enum KeyCode {
    ArrowUp,
    ArrowDown,
    /// Any other key.
    Other,
}

/// A decoded key press: a character or a raw key.
#[derive(Clone, Copy, Debug, PartialEq, Eq)]
pub enum DecodedKey {
    RawKey(KeyCode),
    Unicode(char),
}

/// Everything the game remembers between interrupts.
#[derive(Clone, Copy, Debug, PartialEq, Eq)]
pub struct Game {
    pub screen_width: usize,
    pub screen_height: usize,
    pub player1_paddle_y: usize,
    pub player2_paddle_x: usize,
    pub player2_paddle_y: usize,
    pub ball_x: usize,
    pub ball_y: usize,
    pub ball_vel_x: isize,
    pub ball_vel_y: isize,
    pub player1_score: usize,
    pub player2_score: usize,
    pub state: GameState,
}

/// `i` cut off at the ends of `usize`.
pub open spec fn saturate_usize(i: int) -> usize {
    if i < 0 {
        0
    } else if i > usize::MAX {
        usize::MAX
    } else {
        i as usize
    }
}

/// `i` cut off at the ends of `isize`.
pub open spec fn saturate_isize(i: int) -> isize {
    if i < isize::MIN {
        isize::MIN
    } else if i > isize::MAX {
        isize::MAX
    } else {
        i as isize
    }
}

/// Size of `v` without its sign.
pub open spec fn magnitude(v: int) -> int {
    if v < 0 {
        -v
    } else {
        v
    }
}

/// Whether a ball whose top is at line `ball_y` overlaps, within the margin,
/// the lines that a paddle at `paddle_y` covers.
pub open spec fn overlaps_paddle_lines(ball_y: usize, paddle_y: usize) -> bool {
    &&& ball_y + BALL_SIZE >= paddle_y - PADDLE_BUFFER
    &&& ball_y <= paddle_y + PADDLE_HEIGHT + PADDLE_BUFFER
}

impl Game {
    /// The layout before the first game: paddles centred on their sides,
    /// the ball in the middle, no score, the start screen showing.
    pub open spec fn initial(screen_width: usize, screen_height: usize) -> Game {
        Game {
            screen_width,
            screen_height,
            player1_paddle_y: saturate_usize(screen_height / 2 - PADDLE_HEIGHT / 2),
            player2_paddle_x: saturate_usize(screen_width - PADDLE_WIDTH - PLAYER2_MARGIN),
            player2_paddle_y: saturate_usize(screen_height / 2 - PADDLE_HEIGHT / 2),
            ball_x: screen_width / 2,
            ball_y: screen_height / 2,
            ball_vel_x: BALL_SPEED,
            ball_vel_y: BALL_SPEED,
            player1_score: 0,
            player2_score: 0,
            state: GameState::StartScreen,
        }
    }

    /// The game after a (re)start: the initial layout, in play.
    pub open spec fn restarted(self) -> Game {
        Game {
            ball_x: self.screen_width / 2,
            ball_y: self.screen_height / 2,
            player1_paddle_y: saturate_usize(self.screen_height / 2 - PADDLE_HEIGHT / 2),
            player2_paddle_y: saturate_usize(self.screen_height / 2 - PADDLE_HEIGHT / 2),
            player1_score: 0,
            player2_score: 0,
            ball_vel_x: BALL_SPEED,
            ball_vel_y: BALL_SPEED,
            state: GameState::Playing,
            ..self
        }
    }

    /// The game after a point: the ball back in the middle and sent the
    /// opposite way along both axes.
    pub open spec fn ball_reset(self) -> Game {
        Game {
            ball_x: self.screen_width / 2,
            ball_y: self.screen_height / 2,
            ball_vel_x: saturate_isize(-self.ball_vel_x),
            ball_vel_y: saturate_isize(-self.ball_vel_y),
            ..self
        }
    }

    /// The ball one step further along its velocity; a position never
    /// leaves `usize`.
    pub open spec fn ball_moved(self) -> Game {
        Game {
            ball_x: saturate_usize(self.ball_x + self.ball_vel_x),
            ball_y: saturate_usize(self.ball_y + self.ball_vel_y),
            ..self
        }
    }

    /// The ball touches the top or the bottom edge.
    pub open spec fn at_wall(self) -> bool {
        self.ball_y <= 0 || self.ball_y + BALL_SIZE >= self.screen_height
    }

    /// The ball is within the widened span of the first player's paddle.
    pub open spec fn at_left_paddle(self) -> bool {
        &&& self.ball_x <= PLAYER1_PADDLE_X + PADDLE_WIDTH + PADDLE_BUFFER
        &&& overlaps_paddle_lines(self.ball_y, self.player1_paddle_y)
    }

    /// The ball is within the widened span of the second player's paddle.
    pub open spec fn at_right_paddle(self) -> bool {
        &&& self.ball_x + BALL_SIZE >= self.player2_paddle_x - PADDLE_BUFFER
        &&& overlaps_paddle_lines(self.ball_y, self.player2_paddle_y)
    }

    /// The velocity after the reflections, in order: a wall inverts the
    /// vertical part, the left paddle forces the horizontal part rightward,
    /// the right paddle forces it leftward.
    pub open spec fn bounced(self) -> Game {
        let vel_y = if self.at_wall() {
            saturate_isize(-self.ball_vel_y)
        } else {
            self.ball_vel_y
        };
        let rightward = if self.at_left_paddle() {
            saturate_isize(magnitude(self.ball_vel_x as int))
        } else {
            self.ball_vel_x
        };
        let vel_x = if self.at_right_paddle() {
            saturate_isize(-magnitude(rightward as int))
        } else {
            rightward
        };
        Game { ball_vel_x: vel_x, ball_vel_y: vel_y, ..self }
    }

    /// The ball is at or behind the line of the first player's paddle.
    pub open spec fn past_left(self) -> bool {
        self.ball_x <= PADDLE_WIDTH
    }

    /// The ball is at or beyond the right edge.
    pub open spec fn past_right(self) -> bool {
        !self.past_left() && self.ball_x >= self.screen_width
    }

    /// The game after a point for the first player: once the score reaches
    /// `WINNING_SCORE` the game is over and the ball stands still, else the
    /// ball is reset.
    pub open spec fn point_for_player1(self) -> Game {
        let awarded = Game { player1_score: saturate_usize(self.player1_score + 1), ..self };
        if awarded.player1_score >= WINNING_SCORE {
            Game { state: GameState::GameOver, ball_vel_x: 0, ball_vel_y: 0, ..awarded }
        } else {
            awarded.ball_reset()
        }
    }

    /// The game after a point for the second player.
    pub open spec fn point_for_player2(self) -> Game {
        let awarded = Game { player2_score: saturate_usize(self.player2_score + 1), ..self };
        if awarded.player2_score >= WINNING_SCORE {
            Game { state: GameState::GameOver, ball_vel_x: 0, ball_vel_y: 0, ..awarded }
        } else {
            awarded.ball_reset()
        }
    }

    /// The game after the scoring rule: a ball past the left gives the
    /// second player a point, one past the right the first.
    pub open spec fn scored(self) -> Game {
        if self.past_left() {
            self.point_for_player2()
        } else if self.past_right() {
            self.point_for_player1()
        } else {
            self
        }
    }

    /// The game one timer tick later.
    pub open spec fn ticked(self) -> Game {
        match self.state {
            GameState::StartScreen => self,
            GameState::Playing => self.ball_moved().bounced().scored(),
            GameState::GameOver => Game { ball_vel_x: 0, ball_vel_y: 0, ..self },
        }
    }
}

/// Pixels from the middle of the screen left to the start of the title.
pub const TITLE_LEFT: usize = 60;

/// Pixels from the middle of the screen left to the start of a prompt.
pub const PROMPT_LEFT: usize = 200;

/// Pixels from the middle of the screen left to the start of the banner
/// that ends a game.
pub const BANNER_LEFT: usize = 120;

/// Pixels from the middle of the screen left to the start of the line that
/// names the winner.
pub const WINNER_LEFT: usize = 150;

/// Lines from the middle of the screen down to the restart prompt.
pub const RESTART_DROP: usize = 100;

/// A paddle's line after an "up" key: one step up, unless that would take
/// it to the top edge or above.
pub open spec fn paddle_up(paddle_y: usize) -> usize {
    if paddle_y > PADDLE_SPEED {
        (paddle_y - PADDLE_SPEED) as usize
    } else {
        paddle_y
    }
}

/// A paddle's line after a "down" key: one step down, unless its bottom
/// would then reach the bottom edge or pass it.
pub open spec fn paddle_down(paddle_y: usize, screen_height: usize) -> usize {
    if paddle_y + PADDLE_HEIGHT + PADDLE_SPEED < screen_height {
        (paddle_y + PADDLE_SPEED) as usize
    } else {
        paddle_y
    }
}

/// The surface after a paddle in column `x` has moved from line `from` to
/// line `to`: erased and drawn again if it moved, untouched if not.
pub open spec fn with_moved_paddle(s: Surface, x: usize, from: usize, to: usize) -> Surface {
    if from == to {
        s
    } else {
        s.with_rect(x as int, from as int, PADDLE_WIDTH as int, PADDLE_HEIGHT as int, 0, 0, 0)
            .with_rect(
            x as int,
            to as int,
            PADDLE_WIDTH as int,
            PADDLE_HEIGHT as int,
            255,
            255,
            255,
        )
    }
}

impl Game {
    /// The game after `key`. The space bar starts a game from the start
    /// screen and from the end of a game; in play `w` and `s` move the first
    /// player's paddle, the arrows the second player's; any other key does
    /// nothing.
    pub open spec fn keyed(self, key: DecodedKey) -> Game {
        match self.state {
            GameState::Playing => match key {
                DecodedKey::Unicode(c) => if c == 'w' {
                    Game { player1_paddle_y: paddle_up(self.player1_paddle_y), ..self }
                } else if c == 's' {
                    Game {
                        player1_paddle_y: paddle_down(self.player1_paddle_y, self.screen_height),
                        ..self
                    }
                } else {
                    self
                },
                DecodedKey::RawKey(KeyCode::ArrowUp) => Game {
                    player2_paddle_y: paddle_up(self.player2_paddle_y),
                    ..self
                },
                DecodedKey::RawKey(KeyCode::ArrowDown) => Game {
                    player2_paddle_y: paddle_down(self.player2_paddle_y, self.screen_height),
                    ..self
                },
                DecodedKey::RawKey(KeyCode::Other) => self,
            },
            _ => if key == DecodedKey::Unicode(' ') {
                self.restarted()
            } else {
                self
            },
        }
    }

    /// The surface with the title and the prompt of the start screen.
    pub open spec fn start_screen(self, s: Surface) -> Surface {
        let mid_x = self.screen_width / 2;
        s.with_large_text(
            "PONG"@,
            saturate_usize(mid_x - TITLE_LEFT) as int,
            (self.screen_height / 3) as int,
            255,
            255,
            255,
        ).with_large_text(
            "Press SPACE to Start"@,
            saturate_usize(mid_x - PROMPT_LEFT) as int,
            (self.screen_height / 2) as int,
            255,
            255,
            255,
        )
    }

    /// The line that names the winner: the first player if that score has
    /// reached `WINNING_SCORE`, else the second.
    pub open spec fn winner_text(self) -> Seq<char> {
        if self.player1_score >= WINNING_SCORE {
            "Player 1 Wins"@
        } else {
            "Player 2 Wins"@
        }
    }

    /// The surface with the banner, the winner and the prompt of the end of
    /// a game.
    pub open spec fn game_over_screen(self, s: Surface) -> Surface {
        let mid_x = self.screen_width / 2;
        let mid_y = self.screen_height / 2;
        s.with_large_text(
            "GAME OVER"@,
            saturate_usize(mid_x - BANNER_LEFT) as int,
            (self.screen_height / 3) as int,
            255,
            255,
            255,
        ).with_large_text(
            self.winner_text(),
            saturate_usize(mid_x - WINNER_LEFT) as int,
            mid_y as int,
            255,
            255,
            255,
        ).with_large_text(
            "Press SPACE to Restart"@,
            saturate_usize(mid_x - PROMPT_LEFT) as int,
            mid_y + RESTART_DROP,
            255,
            255,
            255,
        )
    }

    /// The surface when a game starts: cleared, with both paddles.
    pub open spec fn restart_frame(self, s: Surface) -> Surface {
        let next = self.restarted();
        s.cleared().with_rect(
            PLAYER1_PADDLE_X as int,
            next.player1_paddle_y as int,
            PADDLE_WIDTH as int,
            PADDLE_HEIGHT as int,
            255,
            255,
            255,
        ).with_rect(
            next.player2_paddle_x as int,
            next.player2_paddle_y as int,
            PADDLE_WIDTH as int,
            PADDLE_HEIGHT as int,
            255,
            255,
            255,
        )
    }

    /// What a tick draws. In play: the ball is erased where it was, then the
    /// centre line, the scores and the ball where it is after the tick.
    pub open spec fn tick_frame(self, s: Surface) -> Surface {
        match self.state {
            GameState::StartScreen => self.start_screen(s),
            GameState::Playing => {
                let next = self.ticked();
                s.with_rect(
                    self.ball_x as int,
                    self.ball_y as int,
                    BALL_SIZE as int,
                    BALL_SIZE as int,
                    0,
                    0,
                    0,
                ).with_center_line().with_score(
                    next.player1_score as nat,
                    next.player2_score as nat,
                ).with_rect(
                    next.ball_x as int,
                    next.ball_y as int,
                    BALL_SIZE as int,
                    BALL_SIZE as int,
                    255,
                    255,
                    255,
                )
            },
            GameState::GameOver => self.game_over_screen(s),
        }
    }

    /// What a key press draws: the new game when it starts one, the paddle
    /// it moves, nothing otherwise.
    pub open spec fn key_frame(self, s: Surface, key: DecodedKey) -> Surface {
        let next = self.keyed(key);
        match self.state {
            GameState::Playing => with_moved_paddle(
                with_moved_paddle(
                    s,
                    PLAYER1_PADDLE_X,
                    self.player1_paddle_y,
                    next.player1_paddle_y,
                ),
                self.player2_paddle_x,
                self.player2_paddle_y,
                next.player2_paddle_y,
            ),
            _ => if key == DecodedKey::Unicode(' ') {
                self.restart_frame(s)
            } else {
                s
            },
        }
    }
}

/// `v` with its sign inverted.
fn inverted(v: isize) -> (r: isize)
    ensures
        r == saturate_isize(-v),
{
    if v == isize::MIN {
        isize::MAX
    } else {
        -v
    }
}

/// `v` pointing right or down: its magnitude.
fn forced_positive(v: isize) -> (r: isize)
    ensures
        r == saturate_isize(magnitude(v as int)),
{
    if v < 0 {
        inverted(v)
    } else {
        v
    }
}

/// `v` pointing left or up: its magnitude, negated.
fn forced_negative(v: isize) -> (r: isize)
    ensures
        r == saturate_isize(-magnitude(v as int)),
{
    if v > 0 {
        -v
    } else {
        v
    }
}

/// `pos` moved by `vel`, kept inside `usize`.
fn advanced(pos: usize, vel: isize) -> (next: usize)
    ensures
        next == saturate_usize(pos + vel),
{
    if vel >= 0 {
        pos.saturating_add(vel as usize)
    } else if vel == isize::MIN {
        let back: usize = isize::MAX as usize;
        pos.saturating_sub(back).saturating_sub(1)
    } else {
        pos.saturating_sub((-vel) as usize)
    }
}

/// Whether a ball whose top is at line `ball_y` overlaps, within the margin,
/// the lines that a paddle at `paddle_y` covers.
fn overlaps_lines(ball_y: usize, paddle_y: usize) -> (hit: bool)
    ensures
        hit == overlaps_paddle_lines(ball_y, paddle_y),
{
    ball_y.saturating_add(BALL_SIZE) >= paddle_y.saturating_sub(PADDLE_BUFFER) && ball_y
        <= paddle_y.saturating_add(PADDLE_HEIGHT + PADDLE_BUFFER)
}

/// Moves a paddle in column `x` from line `from` to line `to` on the screen.
fn redraw_paddle(writer: &mut ScreenWriter, x: usize, from: usize, to: usize)
    ensures
        final(writer)@ == with_moved_paddle(old(writer)@, x, from, to),
        final(writer)@.same_geometry(old(writer)@),
{
    if from != to {
        draw_paddle(writer, x, from, 0, 0, 0);
        draw_paddle(writer, x, to, 255, 255, 255);
    }
}

impl Game {
    /// Lays the game out for a screen of the given size.
    pub fn new(screen_width: usize, screen_height: usize) -> (game: Game)
        ensures
            game == Game::initial(screen_width, screen_height),
    {
        Game {
            screen_width,
            screen_height,
            player1_paddle_y: (screen_height / 2).saturating_sub(PADDLE_HEIGHT / 2),
            player2_paddle_x: screen_width.saturating_sub(PADDLE_WIDTH).saturating_sub(
                PLAYER2_MARGIN,
            ),
            player2_paddle_y: (screen_height / 2).saturating_sub(PADDLE_HEIGHT / 2),
            ball_x: screen_width / 2,
            ball_y: screen_height / 2,
            ball_vel_x: BALL_SPEED,
            ball_vel_y: BALL_SPEED,
            player1_score: 0,
            player2_score: 0,
            state: GameState::StartScreen,
        }
    }

    /// Runs once before the first interrupt: shows the start screen.
    pub fn start(&mut self, writer: &mut ScreenWriter)
        ensures
            *final(self) == (Game { state: GameState::StartScreen, ..*old(self) }),
            final(writer)@ == old(self).start_screen(old(writer)@.cleared()),
            final(writer)@.same_geometry(old(writer)@),
    {
        writer.clear();
        self.state = GameState::StartScreen;
        self.draw_start_screen(writer);
    }

    /// Draws the title and the prompt.
    pub fn draw_start_screen(&self, writer: &mut ScreenWriter)
        ensures
            final(writer)@ == self.start_screen(old(writer)@),
            final(writer)@.same_geometry(old(writer)@),
    {
        let mid_x: usize = self.screen_width / 2;
        writer.write_large_text(
            "PONG",
            mid_x.saturating_sub(TITLE_LEFT),
            self.screen_height / 3,
            255,
            255,
            255,
        );
        writer.write_large_text(
            "Press SPACE to Start",
            mid_x.saturating_sub(PROMPT_LEFT),
            self.screen_height / 2,
            255,
            255,
            255,
        );
    }

    /// Draws the banner, the winner and the restart prompt.
    pub fn draw_game_over_screen(&self, writer: &mut ScreenWriter)
        ensures
            final(writer)@ == self.game_over_screen(old(writer)@),
            final(writer)@.same_geometry(old(writer)@),
    {
        let mid_x: usize = self.screen_width / 2;
        let mid_y: usize = self.screen_height / 2;
        writer.write_large_text(
            "GAME OVER",
            mid_x.saturating_sub(BANNER_LEFT),
            self.screen_height / 3,
            255,
            255,
            255,
        );
        let winner_text: &str = if self.player1_score >= WINNING_SCORE {
            "Player 1 Wins"
        } else {
            "Player 2 Wins"
        };
        writer.write_large_text(
            winner_text,
            mid_x.saturating_sub(WINNER_LEFT),
            mid_y,
            255,
            255,
            255,
        );
        writer.write_large_text(
            "Press SPACE to Restart",
            mid_x.saturating_sub(PROMPT_LEFT),
            mid_y + RESTART_DROP,
            255,
            255,
            255,
        );
    }

    /// Starts a game: the initial layout, no score, the ball in play, and a
    /// cleared screen with both paddles.
    pub fn init_game(&mut self, writer: &mut ScreenWriter)
        ensures
            *final(self) == old(self).restarted(),
            final(writer)@ == old(self).restart_frame(old(writer)@),
            final(writer)@.same_geometry(old(writer)@),
    {
        self.ball_x = self.screen_width / 2;
        self.ball_y = self.screen_height / 2;

        self.player1_paddle_y = (self.screen_height / 2).saturating_sub(PADDLE_HEIGHT / 2);
        self.player2_paddle_y = (self.screen_height / 2).saturating_sub(PADDLE_HEIGHT / 2);

        self.player1_score = 0;
        self.player2_score = 0;

        self.ball_vel_x = BALL_SPEED;
        self.ball_vel_y = BALL_SPEED;

        self.state = GameState::Playing;

        writer.clear();
        draw_paddle(writer, PLAYER1_PADDLE_X, self.player1_paddle_y, 255, 255, 255);
        draw_paddle(writer, self.player2_paddle_x, self.player2_paddle_y, 255, 255, 255);
    }

    /// Ends the game and stops the ball.
    pub fn end_game(&mut self)
        ensures
            *final(self) == (Game {
                state: GameState::GameOver,
                ball_vel_x: 0,
                ball_vel_y: 0,
                ..*old(self)
            }),
    {
        self.state = GameState::GameOver;
        self.ball_vel_x = 0;
        self.ball_vel_y = 0;
    }

    /// Puts the ball back in the middle and sends it the opposite way.
    pub fn reset_ball(&mut self)
        ensures
            *final(self) == old(self).ball_reset(),
    {
        self.ball_x = self.screen_width / 2;
        self.ball_y = self.screen_height / 2;

        self.ball_vel_x = inverted(self.ball_vel_x);
        self.ball_vel_y = inverted(self.ball_vel_y);
    }

    /// One timer interrupt: advances the game by a tick and draws what
    /// changed. In play the scores are written as text, which the surface
    /// must support.
    pub fn tick(&mut self, writer: &mut ScreenWriter)
        requires
            old(self).state == GameState::Playing ==> old(writer)@.supports_text(),
        ensures
            *final(self) == old(self).ticked(),
            final(writer)@ == old(self).tick_frame(old(writer)@),
            final(writer)@.same_geometry(old(writer)@),
    {
        match self.state {
            GameState::StartScreen => {
                self.draw_start_screen(writer);
            },
            GameState::Playing => {
                draw_ball(writer, self.ball_x, self.ball_y, 0, 0, 0);
                self.ball_x = advanced(self.ball_x, self.ball_vel_x);
                self.ball_y = advanced(self.ball_y, self.ball_vel_y);
                assert(*self == old(self).ball_moved());

                // Ball collision with walls (top/bottom)
                if self.ball_y == 0 || self.ball_y.saturating_add(BALL_SIZE)
                    >= self.screen_height {
                    self.ball_vel_y = inverted(self.ball_vel_y);
                }
                // Ball collision with Player 1

                if self.ball_x <= PLAYER1_PADDLE_X + PADDLE_WIDTH + PADDLE_BUFFER
                    && overlaps_lines(self.ball_y, self.player1_paddle_y) {
                    self.ball_vel_x = forced_positive(self.ball_vel_x);
                }
                // Ball collision with Player 2

                if self.ball_x.saturating_add(BALL_SIZE) >= self.player2_paddle_x.saturating_sub(
                    PADDLE_BUFFER,
                ) && overlaps_lines(self.ball_y, self.player2_paddle_y) {
                    self.ball_vel_x = forced_negative(self.ball_vel_x);
                }
                assert(*self == old(self).ball_moved().bounced());

                if self.ball_x <= PADDLE_WIDTH {
                    self.player2_score = self.player2_score.saturating_add(1);
                    if self.player2_score >= WINNING_SCORE {
                        self.end_game();
                    } else {
                        self.reset_ball();
                    }
                } else if self.ball_x >= self.screen_width {
                    self.player1_score = self.player1_score.saturating_add(1);
                    if self.player1_score >= WINNING_SCORE {
                        self.end_game();
                    } else {
                        self.reset_ball();
                    }
                }
                assert(*self == old(self).ticked());

                draw_center_line(writer);
                draw_score(writer, self.player1_score, self.player2_score);
                draw_ball(writer, self.ball_x, self.ball_y, 255, 255, 255);
            },
            GameState::GameOver => {
                self.ball_vel_x = 0;
                self.ball_vel_y = 0;
                self.draw_game_over_screen(writer);
            },
        }
    }

    /// One keyboard interrupt: applies `key` and draws what changed.
    pub fn key(&mut self, writer: &mut ScreenWriter, key: DecodedKey)
        ensures
            *final(self) == old(self).keyed(key),
            final(writer)@ == old(self).key_frame(old(writer)@, key),
            final(writer)@.same_geometry(old(writer)@),
    {
        match self.state {
            GameState::StartScreen => {
                match key {
                    DecodedKey::Unicode(' ') => {
                        self.init_game(writer);
                    },
                    _ => {},
                }
            },
            GameState::Playing => {
                match key {
                    // Player 1 controls (W/S)
                    DecodedKey::Unicode('w') => {
                        if self.player1_paddle_y > PADDLE_SPEED {
                            let from: usize = self.player1_paddle_y;
                            self.player1_paddle_y -= PADDLE_SPEED;
                            redraw_paddle(writer, PLAYER1_PADDLE_X, from, self.player1_paddle_y);
                        }
                    },
                    DecodedKey::Unicode('s') => {
                        if self.player1_paddle_y.saturating_add(PADDLE_HEIGHT + PADDLE_SPEED)
                            < self.screen_height {
                            let from: usize = self.player1_paddle_y;
                            self.player1_paddle_y += PADDLE_SPEED;
                            redraw_paddle(writer, PLAYER1_PADDLE_X, from, self.player1_paddle_y);
                        }
                    },
                    // Player 2 controls (Arrow Up/Down)
                    DecodedKey::RawKey(KeyCode::ArrowUp) => {
                        if self.player2_paddle_y > PADDLE_SPEED {
                            let from: usize = self.player2_paddle_y;
                            self.player2_paddle_y -= PADDLE_SPEED;
                            redraw_paddle(
                                writer,
                                self.player2_paddle_x,
                                from,
                                self.player2_paddle_y,
                            );
                        }
                    },
                    DecodedKey::RawKey(KeyCode::ArrowDown) => {
                        if self.player2_paddle_y.saturating_add(PADDLE_HEIGHT + PADDLE_SPEED)
                            < self.screen_height {
                            let from: usize = self.player2_paddle_y;
                            self.player2_paddle_y += PADDLE_SPEED;
                            redraw_paddle(
                                writer,
                                self.player2_paddle_x,
                                from,
                                self.player2_paddle_y,
                            );
                        }
                    },
                    _ => {},
                }
            },
            GameState::GameOver => {
                match key {
                    DecodedKey::Unicode(' ') => {
                        self.init_game(writer);
                    },
                    _ => {},
                }
            },
        }
    }
}

impl Game {
    /// The ball is past either end: a point is scored.
    pub open spec fn scores_point(self) -> bool {
        self.past_left() || self.past_right()
    }

    /// The scoring rule sends the ball back to the middle: a point is
    /// scored and the game goes on.
    pub open spec fn returns_ball(self) -> bool {
        (self.past_left() || self.past_right()) && self.scored().state == self.state
    }
}

/// A ball that moves left and that a tick brings into the widened span of
/// the left paddle leaves the tick moving right at the same speed, unless
/// it is in the span of the right paddle too or a point is scored.
pub proof fn lemma_left_paddle_sends_right(game: Game)
    requires
        game.state == GameState::Playing,
        isize::MIN < game.ball_vel_x < 0,
        game.ball_moved().at_left_paddle(),
        !game.ball_moved().at_right_paddle(),
        !game.ball_moved().scores_point(),
    ensures
        game.ticked().ball_vel_x == -game.ball_vel_x,
        game.ticked().ball_vel_x > 0,
{
}

/// A ball that moves right and that a tick brings into the widened span of
/// the right paddle leaves the tick moving left at the same speed, unless a
/// point is scored.
pub proof fn lemma_right_paddle_sends_left(game: Game)
    requires
        game.state == GameState::Playing,
        game.ball_vel_x > 0,
        game.ball_moved().at_right_paddle(),
        !game.ball_moved().scores_point(),
    ensures
        game.ticked().ball_vel_x == -game.ball_vel_x,
        game.ticked().ball_vel_x < 0,
{
}

/// A paddle forces the direction and does not merely reflect: a ball that
/// already moves away from the only paddle in whose span it is keeps its
/// velocity.
pub proof fn lemma_paddle_keeps_departing_ball(game: Game)
    ensures
        game.at_left_paddle() && !game.at_right_paddle() && game.ball_vel_x >= 0
            ==> game.bounced().ball_vel_x == game.ball_vel_x,
        game.at_right_paddle() && isize::MIN < game.ball_vel_x <= 0
            ==> game.bounced().ball_vel_x == game.ball_vel_x,
{
}

/// After a point the ball is in the middle and its velocity has the same
/// size and the opposite sign along both axes.
pub proof fn lemma_reset_inverts_direction(game: Game)
    ensures
        game.ball_reset().ball_x == game.screen_width / 2,
        game.ball_reset().ball_y == game.screen_height / 2,
        game.ball_vel_x > isize::MIN ==> game.ball_reset().ball_vel_x == -game.ball_vel_x,
        game.ball_vel_y > isize::MIN ==> game.ball_reset().ball_vel_y == -game.ball_vel_y,
{
}

/// A tick in which a point is scored and the game goes on inverts the
/// velocity the ball had when it scored.
pub proof fn lemma_point_inverts_direction(game: Game)
    requires
        game.state == GameState::Playing,
        game.ball_moved().bounced().returns_ball(),
    ensures
        ({
            let at_score = game.ball_moved().bounced();
            &&& at_score.ball_vel_x > isize::MIN ==> game.ticked().ball_vel_x
                == -at_score.ball_vel_x
            &&& at_score.ball_vel_y > isize::MIN ==> game.ticked().ball_vel_y
                == -at_score.ball_vel_y
        }),
{
}

/// In play a paddle at or above one step from the top stays where it is on
/// "up", and one whose bottom is within one step of the bottom edge stays
/// where it is on "down"; a paddle that is on the screen stays on it.
pub proof fn lemma_paddle_clamped(game: Game)
    requires
        game.state == GameState::Playing,
    ensures
        game.player1_paddle_y <= PADDLE_SPEED ==> game.keyed(
            DecodedKey::Unicode('w'),
        ).player1_paddle_y == game.player1_paddle_y,
        game.player1_paddle_y + PADDLE_HEIGHT + PADDLE_SPEED >= game.screen_height ==> game.keyed(
            DecodedKey::Unicode('s'),
        ).player1_paddle_y == game.player1_paddle_y,
        game.player2_paddle_y <= PADDLE_SPEED ==> game.keyed(
            DecodedKey::RawKey(KeyCode::ArrowUp),
        ).player2_paddle_y == game.player2_paddle_y,
        game.player2_paddle_y + PADDLE_HEIGHT + PADDLE_SPEED >= game.screen_height ==> game.keyed(
            DecodedKey::RawKey(KeyCode::ArrowDown),
        ).player2_paddle_y == game.player2_paddle_y,
        forall|key: DecodedKey|
            game.player1_paddle_y + PADDLE_HEIGHT <= game.screen_height ==> (#[trigger] game.keyed(
                key,
            )).player1_paddle_y + PADDLE_HEIGHT <= game.screen_height,
        forall|key: DecodedKey|
            game.player2_paddle_y + PADDLE_HEIGHT <= game.screen_height ==> (#[trigger] game.keyed(
                key,
            )).player2_paddle_y + PADDLE_HEIGHT <= game.screen_height,
{
}

/// The point that takes a player to `WINNING_SCORE` ends the game and
/// stops the ball in the same tick; further ticks change nothing, and the
/// space bar then starts a new game without a score.
pub proof fn lemma_winning_point_ends_game(game: Game)
    requires
        game.state == GameState::Playing,
    ensures
        game.ball_moved().past_right() && game.player1_score == WINNING_SCORE - 1 ==> {
            &&& game.ticked().player1_score == WINNING_SCORE
            &&& game.ticked().player2_score == game.player2_score
            &&& game.ticked().state == GameState::GameOver
            &&& game.ticked().ball_vel_x == 0
            &&& game.ticked().ball_vel_y == 0
        },
        game.ball_moved().past_left() && game.player2_score == WINNING_SCORE - 1 ==> {
            &&& game.ticked().player2_score == WINNING_SCORE
            &&& game.ticked().player1_score == game.player1_score
            &&& game.ticked().state == GameState::GameOver
            &&& game.ticked().ball_vel_x == 0
            &&& game.ticked().ball_vel_y == 0
        },
        game.ticked().state == GameState::GameOver ==> {
            &&& game.ticked().ball_vel_x == 0
            &&& game.ticked().ball_vel_y == 0
            &&& game.ticked().ticked() == game.ticked()
            &&& game.ticked().keyed(DecodedKey::Unicode(' ')).state == GameState::Playing
            &&& game.ticked().keyed(DecodedKey::Unicode(' ')).player1_score == 0
            &&& game.ticked().keyed(DecodedKey::Unicode(' ')).player2_score == 0
        },
{
}

/// A tick never lowers a score, and leaves play only for the end of the
/// game, which it does exactly when a point takes a score to
/// `WINNING_SCORE` or beyond.
pub proof fn lemma_tick_keeps_scores(game: Game)
    ensures
        game.ticked().player1_score >= game.player1_score,
        game.ticked().player2_score >= game.player2_score,
        game.state == GameState::Playing ==> (game.ticked().state == GameState::GameOver <==> {
            ||| game.ball_moved().past_left() && game.player2_score + 1 >= WINNING_SCORE
            ||| game.ball_moved().past_right() && game.player1_score + 1 >= WINNING_SCORE
        }),
        game.state == GameState::Playing && game.ticked().state != GameState::GameOver
            ==> game.ticked().state == GameState::Playing,
        game.state != GameState::Playing ==> game.ticked().state == game.state,
{
}

} // verus!
