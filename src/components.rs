//! The gameplay data: balls, paddles and the score.
use vstd::prelude::*;

use crate::arena::MAX_SCORE;

verus! {

/// A ball: its velocity in units per second along x and y, and its radius in steps.
#[derive(Debug, Clone, Copy)]
pub struct Ball {
    pub velocity: [i64; 2],
    pub radius: i64,
}

impl Ball {
    /// Each velocity component can be negated without overflow.
    pub open spec fn wf(self) -> bool {
        self.velocity[0] > i64::MIN && self.velocity[1] > i64::MIN
    }
}

/// The side of the arena a paddle defends.
#[derive(Debug, Clone, Copy, PartialEq, Eq, Structural)]
pub enum Side {
    Left,
    Right,
}

/// A paddle: its speed at full deflection, its side and its extents in steps.
#[derive(Debug, Clone, Copy)]
pub struct Paddle {
    pub velocity: i64,
    pub side: Side,
    pub width: i64,
    pub height: i64,
}

impl Paddle {
    /// Speed and extents are not negative.
    pub open spec fn wf(self) -> bool {
        self.velocity >= 0 && self.width >= 0 && self.height >= 0
    }
}

/// A sound effect that the frame asks to be played once.
#[derive(Debug, Clone, Copy, PartialEq, Eq, Structural)]
pub enum SoundCue {
    Bounce,
    Score,
}

/// `n` requests of the same sound.
pub open spec fn cues(c: SoundCue, n: nat) -> Seq<SoundCue> {
    Seq::new(n, |i: int| c)
}

/// The two players' scores, each between 0 and `MAX_SCORE`.
#[derive(Debug, Clone, Copy, PartialEq, Eq, Structural)]
pub struct ScoreBoard {
    score_left: i32,
    score_right: i32,
}

/// One more point, never beyond `MAX_SCORE`.
pub open spec fn capped_increment(score: int) -> int {
    if score + 1 <= MAX_SCORE {
        score + 1
    } else {
        MAX_SCORE as int
    }
}

impl ScoreBoard {
    /// The left player's score.
    pub closed spec fn left(self) -> int {
        self.score_left as int
    }

    /// The right player's score.
    pub closed spec fn right(self) -> int {
        self.score_right as int
    }

    /// Both scores lie in `[0, MAX_SCORE]`.
    pub open spec fn wf(self) -> bool {
        &&& 0 <= self.left() <= MAX_SCORE
        &&& 0 <= self.right() <= MAX_SCORE
    }

    pub fn new() -> (r: Self)
        ensures
            r.left() == 0,
            r.right() == 0,
            r.wf(),
    {
        ScoreBoard { score_left: 0, score_right: 0 }
    }

    pub fn score_left(&self) -> (r: i32)
        ensures
            r == self.left(),
    {
        self.score_left
    }

    pub fn score_right(&self) -> (r: i32)
        ensures
            r == self.right(),
    {
        self.score_right
    }

    /// Gives a point to the player on `side`, capped at `MAX_SCORE`, and
    /// returns that player's new score.
    pub fn add_point(&mut self, side: Side) -> (r: i32)
        requires
            old(self).wf(),
        ensures
            final(self).wf(),
            side == Side::Left ==> final(self).left() == capped_increment(old(self).left())
                && final(self).right() == old(self).right() && r == final(self).left(),
            side == Side::Right ==> final(self).right() == capped_increment(old(self).right())
                && final(self).left() == old(self).left() && r == final(self).right(),
    {
        match side {
            Side::Left => {
                if self.score_left < MAX_SCORE {
                    self.score_left = self.score_left + 1;
                }
                self.score_left
            },
            Side::Right => {
                if self.score_right < MAX_SCORE {
                    self.score_right = self.score_right + 1;
                }
                self.score_right
            },
        }
    }
}

impl Default for ScoreBoard {
    fn default() -> (r: Self)
        ensures
            r.left() == 0,
            r.right() == 0,
            r.wf(),
    {
        ScoreBoard::new()
    }
}

} // verus!
