//! Screen coordinates and the screen itself.

use vstd::prelude::*;

verus! {

/// Width of the default peripheral model, in pixels.
pub const SCREEN_WIDTH: i32 = 800;

/// Height of the default peripheral model, in pixels.
pub const SCREEN_HEIGHT: i32 = 480;

/// Bytes per pixel in the peripheral's native encoding.
pub const PIXEL_DEPTH: u32 = 2;

/// A screen coordinate. No bound is enforced here: each use checks its own.
#[derive(Debug, Clone, Copy)]
pub struct Point(i32, i32);

impl View for Point {
    type V = (int, int);

    closed spec fn view(&self) -> (int, int) {
        (self.0 as int, self.1 as int)
    }
}

impl Point {
    pub fn new(x: i32, y: i32) -> (point: Self)
        ensures
            point@ == (x as int, y as int),
    {
        Self(x, y)
    }

    pub fn x(&self) -> (x: i32)
        ensures
            x == self@.0,
    {
        self.0
    }

    pub fn y(&self) -> (y: i32)
        ensures
            y == self@.1,
    {
        self.1
    }
}

/// The pixel extent of the peripheral's screen.
#[derive(Debug, Clone, Copy, PartialEq, Eq, Structural)]
pub struct Screen {
    pub width: i32,
    pub height: i32,
}

impl Screen {
    pub fn new(width: i32, height: i32) -> (screen: Self)
        ensures
            screen == (Screen { width, height }),
    {
        Screen { width, height }
    }

    /// The 5-inch model, 800 by 480.
    pub fn standard() -> (screen: Self)
        ensures
            screen == (Screen { width: SCREEN_WIDTH, height: SCREEN_HEIGHT }),
    {
        Screen { width: SCREEN_WIDTH, height: SCREEN_HEIGHT }
    }
}

} // verus!
