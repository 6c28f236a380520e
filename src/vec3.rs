use vstd::prelude::*;

verus! {

/// A value with three 8-bit colour channels.
pub trait Color {
    spec fn red(&self) -> u8;

    spec fn green(&self) -> u8;

    spec fn blue(&self) -> u8;

    fn r(&self) -> (c: u8)
        ensures
            c == self.red(),
    ;

    fn g(&self) -> (c: u8)
        ensures
            c == self.green(),
    ;

    fn b(&self) -> (c: u8)
        ensures
            c == self.blue(),
    ;
}

/// A value with three coordinates of type `T`.
pub trait Coordinate<T> {
    fn x(&self) -> T;

    fn y(&self) -> T;

    fn z(&self) -> T;
}

/// A quantized pixel: one byte per channel.
#[derive(Clone, Copy, Debug, PartialEq, Eq, Structural)]
pub struct Rgb {
    pub red: u8,
    pub green: u8,
    pub blue: u8,
}

impl Rgb {
    pub fn new(red: u8, green: u8, blue: u8) -> (p: Rgb)
        ensures
            p == (Rgb { red, green, blue }),
    {
        Rgb { red, green, blue }
    }
}

impl Color for Rgb {
    open spec fn red(&self) -> u8 {
        self.red
    }

    open spec fn green(&self) -> u8 {
        self.green
    }

    open spec fn blue(&self) -> u8 {
        self.blue
    }

    fn r(&self) -> (c: u8) {
        self.red
    }

    fn g(&self) -> (c: u8) {
        self.green
    }

    fn b(&self) -> (c: u8) {
        self.blue
    }
}

} // verus!
