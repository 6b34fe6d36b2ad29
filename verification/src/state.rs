//! Small enumerations shared by the museum and its memes.

use vstd::prelude::*;

verus! {

/// Where a meme stands in its life.
#[derive(Clone, Copy, Debug, PartialEq, Eq, Structural)]
pub enum Lifecycle {
    /// The meme takes votes, comments, donations and releases.
    Active,
    /// A removal is under way: every mutating call is refused.
    Removing,
}

/// How a request that was handed to the host ended.
#[derive(Clone, Copy, Debug, PartialEq, Eq, Structural)]
pub enum Outcome {
    Success,
    Failure,
}

/// The fixed set of categories a meme can be filed under.
#[derive(Clone, Copy, Debug, PartialEq, Eq, Structural)]
pub enum Category {
    A,
    B,
    C,
    D,
}

impl Category {
    /// The category that a numeric code stands for, if any.
    pub open spec fn of_code(code: int) -> Option<Category> {
        if code == 0 {
            Some(Category::A)
        } else if code == 1 {
            Some(Category::B)
        } else if code == 2 {
            Some(Category::C)
        } else if code == 3 {
            Some(Category::D)
        } else {
            None
        }
    }

    /// The numeric code of a category.
    pub open spec fn spec_code(self) -> int {
        match self {
            Category::A => 0,
            Category::B => 1,
            Category::C => 2,
            Category::D => 3,
        }
    }

    /// Decodes a category; codes outside the fixed set give `None`.
    pub fn from_code(code: u8) -> (r: Option<Category>)
        ensures
            r == Category::of_code(code as int),
    {
        if code == 0 {
            Some(Category::A)
        } else if code == 1 {
            Some(Category::B)
        } else if code == 2 {
            Some(Category::C)
        } else if code == 3 {
            Some(Category::D)
        } else {
            None
        }
    }

    /// Encodes a category.
    pub fn code(&self) -> (r: u8)
        ensures
            r as int == self.spec_code(),
    {
        match self {
            Category::A => 0,
            Category::B => 1,
            Category::C => 2,
            Category::D => 3,
        }
    }

    /// Decoding undoes encoding, and encoding undoes every successful decoding.
    pub proof fn lemma_code_round_trip(c: Category, code: int)
        ensures
            Category::of_code(c.spec_code()) == Some(c),
            Category::of_code(code) matches Some(d) ==> d.spec_code() == code,
    {
    }
}

} // verus!
