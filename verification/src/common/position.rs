//! Source coordinates.

use vstd::prelude::*;

verus! {

/// Where a token or an error sits: the path of the source and a row counted from 1.
#[derive(Debug)]
pub struct Position {
    pub source_path: String,
    pub row: usize,
}

/// The mathematical value of a [`Position`].
pub struct PositionView {
    pub source_path: Seq<char>,
    pub row: nat,
}

impl View for Position {
    type V = PositionView;

    open spec fn view(&self) -> PositionView {
        PositionView { source_path: self.source_path@, row: self.row as nat }
    }
}

impl Position {
    pub fn new(source_path: String, row: usize) -> (position: Self)
        ensures
            position@ == (PositionView { source_path: source_path@, row: row as nat }),
    {
        Self { source_path, row }
    }
}

impl Clone for Position {
    fn clone(&self) -> (copy: Self)
        ensures
            copy@ == self@,
    {
        Self { source_path: self.source_path.clone(), row: self.row }
    }
}

} // verus!
