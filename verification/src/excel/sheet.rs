//! A worksheet as plain values: the raw text of each cell and the number
//! of pictures anchored at each cell, addressed by 1-based (column, row).
use crate::model::order::opt_view;
use vstd::prelude::*;

verus! {

/// The part of a worksheet that the order readers look at.
///
/// `cells[r - 1][c - 1]` is the raw value of the cell in column `c`,
/// row `r`, or `None` where the sheet has no cell there; `images[r - 1][c - 1]`
/// is how many pictures are anchored at that cell. `cols` and `rows` are the
/// highest column and row that the sheet reports.
#[derive(Debug)]
pub struct Sheet {
    pub cols: u32,
    pub rows: u32,
    pub cells: Vec<Vec<Option<String>>>,
    pub images: Vec<Vec<usize>>,
}

/// Copy a picture out of the worksheet into a file.
#[derive(Debug)]
pub struct ImageDownload {
    /// Column of the cell the picture is anchored at.
    pub col: u32,
    /// Row of that cell.
    pub row: u32,
    /// Which of the pictures at that cell, in sheet order.
    pub nth: usize,
    /// The file to write.
    pub path: String,
}

pub struct ImageDownloadView {
    pub col: u32,
    pub row: u32,
    pub nth: usize,
    pub path: Seq<char>,
}

impl View for ImageDownload {
    type V = ImageDownloadView;

    open spec fn view(&self) -> ImageDownloadView {
        ImageDownloadView { col: self.col, row: self.row, nth: self.nth, path: self.path@ }
    }
}

pub open spec fn downloads_view(v: Seq<ImageDownload>) -> Seq<ImageDownloadView> {
    v.map_values(|d: ImageDownload| d@)
}

impl Sheet {
    /// The raw text of the cell at (`col`, `row`), if the sheet has one.
    pub open spec fn cell_view(&self, col: int, row: int) -> Option<Seq<char>> {
        if 1 <= row && row - 1 < self.cells@.len() && 1 <= col && col - 1
            < self.cells@[row - 1]@.len() {
            opt_view(self.cells@[row - 1]@[col - 1])
        } else {
            None
        }
    }

    /// The number of pictures anchored at (`col`, `row`).
    pub open spec fn image_count(&self, col: int, row: int) -> nat {
        if 1 <= row && row - 1 < self.images@.len() && 1 <= col && col - 1
            < self.images@[row - 1]@.len() {
            self.images@[row - 1]@[col - 1] as nat
        } else {
            0
        }
    }

    /// The number of pictures that a reader walking columns `1..=cols`
    /// finds at (`col`, `row`).
    pub open spec fn seen_images(&self, col: int, row: int) -> nat {
        if 1 <= col <= self.cols {
            self.image_count(col, row)
        } else {
            0
        }
    }

    pub fn get_cell(&self, col: u32, row: u32) -> (r: Option<&String>)
        ensures
            match r {
                Some(s) => self.cell_view(col as int, row as int) == Some(s@),
                None => self.cell_view(col as int, row as int) is None,
            },
    {
        if row >= 1 && ((row - 1) as usize) < self.cells.len() {
            let line = &self.cells[(row - 1) as usize];
            if col >= 1 && ((col - 1) as usize) < line.len() {
                match &line[(col - 1) as usize] {
                    Some(s) => Some(s),
                    None => None,
                }
            } else {
                None
            }
        } else {
            None
        }
    }

    pub fn get_image_count(&self, col: u32, row: u32) -> (r: usize)
        ensures
            r as nat == self.image_count(col as int, row as int),
    {
        if row >= 1 && ((row - 1) as usize) < self.images.len() {
            let line = &self.images[(row - 1) as usize];
            if col >= 1 && ((col - 1) as usize) < line.len() {
                line[(col - 1) as usize]
            } else {
                0
            }
        } else {
            0
        }
    }

    pub fn seen_image_count(&self, col: u32, row: u32) -> (r: usize)
        ensures
            r as nat == self.seen_images(col as int, row as int),
    {
        if 1 <= col && col <= self.cols {
            self.get_image_count(col, row)
        } else {
            0
        }
    }
}

} // verus!
