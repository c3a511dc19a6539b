//! One row of a listing.
use crate::units::{formatted_size, size_text};
use colored::Colorize;
use vstd::prelude::*;

verus! {

/// A child of the listed directory: its base name, its total size in bytes,
/// that size as display text, and whether it is a directory.
#[derive(Debug)]
pub struct FileItem {
    pub name: String,
    pub size: u64,
    pub formatted_size: String,
    pub is_dir: bool,
}

/// The escape character that opens terminal style codes.
pub open spec fn escape_char() -> char {
    '\x1B'
}

/// The terminal code that starts blue text, for a directory, or yellow
/// text, for anything else.
pub open spec fn colour_code(is_dir: bool) -> Seq<char> {
    if is_dir {
        seq!['\x1B', '[', '3', '4', 'm']
    } else {
        seq!['\x1B', '[', '3', '3', 'm']
    }
}

/// The terminal code that ends styled text.
pub open spec fn reset_code() -> Seq<char> {
    seq!['\x1B', '[', '0', 'm']
}

/// The marker glyph shown before a name: a folder for a directory, a page
/// for anything else.
pub open spec fn marker(is_dir: bool) -> char {
    if is_dir {
        '\u{f4d3}'
    } else {
        '\u{f15b}'
    }
}

/// The shown name of an entry before styling: its marker, a space, its name.
pub open spec fn label_of(is_dir: bool, name: Seq<char>) -> Seq<char> {
    seq![marker(is_dir), ' '] + name
}

impl FileItem {
    /// The display text always matches the size.
    pub open spec fn wf(&self) -> bool {
        self.formatted_size@ == size_text(self.size)
    }

    /// A row for `name` of `size` bytes, with its display text.
    pub fn new(name: &str, size: u64, is_dir: bool) -> (r: FileItem)
        ensures
            r.name@ == name@,
            r.size == size,
            r.is_dir == is_dir,
            r.formatted_size@ == size_text(size),
            r.wf(),
    {
        FileItem { name: name.to_string(), size: size, formatted_size: formatted_size(size), is_dir: is_dir }
    }

    /// The shown name: the marker and the name, blue for a directory and
    /// yellow otherwise, where the terminal takes colours.
    pub fn display_name(&self) -> (r: String)
        ensures
            !self.name@.contains(escape_char()) ==> r@ == label_of(self.is_dir, self.name@) || r@
                == colour_code(self.is_dir) + label_of(self.is_dir, self.name@) + reset_code(),
    {
        let mut label = if self.is_dir {
            proof { reveal_strlit("\u{f4d3} "); }
            String::from_str("\u{f4d3} ")
        } else {
            proof { reveal_strlit("\u{f15b} "); }
            String::from_str("\u{f15b} ")
        };
        label.append(self.name.as_str());
        assert(label@ =~= label_of(self.is_dir, self.name@));
        proof {
            if !self.name@.contains(escape_char()) {
                assert forall|i: int| 0 <= i < label@.len() implies label@[i] != escape_char() by {
                    if i >= 2 {
                        assert(label@[i] == self.name@[i - 2]);
                    }
                }
            }
        }
        if self.is_dir {
            paint_blue(label.as_str())
        } else {
            paint_yellow(label.as_str())
        }
    }
}

/// Relies on colored's `Colorize::blue` and the `Display` of `ColoredString`:
/// a text without escape codes comes back bare or between the blue code and
/// the reset code, as the terminal and the environment decide.
#[verifier::external_body]
fn paint_blue(s: &str) -> (r: String)
    ensures
        !s@.contains(escape_char()) ==> r@ == s@ || r@ == colour_code(true) + s@ + reset_code(),
{
    s.blue().to_string()
}

/// Relies on colored's `Colorize::yellow` and the `Display` of
/// `ColoredString`: a text without escape codes comes back bare or between
/// the yellow code and the reset code, as the terminal and the environment
/// decide.
#[verifier::external_body]
fn paint_yellow(s: &str) -> (r: String)
    ensures
        !s@.contains(escape_char()) ==> r@ == s@ || r@ == colour_code(false) + s@ + reset_code(),
{
    s.yellow().to_string()
}

} // verus!
