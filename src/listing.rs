//! Collecting the children of a directory into rows, and rendering rows as
//! a table.
use crate::item::{colour_code, escape_char, label_of, reset_code, FileItem};
use crate::size::{entry_bytes, entry_size, EntryKind, Probe};
use crate::units::size_text;
use tabled::settings::Style;
use tabled::Table;
use vstd::prelude::*;

verus! {

/// One child of the listed directory as the walk found it: its base name,
/// its kind and own length by its own metadata, and its walk (the child and
/// everything below it).
#[derive(Debug)]
pub struct Child {
    pub name: String,
    pub kind: EntryKind,
    pub len: Option<u64>,
    pub walk: Vec<Probe>,
}

/// Why a directory cannot be listed.
#[derive(Clone, Copy, Debug, PartialEq, Eq, Structural)]
pub enum ListError {
    /// The path does not exist or cannot be opened.
    Unreadable,
    /// The path names something other than a directory.
    NotADirectory,
    /// The total size of a child does not fit in 64 bits.
    TooLarge,
}

/// The total size of a child.
pub open spec fn child_bytes(c: Child) -> nat {
    entry_bytes(c.kind, c.len, c.walk@)
}

/// `it` is the row of child `c`.
pub open spec fn is_row_of(it: FileItem, c: Child) -> bool {
    &&& it.name@ == c.name@
    &&& it.is_dir == (c.kind == EntryKind::Directory)
    &&& it.size as nat == child_bytes(c)
    &&& it.formatted_size@ == size_text(it.size)
}

/// Every child was read.
pub open spec fn all_read(children: Seq<Option<Child>>) -> bool {
    forall|i: int| 0 <= i < children.len() ==> (#[trigger] children[i]) is Some
}

/// Every child that was read has a size that fits in 64 bits.
pub open spec fn all_fit(children: Seq<Option<Child>>) -> bool {
    forall|i: int|
        0 <= i < children.len() ==> (#[trigger] children[i] matches Some(c) ==> child_bytes(c)
            <= u64::MAX)
}

/// The rows of the children of a directory whose own kind is `root`
/// (`None` when it cannot be opened), in the order given; a child is `None`
/// where enumerating it failed, which fails the whole listing.
pub fn list_children(root: Option<EntryKind>, children: &Vec<Option<Child>>) -> (r: Result<
    Vec<FileItem>,
    ListError,
>)
    ensures
        root is None ==> r == Err::<Vec<FileItem>, ListError>(ListError::Unreadable),
        root matches Some(k) && k != EntryKind::Directory ==> r == Err::<Vec<FileItem>, ListError>(
            ListError::NotADirectory,
        ),
        root == Some(EntryKind::Directory) && !all_read(children@) ==> r == Err::<
            Vec<FileItem>,
            ListError,
        >(ListError::Unreadable),
        root == Some(EntryKind::Directory) && all_read(children@) && !all_fit(children@) ==> r
            == Err::<Vec<FileItem>, ListError>(ListError::TooLarge),
        root == Some(EntryKind::Directory) && all_read(children@) && all_fit(children@) ==> r is Ok,
        r matches Ok(items) ==> items.len() == children.len() && forall|i: int|
            0 <= i < items.len() ==> (#[trigger] children@[i] matches Some(c) && is_row_of(
                items@[i],
                c,
            )),
{
    match root {
        None => {
            return Err(ListError::Unreadable);
        },
        Some(k) => {
            if k != EntryKind::Directory {
                return Err(ListError::NotADirectory);
            }
        },
    }
    let mut i: usize = 0;
    while i < children.len()
        invariant
            i <= children.len(),
            root == Some(EntryKind::Directory),
            forall|m: int| 0 <= m < i ==> (#[trigger] children@[m]) is Some,
        decreases children.len() - i,
    {
        if children[i].is_none() {
            return Err(ListError::Unreadable);
        }
        i = i + 1;
    }
    let mut items: Vec<FileItem> = Vec::new();
    let mut i: usize = 0;
    while i < children.len()
        invariant
            i <= children.len(),
            root == Some(EntryKind::Directory),
            all_read(children@),
            items.len() == i,
            forall|m: int|
                0 <= m < i ==> (#[trigger] children@[m] matches Some(c) && child_bytes(c)
                    <= u64::MAX),
            forall|m: int|
                0 <= m < i ==> (#[trigger] children@[m] matches Some(c) && is_row_of(
                    items@[m],
                    c,
                )),
        decreases children.len() - i,
    {
        match &children[i] {
            None => {
                return Err(ListError::Unreadable);
            },
            Some(c) => match entry_size(c.kind, c.len, &c.walk) {
                None => {
                    return Err(ListError::TooLarge);
                },
                Some(size) => {
                    let it = FileItem::new(c.name.as_str(), size, c.kind == EntryKind::Directory);
                    items.push(it);
                },
            },
        }
        i = i + 1;
    }
    Ok(items)
}

/// The text of a table whose first row is the header, drawn in the sharp
/// style of box-drawing lines.
pub uninterp spec fn sharp_table_of(rows: Seq<Seq<Seq<char>>>) -> Seq<char>;

/// The cells of a row as plain text.
pub open spec fn cells(row: Vec<String>) -> Seq<Seq<char>> {
    row@.map_values(|c: String| c@)
}

/// The cells of rows as plain text.
pub open spec fn rows_view(rows: Seq<Vec<String>>) -> Seq<Seq<Seq<char>>> {
    rows.map_values(|row: Vec<String>| cells(row))
}

/// Relies on tabled's `Table::from_iter`, `Style::sharp` and the `Display`
/// of `Table`: the drawn text depends on the cells alone.
#[verifier::external_body]
fn sharp_table(rows: Vec<Vec<String>>) -> (r: String)
    ensures
        r@ == sharp_table_of(rows_view(rows@)),
{
    let mut table = Table::from_iter(rows);
    table.with(Style::sharp());
    table.to_string()
}

/// The rows of the table of a listing: a header, then for each item its
/// shown name and its size text.
pub open spec fn table_rows(labels: Seq<Seq<char>>, items: Seq<FileItem>) -> Seq<Seq<Seq<char>>> {
    seq![seq![seq!['N', 'a', 'm', 'e'], seq!['S', 'i', 'z', 'e']]] + Seq::new(
        items.len(),
        |i: int| seq![labels[i], items[i].formatted_size@],
    )
}

/// `label` shows the name of `it` with its marker, bare or in the colour of
/// its kind, where the name holds no escape character.
pub open spec fn shows_name(label: Seq<char>, it: FileItem) -> bool {
    !it.name@.contains(escape_char()) ==> label == label_of(it.is_dir, it.name@) || label
        == colour_code(it.is_dir) + label_of(it.is_dir, it.name@) + reset_code()
}

/// The table of a listing, rows in the order of `items`.
pub fn render_table(items: &Vec<FileItem>) -> (r: String)
    ensures
        exists|labels: Seq<Seq<char>>|
            {
                &&& labels.len() == items.len()
                &&& forall|i: int| 0 <= i < items.len() ==> shows_name(#[trigger] labels[i], items@[i])
                &&& r@ == sharp_table_of(table_rows(labels, items@))
            },
{
    let mut rows: Vec<Vec<String>> = Vec::new();
    let mut header: Vec<String> = Vec::new();
    proof { reveal_strlit("Name"); reveal_strlit("Size"); }
    header.push(String::from_str("Name"));
    header.push(String::from_str("Size"));
    assert(header@[0]@ =~= seq!['N', 'a', 'm', 'e']);
    assert(header@[1]@ =~= seq!['S', 'i', 'z', 'e']);
    assert(cells(header) =~= seq![seq!['N', 'a', 'm', 'e'], seq!['S', 'i', 'z', 'e']]);
    rows.push(header);
    let ghost mut labels: Seq<Seq<char>> = Seq::empty();
    let mut i: usize = 0;
    while i < items.len()
        invariant
            i <= items.len(),
            labels.len() == i,
            rows@.len() == i + 1,
            forall|m: int| 0 <= m < i ==> shows_name(#[trigger] labels[m], items@[m]),
            cells(rows@[0]) == seq![seq!['N', 'a', 'm', 'e'], seq!['S', 'i', 'z', 'e']],
            forall|k: int|
                1 <= k <= i ==> cells(#[trigger] rows@[k]) == seq![
                    labels[k - 1],
                    items@[k - 1].formatted_size@,
                ],
        decreases items.len() - i,
    {
        let label = items[i].display_name();
        let size_text = items[i].formatted_size.clone();
        let mut row: Vec<String> = Vec::new();
        row.push(label);
        row.push(size_text);
        proof {
            labels = labels.push(label@);
            assert(cells(row) =~= seq![label@, items@[i as int].formatted_size@]);
        }
        rows.push(row);
        i = i + 1;
    }
    assert(rows_view(rows@) =~= table_rows(labels, items@));
    sharp_table(rows)
}

} // verus!
