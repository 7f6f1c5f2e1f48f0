//! The mode selector: a list of search modes of which one is checked.

use vstd::prelude::*;
use vstd::string::*;

verus! {

/// How a query is turned into a ranking.
#[derive(Debug, Clone, Copy, PartialEq, Eq, Structural)]
pub enum SearchEnum {
    /// Images most similar to the text come first.
    Search,
    /// Images least similar to the text come first.
    NegativePrompt,
    /// Two texts, `wanted-unwanted`: similarity to the first counts for an
    /// image, similarity to the second against it.
    Ranking,
    /// The query is the path of an image; images most similar to it come first.
    Image2Image,
}

#[derive(Debug, Clone, Copy, PartialEq, Eq, PartialOrd, Ord, Hash, Structural)]
pub enum OptionStatus {
    Unchecked,
    Checked,
}

/// One line of the mode selector.
#[derive(Debug)]
pub struct OptionItem {
    pub option: String,
    pub status: OptionStatus,
    pub search_type: SearchEnum,
}

/// Background of a row of the selector.
#[derive(Debug, Clone, Copy, PartialEq, Eq, Structural)]
pub enum RowShade {
    Normal,
    Alternate,
}

/// Rows take the two backgrounds in turn, the first row the normal one.
pub fn alternate_colors(i: usize) -> (shade: RowShade)
    ensures
        shade == (if i % 2 == 0 { RowShade::Normal } else { RowShade::Alternate }),
{
    if i % 2 == 0 {
        RowShade::Normal
    } else {
        RowShade::Alternate
    }
}

impl OptionItem {
    pub fn new(status: OptionStatus, todo: &str, search_type: SearchEnum) -> (item: Self)
        ensures
            item.status == status,
            item.option@ == todo@,
            item.search_type == search_type,
    {
        OptionItem { status, option: todo.to_owned(), search_type }
    }
}

/// Colour of the text of a line.
#[derive(Debug, Clone, Copy, PartialEq, Eq, Structural)]
pub enum LineTone {
    Plain,
    Checked,
}

impl OptionItem {
    /// The text of the line, a box or a tick before the label, and its tone.
    pub fn line(&self) -> (out: (String, LineTone))
        ensures
            self.status == OptionStatus::Unchecked ==> out.0@ == " ☐ "@ + self.option@ && out.1
                == LineTone::Plain,
            self.status == OptionStatus::Checked ==> out.0@ == " ✓ "@ + self.option@ && out.1
                == LineTone::Checked,
    {
        match self.status {
            OptionStatus::Unchecked => (
                String::from_str(" ☐ ").concat(self.option.as_str()),
                LineTone::Plain,
            ),
            OptionStatus::Checked => (
                String::from_str(" ✓ ").concat(self.option.as_str()),
                LineTone::Checked,
            ),
        }
    }
}

/// The mode that a label of the selector stands for; a label that names
/// none stands for `Search`.
pub open spec fn label_mode(label: Seq<char>) -> SearchEnum {
    if label == "Negative Prompt"@ {
        SearchEnum::NegativePrompt
    } else if label == "Ranking"@ {
        SearchEnum::Ranking
    } else if label == "Image 2 Image"@ {
        SearchEnum::Image2Image
    } else {
        SearchEnum::Search
    }
}

pub fn mode_of_label(label: &String) -> (mode: SearchEnum)
    ensures
        mode == label_mode(label@),
{
    if *label == String::from_str("Negative Prompt") {
        SearchEnum::NegativePrompt
    } else if *label == String::from_str("Ranking") {
        SearchEnum::Ranking
    } else if *label == String::from_str("Image 2 Image") {
        SearchEnum::Image2Image
    } else {
        SearchEnum::Search
    }
}

/// The selector: its lines and the line under the cursor.
#[derive(Debug)]
pub struct OptionList {
    pub items: Vec<OptionItem>,
    pub selected: Option<usize>,
}

impl OptionList {
    /// The cursor, if there is one, is on a line of the list.
    pub open spec fn wf(&self) -> bool {
        self.selected matches Some(i) ==> i < self.items.len()
    }

    /// Line `i` is checked and no other line is.
    pub open spec fn only_checked(&self, i: int) -> bool {
        &&& 0 <= i < self.items.len()
        &&& forall|j: int|
            0 <= j < self.items.len() ==> ((#[trigger] self.items[j]).status
                == OptionStatus::Checked <==> j == i)
    }

    /// Labels and modes of the lines, without their status.
    pub open spec fn captions(&self) -> Seq<(Seq<char>, SearchEnum)> {
        Seq::new(self.items.len() as nat, |j: int| (self.items[j].option@, self.items[j].search_type))
    }

    /// The cursor after `select(index)` on a list of `len` lines.
    pub open spec fn selection(len: int, index: Option<usize>) -> Option<usize> {
        match index {
            Some(i) if len > 0 => Some(if i < len { i } else { (len - 1) as usize }),
            _ => None,
        }
    }

    /// The cursor one line further down, as far as there is one.
    pub open spec fn next_selection(&self) -> Option<usize> {
        match self.selected {
            _ if self.items.len() == 0 => None,
            None => Some(0usize),
            Some(i) => Some(if i + 1 < self.items.len() { (i + 1) as usize } else { i }),
        }
    }

    /// The cursor one line further up, as far as there is one.
    pub open spec fn previous_selection(&self) -> Option<usize> {
        match self.selected {
            _ if self.items.len() == 0 => None,
            None => Some((self.items.len() - 1) as usize),
            Some(i) => Some(if i > 0 { (i - 1) as usize } else { 0usize }),
        }
    }

    /// `self` is `before` after the line under the cursor was checked and
    /// every other line unchecked, which gave `mode`.
    pub open spec fn toggled_from(&self, before: OptionList, mode: Option<SearchEnum>) -> bool {
        &&& self.wf()
        &&& self.selected == before.selected
        &&& self.captions() == before.captions()
        &&& match before.selected {
            Some(i) => self.only_checked(i as int) && mode == Some(
                label_mode(before.items[i as int].option@),
            ),
            None => *self == before && mode is None,
        }
    }

    /// Labels and modes of the four lines of the mode selector.
    pub open spec fn mode_captions() -> Seq<(Seq<char>, SearchEnum)> {
        seq![
            ("Search"@, SearchEnum::Search),
            ("Negative Prompt"@, SearchEnum::NegativePrompt),
            ("Ranking"@, SearchEnum::Ranking),
            ("Image 2 Image"@, SearchEnum::Image2Image),
        ]
    }

    /// A list with one line per entry, in order, and no cursor.
    pub fn from_entries(entries: Vec<(OptionStatus, &'static str, SearchEnum)>) -> (list: Self)
        ensures
            list.wf(),
            list.selected is None,
            list.items.len() == entries.len(),
            forall|j: int|
                0 <= j < entries.len() ==> {
                    &&& (#[trigger] list.items[j]).status == entries[j].0
                    &&& list.items[j].option@ == entries[j].1@
                    &&& list.items[j].search_type == entries[j].2
                },
    {
        let mut items: Vec<OptionItem> = Vec::new();
        let mut j: usize = 0;
        while j < entries.len()
            invariant
                j <= entries.len(),
                items.len() == j,
                forall|k: int|
                    0 <= k < j ==> {
                        &&& (#[trigger] items[k]).status == entries[k].0
                        &&& items[k].option@ == entries[k].1@
                        &&& items[k].search_type == entries[k].2
                    },
            decreases entries.len() - j,
        {
            let entry = &entries[j];
            items.push(OptionItem::new(entry.0, entry.1, entry.2));
            j += 1;
        }
        OptionList { items, selected: None }
    }

    /// The four search modes, `Search` checked.
    pub fn modes() -> (list: Self)
        ensures
            list.wf(),
            list.selected is None,
            list.only_checked(0),
            list.captions() == OptionList::mode_captions(),
    {
        let mut entries: Vec<(OptionStatus, &'static str, SearchEnum)> = Vec::new();
        entries.push((OptionStatus::Checked, "Search", SearchEnum::Search));
        entries.push((OptionStatus::Unchecked, "Negative Prompt", SearchEnum::NegativePrompt));
        entries.push((OptionStatus::Unchecked, "Ranking", SearchEnum::Ranking));
        entries.push((OptionStatus::Unchecked, "Image 2 Image", SearchEnum::Image2Image));
        let list = OptionList::from_entries(entries);
        assert(list.captions() =~= OptionList::mode_captions());
        list
    }

    /// Puts the cursor on line `index`, or on the last line where the list is
    /// shorter; takes it away for `None` or an empty list.
    ///
    /// The cursor is brought back onto the list at once. A `ListState` of
    /// ratatui keeps the index it was given and brings it back only when
    /// the list is drawn, so the two agree whenever the list is drawn
    /// between two moves of the cursor, and not in between.
    pub fn select(&mut self, index: Option<usize>)
        ensures
            final(self).wf(),
            final(self).items == old(self).items,
            final(self).selected == OptionList::selection(old(self).items.len() as int, index),
    {
        let len = self.items.len();
        self.selected = match index {
            Some(i) => if len == 0 {
                None
            } else if i < len {
                Some(i)
            } else {
                Some(len - 1)
            },
            None => None,
        };
    }

    /// Moves the cursor one line down, and stops at the last line. Without a
    /// cursor it goes to the first line. It stops at once, as `select` does.
    pub fn select_next(&mut self)
        requires
            old(self).wf(),
        ensures
            final(self).wf(),
            final(self).items == old(self).items,
            final(self).selected == old(self).next_selection(),
    {
        let next: usize = match self.selected {
            None => 0,
            Some(i) => i + 1,
        };
        self.select(Some(next));
    }

    /// Moves the cursor one line up, and stops at the first line. Without a
    /// cursor it goes to the last line, at once, as `select` does.
    pub fn select_previous(&mut self)
        requires
            old(self).wf(),
        ensures
            final(self).wf(),
            final(self).items == old(self).items,
            final(self).selected == old(self).previous_selection(),
    {
        let previous: usize = match self.selected {
            None => usize::MAX,
            Some(i) => if i > 0 { i - 1 } else { 0 },
        };
        self.select(Some(previous));
    }

    /// Checks the line under the cursor and unchecks every other line.
    /// Returns the mode that the line's label stands for. Without a cursor
    /// the list stays as it is and `None` is returned.
    pub fn toggle_status(&mut self) -> (mode: Option<SearchEnum>)
        requires
            old(self).wf(),
        ensures
            final(self).toggled_from(*old(self), mode),
    {
        match self.selected {
            None => None,
            Some(i) => {
                let n = self.items.len();
                let mut j: usize = 0;
                while j < n
                    invariant
                        j <= n,
                        i < n,
                        n == self.items.len(),
                        self.selected == old(self).selected,
                        self.captions() == old(self).captions(),
                        forall|k: int|
                            0 <= k < j ==> ((#[trigger] self.items[k]).status
                                == OptionStatus::Checked <==> k == i),
                    decreases n - j,
                {
                    let ghost before = *self;
                    self.items[j].status = if j == i {
                        OptionStatus::Checked
                    } else {
                        OptionStatus::Unchecked
                    };
                    assert(self.captions() =~= before.captions());
                    j += 1;
                }
                assert(self.captions()[i as int] == old(self).captions()[i as int]);
                Some(mode_of_label(&self.items[i].option))
            },
        }
    }
}

/// The selector never shows two modes checked, nor none: a list with one
/// checked line has one checked line after the line under the cursor was
/// toggled.
pub proof fn lemma_one_mode_checked(before: OptionList, after: OptionList, mode: Option<SearchEnum>)
    requires
        before.wf(),
        exists|i: int| before.only_checked(i),
        after.toggled_from(before, mode),
    ensures
        exists|i: int| after.only_checked(i),
{
    match before.selected {
        Some(i) => {
            assert(after.only_checked(i as int));
        },
        None => {
            let i = choose|i: int| before.only_checked(i);
            assert(after.only_checked(i));
        },
    }
}

} // verus!
