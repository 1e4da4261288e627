//! A list that can be searched and has a selected row.
use vstd::prelude::*;

use crate::app::process_order;
use crate::app::scroll;
use crate::app::scroll::{calculate_scroll, Step};
use crate::number::Number;
use crate::text;
use crate::text::{characters, same_text, to_lowercase};

verus! {

broadcast use vstd::string::group_string_axioms;

/// What tells an item of a list apart.
pub enum Tag {
    Name(Seq<char>),
    Number(u64),
}

/// What an item is selected by.
#[derive(Debug, Clone, PartialEq, Eq)]
pub enum Key {
    Name(String),
    Number(u64),
}

impl View for Key {
    type V = Tag;

    open spec fn view(&self) -> Tag {
        match self {
            Key::Name(name) => Tag::Name(name@),
            Key::Number(number) => Tag::Number(*number),
        }
    }
}

impl Key {
    pub fn same(&self, other: &Key) -> (same: bool)
        ensures
            same == (self@ == other@),
    {
        match (self, other) {
            (Key::Name(left), Key::Name(right)) => same_text(left.as_str(), right.as_str()),
            (Key::Number(left), Key::Number(right)) => *left == *right,
            _ => false,
        }
    }

    pub fn duplicate(&self) -> (copy: Key)
        ensures
            copy@ == self@,
    {
        match self {
            Key::Name(name) => Key::Name(name.clone()),
            Key::Number(number) => Key::Number(*number),
        }
    }
}

/// What an optional key stands for.
pub open spec fn optional_tag(key: Option<Key>) -> Option<Tag> {
    match key {
        Some(key) => Some(key@),
        None => None,
    }
}

fn duplicate_optional(key: &Option<Key>) -> (copy: Option<Key>)
    ensures
        optional_tag(copy) == optional_tag(*key),
{
    match key {
        Some(key) => Some(key.duplicate()),
        None => None,
    }
}

/// Things that can be listed.
pub trait Item: Sized {
    spec fn tag(self) -> Tag;

    /// A query, itself in lower case, finds the item.
    spec fn found_by(self, query: Seq<char>) -> bool;

    fn key(&self) -> (key: Key)
        ensures
            key@ == self.tag(),
    ;

    fn has_key(&self, key: &Key) -> (result: bool)
        ensures
            result == (self.tag() == key@),
    ;

    fn matches(&self, query: &Vec<char>) -> (found: bool)
        ensures
            found == self.found_by(query@),
    ;
}

/// The places of those among the first `count` items that a query finds.
pub open spec fn found_places<T: Item>(items: Seq<T>, query: Seq<char>, count: int) -> Seq<usize>
    decreases count,
{
    if count <= 0 {
        Seq::empty()
    } else if items[count - 1].found_by(query) {
        found_places(items, query, count - 1).push((count - 1) as usize)
    } else {
        found_places(items, query, count - 1)
    }
}

/// The places of the items that a query, given in lower case, finds.
pub fn find_places<T: Item>(items: &Vec<T>, query: &Vec<char>) -> (rows: Vec<usize>)
    ensures
        rows@ == found_places(items@, query@, items@.len() as int),
{
    let mut rows: Vec<usize> = Vec::new();
    let mut i: usize = 0;
    while i < items.len()
        invariant
            i <= items@.len(),
            rows@ == found_places(items@, query@, i as int),
        decreases items@.len() - i,
    {
        if items[i].matches(query) {
            rows.push(i);
        }
        i += 1;
    }
    rows
}

/// The item shown at a row.
pub open spec fn item_at<T: Item>(items: Seq<T>, rows: Seq<usize>, row: int) -> Option<T> {
    if 0 <= row < rows.len() && rows[row] < items.len() {
        Some(items[rows[row] as int])
    } else {
        None
    }
}

/// The first row from `from` on that shows the item `tag`.
pub open spec fn row_from<T: Item>(items: Seq<T>, rows: Seq<usize>, tag: Tag, from: int) -> Option<
    usize,
>
    decreases rows.len() - from,
{
    if from >= rows.len() {
        None
    } else if item_at(items, rows, from) is Some && item_at(items, rows, from)->0.tag() == tag {
        Some(from as usize)
    } else {
        row_from(items, rows, tag, from + 1)
    }
}

/// The first item from `from` on that is `tag`, by its place.
pub open spec fn item_place<T: Item>(items: Seq<T>, tag: Tag, from: int) -> Option<usize>
    decreases items.len() - from,
{
    if from >= items.len() {
        None
    } else if items[from].tag() == tag {
        Some(from as usize)
    } else {
        item_place(items, tag, from + 1)
    }
}

/// The last `capacity` items.
pub open spec fn newest<T>(items: Seq<T>, capacity: int) -> Seq<T> {
    if items.len() <= capacity {
        items
    } else {
        items.skip(items.len() - capacity)
    }
}

/// What a list is made of.
#[verifier::ext_equal]
#[verifier::reject_recursive_types(T)]
pub struct ListState<T> {
    pub items: Seq<T>,
    /// The places of the items shown, in order.
    pub rows: Seq<usize>,
    pub selected: Option<Tag>,
    pub scroll: usize,
    pub height: usize,
    pub query: Seq<char>,
}

impl<T: Item> ListState<T> {
    /// An empty list.
    pub open spec fn initial() -> ListState<T> {
        ListState {
            items: Seq::empty(),
            rows: Seq::empty(),
            selected: None,
            scroll: 0,
            height: 0,
            query: Seq::empty(),
        }
    }

    /// The item shown at a row.
    pub open spec fn at(self, row: int) -> Option<T> {
        item_at(self.items, self.rows, row)
    }

    /// The row that shows the item `tag`.
    pub open spec fn row_of(self, tag: Tag) -> Option<usize> {
        row_from(self.items, self.rows, tag, 0)
    }

    pub open spec fn selected_row(self) -> Option<usize> {
        match self.selected {
            Some(tag) => self.row_of(tag),
            None => None,
        }
    }

    /// The selected row, or the first one.
    pub open spec fn current_row(self) -> int {
        match self.selected_row() {
            Some(row) => row as int,
            None => 0,
        }
    }

    /// The selected item.
    pub open spec fn selected_item(self) -> Option<T> {
        match self.selected {
            Some(tag) => match item_place(self.items, tag, 0) {
                Some(place) => Some(self.items[place as int]),
                None => None,
            },
            None => None,
        }
    }

    /// What is selected when the row at `wanted` is, or the last one where there are fewer.
    pub open spec fn nearest(self, wanted: int) -> Option<Tag> {
        let row = if wanted < self.rows.len() {
            wanted
        } else {
            self.rows.len() - 1
        };
        match self.at(row) {
            Some(item) => Some(item.tag()),
            None => None,
        }
    }

    /// The list with its rows made anew from the query.
    pub open spec fn refiltered(self) -> ListState<T> {
        ListState {
            rows: found_places(self.items, text::lowercase(self.query), self.items.len() as int),
            ..self
        }
    }

    /// The selection kept where it is still shown, else replaced by what is at its place.
    pub open spec fn reselected(self, previous: Option<Tag>, wanted: int) -> ListState<T> {
        ListState {
            selected: if previous is Some && self.row_of(previous->0) is Some {
                previous
            } else {
                self.nearest(wanted)
            },
            ..self
        }
    }

    /// The list scrolled to its selected row.
    pub open spec fn scrolled(self) -> ListState<T> {
        ListState {
            scroll: scroll::scroll_start(
                self.rows.len() as int,
                self.selected_row(),
                self.scroll as int,
                self.height as int,
            ) as usize,
            ..self
        }
    }

    /// The list with its rows made anew and its selection kept or replaced.
    #[verifier::opaque]
    pub open spec fn rebuilt(self) -> ListState<T> {
        self.refiltered().reselected(self.selected, self.current_row()).scrolled()
    }

    /// The list with another query.
    #[verifier::opaque]
    pub open spec fn searched(self, query: Seq<char>) -> ListState<T> {
        ListState { query, ..self }.rebuilt()
    }

    /// The list in another viewport.
    #[verifier::opaque]
    pub open spec fn viewed(self, start: usize, height: usize) -> ListState<T> {
        ListState { scroll: start, height, ..self }.scrolled()
    }

    /// The selection on the item at a row.
    #[verifier::opaque]
    pub open spec fn selected_at(self, row: int) -> ListState<T> {
        match self.at(row) {
            Some(item) => ListState { selected: Some(item.tag()), ..self }.scrolled(),
            None => self,
        }
    }

    /// Where a move leads from the selected row.
    pub open spec fn step_target(self, step: Step) -> int {
        step.from(self.current_row(), self.rows.len() - 1)
    }

    /// The list with its last row selected.
    pub open spec fn on_last(self) -> ListState<T> {
        ListState { selected: self.nearest(self.rows.len() as int), ..self }
    }

    /// The list with its selection on the last row, if it follows what is added, else kept or
    /// replaced.
    pub open spec fn restored(self, follow: bool, previous: Option<Tag>, wanted: int) -> ListState<
        T,
    > {
        if follow {
            self.on_last()
        } else {
            self.reselected(previous, wanted)
        }
    }

    /// The list with items added at its end and, beyond `capacity`, the oldest dropped.
    #[verifier::opaque]
    pub open spec fn appended(self, added: Seq<T>, capacity: int, follow: bool) -> ListState<T> {
        ListState { items: newest(self.items + added, capacity), ..self }.refiltered().restored(
            follow,
            self.selected,
            self.current_row(),
        ).scrolled()
    }

    /// The list with another query, its selection following what is added or not.
    #[verifier::opaque]
    pub open spec fn searched_following(self, query: Seq<char>, follow: bool) -> ListState<T> {
        ListState { query, ..self }.refiltered().restored(
            follow,
            self.selected,
            self.current_row(),
        ).scrolled()
    }

    /// What holds of a list whenever nobody is changing it: it shows what its query finds, what
    /// is selected is shown and in view, and something is selected as soon as anything is shown.
    #[verifier::opaque]
    pub open spec fn settled(self) -> bool {
        &&& self.rows == found_places(
            self.items,
            text::lowercase(self.query),
            self.items.len() as int,
        )
        &&& self.selected is Some ==> self.selected_row() is Some
        &&& self.rows.len() > 0 ==> self.selected is Some
        &&& self.scrolled() == self
    }
}

proof fn lemma_found_places<T: Item>(items: Seq<T>, query: Seq<char>, count: int, row: int)
    requires
        0 <= count <= items.len() <= usize::MAX,
        0 <= row < found_places(items, query, count).len(),
    ensures
        found_places(items, query, count)[row] < count,
        items[found_places(items, query, count)[row] as int].found_by(query),
    decreases count,
{
    if count > 0 {
        let shorter = found_places(items, query, count - 1);
        if row < shorter.len() {
            lemma_found_places(items, query, count - 1, row);
        }
    }
}

/// Which letters of a query are capitals makes no difference.
pub proof fn lemma_search_ignores_case<T: Item>(
    list: ListState<T>,
    left: Seq<char>,
    right: Seq<char>,
    follow: bool,
)
    requires
        text::lowercase(left) == text::lowercase(right),
    ensures
        list.searched(left).rows == list.searched(right).rows,
        list.searched(left).selected == list.searched(right).selected,
        list.searched_following(left, follow).rows == list.searched_following(right, follow).rows,
        list.searched_following(left, follow).selected == list.searched_following(
            right,
            follow,
        ).selected,
{
    reveal(ListState::searched);
    reveal(ListState::searched_following);
    reveal(ListState::rebuilt);
}

/// An item is shown exactly if the query finds it.
pub proof fn lemma_found_is_shown<T: Item>(
    items: Seq<T>,
    query: Seq<char>,
    count: int,
    place: int,
)
    requires
        0 <= place < count <= items.len() <= usize::MAX,
    ensures
        found_places(items, query, count).contains(place as usize) == items[place].found_by(query),
    decreases count,
{
    let rows = found_places(items, query, count);
    if items[place].found_by(query) {
        if place == count - 1 {
            assert(rows.last() == place as usize);
        } else {
            lemma_found_is_shown(items, query, count - 1, place);
            let shorter = found_places(items, query, count - 1);
            let i = choose|i: int| 0 <= i < shorter.len() && shorter[i] == place as usize;
            assert(rows[i] == place as usize);
        }
    } else if rows.contains(place as usize) {
        let i = choose|i: int| 0 <= i < rows.len() && rows[i] == place as usize;
        lemma_found_places(items, query, count, i);
    }
}

/// Rows are shown in the order of the items.
pub proof fn lemma_rows_ascend<T: Item>(
    items: Seq<T>,
    query: Seq<char>,
    count: int,
    i: int,
    j: int,
)
    requires
        0 <= count <= items.len() <= usize::MAX,
        0 <= i < j < found_places(items, query, count).len(),
    ensures
        found_places(items, query, count)[i] < found_places(items, query, count)[j],
    decreases count,
{
    if count > 0 {
        let shorter = found_places(items, query, count - 1);
        if j < shorter.len() {
            lemma_rows_ascend(items, query, count - 1, i, j);
        } else {
            lemma_found_places(items, query, count - 1, i);
        }
    }
}

proof fn lemma_row_from<T: Item>(
    items: Seq<T>,
    rows: Seq<usize>,
    tag: Tag,
    from: int,
    row: int,
)
    requires
        0 <= from <= row < rows.len(),
        row <= usize::MAX,
        item_at(items, rows, row) is Some,
        item_at(items, rows, row)->0.tag() == tag,
    ensures
        row_from(items, rows, tag, from) is Some,
    decreases row - from,
{
    if from < row {
        lemma_row_from(items, rows, tag, from + 1, row);
    }
}

proof fn lemma_row_in_range<T: Item>(items: Seq<T>, rows: Seq<usize>, tag: Tag, from: int)
    requires
        0 <= from,
        rows.len() <= usize::MAX,
    ensures
        row_from(items, rows, tag, from) matches Some(row) ==> from <= row < rows.len() && item_at(
            items,
            rows,
            row as int,
        ) is Some && item_at(items, rows, row as int)->0.tag() == tag,
    decreases rows.len() - from,
{
    if from < rows.len() {
        lemma_row_in_range(items, rows, tag, from + 1);
    }
}

proof fn lemma_scrolled_settles<T: Item>(list: ListState<T>)
    ensures
        list.scrolled().scrolled() == list.scrolled(),
{
    scroll::lemma_scroll_settles(
        list.rows.len() as int,
        list.selected_row(),
        list.scroll as int,
        list.height as int,
    );
    assert(list.scrolled().selected_row() == list.selected_row());
}

/// A list whose rows are up to date is settled by selecting the nearest row.
pub proof fn lemma_reselected_settles<T: Item>(
    list: ListState<T>,
    previous: Option<Tag>,
    wanted: int,
)
    requires
        list.items.len() <= usize::MAX,
        list.rows == found_places(
            list.items,
            text::lowercase(list.query),
            list.items.len() as int,
        ),
        list.rows.len() <= usize::MAX,
        0 <= wanted,
    ensures
        list.reselected(previous, wanted).scrolled().settled(),
{
    reveal(ListState::settled);
    let chosen = list.reselected(previous, wanted);
    lemma_nearest_is_shown(list, wanted);
    lemma_scrolled_settles(chosen);
}

proof fn lemma_nearest_is_shown<T: Item>(list: ListState<T>, wanted: int)
    requires
        list.items.len() <= usize::MAX,
        list.rows == found_places(
            list.items,
            text::lowercase(list.query),
            list.items.len() as int,
        ),
        list.rows.len() <= usize::MAX,
        0 <= wanted,
    ensures
        list.nearest(wanted) is Some == (list.rows.len() > 0),
        list.nearest(wanted) is Some ==> list.row_of(list.nearest(wanted)->0) is Some,
{
    if list.rows.len() > 0 {
        let row = if wanted < list.rows.len() {
            wanted
        } else {
            list.rows.len() - 1
        };
        lemma_found_places(
            list.items,
            text::lowercase(list.query),
            list.items.len() as int,
            row,
        );
        lemma_row_from(list.items, list.rows, list.nearest(wanted)->0, 0, row);
    }
}

/// Making its rows anew settles a list, however it was before.
pub proof fn lemma_rebuilt_settles<T: Item>(list: ListState<T>)
    requires
        list.items.len() <= usize::MAX,
        list.refiltered().rows.len() <= usize::MAX,
    ensures
        list.rebuilt().settled(),
{
    reveal(ListState::settled);
    reveal(ListState::rebuilt);
    lemma_reselected_settles(list.refiltered(), list.selected, list.current_row());
}

/// A list whose rows are up to date is settled by selecting its last row, or the nearest one.
pub proof fn lemma_restored_settles<T: Item>(
    list: ListState<T>,
    follow: bool,
    previous: Option<Tag>,
    wanted: int,
)
    requires
        list.items.len() <= usize::MAX,
        list.rows == found_places(
            list.items,
            text::lowercase(list.query),
            list.items.len() as int,
        ),
        list.rows.len() <= usize::MAX,
        0 <= wanted,
    ensures
        list.restored(follow, previous, wanted).scrolled().settled(),
{
    reveal(ListState::settled);
    if follow {
        lemma_nearest_is_shown(list, list.rows.len() as int);
        lemma_scrolled_settles(list.on_last());
    } else {
        lemma_reselected_settles(list, previous, wanted);
    }
}

/// Adding items never exceeds the capacity, keeps the newest, and keeps them in order.
pub proof fn lemma_newest<T>(items: Seq<T>, added: Seq<T>, capacity: int)
    requires
        0 < capacity,
    ensures
        newest(items + added, capacity).len() <= capacity,
        added.len() <= capacity ==> newest(items + added, capacity).skip(
            newest(items + added, capacity).len() - added.len(),
        ) == added,
        newest(newest(items, capacity) + added, capacity) == newest(items + added, capacity),
{
    let all = items + added;
    if added.len() <= capacity {
        let kept = newest(all, capacity);
        assert(kept.skip(kept.len() - added.len()) =~= added);
    }
    assert(newest(newest(items, capacity) + added, capacity) =~= newest(all, capacity));
}

/// Selecting a row keeps a list settled.
pub proof fn lemma_selected_at_settles<T: Item>(list: ListState<T>, row: int)
    requires
        list.settled(),
        list.rows.len() <= usize::MAX,
    ensures
        list.selected_at(row).settled(),
{
    reveal(ListState::settled);
    reveal(ListState::selected_at);
    match list.at(row) {
        Some(item) => {
            lemma_row_from(list.items, list.rows, item.tag(), 0, row);
            lemma_scrolled_settles(ListState { selected: Some(item.tag()), ..list });
        },
        None => {},
    }
}

/// Another viewport keeps a list settled.
pub proof fn lemma_viewed_settles<T: Item>(list: ListState<T>, start: usize, height: usize)
    requires
        list.settled(),
    ensures
        list.viewed(start, height).settled(),
{
    reveal(ListState::settled);
    reveal(ListState::viewed);
    lemma_scrolled_settles(ListState { scroll: start, height, ..list });
}

/// In a settled list the selected row is in view.
pub proof fn lemma_selection_in_view<T: Item>(list: ListState<T>)
    requires
        list.settled(),
        list.rows.len() > 0,
        list.rows.len() <= usize::MAX,
        list.height > 0,
    ensures
        list.selected_row() is Some,
        list.selected_row()->0 < list.rows.len(),
        list.scroll <= list.selected_row()->0 < list.scroll + list.height,
{
    reveal(ListState::settled);
    lemma_row_in_range(list.items, list.rows, list.selected->0, 0);
    scroll::lemma_selected_row_in_view(
        list.rows.len() as int,
        list.selected_row()->0,
        list.scroll as int,
        list.height as int,
    );
    assert(list.scrolled().scroll == list.scroll);
}

/// A list with its rows and its selection.
#[derive(Debug)]
#[verifier::reject_recursive_types(T)]
pub struct List<T> {
    items: Vec<T>,
    rows: Vec<usize>,
    selected: Option<Key>,
    scroll: usize,
    height: usize,
    query: String,
}

impl<T: Item> View for List<T> {
    type V = ListState<T>;

    closed spec fn view(&self) -> ListState<T> {
        ListState {
            items: self.items@,
            rows: self.rows@,
            selected: optional_tag(self.selected),
            scroll: self.scroll,
            height: self.height,
            query: self.query@,
        }
    }
}

impl<T: Item> List<T> {
    pub fn new() -> (list: List<T>)
        ensures
            list@ == ListState::<T>::initial(),
            list@.settled(),
    {
        proof {
            reveal(ListState::settled);
        }
        let list = List {
            items: Vec::new(),
            rows: Vec::new(),
            selected: None,
            scroll: 0,
            height: 0,
            query: String::new(),
        };
        assert(list@ =~= ListState::<T>::initial());
        assert(list@.rows =~= found_places(list@.items, text::lowercase(list@.query), 0));
        list
    }

    pub fn row_count(&self) -> (count: usize)
        ensures
            count == self@.rows.len(),
    {
        self.rows.len()
    }

    /// The item shown at a row.
    pub fn at(&self, row: usize) -> (item: Option<&T>)
        ensures
            match item {
                Some(item) => self@.at(row as int) == Some(*item),
                None => self@.at(row as int) is None,
            },
    {
        if row < self.rows.len() && self.rows[row] < self.items.len() {
            Some(&self.items[self.rows[row]])
        } else {
            None
        }
    }

    /// The row that shows the item `key`.
    pub fn row_of(&self, key: &Key) -> (row: Option<usize>)
        ensures
            row == self@.row_of(key@),
            row is Some ==> row->0 < self@.rows.len(),
    {
        let mut i: usize = 0;
        while i < self.rows.len()
            invariant
                i <= self.rows@.len(),
                self.rows@ == self@.rows,
                self.items@ == self@.items,
                self@.row_of(key@) == row_from(self.items@, self.rows@, key@, i as int),
            decreases self.rows@.len() - i,
        {
            match self.at(i) {
                Some(item) => {
                    if item.has_key(key) {
                        return Some(i);
                    }
                },
                None => {},
            }
            i += 1;
        }
        None
    }

    pub fn selected_row(&self) -> (row: Option<usize>)
        ensures
            row == self@.selected_row(),
            row is Some ==> row->0 < self@.rows.len(),
    {
        match &self.selected {
            Some(key) => self.row_of(key),
            None => None,
        }
    }

    fn current_row(&self) -> (row: usize)
        ensures
            row == self@.current_row(),
    {
        match self.selected_row() {
            Some(row) => row,
            None => 0,
        }
    }

    /// The selected item.
    pub fn selected_item(&self) -> (item: Option<&T>)
        ensures
            match item {
                Some(item) => self@.selected_item() == Some(*item),
                None => self@.selected_item() is None,
            },
    {
        match &self.selected {
            Some(key) => {
                let mut i: usize = 0;
                while i < self.items.len()
                    invariant
                        i <= self.items@.len(),
                        self.items@ == self@.items,
                        self@.selected == Some(key@),
                        item_place(self.items@, key@, 0) == item_place(
                            self.items@,
                            key@,
                            i as int,
                        ),
                    decreases self.items@.len() - i,
                {
                    if self.items[i].has_key(key) {
                        return Some(&self.items[i]);
                    }
                    i += 1;
                }
                None
            },
            None => None,
        }
    }

    pub fn selected_key(&self) -> (key: &Option<Key>)
        ensures
            optional_tag(*key) == self@.selected,
    {
        &self.selected
    }

    pub fn items(&self) -> (items: &Vec<T>)
        ensures
            items@ == self@.items,
    {
        &self.items
    }

    pub fn scroll(&self) -> (scroll: usize)
        ensures
            scroll == self@.scroll,
    {
        self.scroll
    }

    pub fn height(&self) -> (height: usize)
        ensures
            height == self@.height,
    {
        self.height
    }

    pub fn query(&self) -> (query: &str)
        ensures
            query@ == self@.query,
    {
        self.query.as_str()
    }

    fn ensure_visible(&mut self)
        ensures
            final(self)@ == old(self)@.scrolled(),
    {
        self.scroll = calculate_scroll(
            self.rows.len(),
            self.selected_row(),
            self.scroll,
            self.height,
        );
    }

    fn refilter(&mut self)
        ensures
            final(self)@ == old(self)@.refiltered(),
    {
        let query = characters(to_lowercase(self.query.as_str()).as_str());
        self.rows = find_places(&self.items, &query);
    }

    /// Keeps the selection where it is still shown, else replaces it. Returns whether it was
    /// kept.
    fn reselect(&mut self, previous: Option<Key>, wanted: usize) -> (kept: bool)
        ensures
            final(self)@ == old(self)@.reselected(optional_tag(previous), wanted as int),
            kept == (previous is Some && old(self)@.row_of(previous->0@) is Some),
    {
        let kept = match &previous {
            Some(key) => self.row_of(key).is_some(),
            None => false,
        };
        if kept {
            self.selected = previous;
        } else {
            let row: usize = if wanted < self.rows.len() {
                wanted
            } else if self.rows.len() > 0 {
                self.rows.len() - 1
            } else {
                0
            };
            self.selected = match self.at(row) {
                Some(item) => Some(item.key()),
                None => None,
            };
        }
        kept
    }

    /// Makes the rows anew and keeps the selection, or what is near it.
    fn rebuild(&mut self)
        ensures
            final(self)@ == old(self)@.rebuilt(),
            final(self)@.settled(),
    {
        proof {
            reveal(ListState::settled);
            reveal(ListState::rebuilt);
        }
        let wanted: usize = self.current_row();
        let previous = duplicate_optional(&self.selected);
        let items: usize = self.items.len();
        self.refilter();
        let rows: usize = self.rows.len();
        proof {
            lemma_rebuilt_settles(old(self)@);
        }
        self.reselect(previous, wanted);
        self.ensure_visible();
    }

    /// Searches for another query.
    pub fn search(&mut self, query: String)
        ensures
            final(self)@.items == old(self)@.items,
            final(self)@ == old(self)@.searched(query@),
            final(self)@.settled(),
    {
        proof {
            reveal(ListState::settled);
            reveal(ListState::searched);
            reveal(ListState::rebuilt);
        }
        self.query = query;
        self.rebuild();
    }

    /// Takes over new items, with the rows made anew twice over: once from where the selection
    /// is now, and once more from where it was. Returns whether the selection is still shown.
    pub fn replace_and_rebuild(&mut self, next: Vec<T>) -> (kept: bool)
        ensures
            final(self)@ == (ListState { items: next@, ..old(self)@ }).rebuilt().reselected(
                old(self)@.selected,
                old(self)@.current_row(),
            ).scrolled(),
            final(self)@.settled(),
            kept == (old(self)@.selected is Some && final(self)@.row_of(old(self)@.selected->0)
                is Some),
    {
        proof {
            reveal(ListState::settled);
            reveal(ListState::rebuilt);
        }
        let wanted: usize = self.current_row();
        let previous = duplicate_optional(&self.selected);
        self.items = next;
        self.rebuild();
        let items: usize = self.items.len();
        let rows: usize = self.rows.len();
        proof {
            lemma_reselected_settles(self@, optional_tag(previous), wanted as int);
        }
        let kept = self.reselect(previous, wanted);
        self.ensure_visible();
        kept
    }

    /// Takes over new items. Returns whether the selection is still shown.
    pub fn replace(&mut self, next: Vec<T>) -> (kept: bool)
        ensures
            final(self)@ == (ListState { items: next@, ..old(self)@ }).refiltered().reselected(
                old(self)@.selected,
                old(self)@.current_row(),
            ).scrolled(),
            final(self)@.settled(),
            kept == (old(self)@.selected is Some && final(self)@.row_of(old(self)@.selected->0)
                is Some),
    {
        proof {
            reveal(ListState::settled);
        }
        let wanted: usize = self.current_row();
        let previous = duplicate_optional(&self.selected);
        self.items = next;
        self.refilter();
        let items: usize = self.items.len();
        let rows: usize = self.rows.len();
        proof {
            lemma_reselected_settles(self@, optional_tag(previous), wanted as int);
        }
        let kept = self.reselect(previous, wanted);
        self.ensure_visible();
        kept
    }

    /// Selects the last row, or restores the selection. Returns whether the selection was lost.
    fn restore(&mut self, follow: bool, previous: Option<Key>, wanted: usize) -> (lost: bool)
        ensures
            final(self)@ == old(self)@.restored(follow, optional_tag(previous), wanted as int),
            lost == (!follow && !(previous is Some && old(self)@.row_of(previous->0@) is Some)),
    {
        if follow {
            let last: usize = if self.rows.len() > 0 {
                self.rows.len() - 1
            } else {
                0
            };
            self.selected = match self.at(last) {
                Some(item) => Some(item.key()),
                None => None,
            };
            false
        } else {
            !self.reselect(previous, wanted)
        }
    }

    /// Adds items at the end and drops the oldest beyond `capacity`. With `follow` the last row
    /// is selected then. Returns whether the selection was lost.
    pub fn append(&mut self, added: Vec<T>, capacity: usize, follow: bool) -> (lost: bool)
        requires
            old(self)@.items.len() <= capacity <= 0x7fff_ffff,
        ensures
            final(self)@ == old(self)@.appended(added@, capacity as int, follow),
            final(self)@.settled(),
            final(self)@.items.len() <= capacity,
            lost == (!follow && !(old(self)@.selected is Some && final(self)@.row_of(
                old(self)@.selected->0,
            ) is Some)),
    {
        proof {
            reveal(ListState::settled);
            reveal(ListState::appended);
        }
        let wanted: usize = self.current_row();
        let previous = duplicate_optional(&self.selected);
        let ghost all = self.items@ + added@;
        let mut added = added;
        if added.len() >= capacity {
            let surplus: usize = added.len() - capacity;
            self.items = added.split_off(surplus);
            assert(self.items@ =~= newest(all, capacity as int));
        } else {
            self.items.append(&mut added);
            assert(self.items@ =~= all);
            if self.items.len() > capacity {
                let surplus: usize = self.items.len() - capacity;
                self.items = self.items.split_off(surplus);
                assert(self.items@ =~= all.skip(all.len() - capacity));
            }
        }
        self.refilter();
        let items: usize = self.items.len();
        let rows: usize = self.rows.len();
        proof {
            lemma_restored_settles(self@, follow, optional_tag(previous), wanted as int);
        }
        let lost = self.restore(follow, previous, wanted);
        self.ensure_visible();
        lost
    }

    /// Searches for another query. With `follow` the last row is selected then. Returns whether
    /// the selection was lost.
    pub fn search_following(&mut self, query: String, follow: bool) -> (lost: bool)
        ensures
            final(self)@.items == old(self)@.items,
            final(self)@ == old(self)@.searched_following(query@, follow),
            final(self)@.settled(),
            lost == (!follow && !(old(self)@.selected is Some && final(self)@.row_of(
                old(self)@.selected->0,
            ) is Some)),
    {
        proof {
            reveal(ListState::settled);
            reveal(ListState::searched_following);
        }
        let wanted: usize = self.current_row();
        let previous = duplicate_optional(&self.selected);
        self.query = query;
        self.refilter();
        let items: usize = self.items.len();
        let rows: usize = self.rows.len();
        proof {
            lemma_restored_settles(self@, follow, optional_tag(previous), wanted as int);
        }
        let lost = self.restore(follow, previous, wanted);
        self.ensure_visible();
        lost
    }

    /// Selects the item at a row. Returns whether anything changed.
    pub fn select_row(&mut self, row: usize) -> (changed: bool)
        requires
            old(self)@.settled(),
        ensures
            final(self)@.items == old(self)@.items,
            final(self)@ == old(self)@.selected_at(row as int),
            final(self)@.settled(),
            changed == (old(self)@.selected != final(self)@.selected || old(self)@.scroll
                != final(self)@.scroll),
    {
        proof {
            reveal(ListState::settled);
            reveal(ListState::selected_at);
        }
        let rows: usize = self.rows.len();
        proof {
            lemma_selected_at_settles(self@, row as int);
        }
        let key = match self.at(row) {
            Some(item) => item.key(),
            None => {
                return false;
            },
        };
        let moved = match &self.selected {
            Some(previous) => !previous.same(&key),
            None => true,
        };
        let scroll: usize = self.scroll;
        self.selected = Some(key);
        self.ensure_visible();
        moved || scroll != self.scroll
    }

    /// Selects the item at a row. Returns whether that is another one.
    pub fn select_row_changing(&mut self, row: usize) -> (changed: bool)
        requires
            old(self)@.settled(),
        ensures
            final(self)@.items == old(self)@.items,
            final(self)@ == old(self)@.selected_at(row as int),
            final(self)@.settled(),
            changed == (old(self)@.selected != final(self)@.selected),
    {
        proof {
            reveal(ListState::settled);
            reveal(ListState::selected_at);
        }
        let same = match (self.at(row), &self.selected) {
            (Some(item), Some(key)) => item.has_key(key),
            (Some(_), None) => false,
            (None, _) => true,
        };
        if same {
            false
        } else {
            self.select_row(row);
            true
        }
    }

    /// Where a move leads from the selected row.
    pub fn step_target(&self, step: Step) -> (row: usize)
        requires
            self@.rows.len() > 0,
        ensures
            row == self@.step_target(step),
            row < self@.rows.len(),
    {
        let row: usize = self.current_row();
        step.apply(row, self.rows.len() - 1)
    }

    /// Shows the list in another viewport.
    pub fn set_viewport(&mut self, start: usize, height: usize)
        requires
            old(self)@.settled(),
        ensures
            final(self)@.items == old(self)@.items,
            final(self)@ == old(self)@.viewed(start, height),
            final(self)@.settled(),
    {
        proof {
            reveal(ListState::settled);
            reveal(ListState::viewed);
        }
        proof {
            lemma_viewed_settles(self@, start, height);
        }
        self.height = height;
        self.scroll = start;
        self.ensure_visible();
    }
}

} // verus!
