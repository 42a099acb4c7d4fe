//! Browsing histories of the packages shown in the info pane.
use vstd::prelude::*;

use crate::pkg_object::{PkgObject, same_package, lemma_same_package_refl};
use crate::text::{push_str, decimal, decimal_string};

verus! {

//------------------------------------------------------------------------------
// Searching a list of packages by name
//------------------------------------------------------------------------------
/// The first position of a package named `name` in `list`, if any.
pub open spec fn first_named(list: Seq<PkgObject>, name: Seq<char>) -> Option<int> {
    if exists|i: int| 0 <= i < list.len() && #[trigger] list[i].spec_name() == name {
        let i = choose|i: int|
            0 <= i < list.len() && #[trigger] list[i].spec_name() == name && forall|j: int|
                0 <= j < i ==> #[trigger] list[j].spec_name() != name;
        Some(i)
    } else {
        None
    }
}

pub proof fn lemma_first_named(list: Seq<PkgObject>, name: Seq<char>, i: int)
    requires
        0 <= i < list.len(),
        list[i].spec_name() == name,
        forall|j: int| 0 <= j < i ==> #[trigger] list[j].spec_name() != name,
    ensures
        first_named(list, name) == Some(i),
{
    let k = choose|k: int|
        0 <= k < list.len() && #[trigger] list[k].spec_name() == name && forall|j: int|
            0 <= j < k ==> #[trigger] list[j].spec_name() != name;
    assert(0 <= k < list.len() && list[k].spec_name() == name && forall|j: int|
        0 <= j < k ==> #[trigger] list[j].spec_name() != name);
    if k < i {
        assert(list[k].spec_name() != name);
    }
    if i < k {
        assert(list[i].spec_name() != name);
    }
}

proof fn lemma_min_named(list: Seq<PkgObject>, name: Seq<char>, i: int) -> (m: int)
    requires
        0 <= i < list.len(),
        list[i].spec_name() == name,
    ensures
        0 <= m <= i,
        list[m].spec_name() == name,
        forall|j: int| 0 <= j < m ==> #[trigger] list[j].spec_name() != name,
    decreases i,
{
    if exists|j: int| 0 <= j < i && #[trigger] list[j].spec_name() == name {
        let j = choose|j: int| 0 <= j < i && #[trigger] list[j].spec_name() == name;
        lemma_min_named(list, name, j)
    } else {
        i
    }
}

/// The position `first_named` gives holds a package of that name.
pub proof fn lemma_first_named_found(list: Seq<PkgObject>, name: Seq<char>)
    ensures
        first_named(list, name) matches Some(i) ==> 0 <= i < list.len() && list[i].spec_name()
            == name,
{
    if exists|i: int| 0 <= i < list.len() && #[trigger] list[i].spec_name() == name {
        let i0 = choose|i: int| 0 <= i < list.len() && #[trigger] list[i].spec_name() == name;
        let m = lemma_min_named(list, name, i0);
        lemma_first_named(list, name, m);
    }
}

/// The position of the first package of `list` named `name`.
pub fn position_of_name(list: &Vec<PkgObject>, name: &String) -> (r: Option<usize>)
    ensures
        r matches Some(i) ==> i < list@.len() && first_named(list@, name@) == Some(i as int)
            && list@[i as int].spec_name() == name@ && forall|j: int|
            0 <= j < i ==> #[trigger] list@[j].spec_name() != name@,
        r is None ==> first_named(list@, name@) is None && forall|j: int|
            0 <= j < list@.len() ==> #[trigger] list@[j].spec_name() != name@,
{
    let mut i: usize = 0;
    while i < list.len()
        invariant
            i <= list@.len(),
            forall|j: int| 0 <= j < i ==> #[trigger] list@[j].spec_name() != name@,
        decreases list@.len() - i,
    {
        if *list[i].name() == *name {
            proof {
                lemma_first_named(list@, name@, i as int);
            }
            return Some(i);
        }
        i = i + 1;
    }
    None
}

//------------------------------------------------------------------------------
// Model of a history: the packages and the selected position
//------------------------------------------------------------------------------
/// A history is well formed when nothing is selected exactly when it is
/// empty, the selection lies in the list, and the list fits in `u32`.
pub open spec fn history_wf(list: Seq<PkgObject>, index: Option<u32>) -> bool {
    &&& list.len() <= u32::MAX
    &&& index.is_none() <==> list.len() == 0
    &&& index matches Some(i) ==> i < list.len()
}

/// The history that starts at `item`, or an empty one.
pub open spec fn init_spec(item: Option<PkgObject>) -> (Seq<PkgObject>, Option<u32>) {
    match item {
        Some(p) => (seq![p], Some(0u32)),
        None => (Seq::empty(), None),
    }
}

pub open spec fn can_previous_spec(list: Seq<PkgObject>, index: Option<u32>) -> bool {
    index matches Some(i) && i > 0
}

pub open spec fn can_next_spec(list: Seq<PkgObject>, index: Option<u32>) -> bool {
    index matches Some(i) && i + 1 < list.len()
}

/// The selection after stepping back, if one can.
pub open spec fn previous_spec(list: Seq<PkgObject>, index: Option<u32>) -> Option<u32> {
    if can_previous_spec(list, index) {
        Some((index.unwrap() - 1) as u32)
    } else {
        index
    }
}

/// The selection after stepping forward, if one can.
pub open spec fn next_spec(list: Seq<PkgObject>, index: Option<u32>) -> Option<u32> {
    if can_next_spec(list, index) {
        Some((index.unwrap() + 1) as u32)
    } else {
        index
    }
}

/// The list after dropping what follows the selection and appending `item`;
/// `item` is then selected.
pub open spec fn append_spec(list: Seq<PkgObject>, index: Option<u32>, item: PkgObject) -> Seq<
    PkgObject,
> {
    match index {
        Some(i) => if i + 1 < list.len() {
            list.take(i + 1).push(item)
        } else {
            list.push(item)
        },
        None => list.push(item),
    }
}

//------------------------------------------------------------------------------
// STRUCT: PkgHistory
//------------------------------------------------------------------------------
/// A history of packages with an optional selected position.
#[derive(Debug)]
pub struct PkgHistory {
    list: Vec<PkgObject>,
    index: Option<u32>,
}

impl PkgHistory {
    pub closed spec fn spec_list(&self) -> Seq<PkgObject> {
        self.list@
    }

    pub closed spec fn spec_index(&self) -> Option<u32> {
        self.index
    }

    pub open spec fn wf(&self) -> bool {
        history_wf(self.spec_list(), self.spec_index())
    }

    pub fn new() -> (r: Self)
        ensures
            r.spec_list().len() == 0,
            r.spec_index().is_none(),
            r.wf(),
    {
        PkgHistory { list: Vec::new(), index: None }
    }

    pub fn can_select_previous(&self) -> (r: bool)
        ensures
            r == can_previous_spec(self.spec_list(), self.spec_index()),
    {
        match self.index {
            Some(i) => i > 0,
            None => false,
        }
    }

    pub fn can_select_next(&self) -> (r: bool)
        requires
            self.wf(),
        ensures
            r == can_next_spec(self.spec_list(), self.spec_index()),
    {
        match self.index {
            Some(i) => (i as usize) + 1 < self.list.len(),
            None => false,
        }
    }

    /// Starts the history again at `item`, or empties it.
    pub fn init(&mut self, item: Option<PkgObject>)
        ensures
            (final(self).spec_list(), final(self).spec_index()) == init_spec(item),
            final(self).wf(),
    {
        self.list.clear();
        match item {
            Some(p) => {
                self.list.push(p);
                self.index = Some(0);
            },
            None => {
                self.index = None;
            },
        }
    }

    pub fn len(&self) -> (r: u32)
        requires
            self.wf(),
        ensures
            r as int == self.spec_list().len(),
    {
        self.list.len() as u32
    }

    /// Steps back one package if there is one before the selection.
    pub fn select_previous(&mut self) -> (r: bool)
        requires
            old(self).wf(),
        ensures
            r == can_previous_spec(old(self).spec_list(), old(self).spec_index()),
            final(self).spec_list() == old(self).spec_list(),
            final(self).spec_index() == previous_spec(old(self).spec_list(), old(self).spec_index()),
            final(self).wf(),
    {
        if self.can_select_previous() {
            self.index = Some(self.index.unwrap() - 1);
            true
        } else {
            false
        }
    }

    /// Steps forward one package if there is one after the selection.
    pub fn select_next(&mut self) -> (r: bool)
        requires
            old(self).wf(),
        ensures
            r == can_next_spec(old(self).spec_list(), old(self).spec_index()),
            final(self).spec_list() == old(self).spec_list(),
            final(self).spec_index() == next_spec(old(self).spec_list(), old(self).spec_index()),
            final(self).wf(),
    {
        if self.can_select_next() {
            self.index = Some(self.index.unwrap() + 1);
            true
        } else {
            false
        }
    }

    pub fn selected(&self) -> (r: Option<u32>)
        ensures
            r == self.spec_index(),
    {
        self.index
    }

    pub fn selected_item(&self) -> (r: Option<&PkgObject>)
        requires
            self.wf(),
        ensures
            match self.spec_index() {
                Some(i) => r.is_some() && *r.unwrap() == self.spec_list()[i as int],
                None => r.is_none(),
            },
    {
        match self.index {
            Some(i) => Some(&self.list[i as usize]),
            None => None,
        }
    }

    /// Selects the first package named as `item`, if the history holds one.
    pub fn set_selected_item(&mut self, item: &PkgObject) -> (r: bool)
        requires
            old(self).wf(),
        ensures
            r == first_named(old(self).spec_list(), item.spec_name()).is_some(),
            final(self).spec_list() == old(self).spec_list(),
            r ==> final(self).spec_index() == Some(
                first_named(old(self).spec_list(), item.spec_name()).unwrap() as u32,
            ),
            !r ==> final(self).spec_index() == old(self).spec_index(),
            final(self).wf(),
    {
        match position_of_name(&self.list, item.name()) {
            Some(i) => {
                self.index = Some(i as u32);
                true
            },
            None => false,
        }
    }

    /// Drops the packages after the selection, appends `item` and selects it.
    pub fn truncate_and_append(&mut self, item: PkgObject)
        requires
            old(self).wf(),
            old(self).spec_list().len() < u32::MAX,
        ensures
            final(self).spec_list() == append_spec(
                old(self).spec_list(),
                old(self).spec_index(),
                item,
            ),
            final(self).spec_index() == Some((final(self).spec_list().len() - 1) as u32),
            final(self).wf(),
    {
        match self.index {
            Some(i) => {
                if (i as usize) + 1 < self.list.len() {
                    self.list.truncate(i as usize + 1);
                }
            },
            None => {},
        }
        self.list.push(item);
        self.index = Some((self.list.len() - 1) as u32);
    }
}

impl Default for PkgHistory {
    fn default() -> (r: Self)
        ensures
            r.spec_list().len() == 0,
            r.spec_index().is_none(),
    {
        PkgHistory { list: Vec::new(), index: None }
    }
}

} // verus!

verus! {

//------------------------------------------------------------------------------
// STRUCT: HistoryList
//------------------------------------------------------------------------------
/// The position that stands for "nothing selected".
pub open spec fn invalid_position() -> u32 {
    u32::MAX
}

/// A history list is well formed when its selection is either no position
/// or a position of the list, and the list is shorter than that marker.
pub open spec fn list_wf(list: Seq<PkgObject>, selected: u32) -> bool {
    &&& list.len() < u32::MAX
    &&& selected == invalid_position() || selected < list.len()
}

/// The selection that `set_selected` makes of `index`.
pub open spec fn clamp_selection(list: Seq<PkgObject>, index: u32) -> u32 {
    if index < list.len() {
        index
    } else {
        invalid_position()
    }
}

pub open spec fn peek_previous_spec(selected: u32) -> bool {
    selected != invalid_position() && selected > 0
}

pub open spec fn peek_next_spec(list: Seq<PkgObject>, selected: u32) -> bool {
    selected != u32::MAX && selected + 1 < list.len()
}

/// The list after `select_or_append(item)` when the list does not hold
/// `item` itself: the packages after the selection are dropped, then
/// `item` is appended.
pub open spec fn list_append_spec(list: Seq<PkgObject>, selected: u32, item: PkgObject) -> Seq<
    PkgObject,
> {
    if selected != u32::MAX && selected + 1 < list.len() {
        list.take(selected + 1).push(item)
    } else {
        list.push(item)
    }
}

/// The first position from `i` on of the package `item` itself in `list`.
pub open spec fn first_same_from(list: Seq<PkgObject>, item: PkgObject, i: int) -> Option<int>
    decreases list.len() - i,
{
    if i < 0 || i >= list.len() {
        None
    } else if same_package(list[i], item) {
        Some(i)
    } else {
        first_same_from(list, item, i + 1)
    }
}

/// The first position of the package `item` itself in `list`, if any.
pub open spec fn first_same(list: Seq<PkgObject>, item: PkgObject) -> Option<int> {
    first_same_from(list, item, 0)
}

proof fn lemma_first_same_from(list: Seq<PkgObject>, item: PkgObject, i: int)
    ensures
        first_same_from(list, item, i) matches Some(p) ==> i <= p < list.len() && same_package(
            list[p],
            item,
        ),
    decreases list.len() - i,
{
    if 0 <= i < list.len() && !same_package(list[i], item) {
        lemma_first_same_from(list, item, i + 1);
    }
}

/// The position of the first package of `list` that is `item` itself.
pub fn position_of_package(list: &Vec<PkgObject>, item: &PkgObject) -> (r: Option<usize>)
    ensures
        r matches Some(i) ==> first_same(list@, *item) == Some(i as int),
        r is None ==> first_same(list@, *item) is None,
{
    let mut i: usize = 0;
    while i < list.len()
        invariant
            i <= list@.len(),
            first_same(list@, *item) == first_same_from(list@, *item, i as int),
        decreases list@.len() - i,
    {
        if list[i].is_same(item) {
            return Some(i);
        }
        i = i + 1;
    }
    None
}

/// A history of packages whose selection is a position, `u32::MAX` standing
/// for none.
#[derive(Debug)]
pub struct HistoryList {
    list: Vec<PkgObject>,
    index: u32,
}

impl HistoryList {
    pub closed spec fn spec_list(&self) -> Seq<PkgObject> {
        self.list@
    }

    pub closed spec fn spec_selected(&self) -> u32 {
        self.index
    }

    pub open spec fn wf(&self) -> bool {
        list_wf(self.spec_list(), self.spec_selected())
    }

    pub fn new() -> (r: Self)
        ensures
            r.spec_list().len() == 0,
            r.spec_selected() == invalid_position(),
            r.wf(),
    {
        HistoryList { list: Vec::new(), index: u32::MAX }
    }

    pub fn selected(&self) -> (r: u32)
        ensures
            r == self.spec_selected(),
    {
        self.index
    }

    /// Selects `index` if it is a position of the list, else nothing.
    pub fn set_selected(&mut self, index: u32)
        requires
            old(self).spec_list().len() < u32::MAX,
        ensures
            final(self).spec_list() == old(self).spec_list(),
            final(self).spec_selected() == clamp_selection(old(self).spec_list(), index),
            final(self).wf(),
    {
        if (index as usize) < self.list.len() {
            self.index = index;
        } else {
            self.index = u32::MAX;
        }
    }

    pub fn len(&self) -> (r: u32)
        requires
            self.wf(),
        ensures
            r as int == self.spec_list().len(),
    {
        self.list.len() as u32
    }

    pub fn selected_item(&self) -> (r: Option<&PkgObject>)
        requires
            self.wf(),
        ensures
            self.spec_selected() == invalid_position() ==> r.is_none(),
            self.spec_selected() != invalid_position() ==> r.is_some() && *r.unwrap()
                == self.spec_list()[self.spec_selected() as int],
    {
        if self.index == u32::MAX {
            None
        } else {
            Some(&self.list[self.index as usize])
        }
    }

    pub fn peek_previous(&self) -> (r: bool)
        ensures
            r == peek_previous_spec(self.spec_selected()),
    {
        self.index != u32::MAX && self.index > 0
    }

    pub fn peek_next(&self) -> (r: bool)
        requires
            self.wf(),
        ensures
            r == peek_next_spec(self.spec_list(), self.spec_selected()),
    {
        match self.index.checked_add(1) {
            Some(i) => (i as usize) < self.list.len(),
            None => false,
        }
    }

    /// Starts the history again at `item`, or empties it.
    pub fn init(&mut self, item: Option<PkgObject>)
        ensures
            final(self).spec_list() == init_spec(item).0,
            item.is_some() ==> final(self).spec_selected() == 0,
            item.is_none() ==> final(self).spec_selected() == invalid_position(),
            final(self).wf(),
    {
        self.list.clear();
        let selected = match item {
            Some(p) => {
                self.list.push(p);
                0
            },
            None => u32::MAX,
        };
        self.set_selected(selected);
    }

    pub fn select_previous(&mut self)
        requires
            old(self).wf(),
        ensures
            final(self).spec_list() == old(self).spec_list(),
            peek_previous_spec(old(self).spec_selected()) ==> final(self).spec_selected() == (old(self).spec_selected() - 1) as u32,
            !peek_previous_spec(old(self).spec_selected()) ==> final(self).spec_selected() == old(self).spec_selected(),
            final(self).wf(),
    {
        if self.peek_previous() {
            let i = self.index - 1;
            self.set_selected(i);
        }
    }

    pub fn select_next(&mut self)
        requires
            old(self).wf(),
        ensures
            final(self).spec_list() == old(self).spec_list(),
            peek_next_spec(old(self).spec_list(), old(self).spec_selected()) ==> final(self).spec_selected() == (old(self).spec_selected() + 1) as u32,
            !peek_next_spec(old(self).spec_list(), old(self).spec_selected()) ==> final(self).spec_selected() == old(self).spec_selected(),
            final(self).wf(),
    {
        if self.peek_next() {
            let i = self.index + 1;
            self.set_selected(i);
        }
    }

    /// Selects `new_item` if the list holds that very package (the first
    /// time it does); otherwise drops the packages after the selection,
    /// appends `new_item` and selects it. Either way `new_item` ends up the
    /// selected package.
    pub fn select_or_append(&mut self, new_item: PkgObject)
        requires
            old(self).wf(),
            old(self).spec_list().len() + 1 < u32::MAX,
        ensures
            first_same(old(self).spec_list(), new_item) matches Some(p) ==> {
                &&& final(self).spec_list() == old(self).spec_list()
                &&& final(self).spec_selected() == p as u32
            },
            first_same(old(self).spec_list(), new_item) is None ==> {
                &&& final(self).spec_list() == list_append_spec(
                    old(self).spec_list(),
                    old(self).spec_selected(),
                    new_item,
                )
                &&& final(self).spec_selected() == (final(self).spec_list().len() - 1) as u32
            },
            final(self).spec_selected() < final(self).spec_list().len(),
            same_package(final(self).spec_list()[final(self).spec_selected() as int], new_item),
            final(self).wf(),
    {
        proof {
            lemma_first_same_from(self.list@, new_item, 0);
        }
        let selected = match position_of_package(&self.list, &new_item) {
            Some(p) => p,
            None => {
                match self.index.checked_add(1) {
                    Some(i) => {
                        if (i as usize) < self.list.len() {
                            self.list.truncate(i as usize);
                        }
                    },
                    None => {},
                }
                self.list.push(new_item);
                proof {
                    lemma_same_package_refl(new_item);
                }
                self.list.len() - 1
            },
        };
        self.set_selected(selected as u32);
    }
}

impl HistoryList {
    /// Follows a link to `found`, the package the link led to, if any: when
    /// it is a package other than the one shown, selects it where the
    /// history holds it or appends it after the selection, and returns
    /// `true` (the display changes); otherwise leaves the history as it is
    /// and returns `false`.
    pub fn open_link(&mut self, found: Option<PkgObject>) -> (r: bool)
        requires
            old(self).wf(),
            old(self).spec_list().len() + 1 < u32::MAX,
        ensures
            r == link_moves(old(self).spec_list(), old(self).spec_selected(), found),
            r ==> (final(self).spec_list(), final(self).spec_selected()) == select_or_append_spec(
                old(self).spec_list(),
                old(self).spec_selected(),
                found.unwrap(),
            ),
            !r ==> final(self).spec_list() == old(self).spec_list() && final(self).spec_selected()
                == old(self).spec_selected(),
            final(self).wf(),
    {
        match found {
            None => false,
            Some(pkg) => {
                let shown = match self.selected_item() {
                    Some(cur) => cur.is_same(&pkg),
                    None => false,
                };
                if shown {
                    false
                } else {
                    self.select_or_append(pkg);
                    true
                }
            },
        }
    }

    /// Whether the hashes of the shown package can be shown: there is a
    /// package and its validation is known and not "none".
    pub fn can_show_hashes(&self) -> (r: bool)
        requires
            self.wf(),
        ensures
            r == (self.spec_selected() != invalid_position() && self.spec_list()[self.spec_selected() as int].spec_data().validation.spec_bits() & 1 == 0),
    {
        match self.selected_item() {
            Some(pkg) => pkg.validation().is_valid(),
            None => false,
        }
    }
}

/// The history after `select_or_append(item)`: the first position that
/// holds `item` itself is selected, or else `item` is appended after the
/// selection (dropping what followed it) and selected.
pub open spec fn select_or_append_spec(list: Seq<PkgObject>, selected: u32, item: PkgObject) -> (
    Seq<PkgObject>,
    u32,
) {
    match first_same(list, item) {
        Some(p) => (list, p as u32),
        None => {
            let l = list_append_spec(list, selected, item);
            (l, (l.len() - 1) as u32)
        },
    }
}

/// Whether following a link to `found` moves the history: a package was
/// found and it is not the one shown.
pub open spec fn link_moves(list: Seq<PkgObject>, selected: u32, found: Option<PkgObject>) -> bool {
    match found {
        None => false,
        Some(p) => !(selected != invalid_position() && same_package(list[selected as int], p)),
    }
}

impl Default for HistoryList {
    fn default() -> (r: Self)
        ensures
            r.spec_list().len() == 0,
            r.spec_selected() == invalid_position(),
    {
        HistoryList { list: Vec::new(), index: u32::MAX }
    }
}

//------------------------------------------------------------------------------
// Laws
//------------------------------------------------------------------------------
/// Stepping back then forward in a history returns to the package one
/// started from.
pub proof fn law_previous_then_next(list: Seq<PkgObject>, index: Option<u32>)
    requires
        history_wf(list, index),
        can_previous_spec(list, index),
    ensures
        next_spec(list, previous_spec(list, index)) == index,
{
}

/// Stepping forward then back in a history returns to the package one
/// started from.
pub proof fn law_next_then_previous(list: Seq<PkgObject>, index: Option<u32>)
    requires
        history_wf(list, index),
        can_next_spec(list, index),
    ensures
        previous_spec(list, next_spec(list, index)) == index,
{
}

/// Stepping keeps a history well formed.
pub proof fn law_steps_keep_history_wf(list: Seq<PkgObject>, index: Option<u32>)
    requires
        history_wf(list, index),
    ensures
        history_wf(list, previous_spec(list, index)),
        history_wf(list, next_spec(list, index)),
{
}

/// After appending to a well-formed history, the history is still well
/// formed and not empty; the new package is the last one and the selected
/// one, nothing follows it, and the packages up to the former selection are
/// kept. (A history of `u32::MAX` packages is left out: the position of a
/// package appended to it does not fit in `u32`.)
pub proof fn law_append_selects_last(list: Seq<PkgObject>, index: Option<u32>, item: PkgObject)
    requires
        history_wf(list, index),
        list.len() < u32::MAX,
    ensures
        ({
            let l = append_spec(list, index, item);
            let sel = Some((l.len() - 1) as u32);
            &&& history_wf(l, sel)
            &&& l.len() >= 1
            &&& l.last() == item
            &&& !can_next_spec(l, sel)
            &&& (index matches Some(i) ==> forall|k: int| 0 <= k <= i ==> l[k] == list[k])
            &&& (index is None ==> l == seq![item])
        }),
{
}

/// In a history list, stepping back then forward returns to the package one
/// started from, and so does stepping forward then back.
pub proof fn law_list_steps_undo(list: Seq<PkgObject>, selected: u32)
    requires
        list_wf(list, selected),
    ensures
        peek_previous_spec(selected) ==> peek_next_spec(list, (selected - 1) as u32)
            && ((selected - 1) as u32 + 1) as u32 == selected,
        peek_next_spec(list, selected) ==> peek_previous_spec((selected + 1) as u32)
            && ((selected + 1) as u32 - 1) as u32 == selected,
{
}

//------------------------------------------------------------------------------
// Count label
//------------------------------------------------------------------------------
/// The history position that the details tab shows: `   •   N/M` for the
/// selected position (from one) of a history of more than one package,
/// else nothing.
pub fn history_count_label(selected: u32, len: u32) -> (r: String)
    requires
        len > 1 ==> selected < u32::MAX,
    ensures
        len > 1 ==> r@ == "   \u{2022}   "@ + decimal((selected + 1) as nat) + "/"@ + decimal(len as nat),
        len <= 1 ==> r@.len() == 0,
{
    let mut s = String::new();
    if len > 1 {
        push_str(&mut s, "   \u{2022}   ");
        let a = decimal_string(selected as u64 + 1);
        push_str(&mut s, a.as_str());
        push_str(&mut s, "/");
        let b = decimal_string(len as u64);
        push_str(&mut s, b.as_str());
    }
    s
}

} // verus!
