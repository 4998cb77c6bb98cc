//! Navigation over the catalogue: the flat list of display names, the
//! drill-down into one server's identifiers, and the cursor.

use crate::catalogue::{Catalogue, CatalogueView};
use crate::text::{copy_all, texts, Text};
use vstd::prelude::*;

verus! {

/// What Confirm does on a server of the flat list.
#[derive(Clone, Copy, Debug, PartialEq, Eq, Structural)]
pub enum ConfirmPolicy {
    /// Open a session against the server's primary identifier.
    FlatLaunch,
    /// Where the server has more than one identifier, show them first; a
    /// second Confirm opens the session against the one selected.
    DrillThenLaunch,
}

/// What the browser shows.
#[derive(Debug, PartialEq, Eq)]
pub enum ViewState {
    /// The display names of the catalogue.
    Flat,
    /// The identifiers recorded under one server.
    DrillDown { server: String },
}

/// The mathematical value of a [`ViewState`].
pub enum ViewModel {
    Flat,
    DrillDown { server: Text },
}

impl View for ViewState {
    type V = ViewModel;

    open spec fn view(&self) -> ViewModel {
        match self {
            ViewState::Flat => ViewModel::Flat,
            ViewState::DrillDown { server } => ViewModel::DrillDown { server: server@ },
        }
    }
}

/// The sequence of items that a view shows.
pub open spec fn visible(catalogue: CatalogueView, view: ViewModel) -> Seq<Text> {
    match view {
        ViewModel::Flat => catalogue.names,
        ViewModel::DrillDown { server } => if catalogue.resources.contains_key(server) {
            catalogue.resources[server]
        } else {
            Seq::empty()
        },
    }
}

/// A cursor is in place over `len` items where it points at one of them, or
/// at the top of an empty list.
pub open spec fn cursor_in_place(cursor: nat, len: nat) -> bool {
    cursor < len || cursor == 0
}

/// The cursor after Move-down: one further, unless it stands on the last
/// item or the list is empty.
pub open spec fn moved_down(cursor: nat, len: nat) -> nat {
    if cursor + 1 < len {
        cursor + 1
    } else {
        cursor
    }
}

/// The cursor after Move-up: one back, unless it stands at the top.
pub open spec fn moved_up(cursor: nat) -> nat {
    if cursor > 0 {
        (cursor - 1) as nat
    } else {
        0
    }
}

/// Whether `i` is the index of the first occurrence of `item` in `items`.
pub open spec fn first_at(items: Seq<Text>, item: Text, i: int) -> bool {
    &&& 0 <= i < items.len()
    &&& items[i] == item
    &&& forall|j: int| 0 <= j < i ==> items[j] != item
}

/// Where `item` stands in `items`: the index of its first occurrence, and 0
/// where it does not occur.
pub open spec fn position_of(items: Seq<Text>, item: Text) -> nat {
    if items.contains(item) {
        (choose|i: int| first_at(items, item, i)) as nat
    } else {
        0
    }
}

/// The position of an item is an index of the sequence, or 0 where the
/// sequence is empty; and an item that occurs stands at its position.
pub proof fn lemma_position_in_place(items: Seq<Text>, item: Text)
    ensures
        cursor_in_place(position_of(items, item), items.len()),
        items.contains(item) ==> first_at(items, item, position_of(items, item) as int),
{
    if items.contains(item) {
        lemma_first_exists(items, item, items.len() as int);
    }
}

/// An item that occurs before index `n` has a first occurrence.
proof fn lemma_first_exists(items: Seq<Text>, item: Text, n: int)
    requires
        0 <= n <= items.len(),
        exists|i: int| 0 <= i < n && items[i] == item,
    ensures
        exists|i: int| first_at(items, item, i),
    decreases n,
{
    if exists|i: int| 0 <= i < n - 1 && items[i] == item {
        lemma_first_exists(items, item, n - 1);
    } else {
        assert(items[n - 1] == item);
        assert(first_at(items, item, n - 1));
    }
}

/// What Confirm leads to.
#[derive(Debug, PartialEq, Eq)]
pub enum Choice {
    /// Nothing: there is no item under the cursor.
    Stay,
    /// The drill-down into a server.
    Drill { server: String },
    /// A session against an identifier.
    Open { identifier: String },
}

/// The mathematical value of a [`Choice`].
pub enum ChoiceModel {
    Stay,
    Drill { server: Text },
    Open { identifier: Text },
}

impl View for Choice {
    type V = ChoiceModel;

    open spec fn view(&self) -> ChoiceModel {
        match self {
            Choice::Stay => ChoiceModel::Stay,
            Choice::Drill { server } => ChoiceModel::Drill { server: server@ },
            Choice::Open { identifier } => ChoiceModel::Open { identifier: identifier@ },
        }
    }
}

/// What Confirm leads to with the cursor on item `cursor` of a view.
///
/// On an empty list, and with the cursor off the list, nothing. In the flat
/// list the item is a server: under `DrillThenLaunch` a server with more than
/// one identifier is drilled into; any other server is opened by its primary
/// identifier, the first that was discovered for it. In a drill-down the item
/// is itself the identifier to open.
pub open spec fn confirmed(
    catalogue: CatalogueView,
    view: ViewModel,
    cursor: nat,
    policy: ConfirmPolicy,
) -> ChoiceModel {
    let items = visible(catalogue, view);
    if cursor >= items.len() {
        ChoiceModel::Stay
    } else {
        match view {
            ViewModel::Flat => {
                let server = items[cursor as int];
                if !catalogue.resources.contains_key(server) || catalogue.resources[server].len()
                    == 0 {
                    ChoiceModel::Stay
                } else if policy == ConfirmPolicy::DrillThenLaunch
                    && catalogue.resources[server].len() > 1 {
                    ChoiceModel::Drill { server }
                } else {
                    ChoiceModel::Open { identifier: catalogue.resources[server][0] }
                }
            },
            ViewModel::DrillDown { .. } => ChoiceModel::Open { identifier: items[cursor as int] },
        }
    }
}

/// The identifier that a selected line stands for in a view, if it stands
/// for one: in the flat list the primary identifier of the server of that
/// name, in a drill-down the line itself where the view shows it.
pub open spec fn resolved(catalogue: CatalogueView, view: ViewModel, line: Text) -> Option<Text> {
    match view {
        ViewModel::Flat => if catalogue.resources.contains_key(line)
            && catalogue.resources[line].len() > 0 {
            Some(catalogue.resources[line][0])
        } else {
            None
        },
        ViewModel::DrillDown { .. } => if visible(catalogue, view).contains(line) {
            Some(line)
        } else {
            None
        },
    }
}

/// The cursor after Move-down over `len` items.
pub fn move_down(cursor: usize, len: usize) -> (r: usize)
    ensures
        r == moved_down(cursor as nat, len as nat),
{
    if len > 0 && cursor < len - 1 {
        cursor + 1
    } else {
        cursor
    }
}

/// The cursor after Move-up.
pub fn move_up(cursor: usize) -> (r: usize)
    ensures
        r == moved_up(cursor as nat),
{
    if cursor > 0 {
        cursor - 1
    } else {
        0
    }
}

/// Whether `items` holds `item`.
pub fn holds(items: &Vec<String>, item: &String) -> (r: bool)
    ensures
        r == texts(items@).contains(item@),
{
    let mut i: usize = 0;
    while i < items.len()
        invariant
            0 <= i <= items.len(),
            forall|j: int| 0 <= j < i ==> texts(items@)[j] != item@,
        decreases items.len() - i,
    {
        if items[i] == *item {
            proof {
                assert(texts(items@)[i as int] == item@);
            }
            return true;
        }
        i = i + 1;
    }
    false
}

/// Where `item` stands in `items`, and 0 where it does not occur.
pub fn position(items: &Vec<String>, item: &String) -> (r: usize)
    ensures
        r == position_of(texts(items@), item@),
        cursor_in_place(r as nat, items@.len()),
{
    let mut i: usize = 0;
    while i < items.len()
        invariant
            0 <= i <= items.len(),
            forall|j: int| 0 <= j < i ==> texts(items@)[j] != item@,
        decreases items.len() - i,
    {
        if items[i] == *item {
            proof {
                let s = texts(items@);
                assert(s[i as int] == item@);
                assert(first_at(s, item@, i as int));
                let k = choose|k: int| first_at(s, item@, k);
                assert(k == i) by {
                    if k < i {
                        assert(s[k] != item@);
                    } else if i < k {
                        assert(s[i as int] != item@);
                    }
                }
            }
            return i;
        }
        i = i + 1;
    }
    0
}

/// The items that a view shows, in order.
pub fn lines(catalogue: &Catalogue, view: &ViewState) -> (items: Vec<String>)
    ensures
        texts(items@) == visible(catalogue@, view@),
{
    match view {
        ViewState::Flat => copy_all(catalogue.names()),
        ViewState::DrillDown { server } => match catalogue.identifiers(server) {
            Some(ids) => copy_all(ids),
            None => {
                let items: Vec<String> = Vec::new();
                proof {
                    assert(texts(items@) =~= Seq::<Text>::empty());
                }
                items
            },
        },
    }
}

/// How many items a view shows.
pub fn count(catalogue: &Catalogue, view: &ViewState) -> (n: usize)
    ensures
        n == visible(catalogue@, view@).len(),
{
    match view {
        ViewState::Flat => catalogue.len(),
        ViewState::DrillDown { server } => match catalogue.identifiers(server) {
            Some(ids) => ids.len(),
            None => 0,
        },
    }
}

/// What Confirm leads to with the cursor on item `cursor` of a view.
pub fn confirm(catalogue: &Catalogue, view: &ViewState, cursor: usize, policy: ConfirmPolicy) -> (r:
    Choice)
    ensures
        r@ == confirmed(catalogue@, view@, cursor as nat, policy),
{
    match view {
        ViewState::Flat => {
            let names = catalogue.names();
            if cursor >= names.len() {
                return Choice::Stay;
            }
            let server = &names[cursor];
            proof {
                assert(texts(names@)[cursor as int] == server@);
            }
            match catalogue.identifiers(server) {
                None => Choice::Stay,
                Some(ids) => {
                    proof {
                        assert(texts(ids@)[0] == ids@[0]@);
                    }
                    match policy {
                        ConfirmPolicy::DrillThenLaunch => {
                            if ids.len() > 1 {
                                Choice::Drill { server: server.clone() }
                            } else {
                                Choice::Open { identifier: ids[0].clone() }
                            }
                        },
                        ConfirmPolicy::FlatLaunch => Choice::Open { identifier: ids[0].clone() },
                    }
                },
            }
        },
        ViewState::DrillDown { server } => match catalogue.identifiers(server) {
            None => Choice::Stay,
            Some(ids) => {
                if cursor >= ids.len() {
                    Choice::Stay
                } else {
                    proof {
                        assert(texts(ids@)[cursor as int] == ids@[cursor as int]@);
                    }
                    Choice::Open { identifier: ids[cursor].clone() }
                }
            },
        },
    }
}

/// The identifier that a selected line stands for in a view, if it stands
/// for one.
pub fn resolve(catalogue: &Catalogue, view: &ViewState, line: &String) -> (r: Option<String>)
    ensures
        r is Some <==> resolved(catalogue@, view@, line@) is Some,
        r matches Some(identifier) ==> resolved(catalogue@, view@, line@) == Some(identifier@),
{
    match view {
        ViewState::Flat => match catalogue.identifiers(line) {
            Some(ids) => {
                proof {
                    assert(texts(ids@)[0] == ids@[0]@);
                }
                Some(ids[0].clone())
            },
            None => None,
        },
        ViewState::DrillDown { server } => match catalogue.identifiers(server) {
            Some(ids) => {
                if holds(ids, line) {
                    Some(line.clone())
                } else {
                    None
                }
            },
            None => {
                proof {
                    assert(!Seq::<Text>::empty().contains(line@));
                }
                None
            },
        },
    }
}

} // verus!
