//! Menus: the registered menus, the open menu and its selection.
use vstd::prelude::*;
use std::sync::Arc;
use crate::actions::Action;
use crate::text::str_eq;
use crate::workspace::lemma_euclid_rem;

verus! {

broadcast use vstd::std_specs::vec::group_vec_axioms;

/// A menu: its id, label and items.
#[derive(Debug, Clone)]
pub struct Menu {
    pub id: String,
    pub label: String,
    pub items: Vec<MenuItem>,
}

/// An item of a menu.
#[derive(Debug, Clone)]
pub struct MenuItem {
    pub label: String,
    pub action: MenuAction,
    pub icon: Option<String>,
    pub enabled: bool,
    pub submenu: Option<Arc<Menu>>,
}

/// What selecting a menu item does.
#[derive(Debug, Clone)]
pub enum MenuAction {
    Action(Action),
    Submenu(Arc<Menu>),
    Separator,
}

/// The open menu: which, where, and the selected item.
#[derive(Debug)]
pub struct MenuOpenState {
    pub menu_id: String,
    pub position: (i32, i32),
    pub selected_index: usize,
}

/// The registered menus and the open one, if any.
#[derive(Debug)]
pub struct MenuManager {
    pub menus: Vec<Arc<Menu>>,
    pub open_menu: Option<MenuOpenState>,
}

/// The position of the first menu with id `id`.
pub open spec fn first_menu(ms: Seq<Arc<Menu>>, id: Seq<char>) -> Option<int>
    decreases ms.len(),
{
    if ms.len() == 0 {
        None
    } else if ms[0].id@ == id {
        Some(0)
    } else {
        match first_menu(ms.drop_first(), id) {
            Some(i) => Some(i + 1),
            None => None,
        }
    }
}

proof fn lemma_first_menu_at(ms: Seq<Arc<Menu>>, id: Seq<char>, i: int)
    requires
        0 <= i <= ms.len(),
        forall|j: int| 0 <= j < i ==> (#[trigger] ms[j]).id@ != id,
        i == ms.len() || ms[i].id@ == id,
    ensures
        first_menu(ms, id) == (if i == ms.len() { None::<int> } else { Some(i) }),
    decreases i,
{
    if i > 0 {
        let t = ms.drop_first();
        assert forall|j: int| 0 <= j < i - 1 implies (#[trigger] t[j]).id@ != id by {
            assert(t[j] == ms[j + 1]);
        }
        lemma_first_menu_at(t, id, i - 1);
    }
}

/// The menu with id `id`, where one is registered.
pub open spec fn menu_named(ms: Seq<Arc<Menu>>, id: Seq<char>) -> Option<Arc<Menu>> {
    match first_menu(ms, id) {
        Some(i) => Some(ms[i]),
        None => None,
    }
}

/// The non-negative remainder of `a` divided by `n`.
pub open spec fn wrap_index(a: int, n: int) -> int {
    a % n
}

impl MenuManager {
    /// No menus, none open.
    pub fn new() -> (m: MenuManager)
        ensures
            m.menus@.len() == 0,
            m.open_menu is None,
    {
        MenuManager { menus: Vec::new(), open_menu: None }
    }

    /// Registers a menu after the others.
    pub fn register(&mut self, menu: Menu)
        ensures
            final(self).menus@.len() == old(self).menus@.len() + 1,
            forall|i: int| 0 <= i < old(self).menus@.len() ==> #[trigger] final(self).menus@[i] == old(self).menus@[i],
            *final(self).menus@.last() == menu,
            final(self).open_menu == old(self).open_menu,
    {
        self.menus.push(Arc::new(menu));
    }

    /// The position of the first menu with id `id`.
    fn position_of(&self, id: &str) -> (r: Option<usize>)
        ensures
            match r {
                Some(i) => first_menu(self.menus@, id@) == Some(i as int),
                None => first_menu(self.menus@, id@) is None,
            },
            r matches Some(i) ==> i < self.menus@.len(),
    {
        let mut i: usize = 0;
        while i < self.menus.len()
            invariant
                i <= self.menus.len(),
                forall|j: int| 0 <= j < i ==> (#[trigger] self.menus@[j]).id@ != id@,
            decreases self.menus.len() - i,
        {
            if str_eq(self.menus[i].id.as_str(), id) {
                proof {
                    lemma_first_menu_at(self.menus@, id@, i as int);
                }
                return Some(i);
            }
            i = i + 1;
        }
        proof {
            lemma_first_menu_at(self.menus@, id@, i as int);
        }
        None
    }

    /// The first menu registered with id `id`.
    pub fn get_by_id(&self, id: &str) -> (r: Option<Arc<Menu>>)
        ensures
            r == menu_named(self.menus@, id@),
    {
        match self.position_of(id) {
            Some(i) => Some(Arc::clone(&self.menus[i])),
            None => None,
        }
    }

    /// Opens the menu `menu_id` at `(x, y)` with its first item selected;
    /// false, changing nothing, where no such menu is registered.
    pub fn open(&mut self, menu_id: &str, x: i32, y: i32) -> (opened: bool)
        ensures
            opened == first_menu(old(self).menus@, menu_id@) is Some,
            final(self).menus == old(self).menus,
            opened ==> (final(self).open_menu matches Some(s) && s.menu_id@ == menu_id@ && s.position
                == (x, y) && s.selected_index == 0),
            !opened ==> final(self).open_menu == old(self).open_menu,
    {
        if self.position_of(menu_id).is_some() {
            self.open_menu = Some(MenuOpenState { menu_id: menu_id.to_owned(), position: (x, y), selected_index: 0 });
            return true;
        }
        false
    }

    /// Closes the open menu.
    pub fn close(&mut self)
        ensures
            final(self).menus == old(self).menus,
            final(self).open_menu is None,
    {
        self.open_menu = None;
    }

    /// Moves the selection of the open menu by `direction` items, wrapping
    /// around; nothing happens where no menu is open, its menu is not
    /// registered, or it has no items.
    pub fn navigate(&mut self, direction: i32)
        requires
            old(self).open_menu matches Some(s) ==> i32::MIN <= (s.selected_index as i32) + direction
                <= i32::MAX,
        ensures
            final(self).menus == old(self).menus,
            match old(self).open_menu {
                Some(s) => match menu_named(old(self).menus@, s.menu_id@) {
                    Some(m) => if m.items@.len() as i32 > 0 {
                        final(self).open_menu matches Some(t) && t.menu_id == s.menu_id && t.position
                            == s.position && t.selected_index == wrap_index(
                            (s.selected_index as i32) + direction,
                            m.items@.len() as i32 as int,
                        ) as usize
                    } else {
                        final(self).open_menu == old(self).open_menu
                    },
                    None => final(self).open_menu == old(self).open_menu,
                },
                None => final(self).open_menu is None,
            },
    {
        let found = match &self.open_menu {
            Some(state) => self.position_of(state.menu_id.as_str()),
            None => return,
        };
        match found {
            Some(i) => {
                let count = self.menus[i].items.len() as i32;
                if count > 0 {
                    let mut state = self.open_menu.take().unwrap();
                    let x: i64 = (state.selected_index as i32) as i64 + direction as i64;
                    let n: i64 = count as i64;
                    let new: i64 = if x >= 0 {
                        x % n
                    } else {
                        let r = (-x) % n;
                        if r == 0 {
                            0
                        } else {
                            n - r
                        }
                    };
                    proof {
                        lemma_euclid_rem(x as int, n as int);
                    }
                    state.selected_index = new as usize;
                    self.open_menu = Some(state);
                }
            },
            None => {},
        }
    }

    /// Chooses the selected item of the open menu, closing it: an action
    /// is returned; a submenu is opened at the same place with its first
    /// item selected; a separator, or a selection past the last item,
    /// does nothing more.
    pub fn select(&mut self) -> (r: Option<Action>)
        ensures
            final(self).menus == old(self).menus,
            match old(self).open_menu {
                None => r is None && final(self).open_menu is None,
                Some(s) => match menu_named(old(self).menus@, s.menu_id@) {
                    None => r is None && final(self).open_menu is None,
                    Some(m) => if s.selected_index < m.items@.len() {
                        match m.items@[s.selected_index as int].action {
                            MenuAction::Action(a) => r == Some(a) && final(self).open_menu is None,
                            MenuAction::Submenu(sub) => r is None && (final(self).open_menu matches Some(
                                t,
                            ) && t.menu_id@ == sub.id@ && t.position == s.position
                                && t.selected_index == 0),
                            MenuAction::Separator => r is None && final(self).open_menu is None,
                        }
                    } else {
                        r is None && final(self).open_menu is None
                    },
                },
            },
    {
        let state = match self.open_menu.take() {
            Some(s) => s,
            None => return None,
        };
        let i = match self.position_of(state.menu_id.as_str()) {
            Some(i) => i,
            None => return None,
        };
        let menu = Arc::clone(&self.menus[i]);
        if state.selected_index >= menu.items.len() {
            return None;
        }
        match &menu.items[state.selected_index].action {
            MenuAction::Action(action) => Some(action.duplicate()),
            MenuAction::Submenu(sub) => {
                self.open_menu = Some(
                    MenuOpenState { menu_id: sub.id.clone(), position: state.position, selected_index: 0 },
                );
                None
            },
            MenuAction::Separator => None,
        }
    }

    /// Reloading the menus changes nothing here.
    pub fn reconfigure(&mut self)
        ensures
            *final(self) == *old(self),
    {
    }

    /// The number of items of the open menu (0 where none is open).
    pub fn item_count(&self) -> (n: usize)
        ensures
            n == match self.open_menu {
                Some(s) => match menu_named(self.menus@, s.menu_id@) {
                    Some(m) => m.items@.len(),
                    None => 0,
                },
                None => 0,
            },
    {
        match &self.open_menu {
            Some(s) => match self.position_of(s.menu_id.as_str()) {
                Some(i) => self.menus[i].items.len(),
                None => 0,
            },
            None => 0,
        }
    }
}

impl Default for MenuManager {
    fn default() -> (m: MenuManager)
        ensures
            m.menus@.len() == 0,
            m.open_menu is None,
    {
        MenuManager::new()
    }
}

/// Moving the selection by `d` items and then by `-d` items returns to
/// the item selected first.
pub proof fn lemma_navigate_round_trip(i: int, d: int, n: int)
    requires
        0 <= i < n,
    ensures
        wrap_index(wrap_index(i + d, n) - d, n) == i,
{
    let q = (i + d) / n;
    let r = (i + d) % n;
    vstd::arithmetic::div_mod::lemma_fundamental_div_mod(i + d, n);
    assert(r - d == (-q) * n + i) by (nonlinear_arith)
        requires
            i + d == n * q + r,
    ;
    vstd::arithmetic::div_mod::lemma_fundamental_div_mod_converse(r - d, n, -q, i);
}

} // verus!
