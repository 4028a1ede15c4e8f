//! The computing half of the role service: the menu tree a role editor
//! shows, with the superuser shortcut, and the assignment rows a rewrite
//! produces. The queries and writes live with the storage layer.

use vstd::prelude::*;
use crate::decimal::dec_chars_of;
use crate::error::Error;
use crate::model::{SysMenu, SysRoleMenu};
use crate::vo::{MenuDataList, QueryRoleMenuData};

verus! {

/// Whether a tree node carries exactly the fields of a stored menu row.
pub open spec fn menu_node_of(m: SysMenu, r: MenuDataList) -> bool {
    &&& r.id == m.id.unwrap()
    &&& r.parent_id == m.parent_id
    &&& r.title == m.menu_name
    &&& r.key@ == dec_chars_of(m.id.unwrap() as u64)
    &&& r.is_penultimate == (m.parent_id == 2)
}

/// Assembles the role editor's answer: every menu as a tree node, and the
/// reachable menu identifiers — all of them for the reserved superuser
/// role, the stored assignment for anyone else.
pub fn build_role_menu_data(menus: Vec<SysMenu>, role_id: i32, assigned_menu_ids: Vec<i32>) -> (r:
    QueryRoleMenuData)
    requires
        forall|i: int| 0 <= i < menus@.len() ==> ((#[trigger] menus@[i].id) matches Some(v) && v >= 0),
    ensures
        r.menu_list@.len() == menus@.len(),
        forall|i: int| 0 <= i < menus@.len() ==> menu_node_of(menus@[i], #[trigger] r.menu_list@[i]),
        role_id == 1 ==> r.role_menus@.len() == menus@.len() && (forall|i: int|
            0 <= i < menus@.len() ==> #[trigger] r.role_menus@[i] == menus@[i].id.unwrap()),
        role_id != 1 ==> r.role_menus == assigned_menu_ids,
{
    let ghost orig = menus@;
    let mut menus = menus;
    let mut menu_data_list: Vec<MenuDataList> = Vec::new();
    let mut all_ids: Vec<i32> = Vec::new();
    while menus.len() > 0
        invariant
            menu_data_list@.len() + menus@.len() == orig.len(),
            all_ids@.len() == menu_data_list@.len(),
            forall|i: int| 0 <= i < menus@.len() ==> menus@[i] == orig[menu_data_list@.len() + i],
            forall|i: int|
                0 <= i < orig.len() ==> ((#[trigger] orig[i].id) matches Some(v) && v >= 0),
            forall|i: int|
                0 <= i < menu_data_list@.len() ==> menu_node_of(
                    orig[i],
                    #[trigger] menu_data_list@[i],
                ),
            forall|i: int|
                0 <= i < all_ids@.len() ==> #[trigger] all_ids@[i] == orig[i].id.unwrap(),
        decreases menus@.len(),
    {
        let m = menus.remove(0);
        assert(m == orig[menu_data_list@.len() as int]);
        let id = match m.id {
            Some(v) => v,
            None => 0,
        };
        all_ids.push(id);
        menu_data_list.push(MenuDataList::from_menu(m));
    }
    let role_menus = if role_id == 1 {
        all_ids
    } else {
        assigned_menu_ids
    };
    QueryRoleMenuData { role_menus, menu_list: menu_data_list }
}

/// The assignment rows that rewriting a role's menus produces: one fresh
/// row per menu, in order.
pub fn build_role_menu_rows(role_id: i32, menu_ids: &Vec<i32>) -> (r: Vec<SysRoleMenu>)
    ensures
        r@.len() == menu_ids@.len(),
        forall|i: int|
            0 <= i < r@.len() ==> (#[trigger] r@[i]).role_id == role_id && r@[i].menu_id
                == menu_ids@[i] && r@[i].status_id == 1 && r@[i].sort == 1 && r@[i].id is None,
{
    let n = menu_ids.len();
    let mut rows: Vec<SysRoleMenu> = Vec::new();
    let mut i: usize = 0;
    while i < n
        invariant
            i <= n == menu_ids@.len(),
            rows@.len() == i,
            forall|j: int|
                0 <= j < i ==> (#[trigger] rows@[j]).role_id == role_id && rows@[j].menu_id
                    == menu_ids@[j] && rows@[j].status_id == 1 && rows@[j].sort == 1 && rows@[j].id
                    is None,
        decreases n - i,
    {
        rows.push(SysRoleMenu::new(role_id, menu_ids[i]));
        i = i + 1;
    }
    rows
}

/// Guards a role deletion: a role still assigned to a user cannot go.
pub fn role_delete_guard(assigned_to_users: bool) -> (r: Result<(), Error>)
    ensures
        assigned_to_users <==> r is Err,
        r matches Err(e) ==> e matches Error::E(m) && m@ == "role is in use and cannot be deleted"@,
{
    if assigned_to_users {
        Err(Error::E("role is in use and cannot be deleted".to_owned()))
    } else {
        Ok(())
    }
}

} // verus!
