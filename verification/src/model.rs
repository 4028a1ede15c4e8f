//! Plain models of the storage rows the core logic reads. The storage
//! layer itself is an external collaborator; timestamps it owns are
//! carried as preformatted strings.

use vstd::prelude::*;

verus! {

/// A back-office account, as far as the login flow reads it.
pub struct SysUser {
    pub id: Option<u64>,
    pub user_name: String,
    pub password: String,
    pub status_id: i32,
}

/// A menu entry.
pub struct SysMenu {
    pub id: Option<i32>,
    pub sort: i32,
    pub status_id: i32,
    pub parent_id: i32,
    pub menu_name: String,
    pub menu_url: Option<String>,
    pub menu_icon: Option<String>,
    pub api_url: Option<String>,
    pub remark: Option<String>,
    pub menu_type: i32,
    pub create_time: Option<String>,
    pub update_time: Option<String>,
}

/// The API path column of a menu row, as the role join returns it.
pub struct SysMenuUrl {
    pub api_url: Option<String>,
}

/// A role.
pub struct SysRole {
    pub id: Option<i32>,
    pub sort: i32,
    pub status_id: i32,
    pub role_name: String,
    pub remark: Option<String>,
    pub create_time: Option<String>,
    pub update_time: Option<String>,
}

/// A user-to-role assignment row.
pub struct SysUserRole {
    pub id: Option<i32>,
    pub create_time: Option<String>,
    pub update_time: Option<String>,
    pub status_id: i32,
    pub sort: i32,
    pub role_id: i32,
    pub user_id: u64,
}

/// A role-to-menu assignment row.
pub struct SysRoleMenu {
    pub id: Option<i32>,
    pub create_time: Option<String>,
    pub update_time: Option<String>,
    pub status_id: i32,
    pub sort: i32,
    pub role_id: i32,
    pub menu_id: i32,
}

impl SysRoleMenu {
    /// A fresh assignment of a menu to a role.
    pub fn new(role_id: i32, menu_id: i32) -> (r: SysRoleMenu)
        ensures
            r.role_id == role_id,
            r.menu_id == menu_id,
            r.status_id == 1,
            r.sort == 1,
            r.id is None,
    {
        SysRoleMenu {
            id: None,
            create_time: None,
            update_time: None,
            status_id: 1,
            sort: 1,
            role_id,
            menu_id,
        }
    }
}

} // verus!
