//! Request and response value objects of the HTTP surface, and the uniform
//! response envelopes. The serialization of these types lives with the
//! surrounding application; here they are plain data, and the conversions
//! from storage rows are verified.

use vstd::prelude::*;
use crate::error::Error;
use crate::model::{SysMenu, SysRole};

verus! {

/// A login request: the account's login key and the password it offered.
pub struct UserLoginReq {
    pub mobile: String,
    pub password: String,
}

/// The uniform response envelope: a code, a message, and the data.
pub struct BaseResponse<T> {
    pub code: String,
    pub msg: Option<String>,
    pub data: Option<T>,
}

/// The uniform paged response envelope.
pub struct ResponsePage<T> {
    pub code: i32,
    pub msg: String,
    pub total: u64,
    pub data: Option<T>,
}

/// Wraps a successful page of data.
pub fn ok_result_page<T>(data: T, total: u64) -> (r: ResponsePage<T>)
    ensures
        r.code == 0,
        r.total == total,
        r.data matches Some(d) && d == data,
        r.msg@ == "ok"@,
{
    ResponsePage { msg: "ok".to_owned(), code: 0, data: Some(data), total: 0 + total }
}

/// Wraps a failed page of data with its message.
pub fn err_result_page<T>(data: T, msg: &str) -> (r: ResponsePage<T>)
    ensures
        r.code == 1,
        r.total == 0,
        r.data matches Some(d) && d == data,
        r.msg@ == msg@,
{
    ResponsePage { msg: msg.to_owned(), code: 1, data: Some(data), total: 0 }
}

/// Folds a result into the uniform envelope: code 0 with the data on
/// success, the error's code and user-facing message otherwise.
pub fn handle_result<T>(result: Result<T, Error>) -> (r: BaseResponse<T>)
    ensures
        result matches Ok(d) ==> (r.data matches Some(x) && x == d && r.code@ == "0"@),
        result is Err ==> (r.data is None && (match result->Err_0 {
            Error::E(_) => r.code@ == "1"@,
            Error::Code(c, _) => r.code@ == c@,
            _ => r.code@ == "2"@,
        })),
{
    match result {
        Ok(d) => BaseResponse {
            code: "0".to_owned(),
            msg: Some("ok".to_owned()),
            data: Some(d),
        },
        Err(e) => match e {
            Error::E(m) => BaseResponse { code: "1".to_owned(), msg: Some(m), data: None },
            Error::Code(c, m) => BaseResponse { code: c, msg: Some(m), data: None },
            _ => BaseResponse {
                code: "2".to_owned(),
                msg: Some("Internal Server Error".to_owned()),
                data: None,
            },
        },
    }
}

/// A menu list query.
pub struct MenuListReq {
    pub menu_name: Option<String>,
}

/// A menu row as the menu list returns it.
pub struct MenuListData {
    pub id: i32,
    pub sort: i32,
    pub status_id: i32,
    pub parent_id: i32,
    pub menu_name: String,
    pub menu_url: String,
    pub icon: String,
    pub api_url: String,
    pub remark: String,
    pub menu_type: i32,
    pub create_time: String,
    pub update_time: String,
}

impl MenuListData {
    /// The list row for a stored menu entry; absent columns become empty.
    pub fn from_menu(menu: SysMenu) -> (r: MenuListData)
        requires
            menu.id is Some,
            menu.create_time is Some,
            menu.update_time is Some,
        ensures
            r.id == menu.id.unwrap(),
            r.sort == menu.sort,
            r.status_id == menu.status_id,
            r.parent_id == menu.parent_id,
            r.menu_name == menu.menu_name,
            r.menu_url@ == unwrap_or_empty(menu.menu_url),
            r.icon@ == unwrap_or_empty(menu.menu_icon),
            r.api_url@ == unwrap_or_empty(menu.api_url),
            r.remark@ == unwrap_or_empty(menu.remark),
            r.menu_type == menu.menu_type,
            r.create_time == menu.create_time.unwrap(),
            r.update_time == menu.update_time.unwrap(),
    {
        let SysMenu {
            id,
            sort,
            status_id,
            parent_id,
            menu_name,
            menu_url,
            menu_icon,
            api_url,
            remark,
            menu_type,
            create_time,
            update_time,
        } = menu;
        MenuListData {
            id: option_unwrap_i32(id),
            sort,
            status_id,
            parent_id,
            menu_name,
            menu_url: string_or_empty(menu_url),
            icon: string_or_empty(menu_icon),
            api_url: string_or_empty(api_url),
            remark: string_or_empty(remark),
            menu_type,
            create_time: option_unwrap_string(create_time),
            update_time: option_unwrap_string(update_time),
        }
    }
}

/// The characters of an optional string, empty when absent.
pub open spec fn unwrap_or_empty(o: Option<String>) -> Seq<char> {
    match o {
        Some(s) => s@,
        None => Seq::<char>::empty(),
    }
}

fn string_or_empty(o: Option<String>) -> (r: String)
    ensures
        r@ == unwrap_or_empty(o),
{
    match o {
        Some(s) => s,
        None => String::new(),
    }
}

fn option_unwrap_i32(o: Option<i32>) -> (r: i32)
    requires
        o is Some,
    ensures
        r == o.unwrap(),
{
    match o {
        Some(v) => v,
        None => 0,
    }
}

fn option_unwrap_string(o: Option<String>) -> (r: String)
    requires
        o is Some,
    ensures
        r == o.unwrap(),
{
    match o {
        Some(v) => v,
        None => String::new(),
    }
}

/// A request to create a menu entry.
pub struct MenuSaveReq {
    pub sort: i32,
    pub status_id: i32,
    pub parent_id: Option<i32>,
    pub menu_name: String,
    pub menu_url: Option<String>,
    pub icon: Option<String>,
    pub api_url: Option<String>,
    pub remark: Option<String>,
    pub menu_type: i32,
}

impl MenuSaveReq {
    /// The stored row this request creates; timestamps are the caller's.
    pub fn into_menu(self, time: Option<String>) -> (r: SysMenu)
        ensures
            r.id is None,
            r.sort == self.sort,
            r.status_id == self.status_id,
            r.parent_id == (match self.parent_id {
                Some(p) => p,
                None => 0,
            }),
            r.menu_name == self.menu_name,
            r.menu_url == self.menu_url,
            r.menu_icon == self.icon,
            r.api_url == self.api_url,
            r.remark == self.remark,
            r.menu_type == self.menu_type,
            r.create_time == time,
            r.update_time == time,
    {
        let parent_id = match self.parent_id {
            Some(p) => p,
            None => 0,
        };
        SysMenu {
            id: None,
            sort: self.sort,
            status_id: self.status_id,
            parent_id,
            menu_name: self.menu_name,
            menu_url: self.menu_url,
            menu_icon: self.icon,
            api_url: self.api_url,
            remark: self.remark,
            menu_type: self.menu_type,
            create_time: time.clone(),
            update_time: time,
        }
    }
}

/// A request to update a menu entry.
pub struct MenuUpdateReq {
    pub id: i32,
    pub sort: i32,
    pub status_id: i32,
    pub parent_id: i32,
    pub menu_name: String,
    pub menu_url: Option<String>,
    pub icon: Option<String>,
    pub api_url: Option<String>,
    pub remark: Option<String>,
    pub menu_type: i32,
}

/// A request to delete a menu entry.
pub struct MenuDeleteReq {
    pub id: i32,
}

/// A role list query.
pub struct RoleListReq {
    pub page_no: u64,
    pub page_size: u64,
    pub role_name: Option<String>,
    pub status_id: Option<String>,
}

/// A role row as the role list returns it.
pub struct RoleListData {
    pub id: i32,
    pub sort: i32,
    pub status_id: i32,
    pub role_name: String,
    pub remark: String,
    pub create_time: String,
    pub update_time: String,
}

impl RoleListData {
    /// The list row for a stored role.
    pub fn from_role(role: SysRole) -> (r: RoleListData)
        requires
            role.id is Some,
            role.create_time is Some,
            role.update_time is Some,
        ensures
            r.id == role.id.unwrap(),
            r.sort == role.sort,
            r.status_id == role.status_id,
            r.role_name == role.role_name,
            r.remark@ == unwrap_or_empty(role.remark),
            r.create_time == role.create_time.unwrap(),
            r.update_time == role.update_time.unwrap(),
    {
        RoleListData {
            id: option_unwrap_i32(role.id),
            sort: role.sort,
            status_id: role.status_id,
            role_name: role.role_name,
            remark: string_or_empty(role.remark),
            create_time: option_unwrap_string(role.create_time),
            update_time: option_unwrap_string(role.update_time),
        }
    }
}

/// A request to create a role.
pub struct RoleSaveReq {
    pub role_name: String,
    pub sort: i32,
    pub status_id: i32,
    pub remark: Option<String>,
}

/// A request to update a role.
pub struct RoleUpdateReq {
    pub id: i32,
    pub sort: i32,
    pub status_id: i32,
    pub role_name: String,
    pub remark: Option<String>,
}

/// A request to delete roles.
pub struct RoleDeleteReq {
    pub ids: Vec<i32>,
}

/// A query for the menus a role reaches.
pub struct QueryRoleMenuReq {
    pub role_id: i32,
}

/// The menus a role reaches, beside the whole menu tree.
pub struct QueryRoleMenuData {
    pub role_menus: Vec<i32>,
    pub menu_list: Vec<MenuDataList>,
}

/// One node of the menu tree as the role editor shows it.
pub struct MenuDataList {
    pub id: i32,
    pub parent_id: i32,
    pub title: String,
    pub key: String,
    pub is_penultimate: bool,
}

impl MenuDataList {
    /// The tree node for a stored menu row; its key spells the identifier
    /// in decimal.
    pub fn from_menu(menu: SysMenu) -> (r: MenuDataList)
        requires
            menu.id matches Some(v) && v >= 0,
        ensures
            r.id == menu.id.unwrap(),
            r.parent_id == menu.parent_id,
            r.title == menu.menu_name,
            r.key@ == crate::decimal::dec_chars_of(menu.id.unwrap() as u64),
            r.is_penultimate == (menu.parent_id == 2),
    {
        let id = option_unwrap_i32(menu.id);
        MenuDataList {
            id,
            parent_id: menu.parent_id,
            title: menu.menu_name,
            key: crate::decimal::u64_to_string(id as u64),
            is_penultimate: menu.parent_id == 2,
        }
    }
}

/// A request to rewrite the menus a role reaches.
pub struct UpdateRoleMenuReq {
    pub menu_ids: Vec<i32>,
    pub role_id: i32,
}

} // verus!
