//! The login flow and the permission resolver: expands what the storage
//! layer reports about an identity into the deduplicated set of callable
//! API paths, throttles repeated failures, and issues the session token.
//!
//! The storage layer and the password check are external collaborators:
//! their answers come in as plain values, and every decision taken on them
//! here is verified.

use vstd::prelude::*;
use crate::cache_service::{CacheService, ICacheService};
use crate::error::Error;
use crate::jwt_util::{JWTToken, spec_verify_at, lemma_verify_issue_roundtrip,
    JWT_VALIDITY_SECS};
use crate::login_service::{is_need_wait_login_ex, add_retry_login_limit_num,
    remove_retry_login_limit_num, spec_check, spec_counter, spec_record, rate_limit_msg,
    retry_key_chars};
use crate::model::{SysUser, SysUserRole};
use crate::strutil::str_eq;
use crate::vo::UserLoginReq;

verus! {

/// The set of non-empty API paths among the given menu url column values.
pub open spec fn path_set(urls: Seq<Option<Seq<char>>>) -> Set<Seq<char>> {
    Set::new(
        |p: Seq<char>|
            p.len() > 0 && exists|i: int| 0 <= i < urls.len() && urls[i] == Some(p),
    )
}

/// The permission set an identity resolves to: a superuser reaches every
/// menu entry bearing a non-empty API path, anyone else the distinct
/// non-empty paths reachable through an assigned role.
pub open spec fn spec_resolve(
    is_admin: bool,
    menu_urls: Seq<Option<Seq<char>>>,
    role_urls: Seq<Option<Seq<char>>>,
) -> Set<Seq<char>> {
    if is_admin {
        path_set(menu_urls)
    } else {
        path_set(role_urls)
    }
}

/// No two entries alike.
pub open spec fn nodup(vs: Seq<Seq<char>>) -> bool {
    forall|i: int, j: int| 0 <= i < j < vs.len() ==> vs[i] != vs[j]
}

/// Whether one of the strings spells `p`.
fn vec_contains_string(v: &Vec<String>, p: &str) -> (r: bool)
    ensures
        r == v.deep_view().contains(p@),
{
    let n = v.len();
    let mut i: usize = 0;
    while i < n
        invariant
            i <= n == v@.len(),
            forall|j: int| 0 <= j < i ==> v.deep_view()[j] != p@,
        decreases n - i,
    {
        if str_eq(v[i].as_str(), p) {
            assert(v.deep_view()[i as int] == p@);
            return true;
        }
        i = i + 1;
    }
    assert(forall|j: int| 0 <= j < v.deep_view().len() ==> v.deep_view()[j] != p@);
    false
}

/// Collects the distinct non-empty paths among the url column values, in
/// first-occurrence order.
pub fn collect_api_paths(urls: &Vec<Option<String>>) -> (r: Vec<String>)
    ensures
        nodup(r.deep_view()),
        forall|p: Seq<char>|
            #[trigger] r.deep_view().contains(p) <==> path_set(urls.deep_view()).contains(p),
{
    let n = urls.len();
    let mut r: Vec<String> = Vec::new();
    let mut i: usize = 0;
    while i < n
        invariant
            i <= n == urls@.len(),
            nodup(r.deep_view()),
            forall|p: Seq<char>|
                #[trigger] r.deep_view().contains(p) <==> path_set(
                    urls.deep_view().take(i as int),
                ).contains(p),
        decreases n - i,
    {
        let ghost prev = r.deep_view();
        match &urls[i] {
            Some(u) => {
                if !u.as_str().is_empty() && !vec_contains_string(&r, u.as_str()) {
                    r.push(u.clone());
                    proof {
                        assert(r.deep_view() =~= prev.push(u@));
                        assert forall|p: Seq<char>| #[trigger] r.deep_view().contains(p)
                            <==> path_set(urls.deep_view().take(i + 1)).contains(p) by {
                            assert(urls.deep_view().take(i + 1)[i as int] == Some(u@));
                            if r.deep_view().contains(p) {
                                let k = choose|k: int|
                                    0 <= k < r.deep_view().len() && r.deep_view()[k] == p;
                                if k < prev.len() {
                                    assert(prev.contains(p));
                                    lemma_path_set_take_grow(urls.deep_view(), i as int, p);
                                } else {
                                    assert(p == u@);
                                }
                            }
                            if path_set(urls.deep_view().take(i + 1)).contains(p) {
                                let k = choose|k: int|
                                    0 <= k < i + 1 && #[trigger] urls.deep_view().take(i + 1)[k]
                                        == Some(p);
                                if k < i {
                                    assert(urls.deep_view().take(i as int)[k] == Some(p));
                                    assert(path_set(urls.deep_view().take(i as int)).contains(p));
                                    assert(prev.contains(p));
                                    let m = choose|m: int|
                                        0 <= m < prev.len() && prev[m] == p;
                                    assert(r.deep_view()[m] == p);
                                } else {
                                    assert(p == u@);
                                    assert(r.deep_view()[prev.len() as int] == p);
                                }
                            }
                        }
                    }
                } else {
                    proof {
                        lemma_collect_step_noop(urls.deep_view(), i as int, r.deep_view());
                    }
                }
            },
            None => {
                proof {
                    lemma_collect_step_noop(urls.deep_view(), i as int, r.deep_view());
                }
            },
        }
        i = i + 1;
    }
    proof {
        assert(urls.deep_view().take(n as int) =~= urls.deep_view());
    }
    r
}

/// A path in the set over a prefix stays in the set over a longer prefix.
proof fn lemma_path_set_take_grow(urls: Seq<Option<Seq<char>>>, i: int, p: Seq<char>)
    requires
        0 <= i < urls.len(),
        path_set(urls.take(i)).contains(p),
    ensures
        path_set(urls.take(i + 1)).contains(p),
{
    let k = choose|k: int| 0 <= k < i && #[trigger] urls.take(i)[k] == Some(p);
    assert(urls.take(i + 1)[k] == Some(p));
}

/// Extending the scanned prefix by an entry that adds nothing (an absent,
/// empty, or already collected path) leaves the characterization intact.
proof fn lemma_collect_step_noop(urls: Seq<Option<Seq<char>>>, i: int, acc: Seq<Seq<char>>)
    requires
        0 <= i < urls.len(),
        forall|p: Seq<char>| #[trigger] acc.contains(p) <==> path_set(urls.take(i)).contains(p),
        match urls[i] {
            None => true,
            Some(u) => u.len() == 0 || acc.contains(u),
        },
    ensures
        forall|p: Seq<char>| #[trigger] acc.contains(p) <==> path_set(urls.take(i + 1)).contains(p),
{
    assert forall|p: Seq<char>| #[trigger] acc.contains(p) <==> path_set(urls.take(i + 1)).contains(
        p,
    ) by {
        if acc.contains(p) {
            lemma_path_set_take_grow(urls, i, p);
        }
        if path_set(urls.take(i + 1)).contains(p) {
            let k = choose|k: int| 0 <= k < i + 1 && #[trigger] urls.take(i + 1)[k] == Some(p);
            if k < i {
                assert(urls.take(i)[k] == Some(p));
                assert(path_set(urls.take(i)).contains(p));
            } else {
                assert(urls[i] == Some(p));
            }
        }
    }
}

/// Resolves the callable API paths of an identity from what the storage
/// layer reports: the whole menu table for a superuser, the role join for
/// anyone else, deduplicated, empty entries dropped.
pub fn query_btn_menu(
    is_admin: bool,
    menu_urls: &Vec<Option<String>>,
    role_urls: &Vec<Option<String>>,
) -> (r: Vec<String>)
    ensures
        nodup(r.deep_view()),
        forall|p: Seq<char>|
            #[trigger] r.deep_view().contains(p) <==> spec_resolve(
                is_admin,
                menu_urls.deep_view(),
                role_urls.deep_view(),
            ).contains(p),
{
    if is_admin {
        collect_api_paths(menu_urls)
    } else {
        collect_api_paths(role_urls)
    }
}

/// A superuser's resolved permission set is the full set of non-empty menu
/// API paths, whatever the role-to-menu assignments say.
pub proof fn lemma_superuser_resolution(
    menu_urls: Seq<Option<Seq<char>>>,
    role_urls1: Seq<Option<Seq<char>>>,
    role_urls2: Seq<Option<Seq<char>>>,
)
    ensures
        spec_resolve(true, menu_urls, role_urls1) == spec_resolve(true, menu_urls, role_urls2),
        spec_resolve(true, menu_urls, role_urls1) == path_set(menu_urls),
{
}

/// Logs an account in at `now`. The caller hands in what the external
/// collaborators answered: the stored account row for the login key, the
/// password comparison's outcome, and the url columns the resolver feeds
/// on. Every decision over those values is verified: the throttle runs
/// first, each credential failure feeds it, a resolved empty permission
/// set blocks the login, and success clears the counter and returns a
/// signed token embedding exactly the resolved paths.
#[verifier::rlimit(60)]
pub fn login<C: ICacheService>(
    cache: &mut CacheService<C>,
    login_fail_retry: u64,
    login_fail_retry_wait_sec: u64,
    jwt_secret: &str,
    item: &UserLoginReq,
    user: &Option<SysUser>,
    password_matches: bool,
    is_admin: bool,
    menu_urls: &Vec<Option<String>>,
    role_urls: &Vec<Option<String>>,
    now: u64,
) -> (r: Result<String, Error>)
    requires
        now <= u64::MAX - JWT_VALIDITY_SECS,
        user matches Some(u) ==> u.id is Some,
    ensures
        final(cache).inner.infallible() == old(cache).inner.infallible(),
        r matches Ok(tok) ==> (({
            let c = spec_verify_at(tok@, jwt_secret@, now);
            &&& user is Some && password_matches && user.unwrap().status_id == 1
            &&& c matches Some(cv)
            &&& cv.id == user.unwrap().id.unwrap()
            &&& cv.username == user.unwrap().user_name@
            &&& cv.iat == now && cv.exp == now + JWT_VALIDITY_SECS
            &&& cv.permissions.len() > 0
            &&& nodup(cv.permissions)
            &&& forall|p: Seq<char>|
                #[trigger] cv.permissions.contains(p) <==> spec_resolve(
                    is_admin,
                    menu_urls.deep_view(),
                    role_urls.deep_view(),
                ).contains(p)
        })),
        old(cache).inner.infallible() ==> ({
            let pre = old(cache).inner.cache();
            let mobile = item.mobile@;
            match spec_counter(pre, mobile, now) {
                None => login_fail_retry > 0 ==> r is Err,
                Some(n) => {
                    &&& (spec_check(pre, login_fail_retry, mobile, now) matches Some(w) ==> (
                    r matches Err(e) && e matches Error::E(msg) && msg@ == rate_limit_msg(w)
                        && final(cache).inner.cache() == pre))
                    &&& (spec_check(pre, login_fail_retry, mobile, now) is None ==> {
                        let recorded = if login_fail_retry == 0 {
                            pre
                        } else {
                            spec_record(pre, n, login_fail_retry_wait_sec, mobile, now)
                        };
                        &&& (user is None ==> (r matches Err(e) && e matches Error::E(msg) && msg@
                            == "user not found"@ && final(cache).inner.cache() == recorded))
                        &&& (user is Some && !password_matches ==> (r matches Err(e) && e
                            matches Error::E(msg) && msg@ == "wrong password"@ && final(cache).inner.cache() == recorded))
                        &&& (user is Some && password_matches && user.unwrap().status_id != 1 ==> (
                        r matches Err(e) && e matches Error::E(msg) && msg@ == "account disabled"@
                            && final(cache).inner.cache() == recorded))
                        &&& (user is Some && password_matches && user.unwrap().status_id == 1 ==> {
                            let resolved = spec_resolve(
                                is_admin,
                                menu_urls.deep_view(),
                                role_urls.deep_view(),
                            );
                            &&& ((forall|p: Seq<char>| !resolved.contains(p)) ==> (r matches Err(
                                e,
                            ) && e matches Error::E(msg) && msg@ == "no permissions assigned"@
                                && final(cache).inner.cache() == pre))
                            &&& ((exists|p: Seq<char>| resolved.contains(p)) ==> r is Ok && final(cache).inner.cache() == (if login_fail_retry > 0 && n > 0 {
                                pre.remove(retry_key_chars(mobile))
                            } else {
                                pre
                            }))
                        })
                    })
                },
            }
        }),
{
    let try_num = match is_need_wait_login_ex(cache, login_fail_retry, item.mobile.as_str(), now) {
        Ok(n) => n,
        Err(e) => {
            return Err(e);
        },
    };
    let u = match user {
        Some(u) => u,
        None => {
            match add_retry_login_limit_num(
                cache,
                login_fail_retry,
                login_fail_retry_wait_sec,
                item.mobile.as_str(),
                now,
            ) {
                Ok(_) => {},
                Err(e) => {
                    return Err(e);
                },
            }
            return Err(Error::E("user not found".to_owned()));
        },
    };
    if !password_matches {
        match add_retry_login_limit_num(
            cache,
            login_fail_retry,
            login_fail_retry_wait_sec,
            item.mobile.as_str(),
            now,
        ) {
            Ok(_) => {},
            Err(e) => {
                return Err(e);
            },
        }
        return Err(Error::E("wrong password".to_owned()));
    }
    if u.status_id != 1 {
        match add_retry_login_limit_num(
            cache,
            login_fail_retry,
            login_fail_retry_wait_sec,
            item.mobile.as_str(),
            now,
        ) {
            Ok(_) => {},
            Err(e) => {
                return Err(e);
            },
        }
        return Err(Error::E("account disabled".to_owned()));
    }
    let btn_menu = query_btn_menu(is_admin, menu_urls, role_urls);
    if btn_menu.len() == 0 {
        proof {
            assert forall|p: Seq<char>|
                !spec_resolve(is_admin, menu_urls.deep_view(), role_urls.deep_view()).contains(
                    p,
                ) by {
                if spec_resolve(is_admin, menu_urls.deep_view(), role_urls.deep_view()).contains(
                    p,
                ) {
                    assert(btn_menu.deep_view().contains(p));
                }
            }
        }
        return Err(Error::E("no permissions assigned".to_owned()));
    }
    if try_num > 0 {
        match remove_retry_login_limit_num(cache, login_fail_retry, item.mobile.as_str(), now) {
            Ok(_) => {},
            Err(e) => {
                return Err(e);
            },
        }
    }
    let id = match u.id {
        Some(id) => id,
        None => {
            return Err(Error::Internal("account row has no id".to_owned()));
        },
    };
    let ghost perms_view = btn_menu.deep_view();
    let token = JWTToken::new_at(id, u.user_name.as_str(), btn_menu, now);
    let ghost cv = token@;
    let r = token.create_token(jwt_secret);
    match r {
        Ok(tok) => {
            proof {
                lemma_verify_issue_roundtrip(cv, jwt_secret@, now);
                assert(cv.permissions =~= perms_view);
                assert(cv.permissions[0] == perms_view[0]);
                assert(cv.permissions.contains(perms_view[0]));
            }
            Ok(tok)
        },
        Err(e) => Err(e),
    }
}


/// The identifiers of a delete request with the reserved system account
/// (id 1) taken out, in order.
pub open spec fn unreserved_ids(ids: Seq<u64>) -> Seq<u64>
    decreases ids.len(),
{
    if ids.len() == 0 {
        Seq::<u64>::empty()
    } else if ids[0] == 1 {
        unreserved_ids(ids.skip(1))
    } else {
        seq![ids[0]] + unreserved_ids(ids.skip(1))
    }
}

fn push_unreserved(ids: &Vec<u64>, i: usize, out: &mut Vec<u64>)
    requires
        i <= ids@.len(),
    ensures
        final(out)@ == old(out)@ + unreserved_ids(ids@.skip(i as int)),
    decreases ids@.len() - i,
{
    let ghost t = ids@.skip(i as int);
    if i == ids.len() {
        assert(out@ =~= old(out)@ + unreserved_ids(t));
        return ;
    }
    if ids[i] != 1 {
        out.push(ids[i]);
    }
    push_unreserved(ids, i + 1, out);
    proof {
        assert(t[0] == ids@[i as int]);
        assert(t.skip(1) =~= ids@.skip(i + 1));
        assert(out@ =~= old(out)@ + unreserved_ids(t));
    }
}

/// Drops the reserved system account from a deletion request: that account
/// can never be deleted.
pub fn filter_reserved_user_ids(ids: &Vec<u64>) -> (r: Vec<u64>)
    ensures
        r@ == unreserved_ids(ids@),
        forall|j: int| 0 <= j < r@.len() ==> r@[j] != 1,
{
    let mut out: Vec<u64> = Vec::new();
    push_unreserved(ids, 0, &mut out);
    proof {
        assert(ids@.skip(0) =~= ids@);
        lemma_unreserved_ids_ne(ids@);
    }
    out
}

proof fn lemma_unreserved_ids_ne(ids: Seq<u64>)
    ensures
        forall|j: int| 0 <= j < unreserved_ids(ids).len() ==> unreserved_ids(ids)[j] != 1,
    decreases ids.len(),
{
    if ids.len() > 0 {
        lemma_unreserved_ids_ne(ids.skip(1));
        let rest = unreserved_ids(ids.skip(1));
        if ids[0] != 1 {
            assert forall|j: int|
                0 <= j < unreserved_ids(ids).len() implies unreserved_ids(ids)[j] != 1 by {
                if j > 0 {
                    assert(unreserved_ids(ids)[j] == rest[j - 1]);
                }
            }
        }
    }
}

/// The assignment rows that rewriting a user's roles produces, one fresh
/// row per role; the superuser's assignment cannot be changed.
pub fn build_user_role_rows(user_id: u64, role_ids: &Vec<i32>, time: Option<String>) -> (r: Result<
    Vec<SysUserRole>,
    Error,
>)
    ensures
        user_id == 1 <==> r is Err,
        r matches Err(e) ==> e matches Error::E(m) && m@
            == "the superuser's roles cannot be changed"@,
        r matches Ok(rows) ==> rows@.len() == role_ids@.len() && (forall|i: int|
            0 <= i < rows@.len() ==> (#[trigger] rows@[i]).user_id == user_id && rows@[i].role_id
                == role_ids@[i] && rows@[i].status_id == 1 && rows@[i].sort == 1 && rows@[i].id
                is None && rows@[i].create_time == time && rows@[i].update_time == time),
{
    if user_id == 1 {
        return Err(Error::E("the superuser's roles cannot be changed".to_owned()));
    }
    let n = role_ids.len();
    let mut rows: Vec<SysUserRole> = Vec::new();
    let mut i: usize = 0;
    while i < n
        invariant
            i <= n == role_ids@.len(),
            rows@.len() == i,
            forall|j: int|
                0 <= j < i ==> (#[trigger] rows@[j]).user_id == user_id && rows@[j].role_id
                    == role_ids@[j] && rows@[j].status_id == 1 && rows@[j].sort == 1 && rows@[j].id
                    is None && rows@[j].create_time == time && rows@[j].update_time == time,
        decreases n - i,
    {
        rows.push(
            SysUserRole {
                id: None,
                create_time: time.clone(),
                update_time: time.clone(),
                status_id: 1,
                sort: 1,
                role_id: role_ids[i],
                user_id,
            },
        );
        i = i + 1;
    }
    Ok(rows)
}

/// Decides a password change: the account must exist and the old password
/// must match before any new hash is stored.
pub fn check_password_update(user: &Option<SysUser>, old_password_matches: bool) -> (r: Result<
    (),
    Error,
>)
    ensures
        user is None ==> (r matches Err(e) && e matches Error::E(m) && m@ == "user not found"@),
        user is Some && !old_password_matches ==> (r matches Err(e) && e matches Error::E(m) && m@
            == "wrong old password"@),
        user is Some && old_password_matches ==> r is Ok,
{
    match user {
        None => Err(Error::E("user not found".to_owned())),
        Some(_) => {
            if old_password_matches {
                Ok(())
            } else {
                Err(Error::E("wrong old password".to_owned()))
            }
        },
    }
}

/// One node of the menu tree as the front end receives it.
pub struct MenuUserList {
    pub id: i32,
    pub parent_id: i32,
    pub menu_name: String,
    pub icon: String,
    pub menu_url: String,
    pub sort: i32,
}

/// A user's menu answer: the visible tree, the callable paths, and the
/// account's display data.
pub struct QueryUserMenuData {
    pub sys_menu: Vec<MenuUserList>,
    pub btn_menu: Vec<String>,
    pub avatar: String,
    pub name: String,
}

/// Whether a tree node carries exactly the fields of a stored menu row.
pub open spec fn user_menu_node_of(m: crate::model::SysMenu, r: MenuUserList) -> bool {
    &&& r.id == m.id.unwrap()
    &&& r.parent_id == m.parent_id
    &&& r.menu_name == m.menu_name
    &&& r.icon@ == crate::vo::unwrap_or_empty(m.menu_icon)
    &&& r.menu_url@ == crate::vo::unwrap_or_empty(m.menu_url)
    &&& r.sort == m.sort
}

/// Assembles a user's menu answer: the rows selected for the visible tree
/// become nodes, the callable paths come from every row the user reaches,
/// and the display name is the account's.
pub fn build_user_menu_data(
    user_name: String,
    tree_menus: Vec<crate::model::SysMenu>,
    reachable_menus: &Vec<crate::model::SysMenu>,
) -> (r: QueryUserMenuData)
    requires
        forall|i: int| 0 <= i < tree_menus@.len() ==> (#[trigger] tree_menus@[i].id) is Some,
    ensures
        r.name == user_name,
        r.btn_menu.deep_view() == crate::menu_service::btn_menu_of(reachable_menus@),
        r.sys_menu@.len() == tree_menus@.len(),
        forall|i: int|
            0 <= i < tree_menus@.len() ==> user_menu_node_of(
                tree_menus@[i],
                #[trigger] r.sys_menu@[i],
            ),
{
    let btn_menu = crate::menu_service::collect_btn_menu(reachable_menus);
    let ghost orig = tree_menus@;
    let mut tree_menus = tree_menus;
    let mut sys_menu: Vec<MenuUserList> = Vec::new();
    while tree_menus.len() > 0
        invariant
            sys_menu@.len() + tree_menus@.len() == orig.len(),
            forall|i: int| 0 <= i < tree_menus@.len() ==> tree_menus@[i] == orig[sys_menu@.len() + i],
            forall|i: int| 0 <= i < orig.len() ==> (#[trigger] orig[i].id) is Some,
            forall|i: int|
                0 <= i < sys_menu@.len() ==> user_menu_node_of(orig[i], #[trigger] sys_menu@[i]),
        decreases tree_menus@.len(),
    {
        let m = tree_menus.remove(0);
        assert(m == orig[sys_menu@.len() as int]);
        let id = match m.id {
            Some(v) => v,
            None => 0,
        };
        let icon = match m.menu_icon {
            Some(v) => v,
            None => String::new(),
        };
        let menu_url = match m.menu_url {
            Some(v) => v,
            None => String::new(),
        };
        sys_menu.push(
            MenuUserList {
                id,
                parent_id: m.parent_id,
                menu_name: m.menu_name,
                icon,
                menu_url,
                sort: m.sort,
            },
        );
    }
    QueryUserMenuData {
        sys_menu,
        btn_menu,
        avatar: "https://gw.alipayobjects.com/zos/antfincdn/XAosXuNZyF/BiazfanxmamNRoxxVxka.png"
            .to_owned(),
        name: user_name,
    }
}
} // verus!
