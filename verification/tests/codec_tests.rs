use abs_admin::b64::{b64_decode, b64_encode};
use abs_admin::decimal::{parse_u64_string, u64_to_string};
use abs_admin::menu_service::{collect_btn_menu, collect_user_menu_ids, menu_list};
use abs_admin::model::SysMenu;
use abs_admin::role_service::{build_role_menu_data, build_role_menu_rows, role_delete_guard};
use abs_admin::strutil::{replace_all_str, sort_i32, starts_with, str_eq};
use abs_admin::vo::{err_result_page, handle_result, ok_result_page};
use abs_admin::error::Error;

fn menu(id: i32, parent: i32, menu_type: i32, api: Option<&str>) -> SysMenu {
    SysMenu {
        id: Some(id),
        sort: 1,
        status_id: 1,
        parent_id: parent,
        menu_name: format!("menu-{}", id),
        menu_url: None,
        menu_icon: None,
        api_url: api.map(|s| s.to_string()),
        remark: None,
        menu_type,
        create_time: Some("2024-01-01 00:00:00".to_string()),
        update_time: Some("2024-01-01 00:00:00".to_string()),
    }
}

#[test]
fn decimal_roundtrip() {
    assert_eq!(u64_to_string(0), "0");
    assert_eq!(u64_to_string(907), "907");
    assert_eq!(u64_to_string(u64::MAX), "18446744073709551615");
    assert_eq!(parse_u64_string("907"), Some(907));
    assert_eq!(parse_u64_string("18446744073709551615"), Some(u64::MAX));
    assert_eq!(parse_u64_string("18446744073709551616"), None);
    assert_eq!(parse_u64_string(""), None);
    assert_eq!(parse_u64_string("12a"), None);
    assert_eq!(parse_u64_string("-1"), None);
}

#[test]
fn base64url_known_vectors() {
    assert_eq!(b64_encode(&[77, 97, 110]), "TWFu");
    assert_eq!(b64_encode(&[77, 97]), "TWE");
    assert_eq!(b64_encode(&[77]), "TQ");
    assert_eq!(b64_encode(&[]), "");
    assert_eq!(b64_encode(&[251, 255]), "-_8");
    assert_eq!(b64_decode("TWFu"), Some(vec![77, 97, 110]));
    assert_eq!(b64_decode("TWE"), Some(vec![77, 97]));
    assert_eq!(b64_decode("TQ"), Some(vec![77]));
    assert_eq!(b64_decode(""), Some(vec![]));
    assert_eq!(b64_decode("T"), None);
    assert_eq!(b64_decode("T!"), None);
    // non-canonical trailing bits are rejected
    assert_eq!(b64_decode("TR"), None);
    let data: Vec<u8> = (0..=255u8).collect();
    assert_eq!(b64_decode(&b64_encode(&data)), Some(data));
}

#[test]
fn string_helpers() {
    assert!(str_eq("abc", "abc"));
    assert!(!str_eq("abc", "abd"));
    assert!(starts_with("/api/login/extra", "/api/login"));
    assert!(!starts_with("/api", "/api/login"));
    assert_eq!(replace_all_str("Bearer abc", "Bearer ", ""), "abc");
    assert_eq!(replace_all_str("aaa", "aa", "b"), "ba");
    assert_eq!(replace_all_str("retry in {} s", "{}", "59"), "retry in 59 s");
    assert_eq!(sort_i32(vec![5, 1, 4, 1, 3]), vec![1, 1, 3, 4, 5]);
}

#[test]
fn menu_rows_and_tree_ids() {
    let menus = vec![
        menu(10, 2, 1, Some("/api/a")),
        menu(11, 10, 3, Some("")),
        menu(12, 0, 2, None),
        menu(13, 10, 1, Some("/api/b")),
    ];
    let rows = menu_list(vec![menu(10, 2, 1, Some("/api/a"))]);
    assert_eq!(rows.len(), 1);
    assert_eq!(rows[0].id, 10);
    assert_eq!(rows[0].api_url, "/api/a");
    assert_eq!(rows[0].menu_url, "");
    let btn = collect_btn_menu(&menus);
    assert_eq!(btn, vec!["/api/a".to_string(), "/api/b".to_string()]);
    // type-3 rows contribute nothing; zero parents are dropped; sorted output
    let ids = collect_user_menu_ids(&menus);
    assert_eq!(ids, vec![2, 10, 12, 13]);
}

#[test]
fn role_menu_assembly() {
    let menus = vec![menu(10, 2, 1, None), menu(11, 10, 1, None)];
    let assigned = vec![11];
    let r = build_role_menu_data(menus, 7, assigned.clone());
    assert_eq!(r.role_menus, assigned);
    assert_eq!(r.menu_list.len(), 2);
    assert_eq!(r.menu_list[0].key, "10");
    assert!(!r.menu_list[0].is_penultimate || r.menu_list[0].parent_id == 2);
    let menus = vec![menu(10, 2, 1, None), menu(11, 10, 1, None)];
    let r = build_role_menu_data(menus, 1, vec![]);
    assert_eq!(r.role_menus, vec![10, 11]);
    let rows = build_role_menu_rows(7, &vec![10, 11]);
    assert_eq!(rows.len(), 2);
    assert_eq!(rows[1].menu_id, 11);
    assert!(role_delete_guard(true).is_err());
    assert!(role_delete_guard(false).is_ok());
}

#[test]
fn response_envelopes() {
    let ok = handle_result(Ok(5));
    assert_eq!(ok.code, "0");
    assert_eq!(ok.data, Some(5));
    let err: abs_admin::vo::BaseResponse<i32> =
        handle_result(Err(Error::E("nope".to_string())));
    assert_eq!(err.code, "1");
    assert_eq!(err.msg.as_deref(), Some("nope"));
    assert!(err.data.is_none());
    let page = ok_result_page(vec![1, 2], 2);
    assert_eq!(page.code, 0);
    assert_eq!(page.total, 2);
    let page = err_result_page(Vec::<i32>::new(), "bad");
    assert_eq!(page.code, 1);
    assert_eq!(page.msg, "bad");
}
