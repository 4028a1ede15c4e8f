//! The computing half of the menu service: shaping stored menu rows into
//! list rows, the button-menu path column, and the identifier set of a
//! user's visible menu tree. The queries themselves live with the storage
//! layer.

use vstd::prelude::*;
use crate::model::SysMenu;
use crate::strutil::{sort_i32, sorted_i32};
use crate::vo::{MenuListData, unwrap_or_empty};

verus! {

/// Whether a list row carries exactly the fields of a stored menu row.
pub open spec fn menu_row_of(m: SysMenu, r: MenuListData) -> bool {
    &&& r.id == m.id.unwrap()
    &&& r.sort == m.sort
    &&& r.status_id == m.status_id
    &&& r.parent_id == m.parent_id
    &&& r.menu_name == m.menu_name
    &&& r.menu_url@ == unwrap_or_empty(m.menu_url)
    &&& r.icon@ == unwrap_or_empty(m.menu_icon)
    &&& r.api_url@ == unwrap_or_empty(m.api_url)
    &&& r.remark@ == unwrap_or_empty(m.remark)
    &&& r.menu_type == m.menu_type
    &&& r.create_time == m.create_time.unwrap()
    &&& r.update_time == m.update_time.unwrap()
}

/// Shapes the stored menu rows into list rows, in order.
pub fn menu_list(menus: Vec<SysMenu>) -> (r: Vec<MenuListData>)
    requires
        forall|i: int|
            0 <= i < menus@.len() ==> (#[trigger] menus@[i].id) is Some && menus@[i].create_time
                is Some && menus@[i].update_time is Some,
    ensures
        r@.len() == menus@.len(),
        forall|i: int| 0 <= i < menus@.len() ==> menu_row_of(menus@[i], #[trigger] r@[i]),
{
    let ghost orig = menus@;
    let mut menus = menus;
    let mut r: Vec<MenuListData> = Vec::new();
    while menus.len() > 0
        invariant
            r@.len() + menus@.len() == orig.len(),
            forall|i: int| 0 <= i < menus@.len() ==> menus@[i] == orig[r@.len() + i],
            forall|i: int|
                0 <= i < orig.len() ==> (#[trigger] orig[i].id) is Some && orig[i].create_time
                    is Some && orig[i].update_time is Some,
            forall|i: int| 0 <= i < r@.len() ==> menu_row_of(orig[i], #[trigger] r@[i]),
        decreases menus@.len(),
    {
        let m = menus.remove(0);
        assert(m == orig[r@.len() as int]);
        r.push(MenuListData::from_menu(m));
    }
    r
}

/// The non-empty API paths of the given menu rows, in order.
pub open spec fn btn_menu_of(ms: Seq<SysMenu>) -> Seq<Seq<char>>
    decreases ms.len(),
{
    if ms.len() == 0 {
        Seq::<Seq<char>>::empty()
    } else {
        (match ms[0].api_url {
            Some(u) => if u@.len() > 0 {
                seq![u@]
            } else {
                Seq::<Seq<char>>::empty()
            },
            None => Seq::<Seq<char>>::empty(),
        }) + btn_menu_of(ms.skip(1))
    }
}

fn push_btn_menu(menus: &Vec<SysMenu>, i: usize, out: &mut Vec<String>)
    requires
        i <= menus@.len(),
    ensures
        final(out).deep_view() == old(out).deep_view() + btn_menu_of(menus@.skip(i as int)),
    decreases menus@.len() - i,
{
    let ghost t = menus@.skip(i as int);
    if i == menus.len() {
        assert(out.deep_view() =~= old(out).deep_view() + btn_menu_of(t));
        return ;
    }
    let ghost before = out.deep_view();
    match &menus[i].api_url {
        Some(u) => {
            if !u.as_str().is_empty() {
                out.push(u.clone());
                assert(out.deep_view() =~= before + seq![u@]);
            }
        },
        None => {},
    }
    push_btn_menu(menus, i + 1, out);
    proof {
        assert(t[0] == menus@[i as int]);
        assert(t.skip(1) =~= menus@.skip(i + 1));
        assert(out.deep_view() =~= old(out).deep_view() + btn_menu_of(t));
    }
}

/// Collects the non-empty API paths of the given menu rows, in order.
pub fn collect_btn_menu(menus: &Vec<SysMenu>) -> (r: Vec<String>)
    ensures
        r.deep_view() == btn_menu_of(menus@),
{
    let mut out: Vec<String> = Vec::new();
    push_btn_menu(menus, 0, &mut out);
    assert(menus@.skip(0) =~= menus@);
    assert(out.deep_view() =~= btn_menu_of(menus@));
    out
}

/// The identifiers a user's menu tree shows: of every row that is no plain
/// button, its own id and its parent's, zero left out.
pub open spec fn menu_id_set(ms: Seq<SysMenu>) -> Set<i32> {
    Set::new(
        |x: i32|
            x != 0 && exists|i: int|
                0 <= i < ms.len() && (#[trigger] ms[i]).menu_type != 3 && (ms[i].id == Some(x)
                    || ms[i].parent_id == x),
    )
}

fn vec_contains_i32(v: &Vec<i32>, x: i32) -> (r: bool)
    ensures
        r == v@.contains(x),
{
    let n = v.len();
    let mut i: usize = 0;
    while i < n
        invariant
            i <= n == v@.len(),
            forall|j: int| 0 <= j < i ==> v@[j] != x,
        decreases n - i,
    {
        if v[i] == x {
            return true;
        }
        i = i + 1;
    }
    false
}

/// Collects the menu tree identifiers, each once, in ascending order.
pub fn collect_user_menu_ids(menus: &Vec<SysMenu>) -> (r: Vec<i32>)
    ensures
        sorted_i32(r@),
        forall|x: i32| #[trigger] r@.contains(x) <==> menu_id_set(menus@).contains(x),
{
    broadcast use vstd::seq_lib::group_to_multiset_ensures;

    let n = menus.len();
    let mut ids: Vec<i32> = Vec::new();
    let mut i: usize = 0;
    while i < n
        invariant
            i <= n == menus@.len(),
            forall|x: i32| #[trigger] ids@.contains(x) <==> menu_id_set(menus@.take(i as int)).contains(x),
        decreases n - i,
    {
        let ghost prev = ids@;
        if menus[i].menu_type != 3 {
            match menus[i].id {
                Some(id) => {
                    if id != 0 && !vec_contains_i32(&ids, id) {
                        let ghost b = ids@;
                        ids.push(id);
                        proof {
                            lemma_push_contains(b, id);
                        }
                    }
                },
                None => {},
            }
            let pid = menus[i].parent_id;
            if pid != 0 && !vec_contains_i32(&ids, pid) {
                let ghost b = ids@;
                ids.push(pid);
                proof {
                    lemma_push_contains(b, pid);
                }
            }
        }
        proof {
            let m = menus@[i as int];
            assert forall|x: i32|
                #[trigger] ids@.contains(x) <==> (prev.contains(x) || (m.menu_type != 3 && m.id
                    is Some && m.id.unwrap() != 0 && x == m.id.unwrap()) || (m.menu_type != 3
                    && m.parent_id != 0 && x == m.parent_id)) by {}
            lemma_menu_ids_step(menus@, i as int, prev, ids@);
        }
        i = i + 1;
    }
    proof {
        assert(menus@.take(n as int) =~= menus@);
    }
    let r = sort_i32(ids);
    proof {
        assert forall|x: i32| #[trigger] r@.contains(x) <==> menu_id_set(menus@).contains(x) by {
            assert(r@.contains(x) <==> r@.to_multiset().count(x) > 0);
            assert(ids@.contains(x) <==> ids@.to_multiset().count(x) > 0);
        }
    }
    r
}

/// Appending one value extends exactly what a sequence holds.
proof fn lemma_push_contains(s: Seq<i32>, v: i32)
    ensures
        forall|x: i32| #[trigger] s.push(v).contains(x) <==> (s.contains(x) || x == v),
{
    assert forall|x: i32| #[trigger] s.push(v).contains(x) <==> (s.contains(x) || x == v) by {
        if s.push(v).contains(x) {
            let k = choose|k: int| 0 <= k < s.push(v).len() && s.push(v)[k] == x;
            if k < s.len() {
                assert(s[k] == x);
            }
        }
        if s.contains(x) {
            let k = choose|k: int| 0 <= k < s.len() && s[k] == x;
            assert(s.push(v)[k] == x);
        }
        if x == v {
            assert(s.push(v)[s.len() as int] == x);
        }
    }
}

/// One scanned row extends the characterized identifier set by exactly its
/// own contributions.
proof fn lemma_menu_ids_step(ms: Seq<SysMenu>, i: int, prev: Seq<i32>, cur: Seq<i32>)
    requires
        0 <= i < ms.len(),
        forall|x: i32| #[trigger] prev.contains(x) <==> menu_id_set(ms.take(i)).contains(x),
        ({
            let contributes_id = ms[i].menu_type != 3 && ms[i].id is Some && ms[i].id.unwrap() != 0;
            let contributes_pid = ms[i].menu_type != 3 && ms[i].parent_id != 0;
            forall|x: i32|
                #[trigger] cur.contains(x) <==> (prev.contains(x) || (contributes_id && x
                    == ms[i].id.unwrap()) || (contributes_pid && x == ms[i].parent_id))
        }),
    ensures
        forall|x: i32| #[trigger] cur.contains(x) <==> menu_id_set(ms.take(i + 1)).contains(x),
{
    assert forall|x: i32| #[trigger] cur.contains(x) <==> menu_id_set(ms.take(i + 1)).contains(
        x,
    ) by {
        if cur.contains(x) {
            if prev.contains(x) {
                let k = choose|k: int|
                    0 <= k < i && (#[trigger] ms.take(i)[k]).menu_type != 3 && (ms.take(i)[k].id
                        == Some(x) || ms.take(i)[k].parent_id == x);
                assert(ms.take(i + 1)[k] == ms[k]);
                assert(menu_id_set(ms.take(i + 1)).contains(x));
            } else {
                assert(ms.take(i + 1)[i] == ms[i]);
                assert(menu_id_set(ms.take(i + 1)).contains(x));
            }
        }
        if menu_id_set(ms.take(i + 1)).contains(x) {
            let k = choose|k: int|
                0 <= k < i + 1 && (#[trigger] ms.take(i + 1)[k]).menu_type != 3 && (ms.take(
                    i + 1,
                )[k].id == Some(x) || ms.take(i + 1)[k].parent_id == x);
            if k < i {
                assert(ms.take(i)[k] == ms[k]);
                assert(menu_id_set(ms.take(i)).contains(x));
            } else {
                assert(ms.take(i + 1)[i] == ms[i]);
            }
        }
    }
}

} // verus!
