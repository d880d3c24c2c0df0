//! The navigation menu: a fixed list of entries, each optionally guarded by
//! permissions, filtered down to what the authenticated actor may see. An
//! entry without a guard is visible to every authenticated actor; a guarded
//! entry needs at least one of its permissions.

use vstd::prelude::*;

verus! {

use crate::access::AuthUser;

/// One menu entry; `required_permissions` is the guard, absent for entries
/// every authenticated actor sees.
pub struct MenuItem {
    pub label: String,
    pub href: String,
    pub icon: String,
    pub required_permissions: Option<Vec<String>>,
}

/// Specification-level shape of a menu entry.
pub ghost struct MenuItemV {
    pub label: Seq<char>,
    pub href: Seq<char>,
    pub icon: Seq<char>,
    pub required_permissions: Option<Seq<Seq<char>>>,
}

impl View for MenuItem {
    type V = MenuItemV;

    open spec fn view(&self) -> MenuItemV {
        MenuItemV {
            label: self.label@,
            href: self.href@,
            icon: self.icon@,
            required_permissions: match &self.required_permissions {
                Some(v) => Some(v.deep_view()),
                None => None,
            },
        }
    }
}

impl DeepView for MenuItem {
    type V = MenuItemV;

    open spec fn deep_view(&self) -> MenuItemV {
        self.view()
    }
}

pub struct MenuResponse {
    pub data: Vec<MenuItem>,
}

/// An entry is visible iff it has no guard or the actor holds one of the
/// guarding permissions.
pub open spec fn menu_visible(item: MenuItemV, perms: Seq<Seq<char>>) -> bool {
    match item.required_permissions {
        None => true,
        Some(req) => exists|k: int| 0 <= k < req.len() && perms.contains(#[trigger] req[k]),
    }
}

/// The visible entries, in order.
pub open spec fn menu_filtered(items: Seq<MenuItemV>, perms: Seq<Seq<char>>) -> Seq<MenuItemV>
    decreases items.len(),
{
    if items.len() == 0 {
        Seq::<MenuItemV>::empty()
    } else {
        let rest = menu_filtered(items.drop_last(), perms);
        if menu_visible(items.last(), perms) {
            rest.push(items.last())
        } else {
            rest
        }
    }
}

/// The fixed menu.
pub open spec fn default_menu_spec() -> Seq<MenuItemV> {
    seq![
        MenuItemV {
            label: "Dashboard"@,
            href: "/dashboard"@,
            icon: "home"@,
            required_permissions: None,
        },
        MenuItemV {
            label: "Classes"@,
            href: "/classes"@,
            icon: "book"@,
            required_permissions: Some(seq!["class:read"@]),
        },
        MenuItemV {
            label: "Attendance"@,
            href: "/attendance"@,
            icon: "calendar"@,
            required_permissions: Some(seq!["attend:read"@]),
        },
        MenuItemV {
            label: "Record Attendance"@,
            href: "/attendance/mark"@,
            icon: "check"@,
            required_permissions: Some(seq!["attend:write"@]),
        },
        MenuItemV {
            label: "Grades"@,
            href: "/grades"@,
            icon: "award"@,
            required_permissions: Some(seq!["grade:read"@]),
        },
        MenuItemV {
            label: "Users"@,
            href: "/users"@,
            icon: "users"@,
            required_permissions: Some(seq!["user:manage"@]),
        },
    ]
}

fn mk_item(label: &str, href: &str, icon: &str, guard: Option<&str>) -> (r: MenuItem)
    ensures
        r@ == (MenuItemV {
            label: label@,
            href: href@,
            icon: icon@,
            required_permissions: match guard {
                Some(g) => Some(seq![g@]),
                None => None,
            },
        }),
{
    let required_permissions = match guard {
        Some(g) => {
            let mut v: Vec<String> = Vec::new();
            v.push(g.to_owned());
            proof {
                assert(v.deep_view() =~= seq![g@]);
            }
            Some(v)
        },
        None => None,
    };
    MenuItem {
        label: label.to_owned(),
        href: href.to_owned(),
        icon: icon.to_owned(),
        required_permissions,
    }
}

/// Builds the fixed menu.
pub fn default_menu() -> (r: Vec<MenuItem>)
    ensures
        r.deep_view() == default_menu_spec(),
{
    let mut items: Vec<MenuItem> = Vec::new();
    items.push(mk_item("Dashboard", "/dashboard", "home", None));
    items.push(mk_item("Classes", "/classes", "book", Some("class:read")));
    items.push(mk_item("Attendance", "/attendance", "calendar", Some("attend:read")));
    items.push(mk_item("Record Attendance", "/attendance/mark", "check", Some("attend:write")));
    items.push(mk_item("Grades", "/grades", "award", Some("grade:read")));
    items.push(mk_item("Users", "/users", "users", Some("user:manage")));
    proof {
        assert(items.deep_view() =~= default_menu_spec());
    }
    items
}

fn is_visible(item: &MenuItem, auth_user: &AuthUser) -> (r: bool)
    ensures
        r == menu_visible(item@, auth_user.permissions.deep_view()),
{
    match &item.required_permissions {
        None => true,
        Some(req) => auth_user.has_any_permission(req),
    }
}

/// The menu as the actor sees it: the fixed entries filtered by the
/// permissions the validated token carries.
pub fn get_menu(auth_user: &AuthUser) -> (r: MenuResponse)
    ensures
        r.data.deep_view() == menu_filtered(
            default_menu_spec(),
            auth_user.permissions.deep_view(),
        ),
{
    let items = default_menu();
    let ghost iv = items.deep_view();
    let ghost perms = auth_user.permissions.deep_view();
    let mut out: Vec<MenuItem> = Vec::new();
    let n = items.len();
    let mut i: usize = 0;
    proof {
        assert(out.deep_view() =~= menu_filtered(iv.take(0), perms));
    }
    while i < n
        invariant
            0 <= i <= n,
            n == items.len(),
            iv == items.deep_view(),
            perms == auth_user.permissions.deep_view(),
            out.deep_view() == menu_filtered(iv.take(i as int), perms),
        decreases n - i,
    {
        let ghost pre = out.deep_view();
        let item = &items[i];
        proof {
            assert(items.deep_view()[i as int] == item@);
            assert(iv.take(i as int + 1).drop_last() =~= iv.take(i as int));
            assert(iv.take(i as int + 1).last() == iv[i as int]);
        }
        if is_visible(item, auth_user) {
            let copied = MenuItem {
                label: item.label.clone(),
                href: item.href.clone(),
                icon: item.icon.clone(),
                required_permissions: match &item.required_permissions {
                    Some(v) => Some(crate::flow::clone_string_vec(v)),
                    None => None,
                },
            };
            proof {
                assert(copied@ == item@);
            }
            out.push(copied);
            proof {
                assert(out.deep_view() =~= pre.push(iv[i as int]));
            }
        }
        i = i + 1;
    }
    proof {
        assert(iv.take(n as int) =~= iv);
    }
    MenuResponse { data: out }
}

} // verus!
