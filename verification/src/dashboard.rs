//! The dashboard summary: a fixed set of cards per actor kind, the kind
//! chosen from the token's roles in a fixed priority order.

use vstd::prelude::*;

verus! {

use crate::access::AuthUser;

/// One summary card.
pub struct DashboardCard {
    pub title: String,
    pub value: String,
    pub description: String,
    pub icon: String,
    pub color: String,
}

/// Specification-level shape of a card.
pub ghost struct DashboardCardV {
    pub title: Seq<char>,
    pub value: Seq<char>,
    pub description: Seq<char>,
    pub icon: Seq<char>,
    pub color: Seq<char>,
}

impl View for DashboardCard {
    type V = DashboardCardV;

    open spec fn view(&self) -> DashboardCardV {
        DashboardCardV {
            title: self.title@,
            value: self.value@,
            description: self.description@,
            icon: self.icon@,
            color: self.color@,
        }
    }
}

impl DeepView for DashboardCard {
    type V = DashboardCardV;

    open spec fn deep_view(&self) -> DashboardCardV {
        self.view()
    }
}

pub struct DashboardResponse {
    pub data: Vec<DashboardCard>,
}

/// The actor kind shown on the dashboard, chosen from the roles in priority
/// order: administrator first, then teacher, student, guardian.
pub open spec fn user_type_of(roles: Seq<Seq<char>>) -> Seq<char> {
    if roles.contains("admin"@) {
        "admin"@
    } else if roles.contains("teacher"@) {
        "teacher"@
    } else if roles.contains("student"@) {
        "student"@
    } else if roles.contains("parent"@) {
        "parent"@
    } else {
        "unknown"@
    }
}

/// Chooses the dashboard kind for the actor.
pub fn get_user_type(auth_user: &AuthUser) -> (r: &'static str)
    ensures
        r@ == user_type_of(auth_user.roles.deep_view()),
{
    if auth_user.has_role("admin") {
        "admin"
    } else if auth_user.has_role("teacher") {
        "teacher"
    } else if auth_user.has_role("student") {
        "student"
    } else if auth_user.has_role("parent") {
        "parent"
    } else {
        "unknown"
    }
}

fn mk_card(title: &str, value: &str, description: &str, icon: &str, color: &str) -> (r:
    DashboardCard)
    ensures
        r@ == (DashboardCardV {
            title: title@,
            value: value@,
            description: description@,
            icon: icon@,
            color: color@,
        }),
{
    DashboardCard {
        title: title.to_owned(),
        value: value.to_owned(),
        description: description.to_owned(),
        icon: icon.to_owned(),
        color: color.to_owned(),
    }
}

pub open spec fn admin_cards_spec() -> Seq<DashboardCardV> {
    seq![
        DashboardCardV {
            title: "Total Users"@,
            value: "1,234"@,
            description: "Active users in system"@,
            icon: "users"@,
            color: "blue"@,
        },
        DashboardCardV {
            title: "Active Classes"@,
            value: "45"@,
            description: "Currently active classes"@,
            icon: "book"@,
            color: "green"@,
        },
        DashboardCardV {
            title: "Attendance Rate"@,
            value: "94.2%"@,
            description: "Overall attendance this month"@,
            icon: "calendar"@,
            color: "purple"@,
        },
        DashboardCardV {
            title: "System Health"@,
            value: "Optimal"@,
            description: "All systems operational"@,
            icon: "activity"@,
            color: "emerald"@,
        },
    ]
}

pub fn get_admin_cards() -> (r: Vec<DashboardCard>)
    ensures
        r.deep_view() == admin_cards_spec(),
{
    let mut v: Vec<DashboardCard> = Vec::new();
    v.push(mk_card("Total Users", "1,234", "Active users in system", "users", "blue"));
    v.push(mk_card("Active Classes", "45", "Currently active classes", "book", "green"));
    v.push(mk_card("Attendance Rate", "94.2%", "Overall attendance this month", "calendar",
        "purple"));
    v.push(mk_card("System Health", "Optimal", "All systems operational", "activity", "emerald"));
    proof {
        assert(v.deep_view() =~= admin_cards_spec());
    }
    v
}

pub open spec fn teacher_cards_spec() -> Seq<DashboardCardV> {
    seq![
        DashboardCardV {
            title: "My Classes"@,
            value: "3"@,
            description: "Classes assigned to you"@,
            icon: "book"@,
            color: "blue"@,
        },
        DashboardCardV {
            title: "Today's Attendance"@,
            value: "87/92"@,
            description: "Students present today"@,
            icon: "check"@,
            color: "green"@,
        },
        DashboardCardV {
            title: "Pending Grades"@,
            value: "12"@,
            description: "Assignments to grade"@,
            icon: "award"@,
            color: "orange"@,
        },
        DashboardCardV {
            title: "Class Average"@,
            value: "B+"@,
            description: "Overall class performance"@,
            icon: "trending-up"@,
            color: "purple"@,
        },
    ]
}

pub fn get_teacher_cards(_auth_user: &AuthUser) -> (r: Vec<DashboardCard>)
    ensures
        r.deep_view() == teacher_cards_spec(),
{
    let mut v: Vec<DashboardCard> = Vec::new();
    v.push(mk_card("My Classes", "3", "Classes assigned to you", "book", "blue"));
    v.push(mk_card("Today's Attendance", "87/92", "Students present today", "check", "green"));
    v.push(mk_card("Pending Grades", "12", "Assignments to grade", "award", "orange"));
    v.push(mk_card("Class Average", "B+", "Overall class performance", "trending-up", "purple"));
    proof {
        assert(v.deep_view() =~= teacher_cards_spec());
    }
    v
}

pub open spec fn student_cards_spec() -> Seq<DashboardCardV> {
    seq![
        DashboardCardV {
            title: "My Classes Today"@,
            value: "6"@,
            description: "Scheduled classes for today"@,
            icon: "calendar"@,
            color: "blue"@,
        },
        DashboardCardV {
            title: "Attendance Rate"@,
            value: "96.8%"@,
            description: "Your attendance this semester"@,
            icon: "check"@,
            color: "green"@,
        },
        DashboardCardV {
            title: "Current GPA"@,
            value: "3.7"@,
            description: "Grade point average"@,
            icon: "award"@,
            color: "purple"@,
        },
        DashboardCardV {
            title: "Upcoming Tests"@,
            value: "2"@,
            description: "Tests scheduled this week"@,
            icon: "file-text"@,
            color: "orange"@,
        },
    ]
}

pub fn get_student_cards(_auth_user: &AuthUser) -> (r: Vec<DashboardCard>)
    ensures
        r.deep_view() == student_cards_spec(),
{
    let mut v: Vec<DashboardCard> = Vec::new();
    v.push(mk_card("My Classes Today", "6", "Scheduled classes for today", "calendar", "blue"));
    v.push(mk_card("Attendance Rate", "96.8%", "Your attendance this semester", "check", "green"));
    v.push(mk_card("Current GPA", "3.7", "Grade point average", "award", "purple"));
    v.push(mk_card("Upcoming Tests", "2", "Tests scheduled this week", "file-text", "orange"));
    proof {
        assert(v.deep_view() =~= student_cards_spec());
    }
    v
}

pub open spec fn guardian_cards_spec() -> Seq<DashboardCardV> {
    seq![
        DashboardCardV {
            title: "Children"@,
            value: "2"@,
            description: "Students you're guardian for"@,
            icon: "users"@,
            color: "blue"@,
        },
        DashboardCardV {
            title: "Attendance This Week"@,
            value: "9/10"@,
            description: "Combined attendance"@,
            icon: "calendar"@,
            color: "green"@,
        },
        DashboardCardV {
            title: "Recent Grades"@,
            value: "A-"@,
            description: "Latest grade average"@,
            icon: "award"@,
            color: "purple"@,
        },
        DashboardCardV {
            title: "Notifications"@,
            value: "3"@,
            description: "Unread school notifications"@,
            icon: "bell"@,
            color: "red"@,
        },
    ]
}

pub fn get_guardian_cards(_auth_user: &AuthUser) -> (r: Vec<DashboardCard>)
    ensures
        r.deep_view() == guardian_cards_spec(),
{
    let mut v: Vec<DashboardCard> = Vec::new();
    v.push(mk_card("Children", "2", "Students you're guardian for", "users", "blue"));
    v.push(mk_card("Attendance This Week", "9/10", "Combined attendance", "calendar", "green"));
    v.push(mk_card("Recent Grades", "A-", "Latest grade average", "award", "purple"));
    v.push(mk_card("Notifications", "3", "Unread school notifications", "bell", "red"));
    proof {
        assert(v.deep_view() =~= guardian_cards_spec());
    }
    v
}

/// The cards the actor's dashboard shows, by actor kind.
pub open spec fn summary_cards_of(roles: Seq<Seq<char>>) -> Seq<DashboardCardV> {
    if user_type_of(roles) == "admin"@ {
        admin_cards_spec()
    } else if user_type_of(roles) == "teacher"@ {
        teacher_cards_spec()
    } else if user_type_of(roles) == "student"@ {
        student_cards_spec()
    } else if user_type_of(roles) == "parent"@ {
        parent_cards_or_empty()
    } else {
        Seq::<DashboardCardV>::empty()
    }
}

/// Guardians see the guardian cards; the split keeps the dispatch above
/// readable.
pub open spec fn parent_cards_or_empty() -> Seq<DashboardCardV> {
    guardian_cards_spec()
}

/// Assembles the dashboard for the actor: the card set of the first role
/// kind that matches, and nothing for an actor with none of the four roles.
pub fn get_dashboard_summary(auth_user: &AuthUser) -> (r: DashboardResponse)
    ensures
        r.data.deep_view() == summary_cards_of(auth_user.roles.deep_view()),
{
    proof {
        reveal_strlit("admin");
        reveal_strlit("teacher");
        reveal_strlit("student");
        reveal_strlit("parent");
        reveal_strlit("unknown");
    }
    let kind = get_user_type(auth_user);
    let data = if crate::rbac::str_eq(kind, "admin") {
        get_admin_cards()
    } else if crate::rbac::str_eq(kind, "teacher") {
        get_teacher_cards(auth_user)
    } else if crate::rbac::str_eq(kind, "student") {
        get_student_cards(auth_user)
    } else if crate::rbac::str_eq(kind, "parent") {
        get_guardian_cards(auth_user)
    } else {
        let empty_cards: Vec<DashboardCard> = Vec::new();
        proof {
            assert(empty_cards.deep_view() =~= Seq::<DashboardCardV>::empty());
        }
        empty_cards
    };
    DashboardResponse { data }
}

} // verus!
