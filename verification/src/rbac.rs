//! Role and permission resolution: the static role -> permission table, the
//! deduplicated union of permissions over an actor's roles, and the
//! actor-type context chosen from profile rows in a fixed priority order.
//! The store lookups happen outside; callers pass the fetched rows in.

use vstd::prelude::*;

verus! {

use crate::claims::ActorContext;

/// A role, as stored.
pub struct Role {
    pub id: u128,
    pub code: String,
    pub name: String,
}

/// A permission, as stored.
pub struct Permission {
    pub id: u128,
    pub code: String,
    pub description: String,
}

/// One row of the role -> permission table: a role code and the permission
/// codes it grants.
pub struct RoleGrant {
    pub role_code: String,
    pub permission_codes: Vec<String>,
}

/// Specification-level shape of a table row.
pub ghost struct RoleGrantV {
    pub role_code: Seq<char>,
    pub permission_codes: Seq<Seq<char>>,
}

impl View for RoleGrant {
    type V = RoleGrantV;

    open spec fn view(&self) -> RoleGrantV {
        RoleGrantV {
            role_code: self.role_code@,
            permission_codes: self.permission_codes.deep_view(),
        }
    }
}

impl DeepView for RoleGrant {
    type V = RoleGrantV;

    open spec fn deep_view(&self) -> RoleGrantV {
        self.view()
    }
}

/// The permission snapshot of an actor at a point in time: roles, the
/// deduplicated union of the permissions those roles grant, and at most one
/// context payload.
pub struct UserPermissions {
    pub user_id: u128,
    pub roles: Vec<String>,
    pub permissions: Vec<String>,
    pub context: Option<ActorContext>,
}

/// A teacher-like profile row, as handed in by the caller.
pub struct TeacherProfile {
    pub personnel_no: String,
    pub department_id: Option<u128>,
}

/// A student profile row, as handed in by the caller.
pub struct StudentProfile {
    pub student_code: String,
    pub class_id: Option<u128>,
}

/// A permission `code` is granted by `roles` under `table` iff some table
/// row carries one of the roles and lists the code.
pub open spec fn granted(
    table: Seq<RoleGrantV>,
    roles: Seq<Seq<char>>,
    code: Seq<char>,
) -> bool {
    exists|i: int|
        0 <= i < table.len() && roles.contains(#[trigger] table[i].role_code)
            && table[i].permission_codes.contains(code)
}

pub open spec fn no_dups(v: Seq<Seq<char>>) -> bool {
    forall|i: int, j: int| 0 <= i < j < v.len() ==> v[i] != v[j]
}

/// Character-by-character string equality; no outside code involved.
pub fn str_eq(a: &str, b: &str) -> (r: bool)
    ensures
        r == (a@ == b@),
{
    let n = a.unicode_len();
    if n != b.unicode_len() {
        return false;
    }
    let mut i: usize = 0;
    while i < n
        invariant
            0 <= i <= n,
            n == a@.len() == b@.len(),
            forall|t: int| 0 <= t < i ==> a@[t] == b@[t],
        decreases n - i,
    {
        if a.get_char(i) != b.get_char(i) {
            return false;
        }
        i = i + 1;
    }
    proof {
        assert(a@ =~= b@);
    }
    true
}

/// Whether the list contains the string, by value.
pub fn contains_str(v: &Vec<String>, s: &str) -> (r: bool)
    ensures
        r == v.deep_view().contains(s@),
{
    let n = v.len();
    let mut i: usize = 0;
    while i < n
        invariant
            0 <= i <= n,
            n == v.len(),
            forall|t: int| 0 <= t < i ==> v.deep_view()[t] != s@,
        decreases n - i,
    {
        if str_eq(v[i].as_str(), s) {
            proof {
                assert(v.deep_view()[i as int] == s@);
            }
            return true;
        }
        i = i + 1;
    }
    proof {
        if v.deep_view().contains(s@) {
            let t = choose|t: int| 0 <= t < v.deep_view().len() && v.deep_view()[t] == s@;
            assert(v.deep_view()[t] != s@);
        }
    }
    false
}

/// The deduplicated union of the permissions the roles grant: membership in
/// the result is exactly `granted`, and nothing appears twice. Role order
/// cannot matter, since only role membership is consulted.
pub fn permissions_for_roles(table: &Vec<RoleGrant>, roles: &Vec<String>) -> (r: Vec<String>)
    ensures
        forall|c: Seq<char>|
            #[trigger] r.deep_view().contains(c) <==> granted(
                table.deep_view(),
                roles.deep_view(),
                c,
            ),
        no_dups(r.deep_view()),
{
    let mut out: Vec<String> = Vec::new();
    let n = table.len();
    let mut i: usize = 0;
    proof {
        assert(out.deep_view() =~= Seq::<Seq<char>>::empty());
    }
    while i < n
        invariant
            0 <= i <= n,
            n == table.len(),
            no_dups(out.deep_view()),
            forall|c: Seq<char>|
                #[trigger] out.deep_view().contains(c) <==> granted(
                    table.deep_view().take(i as int),
                    roles.deep_view(),
                    c,
                ),
        decreases n - i,
    {
        let row = &table[i];
        proof {
            assert(table.deep_view()[i as int] == row@);
        }
        if contains_str(roles, row.role_code.as_str()) {
            let m = row.permission_codes.len();
            let mut j: usize = 0;
            while j < m
                invariant
                    0 <= j <= m,
                    0 <= i < n,
                    n == table.len(),
                    m == row.permission_codes.len(),
                    row == table[i as int],
                    table.deep_view()[i as int] == row@,
                    roles.deep_view().contains(row@.role_code),
                    no_dups(out.deep_view()),
                    forall|c: Seq<char>|
                        #[trigger] out.deep_view().contains(c) <==> (granted(
                            table.deep_view().take(i as int),
                            roles.deep_view(),
                            c,
                        ) || row@.permission_codes.take(j as int).contains(c)),
                decreases m - j,
            {
                let code = &row.permission_codes[j];
                proof {
                    assert(row@.permission_codes[j as int] == code@);
                }
                if !contains_str(&out, code.as_str()) {
                    let ghost pre = out.deep_view();
                    out.push(code.clone());
                    proof {
                        assert(out.deep_view() =~= pre.push(code@));
                        assert forall|c: Seq<char>| #[trigger] out.deep_view().contains(c) implies (
                        granted(table.deep_view().take(i as int), roles.deep_view(), c)
                            || row@.permission_codes.take(j as int + 1).contains(c)) by {
                            if c == code@ {
                                assert(row@.permission_codes.take(j as int + 1)[j as int] == c);
                            } else {
                                assert(pre.contains(c));
                            }
                        }
                        assert forall|c: Seq<char>|
                            (granted(table.deep_view().take(i as int), roles.deep_view(), c)
                                || row@.permission_codes.take(j as int + 1).contains(
                                c,
                            )) implies #[trigger] out.deep_view().contains(c) by {
                            if row@.permission_codes.take(j as int + 1).contains(c) {
                                let t = choose|t: int|
                                    0 <= t < j + 1 && #[trigger] row@.permission_codes.take(
                                        j as int + 1,
                                    )[t] == c;
                                if t < j {
                                    assert(row@.permission_codes.take(j as int)[t] == c);
                                    assert(pre.contains(c));
                                    assert(out.deep_view()[choose|u: int|
                                        0 <= u < pre.len() && pre[u] == c] == c);
                                } else {
                                    assert(c == code@);
                                    assert(out.deep_view()[pre.len() as int] == c);
                                }
                            } else {
                                assert(pre.contains(c));
                                let u = choose|u: int| 0 <= u < pre.len() && pre[u] == c;
                                assert(out.deep_view()[u] == c);
                            }
                        }
                    }
                } else {
                    proof {
                        assert forall|c: Seq<char>| #[trigger] out.deep_view().contains(c) <==> (
                        granted(table.deep_view().take(i as int), roles.deep_view(), c)
                            || row@.permission_codes.take(j as int + 1).contains(c)) by {
                            if row@.permission_codes.take(j as int + 1).contains(c) {
                                let t = choose|t: int|
                                    0 <= t < j + 1 && #[trigger] row@.permission_codes.take(
                                        j as int + 1,
                                    )[t] == c;
                                if t < j {
                                    assert(row@.permission_codes.take(j as int)[t] == c);
                                } else {
                                    assert(c == code@);
                                    assert(out.deep_view().contains(code@));
                                }
                            } else if row@.permission_codes.take(j as int).contains(c) {
                                let t = choose|t: int|
                                    0 <= t < j && #[trigger] row@.permission_codes.take(
                                        j as int,
                                    )[t] == c;
                                assert(row@.permission_codes.take(j as int + 1)[t] == c);
                            }
                        }
                    }
                }
                j = j + 1;
            }
            proof {
                assert(row@.permission_codes.take(m as int) =~= row@.permission_codes);
                lemma_granted_take_step(table.deep_view(), roles.deep_view(), i as int);
            }
        } else {
            proof {
                lemma_granted_take_step_unmatched(table.deep_view(), roles.deep_view(), i as int);
            }
        }
        i = i + 1;
    }
    proof {
        assert(table.deep_view().take(n as int) =~= table.deep_view());
    }
    out
}

/// Extending the considered table by a row whose role the actor has adds
/// exactly that row's permissions.
proof fn lemma_granted_take_step(table: Seq<RoleGrantV>, roles: Seq<Seq<char>>, i: int)
    requires
        0 <= i < table.len(),
        roles.contains(table[i].role_code),
    ensures
        forall|c: Seq<char>|
            #[trigger] granted(table.take(i + 1), roles, c) <==> (granted(table.take(i), roles, c)
                || table[i].permission_codes.contains(c)),
{
    assert forall|c: Seq<char>| #[trigger] granted(table.take(i + 1), roles, c) implies (granted(
        table.take(i),
        roles,
        c,
    ) || table[i].permission_codes.contains(c)) by {
        let t = choose|t: int|
            0 <= t < table.take(i + 1).len() && roles.contains(#[trigger] table.take(i + 1)[t].role_code)
                && table.take(i + 1)[t].permission_codes.contains(c);
        if t < i {
            assert(table.take(i)[t] == table[t]);
            assert(granted(table.take(i), roles, c));
        } else {
            assert(table.take(i + 1)[t] == table[i]);
        }
    }
    assert forall|c: Seq<char>|
        (granted(table.take(i), roles, c) || table[i].permission_codes.contains(
            c,
        )) implies #[trigger] granted(table.take(i + 1), roles, c) by {
        if granted(table.take(i), roles, c) {
            let t = choose|t: int|
                0 <= t < table.take(i).len() && roles.contains(#[trigger] table.take(i)[t].role_code)
                    && table.take(i)[t].permission_codes.contains(c);
            assert(table.take(i + 1)[t] == table[t]);
            assert(roles.contains(table.take(i + 1)[t].role_code));
        } else {
            assert(table.take(i + 1)[i] == table[i]);
            assert(roles.contains(table.take(i + 1)[i].role_code));
        }
    }
}

/// Extending the considered table by a row whose role the actor lacks adds
/// nothing.
proof fn lemma_granted_take_step_unmatched(table: Seq<RoleGrantV>, roles: Seq<Seq<char>>, i: int)
    requires
        0 <= i < table.len(),
        !roles.contains(table[i].role_code),
    ensures
        forall|c: Seq<char>|
            #[trigger] granted(table.take(i + 1), roles, c) <==> granted(table.take(i), roles, c),
{
    assert forall|c: Seq<char>| #[trigger] granted(table.take(i + 1), roles, c) implies granted(
        table.take(i),
        roles,
        c,
    ) by {
        let t = choose|t: int|
            0 <= t < table.take(i + 1).len() && roles.contains(#[trigger] table.take(i + 1)[t].role_code)
                && table.take(i + 1)[t].permission_codes.contains(c);
        if t < i {
            assert(table.take(i)[t] == table[t]);
        } else {
            assert(table.take(i + 1)[t] == table[i]);
        }
    }
    assert forall|c: Seq<char>| granted(table.take(i), roles, c) implies #[trigger] granted(
        table.take(i + 1),
        roles,
        c,
    ) by {
        let t = choose|t: int|
            0 <= t < table.take(i).len() && roles.contains(#[trigger] table.take(i)[t].role_code)
                && table.take(i)[t].permission_codes.contains(c);
        assert(table.take(i + 1)[t] == table[t]);
        assert(roles.contains(table.take(i + 1)[t].role_code));
    }
}

/// For all role lists with the same membership, the same permissions are
/// granted, whatever the order and multiplicity: the union is a function of
/// the role set alone.
pub proof fn lemma_permissions_order_independent(
    table: Seq<RoleGrantV>,
    roles_a: Seq<Seq<char>>,
    roles_b: Seq<Seq<char>>,
)
    requires
        forall|r: Seq<char>| roles_a.contains(r) <==> roles_b.contains(r),
    ensures
        forall|c: Seq<char>| granted(table, roles_a, c) == granted(table, roles_b, c),
{
    assert forall|c: Seq<char>| granted(table, roles_a, c) == granted(table, roles_b, c) by {
        if granted(table, roles_a, c) {
            let i = choose|i: int|
                0 <= i < table.len() && roles_a.contains(#[trigger] table[i].role_code)
                    && table[i].permission_codes.contains(c);
            assert(roles_b.contains(table[i].role_code));
        }
        if granted(table, roles_b, c) {
            let i = choose|i: int|
                0 <= i < table.len() && roles_b.contains(#[trigger] table[i].role_code)
                    && table[i].permission_codes.contains(c);
            assert(roles_a.contains(table[i].role_code));
        }
    }
}

/// The actor-type context, chosen from the profile rows in fixed priority
/// order: a teacher-like profile first, then a student profile, then
/// guardian links. At most one context results; with no profile there is
/// none.
pub open spec fn context_of(
    teacher: Option<(Seq<char>, Option<u128>)>,
    student: Option<(Seq<char>, Option<u128>)>,
    guardian: Option<Seq<u128>>,
) -> Option<crate::claims::ContextV> {
    match teacher {
        Some(t) => Some(
            crate::claims::ContextV::Teacher {
                personnel_no: t.0,
                department_id: t.1,
                class_ids: seq!["class-1"@, "class-2"@],
            },
        ),
        None => match student {
            Some(s) => Some(
                crate::claims::ContextV::Student { student_code: s.0, class_id: s.1 },
            ),
            None => match guardian {
                Some(g) => Some(crate::claims::ContextV::Guardian { children: g }),
                None => None,
            },
        },
    }
}

pub open spec fn teacher_profile_view(t: Option<TeacherProfile>) -> Option<(Seq<char>, Option<u128>)> {
    match t {
        Some(p) => Some((p.personnel_no@, p.department_id)),
        None => None,
    }
}

pub open spec fn student_profile_view(t: Option<StudentProfile>) -> Option<(Seq<char>, Option<u128>)> {
    match t {
        Some(p) => Some((p.student_code@, p.class_id)),
        None => None,
    }
}

pub open spec fn guardian_view(g: Option<Vec<u128>>) -> Option<Seq<u128>> {
    match g {
        Some(v) => Some(v@),
        None => None,
    }
}

/// Builds the actor-type context from the profile rows, honouring the
/// priority order. The class list attached to a teacher context is the
/// fixed placeholder assignment.
pub fn build_context(
    teacher: Option<TeacherProfile>,
    student: Option<StudentProfile>,
    guardian: Option<Vec<u128>>,
) -> (r: Option<ActorContext>)
    ensures
        (match r {
            Some(c) => Some(c@),
            None => None,
        }) == context_of(
            teacher_profile_view(teacher),
            student_profile_view(student),
            guardian_view(guardian),
        ),
{
    match teacher {
        Some(p) => {
            let mut class_ids: Vec<String> = Vec::new();
            class_ids.push("class-1".to_owned());
            class_ids.push("class-2".to_owned());
            proof {
                assert(class_ids.deep_view() =~= seq!["class-1"@, "class-2"@]);
            }
            Some(
                ActorContext::Teacher {
                    personnel_no: p.personnel_no,
                    department_id: p.department_id,
                    class_ids,
                },
            )
        },
        None => match student {
            Some(p) => Some(
                ActorContext::Student { student_code: p.student_code, class_id: p.class_id },
            ),
            None => match guardian {
                Some(children) => Some(ActorContext::Guardian { children }),
                None => None,
            },
        },
    }
}

/// The built-in role -> permission table: administrators hold everything,
/// teachers the class-facing permissions, students and guardians the read
/// sides relevant to them.
pub open spec fn default_table_spec() -> Seq<RoleGrantV> {
    seq![
        RoleGrantV {
            role_code: "admin"@,
            permission_codes: seq![
                "user:manage"@,
                "class:read"@,
                "class:write"@,
                "attend:read"@,
                "attend:write"@,
                "grade:read"@,
                "grade:write"@,
                "report:read"@,
                "system:admin"@,
            ],
        },
        RoleGrantV {
            role_code: "teacher"@,
            permission_codes: seq![
                "class:read"@,
                "attend:read"@,
                "attend:write"@,
                "grade:read"@,
                "grade:write"@,
            ],
        },
        RoleGrantV {
            role_code: "student"@,
            permission_codes: seq!["class:read"@, "attend:read"@, "grade:read"@],
        },
        RoleGrantV {
            role_code: "parent"@,
            permission_codes: seq!["attend:read"@, "grade:read"@],
        },
    ]
}

fn push_owned(v: &mut Vec<String>, s: &str)
    ensures
        final(v)@.len() == old(v)@.len() + 1,
        final(v).deep_view() == old(v).deep_view().push(s@),
{
    v.push(s.to_owned());
    proof {
        assert(final(v).deep_view() =~= old(v).deep_view().push(s@));
    }
}

/// Builds the built-in role -> permission table.
pub fn default_permission_table() -> (r: Vec<RoleGrant>)
    ensures
        r.deep_view() == default_table_spec(),
{
    let mut admin: Vec<String> = Vec::new();
    push_owned(&mut admin, "user:manage");
    push_owned(&mut admin, "class:read");
    push_owned(&mut admin, "class:write");
    push_owned(&mut admin, "attend:read");
    push_owned(&mut admin, "attend:write");
    push_owned(&mut admin, "grade:read");
    push_owned(&mut admin, "grade:write");
    push_owned(&mut admin, "report:read");
    push_owned(&mut admin, "system:admin");
    let mut teacher: Vec<String> = Vec::new();
    push_owned(&mut teacher, "class:read");
    push_owned(&mut teacher, "attend:read");
    push_owned(&mut teacher, "attend:write");
    push_owned(&mut teacher, "grade:read");
    push_owned(&mut teacher, "grade:write");
    let mut student: Vec<String> = Vec::new();
    push_owned(&mut student, "class:read");
    push_owned(&mut student, "attend:read");
    push_owned(&mut student, "grade:read");
    let mut parent: Vec<String> = Vec::new();
    push_owned(&mut parent, "attend:read");
    push_owned(&mut parent, "grade:read");
    let mut table: Vec<RoleGrant> = Vec::new();
    proof {
        assert(admin.deep_view() =~= default_table_spec()[0].permission_codes);
        assert(teacher.deep_view() =~= default_table_spec()[1].permission_codes);
        assert(student.deep_view() =~= default_table_spec()[2].permission_codes);
        assert(parent.deep_view() =~= default_table_spec()[3].permission_codes);
    }
    table.push(RoleGrant { role_code: "admin".to_owned(), permission_codes: admin });
    table.push(RoleGrant { role_code: "teacher".to_owned(), permission_codes: teacher });
    table.push(RoleGrant { role_code: "student".to_owned(), permission_codes: student });
    table.push(RoleGrant { role_code: "parent".to_owned(), permission_codes: parent });
    proof {
        assert(table.deep_view() =~= default_table_spec());
    }
    table
}

/// Computes permission snapshots against a fixed role -> permission table.
pub struct RbacService {
    pub table: Vec<RoleGrant>,
}

impl RbacService {
    pub fn new(table: Vec<RoleGrant>) -> (r: RbacService)
        ensures
            r.table == table,
    {
        RbacService { table }
    }

    /// The permission snapshot: the roles as fetched, the deduplicated
    /// union of the permissions they grant, and the context chosen from the
    /// profile rows.
    pub fn get_user_permissions(
        &self,
        user_id: u128,
        roles: Vec<String>,
        teacher: Option<TeacherProfile>,
        student: Option<StudentProfile>,
        guardian: Option<Vec<u128>>,
    ) -> (r: UserPermissions)
        ensures
            r.user_id == user_id,
            r.roles == roles,
            forall|c: Seq<char>|
                #[trigger] r.permissions.deep_view().contains(c) <==> granted(
                    self.table.deep_view(),
                    roles.deep_view(),
                    c,
                ),
            no_dups(r.permissions.deep_view()),
            (match r.context {
                Some(c) => Some(c@),
                None => None,
            }) == context_of(
                teacher_profile_view(teacher),
                student_profile_view(student),
                guardian_view(guardian),
            ),
    {
        let permissions = permissions_for_roles(&self.table, &roles);
        let context = build_context(teacher, student, guardian);
        UserPermissions { user_id, roles, permissions, context }
    }

    /// Narrow authorization check: whether the roles grant the permission,
    /// without computing a snapshot.
    pub fn user_has_permission(&self, roles: &Vec<String>, permission: &str) -> (r: bool)
        ensures
            r == granted(self.table.deep_view(), roles.deep_view(), permission@),
    {
        let n = self.table.len();
        let mut i: usize = 0;
        while i < n
            invariant
                0 <= i <= n,
                n == self.table.len(),
                forall|t: int|
                    0 <= t < i ==> !(roles.deep_view().contains(
                        #[trigger] self.table.deep_view()[t].role_code,
                    ) && self.table.deep_view()[t].permission_codes.contains(permission@)),
            decreases n - i,
        {
            let row = &self.table[i];
            proof {
                assert(self.table.deep_view()[i as int] == row@);
            }
            if contains_str(roles, row.role_code.as_str()) && contains_str(
                &row.permission_codes,
                permission,
            ) {
                proof {
                    assert(roles.deep_view().contains(
                        self.table.deep_view()[i as int].role_code,
                    ));
                    assert(self.table.deep_view()[i as int].permission_codes.contains(
                        permission@,
                    ));
                }
                return true;
            }
            i = i + 1;
        }
        proof {
            if granted(self.table.deep_view(), roles.deep_view(), permission@) {
                let t = choose|t: int|
                    0 <= t < self.table.deep_view().len() && roles.deep_view().contains(
                        #[trigger] self.table.deep_view()[t].role_code,
                    ) && self.table.deep_view()[t].permission_codes.contains(permission@);
            }
        }
        false
    }
}

} // verus!
