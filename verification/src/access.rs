//! Role-based access control: a store of permission lists keyed by role,
//! with the built-in default roles, membership queries, and permission
//! grant and revocation; and the outcome classification of audited
//! actions.

use vstd::prelude::*;
use crate::text::str_eq;

verus! {

/// The outcome of one audited action.
#[derive(Debug, Clone, Copy, PartialEq, Eq, Structural)]
pub enum AuditStatus {
    Success,
    Failure,
    Warning,
}

/// The permission list of the first entry with the given role, if any.
pub open spec fn role_perms(
    perms: Seq<(Seq<char>, Seq<Seq<char>>)>,
    role: Seq<char>,
) -> Option<Seq<Seq<char>>>
    decreases perms.len(),
{
    if perms.len() == 0 {
        None
    } else if perms[0].0 == role {
        Some(perms[0].1)
    } else {
        role_perms(perms.drop_first(), role)
    }
}

/// Well-formedness of the store: one entry per role.
pub open spec fn wf_perms(perms: Seq<(Seq<char>, Seq<Seq<char>>)>) -> bool {
    forall|i: int, j: int| 0 <= i < j < perms.len() ==> perms[i].0 != perms[j].0
}

/// Holds of a permission exactly when it differs from `p`.
pub open spec fn keep_perm(p: Seq<char>) -> spec_fn(Seq<char>) -> bool {
    |q: Seq<char>| q != p
}

/// The built-in default table: what the administrator, technician and
/// plain-user roles may do.
pub open spec fn default_permissions() -> Seq<(Seq<char>, Seq<Seq<char>>)> {
    seq![
        (
            "admin"@,
            seq![
                "script:read"@,
                "script:write"@,
                "script:execute"@,
                "ticket:read"@,
                "ticket:write"@,
                "printer:read"@,
                "printer:manage"@,
                "user:read"@,
                "user:write"@,
            ],
        ),
        (
            "technician"@,
            seq![
                "script:read"@,
                "script:execute"@,
                "ticket:read"@,
                "ticket:write"@,
                "printer:read"@,
            ],
        ),
        ("user"@, seq!["ticket:read_own"@, "ticket:create"@]),
    ]
}

proof fn lemma_role_perms_update_first(
    perms: Seq<(Seq<char>, Seq<Seq<char>>)>,
    j: int,
    e: (Seq<char>, Seq<Seq<char>>),
    role: Seq<char>,
)
    requires
        0 <= j < perms.len(),
        perms[j].0 == role,
        forall|t: int| 0 <= t < j ==> perms[t].0 != role,
        e.0 == role,
    ensures
        role_perms(perms.update(j, e), role) == Some(e.1),
        forall|r2: Seq<char>|
            r2 != role ==> role_perms(perms.update(j, e), r2) == role_perms(perms, r2),
    decreases perms.len(),
{
    let up = perms.update(j, e);
    if j == 0 {
        assert(up[0] == e);
        assert(up.drop_first() =~= perms.drop_first());
        assert forall|r2: Seq<char>| r2 != role implies role_perms(up, r2) == role_perms(
            perms,
            r2,
        ) by {
            assert(up[0].0 == role);
            assert(perms[0].0 == role);
        }
    } else {
        assert(up[0] == perms[0]);
        assert(up.drop_first() =~= perms.drop_first().update(j - 1, e));
        assert(forall|t: int|
            0 <= t < j - 1 ==> perms.drop_first()[t] == perms[t + 1]);
        lemma_role_perms_update_first(perms.drop_first(), j - 1, e, role);
        assert(role_perms(up, role) == Some(e.1)) by {
            assert(up[0].0 == perms[0].0);
            assert(perms[0].0 != role);
        }
        assert forall|r2: Seq<char>| r2 != role implies role_perms(up, r2) == role_perms(
            perms,
            r2,
        ) by {
            assert(up[0] == perms[0]);
            if perms[0].0 == r2 {
            } else {
                assert(role_perms(up, r2) == role_perms(up.drop_first(), r2));
                assert(role_perms(perms, r2) == role_perms(perms.drop_first(), r2));
            }
        }
    }
}

proof fn lemma_role_perms_push_absent(
    perms: Seq<(Seq<char>, Seq<Seq<char>>)>,
    e: (Seq<char>, Seq<Seq<char>>),
    role: Seq<char>,
)
    requires
        forall|t: int| 0 <= t < perms.len() ==> perms[t].0 != role,
        e.0 == role,
    ensures
        role_perms(perms.push(e), role) == Some(e.1),
        forall|r2: Seq<char>|
            r2 != role ==> role_perms(perms.push(e), r2) == role_perms(perms, r2),
    decreases perms.len(),
{
    let up = perms.push(e);
    if perms.len() == 0 {
        assert(up[0] == e);
        assert(up.drop_first() =~= Seq::<(Seq<char>, Seq<Seq<char>>)>::empty());
        assert forall|r2: Seq<char>| r2 != role implies role_perms(up, r2) == role_perms(
            perms,
            r2,
        ) by {
            assert(up[0].0 == role);
            assert(role_perms(up.drop_first(), r2) is None);
        }
    } else {
        assert(up[0] == perms[0]);
        assert(up.drop_first() =~= perms.drop_first().push(e));
        assert(forall|t: int|
            0 <= t < perms.len() - 1 ==> perms.drop_first()[t] == perms[t + 1]);
        lemma_role_perms_push_absent(perms.drop_first(), e, role);
        assert(role_perms(up, role) == Some(e.1)) by {
            assert(perms[0].0 != role);
        }
        assert forall|r2: Seq<char>| r2 != role implies role_perms(up, r2) == role_perms(
            perms,
            r2,
        ) by {
            if perms[0].0 == r2 {
            } else {
                assert(role_perms(up, r2) == role_perms(up.drop_first(), r2));
                assert(role_perms(perms, r2) == role_perms(perms.drop_first(), r2));
            }
        }
    }
}

fn vec_contains_str(v: &Vec<String>, s: &str) -> (r: bool)
    ensures
        r == v.deep_view().contains(s@),
{
    let mut i: usize = 0;
    while i < v.len()
        invariant
            i <= v@.len(),
            forall|t: int| 0 <= t < i ==> v@[t]@ != s@,
        decreases v@.len() - i,
    {
        if str_eq(v[i].as_str(), s) {
            proof {
                assert(v.deep_view()[i as int] == s@);
            }
            return true;
        }
        i += 1;
    }
    proof {
        assert(!v.deep_view().contains(s@)) by {
            if v.deep_view().contains(s@) {
                let t = choose|t: int| 0 <= t < v.deep_view().len() && v.deep_view()[t] == s@;
                assert(v@[t]@ == s@);
            }
        }
    }
    false
}

fn retain_perms(perms: &Vec<String>, permission: &str) -> (r: Vec<String>)
    ensures
        r.deep_view() == perms.deep_view().filter(keep_perm(permission@)),
{
    let ghost pv = perms.deep_view();
    let mut r: Vec<String> = Vec::new();
    let mut i: usize = 0;
    proof {
        reveal(Seq::filter);
        assert(pv.take(0) =~= Seq::<Seq<char>>::empty());
        assert(r.deep_view() =~= pv.take(0).filter(keep_perm(permission@)));
    }
    while i < perms.len()
        invariant
            i <= pv.len(),
            pv.len() == perms@.len(),
            pv == perms.deep_view(),
            r@.len() == r.deep_view().len(),
            r.deep_view() == pv.take(i as int).filter(keep_perm(permission@)),
        decreases pv.len() - i,
    {
        let ghost pre = r.deep_view();
        proof {
            reveal(Seq::filter);
            assert(pv.take(i + 1).drop_last() =~= pv.take(i as int));
            assert(pv.take(i + 1).last() == pv[i as int]);
            assert(pv[i as int] == perms@[i as int]@);
        }
        if !str_eq(perms[i].as_str(), permission) {
            r.push(perms[i].clone());
            proof {
                reveal(Seq::filter);
                let fnext = pv.take(i + 1).filter(keep_perm(permission@));
                let fpre = pv.take(i as int).filter(keep_perm(permission@));
                assert(fnext == fpre.push(pv[i as int]));
                assert(pre.len() == fpre.len());
                assert(r@.len() == pre.len() + 1);
                assert(r.deep_view().len() == r@.len());
                assert forall|k: int| 0 <= k < pre.len() implies r.deep_view()[k] == fnext[k] by {
                    assert(r.deep_view()[k] == r@[k].deep_view());
                    assert(r.deep_view()[k] == pre[k]);
                    assert(pre[k] == fpre[k]);
                    assert(fnext[k] == fpre[k]);
                }
                assert(r.deep_view()[pre.len() as int] == r@[pre.len() as int].deep_view());
                assert(fnext[pre.len() as int] == pv[i as int]);
                assert(r.deep_view() =~= fnext);
            }
        } else {
            proof {
                reveal(Seq::filter);
                assert(pv.take(i + 1).filter(keep_perm(permission@)) == pv.take(i as int).filter(
                    keep_perm(permission@),
                ));
            }
        }
        i += 1;
    }
    proof {
        assert(pv.take(i as int) =~= pv);
    }
    r
}

/// The permission store: which permissions each role holds. Its view is
/// the sequence of role entries, each a role label with its permission
/// list.
pub struct AccessControl {
    permissions: Vec<(String, Vec<String>)>,
}

impl View for AccessControl {
    type V = Seq<(Seq<char>, Seq<Seq<char>>)>;

    closed spec fn view(&self) -> Seq<(Seq<char>, Seq<Seq<char>>)> {
        self.permissions.deep_view()
    }
}

fn find_role_from(perms: &Vec<(String, Vec<String>)>, role: &str, k: usize) -> (o: Option<usize>)
    requires
        k <= perms@.len(),
    ensures
        match o {
            Some(j) => k <= j < perms@.len() && perms@[j as int].0@ == role@ && (forall|t: int|
                k <= t < j ==> perms@[t].0@ != role@) && role_perms(
                perms.deep_view().skip(k as int),
                role@,
            ) == Some(perms@[j as int].1.deep_view()),
            None => (forall|t: int| k <= t < perms@.len() ==> perms@[t].0@ != role@)
                && role_perms(perms.deep_view().skip(k as int), role@) is None,
        },
    decreases perms@.len() - k,
{
    if k == perms.len() {
        proof {
            assert(perms.deep_view().skip(k as int) =~= Seq::<
                (Seq<char>, Seq<Seq<char>>),
            >::empty());
        }
        None
    } else {
        proof {
            assert(perms.deep_view().skip(k as int)[0] == perms.deep_view()[k as int]);
            assert(perms.deep_view()[k as int] == perms@[k as int].deep_view());
            assert(perms.deep_view().skip(k as int).drop_first() =~= perms.deep_view().skip(
                k + 1,
            ));
        }
        if str_eq(perms[k].0.as_str(), role) {
            Some(k)
        } else {
            find_role_from(perms, role, k + 1)
        }
    }
}

impl AccessControl {
    /// A store holding the built-in default roles and their permissions.
    pub fn new() -> (r: Self)
        ensures
            r@ == default_permissions(),
            wf_perms(r@),
    {
        let mut admin: Vec<String> = Vec::new();
        admin.push("script:read".to_owned());
        admin.push("script:write".to_owned());
        admin.push("script:execute".to_owned());
        admin.push("ticket:read".to_owned());
        admin.push("ticket:write".to_owned());
        admin.push("printer:read".to_owned());
        admin.push("printer:manage".to_owned());
        admin.push("user:read".to_owned());
        admin.push("user:write".to_owned());
        let mut tech: Vec<String> = Vec::new();
        tech.push("script:read".to_owned());
        tech.push("script:execute".to_owned());
        tech.push("ticket:read".to_owned());
        tech.push("ticket:write".to_owned());
        tech.push("printer:read".to_owned());
        let mut user: Vec<String> = Vec::new();
        user.push("ticket:read_own".to_owned());
        user.push("ticket:create".to_owned());
        let mut permissions: Vec<(String, Vec<String>)> = Vec::new();
        permissions.push(("admin".to_owned(), admin));
        permissions.push(("technician".to_owned(), tech));
        permissions.push(("user".to_owned(), user));
        let r = AccessControl { permissions };
        proof {
            assert(r@ =~~= default_permissions());
            reveal_strlit("admin");
            reveal_strlit("technician");
            reveal_strlit("user");
            assert(wf_perms(r@)) by {
                assert("admin"@.len() == 5);
                assert("technician"@.len() == 10);
                assert("user"@.len() == 4);
            }
        }
        r
    }

    /// Whether the given role holds the given permission: false for a role
    /// without an entry.
    pub fn check_permission(&self, role: &str, permission: &str) -> (r: bool)
        ensures
            r == match role_perms(self@, role@) {
                Some(ps) => ps.contains(permission@),
                None => false,
            },
    {
        proof {
            assert(self.permissions.deep_view().skip(0) =~= self@);
        }
        match find_role_from(&self.permissions, role, 0) {
            Some(j) => vec_contains_str(&self.permissions[j].1, permission),
            None => false,
        }
    }

    /// Grants one permission: appended to the role's list, or a new entry
    /// when the role had none. Every other role's list is untouched.
    pub fn add_permission(&mut self, role: &str, permission: &str)
        requires
            wf_perms(old(self)@),
        ensures
            wf_perms(final(self)@),
            role_perms(final(self)@, role@) == match role_perms(old(self)@, role@) {
                Some(ps) => Some(ps.push(permission@)),
                None => Some(seq![permission@]),
            },
            forall|r2: Seq<char>|
                r2 != role@ ==> role_perms(final(self)@, r2) == role_perms(old(self)@, r2),
    {
        let ghost pv = self.permissions.deep_view();
        proof {
            assert(self.permissions.deep_view().skip(0) =~= pv);
        }
        match find_role_from(&self.permissions, role, 0) {
            Some(j) => {
                let ghost oldentry = pv[j as int];
                self.permissions[j].1.push(permission.to_owned());
                proof {
                    let e = (oldentry.0, oldentry.1.push(permission@));
                    assert(self.permissions@[j as int].deep_view() =~~= e);
                    assert(self.permissions.deep_view() =~~= pv.update(j as int, e)) by {
                        assert forall|t: int|
                            0 <= t < pv.len() && t != j implies self.permissions.deep_view()[t]
                            == pv[t] by {
                            assert(self.permissions.deep_view()[t] == self.permissions@[
                                t].deep_view());
                        }
                    }
                    assert(forall|t: int| 0 <= t < j ==> pv[t].0 != role@);
                    lemma_role_perms_update_first(pv, j as int, e, role@);
                    assert(wf_perms(self@)) by {
                        assert(forall|t: int|
                            0 <= t < pv.len() ==> self@[t].0 == pv[t].0);
                    }
                }
            },
            None => {
                let entry = (role.to_owned(), vec![permission.to_owned()]);
                let ghost e = (role@, seq![permission@]);
                self.permissions.push(entry);
                proof {
                    assert(self.permissions@[pv.len() as int].deep_view() =~~= e);
                    assert(self.permissions.deep_view() =~~= pv.push(e)) by {
                        assert forall|t: int|
                            0 <= t < pv.len() implies self.permissions.deep_view()[t] == pv[t] by {
                            assert(self.permissions.deep_view()[t] == self.permissions@[
                                t].deep_view());
                        }
                    }
                    lemma_role_perms_push_absent(pv, e, role@);
                    assert(wf_perms(self@)) by {
                        assert(forall|t: int| 0 <= t < pv.len() ==> self@[t].0 == pv[t].0);
                        assert(self@[pv.len() as int].0 == role@);
                    }
                }
            },
        }
    }

    /// Revokes one permission: every occurrence of it leaves the role's
    /// list. A role without an entry is left as it is, and every other
    /// role's list is untouched.
    pub fn remove_permission(&mut self, role: &str, permission: &str)
        requires
            wf_perms(old(self)@),
        ensures
            wf_perms(final(self)@),
            role_perms(final(self)@, role@) == match role_perms(old(self)@, role@) {
                Some(ps) => Some(ps.filter(keep_perm(permission@))),
                None => None,
            },
            forall|r2: Seq<char>|
                r2 != role@ ==> role_perms(final(self)@, r2) == role_perms(old(self)@, r2),
    {
        let ghost pv = self.permissions.deep_view();
        proof {
            assert(self.permissions.deep_view().skip(0) =~= pv);
        }
        match find_role_from(&self.permissions, role, 0) {
            Some(j) => {
                let ghost oldentry = pv[j as int];
                let filtered = retain_perms(&self.permissions[j].1, permission);
                self.permissions[j].1 = filtered;
                proof {
                    let e = (oldentry.0, oldentry.1.filter(keep_perm(permission@)));
                    assert(self.permissions@[j as int].deep_view() =~~= e);
                    assert(self.permissions.deep_view() =~~= pv.update(j as int, e)) by {
                        assert forall|t: int|
                            0 <= t < pv.len() && t != j implies self.permissions.deep_view()[t]
                            == pv[t] by {
                            assert(self.permissions.deep_view()[t] == self.permissions@[
                                t].deep_view());
                        }
                    }
                    assert(forall|t: int| 0 <= t < j ==> pv[t].0 != role@);
                    lemma_role_perms_update_first(pv, j as int, e, role@);
                    assert(wf_perms(self@)) by {
                        assert(forall|t: int|
                            0 <= t < pv.len() ==> self@[t].0 == pv[t].0);
                    }
                }
            },
            None => {},
        }
    }
}

} // verus!
