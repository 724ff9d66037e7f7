//! What carrying out one resolved action takes, per domain: the external
//! operations, the descriptor written back on adoption, and the fingerprint
//! to record once the operations succeeded.
use vstd::prelude::*;
use crate::accounts::{
    AccountOp, CurrentGroup, CurrentUser, GroupSpec, UserSpec, copy_names, create_group_ops,
    create_user_error, create_user_ops, group_fingerprint, group_preimage, modify_group_error,
    modify_group_ops, modify_user_error, modify_user_ops, ops_agree, plan_create_group,
    plan_create_user, plan_delete_group, plan_delete_user, plan_modify_group, plan_modify_user,
    user_fingerprint, user_preimage,
};
use crate::engine::{Action, Entry, observed_entry};
use crate::fingerprint::{hex_of, sha256_of};
use crate::packages::{presence_fingerprint, presence_fp};
use crate::services::{
    CurrentService, ServiceOp, ServiceState, adopted_state, differs, needs_change, service_ops,
    service_ops_of, state_fingerprint, state_preimage,
};
use crate::validate::{ValidationError, name_error, name_pattern, regex_matches};

verus! {

/// The operations for one account action, what adoption writes into the
/// configuration, and the fingerprint to record after the operations
/// succeeded (`None`: the store is left as it is).
pub struct AccountStep<S> {
    pub ops: Vec<AccountOp>,
    pub adopt: Option<S>,
    pub record: Option<String>,
}

/// A group as the configuration would declare it, from what is observed.
pub open spec fn group_as_observed(c: CurrentGroup, g: GroupSpec) -> bool {
    g.gid == Some(c.gid) && (g.members matches Some(m) && m@ == c.members@) && g.system is None
}

/// A user as the configuration would declare it, from what is observed.
pub open spec fn user_as_observed(c: CurrentUser, u: UserSpec) -> bool {
    &&& u.uid == Some(c.uid) && u.gid == Some(c.gid)
    &&& u.groups matches Some(g) && g@ == c.groups@
    &&& u.home == Some(c.home) && u.shell == Some(c.shell) && u.comment == Some(c.comment)
    &&& u.create_home is None && u.system is None
}

pub fn observed_group(c: &CurrentGroup) -> (g: GroupSpec)
    ensures
        group_as_observed(*c, g),
{
    GroupSpec { gid: Some(c.gid), members: Some(copy_names(&c.members)), system: None }
}

pub fn observed_user(c: &CurrentUser) -> (u: UserSpec)
    ensures
        user_as_observed(*c, u),
{
    UserSpec {
        uid: Some(c.uid),
        gid: Some(c.gid),
        groups: Some(copy_names(&c.groups)),
        home: Some(c.home.clone()),
        shell: Some(c.shell.clone()),
        comment: Some(c.comment.clone()),
        create_home: None,
        system: None,
    }
}

fn nothing<S>() -> (r: AccountStep<S>)
    ensures
        r.ops@.len() == 0,
        r.adopt is None,
        r.record is None,
{
    AccountStep { ops: Vec::new(), adopt: None, record: None }
}

/// The step records exactly `f`.
pub open spec fn recorded_as(o: Option<String>, f: Seq<char>) -> bool {
    o matches Some(x) && x@ == f
}

/// The step adopts the observed group and records its fingerprint.
pub open spec fn adopts_group(r: Result<AccountStep<GroupSpec>, ValidationError>, c: CurrentGroup) -> bool {
    match r {
        Ok(st) => match st.adopt {
            Some(g) => st.ops@.len() == 0 && group_as_observed(c, g) && recorded_as(
                st.record,
                hex_of(sha256_of(group_preimage(g))),
            ),
            None => false,
        },
        Err(_) => false,
    }
}

/// The step adopts the observed user and records its fingerprint.
pub open spec fn adopts_user(r: Result<AccountStep<UserSpec>, ValidationError>, c: CurrentUser) -> bool {
    match r {
        Ok(st) => match st.adopt {
            Some(u) => st.ops@.len() == 0 && user_as_observed(c, u) && recorded_as(
                st.record,
                hex_of(sha256_of(user_preimage(u))),
            ),
            None => false,
        },
        Err(_) => false,
    }
}

pub open spec fn name_err(name: String) -> Option<ValidationError> {
    name_error(name@, regex_matches(name_pattern(), name@))
}

/// The step for a resolved group action. Creation and change need the
/// declaration (and change the observed group); deletion of a group that is
/// already gone only forgets its record; adoption needs the observed group.
pub fn group_step(
    action: Action,
    key: &String,
    declared: Option<&GroupSpec>,
    current: Option<&CurrentGroup>,
) -> (r: Result<AccountStep<GroupSpec>, ValidationError>)
    ensures
        action == Action::Create && declared is Some ==> ({
            let s = *declared.unwrap();
            &&& r is Ok <==> crate::accounts::first_error(
                name_err(*key),
                crate::accounts::opt_id_error(s.gid),
            ) is None
            &&& r matches Err(e) ==> crate::accounts::first_error(
                name_err(*key),
                crate::accounts::opt_id_error(s.gid),
            ) == Some(e)
            &&& r matches Ok(st) ==> (st.ops@ == create_group_ops(*key, s) && st.adopt is None
                && recorded_as(st.record, hex_of(sha256_of(group_preimage(s)))))
        }),
        (action == Action::Update || action == Action::Recreate) && declared is Some && current is Some
            ==> ({
            let s = *declared.unwrap();
            let c = *current.unwrap();
            &&& r matches Err(e) ==> modify_group_error(*key, c, s) == Some(e)
            &&& r is Ok <==> modify_group_error(*key, c, s) is None
            &&& r matches Ok(st) ==> (st.ops@ == modify_group_ops(*key, c, s) && st.adopt is None
                && recorded_as(st.record, hex_of(sha256_of(group_preimage(s)))))
        }),
        action == Action::Delete && current is Some ==> ({
            &&& r matches Err(e) ==> name_err(*key) == Some(e)
            &&& r is Ok <==> name_err(*key) is None
            &&& r matches Ok(st) ==> (st.ops@ == seq![AccountOp::DeleteGroup { name: *key }]
                && st.adopt is None && st.record is Some)
        }),
        action == Action::Delete && current is None ==> (r matches Ok(st) && st.ops@.len() == 0
            && st.adopt is None && st.record is Some),
        action == Action::AdoptIntoConfig && current is Some ==> adopts_group(r, *current.unwrap()),
        action == Action::Skip || (action == Action::AdoptIntoConfig && current is None) || ((
        action == Action::Create || action == Action::Update || action == Action::Recreate)
            && declared is None) || ((action == Action::Update || action == Action::Recreate)
            && current is None) ==> (r matches Ok(st) && st.ops@.len() == 0 && st.adopt is None
            && st.record is None),
{
    match action {
        Action::Create => match declared {
            Some(s) => {
                let ops = plan_create_group(key, s)?;
                Ok(AccountStep { ops, adopt: None, record: Some(group_fingerprint(s)) })
            },
            None => Ok(nothing()),
        },
        Action::Update | Action::Recreate => match (declared, current) {
            (Some(s), Some(c)) => {
                let ops = plan_modify_group(key, c, s)?;
                Ok(AccountStep { ops, adopt: None, record: Some(group_fingerprint(s)) })
            },
            _ => Ok(nothing()),
        },
        Action::Delete => match current {
            Some(_) => {
                let ops = plan_delete_group(key)?;
                Ok(AccountStep { ops, adopt: None, record: Some(String::new()) })
            },
            None => Ok(AccountStep { ops: Vec::new(), adopt: None, record: Some(String::new()) }),
        },
        Action::AdoptIntoConfig => match current {
            Some(c) => {
                let g = observed_group(c);
                let f = group_fingerprint(&g);
                Ok(AccountStep { ops: Vec::new(), adopt: Some(g), record: Some(f) })
            },
            None => Ok(nothing()),
        },
        Action::Skip => Ok(nothing()),
    }
}

/// The step for a resolved user action, as for groups; deletion removes the
/// home directory where `remove_home` says so.
pub fn user_step(
    action: Action,
    key: &String,
    declared: Option<&UserSpec>,
    current: Option<&CurrentUser>,
    shells: &Vec<String>,
    remove_home: bool,
) -> (r: Result<AccountStep<UserSpec>, ValidationError>)
    ensures
        action == Action::Create && declared is Some ==> ({
            let s = *declared.unwrap();
            &&& r matches Err(e) ==> create_user_error(*key, s, shells@) == Some(e)
            &&& r is Ok <==> create_user_error(*key, s, shells@) is None
            &&& r matches Ok(st) ==> (ops_agree(st.ops@, create_user_ops(*key, s)) && st.adopt is None
                && recorded_as(st.record, hex_of(sha256_of(user_preimage(s)))))
        }),
        (action == Action::Update || action == Action::Recreate) && declared is Some && current is Some
            ==> ({
            let s = *declared.unwrap();
            let c = *current.unwrap();
            &&& r matches Err(e) ==> modify_user_error(*key, c, s, shells@) == Some(e)
            &&& r is Ok <==> modify_user_error(*key, c, s, shells@) is None
            &&& r matches Ok(st) ==> (ops_agree(st.ops@, modify_user_ops(*key, c, s)) && st.adopt
                is None && recorded_as(st.record, hex_of(sha256_of(user_preimage(s)))))
        }),
        action == Action::Delete && current is Some ==> ({
            &&& r matches Err(e) ==> name_err(*key) == Some(e)
            &&& r is Ok <==> name_err(*key) is None
            &&& r matches Ok(st) ==> (st.ops@ == seq![
                AccountOp::DeleteUser { name: *key, remove_home: remove_home },
            ] && st.adopt is None && st.record is Some)
        }),
        action == Action::Delete && current is None ==> (r matches Ok(st) && st.ops@.len() == 0
            && st.adopt is None && st.record is Some),
        action == Action::AdoptIntoConfig && current is Some ==> adopts_user(r, *current.unwrap()),
        action == Action::Skip || (action == Action::AdoptIntoConfig && current is None) || ((
        action == Action::Create || action == Action::Update || action == Action::Recreate)
            && declared is None) || ((action == Action::Update || action == Action::Recreate)
            && current is None) ==> (r matches Ok(st) && st.ops@.len() == 0 && st.adopt is None
            && st.record is None),
{
    match action {
        Action::Create => match declared {
            Some(s) => {
                let ops = plan_create_user(key, s, shells)?;
                Ok(AccountStep { ops, adopt: None, record: Some(user_fingerprint(s)) })
            },
            None => Ok(nothing()),
        },
        Action::Update | Action::Recreate => match (declared, current) {
            (Some(s), Some(c)) => {
                let ops = plan_modify_user(key, c, s, shells)?;
                Ok(AccountStep { ops, adopt: None, record: Some(user_fingerprint(s)) })
            },
            _ => Ok(nothing()),
        },
        Action::Delete => match current {
            Some(_) => {
                let ops = plan_delete_user(key, remove_home)?;
                Ok(AccountStep { ops, adopt: None, record: Some(String::new()) })
            },
            None => Ok(AccountStep { ops: Vec::new(), adopt: None, record: Some(String::new()) }),
        },
        Action::AdoptIntoConfig => match current {
            Some(c) => {
                let u = observed_user(c);
                let f = user_fingerprint(&u);
                Ok(AccountStep { ops: Vec::new(), adopt: Some(u), record: Some(f) })
            },
            None => Ok(nothing()),
        },
        Action::Skip => Ok(nothing()),
    }
}

/// The observed entry of a service. Where the service is declared it carries
/// the declared fingerprint exactly when the service is in its declared
/// state; elsewhere the fingerprint of its observed state.
pub fn service_entry(key: &String, desired: Option<ServiceState>, current: CurrentService) -> (r: Entry)
    ensures
        r.key@ == key@,
        desired matches Some(d) ==> ((r.fingerprint@ == hex_of(
            sha256_of(state_preimage(d.enabled, d.started)),
        )) <==> !differs(d, current)),
        desired is None ==> r.fingerprint@ == hex_of(
            sha256_of(state_preimage(current.enabled, current.active)),
        ),
{
    match desired {
        Some(d) => {
            let fp = state_fingerprint(d.enabled, d.started);
            observed_entry(key, &fp, !needs_change(d, current))
        },
        None => Entry { key: key.clone(), fingerprint: state_fingerprint(current.enabled, current.active) },
    }
}

/// An existing group differs from its declaration on a managed attribute.
pub open spec fn group_drift(c: CurrentGroup, s: GroupSpec) -> bool {
    crate::accounts::changed_id(s.gid, c.gid) is Some || (s.members matches Some(m)
        && !crate::accounts::same_names(m@, c.members@))
}

/// The observed entry of a group: where it is declared, the declared
/// fingerprint exactly when the group agrees with its declaration; elsewhere
/// the fingerprint of the group as observed.
pub fn group_entry(key: &String, declared: Option<&GroupSpec>, current: &CurrentGroup) -> (r: Entry)
    ensures
        r.key@ == key@,
        declared matches Some(s) ==> ((r.fingerprint@ == hex_of(sha256_of(group_preimage(*s))))
            <==> !group_drift(*current, *s)),
        declared is None ==> exists|g: GroupSpec|
            group_as_observed(*current, g) && r.fingerprint@ == hex_of(sha256_of(group_preimage(g))),
{
    match declared {
        Some(s) => {
            let fp = group_fingerprint(s);
            observed_entry(key, &fp, !crate::accounts::group_differs(current, s))
        },
        None => {
            let g = observed_group(current);
            Entry { key: key.clone(), fingerprint: group_fingerprint(&g) }
        },
    }
}

/// The observed entry of a user, as for groups.
pub fn user_entry(key: &String, declared: Option<&UserSpec>, current: &CurrentUser) -> (r: Entry)
    ensures
        r.key@ == key@,
        declared matches Some(s) ==> ((r.fingerprint@ == hex_of(sha256_of(user_preimage(*s))))
            <==> !crate::accounts::user_drift(*current, *s)),
        declared is None ==> exists|u: UserSpec|
            user_as_observed(*current, u) && r.fingerprint@ == hex_of(sha256_of(user_preimage(u))),
{
    match declared {
        Some(s) => {
            let fp = user_fingerprint(s);
            observed_entry(key, &fp, !crate::accounts::user_differs(current, s))
        },
        None => {
            let u = observed_user(current);
            Entry { key: key.clone(), fingerprint: user_fingerprint(&u) }
        },
    }
}

/// The operations for one service action, what adoption writes into the
/// configuration, and the fingerprint to record after they succeeded.
pub struct ServiceStep {
    pub ops: Vec<ServiceOp>,
    pub adopt: Option<ServiceState>,
    pub record: Option<String>,
}

/// The step for a resolved service action. A declared service that does not
/// exist cannot be created: nothing is done or recorded. Deleting stops and
/// disables an existing service and forgets its record.
pub fn service_step(action: Action, desired: Option<ServiceState>, current: Option<CurrentService>) -> (r:
    ServiceStep)
    ensures
        (action == Action::Update || action == Action::Recreate) && desired is Some ==> ({
            let d = desired.unwrap();
            &&& r.ops@ == (match current {
                Some(c) => service_ops_of(d, c),
                None => Seq::empty(),
            })
            &&& r.adopt is None
            &&& recorded_as(r.record, hex_of(sha256_of(state_preimage(d.enabled, d.started))))
        }),
        action == Action::AdoptIntoConfig && current is Some ==> ({
            let c = current.unwrap();
            &&& r.ops@.len() == 0
            &&& r.adopt == Some(ServiceState { enabled: c.enabled, started: c.active })
            &&& recorded_as(r.record, hex_of(sha256_of(state_preimage(c.enabled, c.active))))
        }),
        action == Action::Delete ==> r.adopt is None && r.record is Some && r.ops@ == (if current matches Some(
            c,
        ) && c.exists {
            seq![ServiceOp::Disable, ServiceOp::Stop]
        } else {
            Seq::empty()
        }),
        action == Action::Skip || action == Action::Create || (action == Action::AdoptIntoConfig
            && current is None) || ((action == Action::Update || action == Action::Recreate)
            && desired is None) ==> r.ops@.len() == 0 && r.adopt is None && r.record is None,
{
    match action {
        Action::Update | Action::Recreate => match desired {
            Some(d) => {
                let ops = match current {
                    Some(c) => service_ops(d, c),
                    None => Vec::new(),
                };
                ServiceStep { ops, adopt: None, record: Some(state_fingerprint(d.enabled, d.started)) }
            },
            None => ServiceStep { ops: Vec::new(), adopt: None, record: None },
        },
        Action::AdoptIntoConfig => match current {
            Some(c) => ServiceStep {
                ops: Vec::new(),
                adopt: Some(adopted_state(c)),
                record: Some(state_fingerprint(c.enabled, c.active)),
            },
            None => ServiceStep { ops: Vec::new(), adopt: None, record: None },
        },
        Action::Delete => {
            let ops = match current {
                Some(c) => if c.exists {
                    vec![ServiceOp::Disable, ServiceOp::Stop]
                } else {
                    Vec::new()
                },
                None => Vec::new(),
            };
            ServiceStep { ops, adopt: None, record: Some(String::new()) }
        },
        _ => ServiceStep { ops: Vec::new(), adopt: None, record: None },
    }
}

/// One operation on a package manager.
#[derive(Clone, Copy, Debug, PartialEq, Eq, Structural)]
pub enum PackageOp {
    Install,
    Remove,
}

/// The step for a resolved package action.
pub struct PackageStep {
    pub op: Option<PackageOp>,
    /// Add the package to the configuration.
    pub adopt: bool,
    pub record: Option<String>,
}

/// The step for a resolved package action: install what is missing, remove
/// what is to be deleted, add what is adopted; every action but `Skip`
/// records the package's presence fingerprint.
pub fn package_step(action: Action, key: &String) -> (r: PackageStep)
    ensures
        r.op == (match action {
            Action::Create => Some(PackageOp::Install),
            Action::Delete => Some(PackageOp::Remove),
            _ => None,
        }),
        r.adopt == (action == Action::AdoptIntoConfig),
        action == Action::Skip ==> r.record is None,
        action != Action::Skip ==> recorded_as(r.record, presence_fp(key@)),
{
    if action == Action::Skip {
        return PackageStep { op: None, adopt: false, record: None };
    }
    let op = match action {
        Action::Create => Some(PackageOp::Install),
        Action::Delete => Some(PackageOp::Remove),
        _ => None,
    };
    PackageStep {
        op,
        adopt: action == Action::AdoptIntoConfig,
        record: Some(presence_fingerprint(key.as_str())),
    }
}

} // verus!
