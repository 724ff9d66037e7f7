//! Users and groups: the operations that create, change and delete them,
//! each gated by validation of the values it would write.
use vstd::prelude::*;
use vstd::utf8::encode_utf8;
use crate::fingerprint::{hex_of, sha256_of, fingerprint_bytes, push_str_bytes};
use crate::validate::{
    ValidationError, name_valid, id_valid, shell_listed, validate_username, validate_groupname,
    validate_uid, validate_gid, validate_shell,
};

verus! {

/// A declared group; `None` leaves an attribute unmanaged.
#[derive(Clone, Debug)]
pub struct GroupSpec {
    pub gid: Option<u32>,
    pub members: Option<Vec<String>>,
    pub system: Option<bool>,
}

/// A group as observed.
#[derive(Clone, Debug)]
pub struct CurrentGroup {
    pub gid: u32,
    pub members: Vec<String>,
}

/// A declared user; `None` leaves an attribute unmanaged.
#[derive(Clone, Debug)]
pub struct UserSpec {
    pub uid: Option<u32>,
    pub gid: Option<u32>,
    pub groups: Option<Vec<String>>,
    pub home: Option<String>,
    pub shell: Option<String>,
    pub comment: Option<String>,
    pub create_home: Option<bool>,
    pub system: Option<bool>,
}

/// A user as observed.
#[derive(Clone, Debug)]
pub struct CurrentUser {
    pub uid: u32,
    pub gid: u32,
    pub groups: Vec<String>,
    pub home: String,
    pub shell: String,
    pub comment: String,
}

/// One account operation. Those marked tolerant may fail without stopping
/// the run (a member or group may not exist yet).
#[derive(Clone, Debug)]
pub enum AccountOp {
    AddGroup { name: String, gid: Option<u32>, system: bool },
    SetGroupId { name: String, gid: u32 },
    /// Tolerant.
    AddMember { group: String, member: String },
    RemoveMember { group: String, member: String },
    DeleteGroup { name: String },
    AddUser {
        name: String,
        uid: Option<u32>,
        gid: Option<u32>,
        home: Option<String>,
        shell: Option<String>,
        comment: Option<String>,
        create_home: bool,
        system: bool,
    },
    /// Tolerant.
    AppendGroups { name: String, groups: Vec<String> },
    SetUserId { name: String, uid: u32 },
    SetPrimaryGroup { name: String, gid: u32 },
    SetHome { name: String, home: String },
    SetShell { name: String, shell: String },
    SetComment { name: String, comment: String },
    /// Tolerant.
    SetGroups { name: String, groups: Vec<String> },
    DeleteUser { name: String, remove_home: bool },
}

/// The same operation, comparing lists of names by their contents.
pub open spec fn same_op(a: AccountOp, b: AccountOp) -> bool {
    match (a, b) {
        (
            AccountOp::AppendGroups { name: n1, groups: g1 },
            AccountOp::AppendGroups { name: n2, groups: g2 },
        ) => n1 == n2 && g1@ == g2@,
        (
            AccountOp::SetGroups { name: n1, groups: g1 },
            AccountOp::SetGroups { name: n2, groups: g2 },
        ) => n1 == n2 && g1@ == g2@,
        _ => a == b,
    }
}

/// Two lists of the same operations, in the same order.
pub open spec fn ops_agree(a: Seq<AccountOp>, b: Seq<AccountOp>) -> bool {
    a.len() == b.len() && forall|i: int| 0 <= i < a.len() ==> same_op(#[trigger] a[i], b[i])
}

pub open spec fn opt_id_valid(id: Option<u32>) -> bool {
    match id {
        Some(i) => id_valid(i),
        None => true,
    }
}

pub open spec fn in_list(s: Seq<String>, x: Seq<char>) -> bool {
    exists|i: int| 0 <= i < s.len() && #[trigger] s[i]@ == x
}

fn contains_name(s: &Vec<String>, x: &String) -> (r: bool)
    ensures
        r == in_list(s@, x@),
{
    let mut i: usize = 0;
    while i < s.len()
        invariant
            i <= s@.len(),
            forall|j: int| 0 <= j < i ==> #[trigger] s@[j]@ != x@,
        decreases s@.len() - i,
    {
        if s[i] == *x {
            return true;
        }
        i += 1;
    }
    false
}

/// Adding each member, in order.
pub open spec fn member_ops(group: String, members: Seq<String>) -> Seq<AccountOp>
    decreases members.len(),
{
    if members.len() == 0 {
        Seq::empty()
    } else {
        member_ops(group, members.drop_last()) + seq![
            AccountOp::AddMember { group: group, member: members.last() },
        ]
    }
}

/// The operations that create a group.
pub open spec fn create_group_ops(name: String, spec: GroupSpec) -> Seq<AccountOp> {
    seq![
        AccountOp::AddGroup {
            name: name,
            gid: spec.gid,
            system: spec.system == Some(true),
        },
    ] + match spec.members {
        Some(m) => member_ops(name, m@),
        None => Seq::empty(),
    }
}

fn push_member_ops(ops: &mut Vec<AccountOp>, group: &String, members: &Vec<String>)
    ensures
        final(ops)@ == old(ops)@ + member_ops(*group, members@),
{
    let mut i: usize = 0;
    let ghost start = ops@;
    while i < members.len()
        invariant
            i <= members@.len(),
            ops@ == start + member_ops(*group, members@.take(i as int)),
        decreases members@.len() - i,
    {
        proof {
            assert(members@.take(i as int + 1).drop_last() =~= members@.take(i as int));
        }
        ops.push(AccountOp::AddMember { group: group.clone(), member: members[i].clone() });
        proof {
            assert(ops@ =~= start + member_ops(*group, members@.take(i as int + 1)));
        }
        i += 1;
    }
    proof {
        assert(members@.take(members@.len() as int) =~= members@);
    }
}

/// Plans the creation of a group: refused where its name or id is invalid.
pub fn plan_create_group(name: &String, spec: &GroupSpec) -> (r: Result<
    Vec<AccountOp>,
    ValidationError,
>)
    ensures
        r is Ok <==> name_valid(name@) && opt_id_valid(spec.gid),
        r matches Err(e) ==> first_error(
            crate::validate::name_error(name@, crate::validate::regex_matches(crate::validate::name_pattern(), name@)),
            opt_id_error(spec.gid),
        ) == Some(e),
        r matches Ok(ops) ==> ops@ == create_group_ops(*name, *spec),
{
    validate_groupname(name.as_str())?;
    check_opt_id_exact(spec.gid)?;
    let system = match spec.system {
        Some(s) => s,
        None => false,
    };
    let mut ops: Vec<AccountOp> = Vec::new();
    ops.push(AccountOp::AddGroup { name: name.clone(), gid: spec.gid, system });
    match &spec.members {
        Some(m) => push_member_ops(&mut ops, name, m),
        None => {},
    }
    proof {
        assert(ops@ =~= create_group_ops(*name, *spec));
    }
    Ok(ops)
}

pub open spec fn additions(group: String, desired: Seq<String>, current: Seq<String>) -> Seq<AccountOp>
    decreases desired.len(),
{
    if desired.len() == 0 {
        Seq::empty()
    } else {
        additions(group, desired.drop_last(), current) + if in_list(current, desired.last()@) {
            Seq::empty()
        } else {
            seq![AccountOp::AddMember { group: group, member: desired.last() }]
        }
    }
}

pub open spec fn removals(group: String, desired: Seq<String>, current: Seq<String>) -> Seq<AccountOp>
    decreases current.len(),
{
    if current.len() == 0 {
        Seq::empty()
    } else {
        removals(group, desired, current.drop_last()) + if in_list(desired, current.last()@) {
            Seq::empty()
        } else {
            seq![AccountOp::RemoveMember { group: group, member: current.last() }]
        }
    }
}

/// The operations that bring an existing group to its declaration: a new id
/// where one is declared and differs, then the member changes where members
/// are declared.
pub open spec fn modify_group_ops(name: String, current: CurrentGroup, desired: GroupSpec) -> Seq<
    AccountOp,
> {
    (match desired.gid {
        Some(g) => if g != current.gid {
            seq![AccountOp::SetGroupId { name: name, gid: g }]
        } else {
            Seq::empty()
        },
        None => Seq::empty(),
    }) + match desired.members {
        Some(m) => additions(name, m@, current.members@) + removals(name, m@, current.members@),
        None => Seq::empty(),
    }
}

pub open spec fn new_id_valid(desired: Option<u32>, current: u32) -> bool {
    match desired {
        Some(g) => g == current || id_valid(g),
        None => true,
    }
}

/// Why the changes to a group cannot be made: an invalid name, or a new id
/// out of range, in that order.
pub open spec fn modify_group_error(name: String, current: CurrentGroup, desired: GroupSpec) -> Option<
    ValidationError,
> {
    first_error(
        crate::validate::name_error(name@, crate::validate::regex_matches(crate::validate::name_pattern(), name@)),
        opt_id_error(changed_id(desired.gid, current.gid)),
    )
}

/// Plans the changes to an existing group: refused, before any change, where
/// its name or a new id is invalid.
pub fn plan_modify_group(name: &String, current: &CurrentGroup, desired: &GroupSpec) -> (r: Result<
    Vec<AccountOp>,
    ValidationError,
>)
    ensures
        r is Ok <==> name_valid(name@) && new_id_valid(desired.gid, current.gid),
        r matches Err(e) ==> modify_group_error(*name, *current, *desired) == Some(e),
        r matches Ok(ops) ==> ops@ == modify_group_ops(*name, *current, *desired),
{
    validate_groupname(name.as_str())?;
    let mut ops: Vec<AccountOp> = Vec::new();
    match desired.gid {
        Some(g) => if g != current.gid {
            validate_gid(g)?;
            ops.push(AccountOp::SetGroupId { name: name.clone(), gid: g });
        },
        None => {},
    }
    let ghost head = ops@;
    match &desired.members {
        Some(m) => {
            let cur = &current.members;
            let mut i: usize = 0;
            while i < m.len()
                invariant
                    i <= m@.len(),
                    ops@ == head + additions(*name, m@.take(i as int), cur@),
                decreases m@.len() - i,
            {
                proof {
                    assert(m@.take(i as int + 1).drop_last() =~= m@.take(i as int));
                }
                if !contains_name(cur, &m[i]) {
                    ops.push(AccountOp::AddMember { group: name.clone(), member: m[i].clone() });
                }
                proof {
                    assert(ops@ =~= head + additions(*name, m@.take(i as int + 1), cur@));
                }
                i += 1;
            }
            proof {
                assert(m@.take(m@.len() as int) =~= m@);
            }
            let ghost mid = ops@;
            let mut j: usize = 0;
            while j < cur.len()
                invariant
                    j <= cur@.len(),
                    ops@ == mid + removals(*name, m@, cur@.take(j as int)),
                decreases cur@.len() - j,
            {
                proof {
                    assert(cur@.take(j as int + 1).drop_last() =~= cur@.take(j as int));
                }
                if !contains_name(m, &cur[j]) {
                    ops.push(AccountOp::RemoveMember { group: name.clone(), member: cur[j].clone() });
                }
                proof {
                    assert(ops@ =~= mid + removals(*name, m@, cur@.take(j as int + 1)));
                }
                j += 1;
            }
            proof {
                assert(cur@.take(cur@.len() as int) =~= cur@);
                assert(ops@ =~= modify_group_ops(*name, *current, *desired));
            }
        },
        None => {
            proof {
                assert(ops@ =~= modify_group_ops(*name, *current, *desired));
            }
        },
    }
    Ok(ops)
}

/// Plans the deletion of a group: refused where its name is invalid.
pub fn plan_delete_group(name: &String) -> (r: Result<Vec<AccountOp>, ValidationError>)
    ensures
        r is Ok <==> name_valid(name@),
        r matches Err(e) ==> crate::validate::name_error(name@, crate::validate::regex_matches(crate::validate::name_pattern(), name@)) == Some(e),
        r matches Ok(ops) ==> ops@ == seq![AccountOp::DeleteGroup { name: *name }],
{
    validate_groupname(name.as_str())?;
    let ops = vec![AccountOp::DeleteGroup { name: name.clone() }];
    proof {
        assert(ops@ =~= seq![AccountOp::DeleteGroup { name: *name }]);
    }
    Ok(ops)
}

pub open spec fn first_error(a: Option<ValidationError>, b: Option<ValidationError>) -> Option<
    ValidationError,
> {
    if a is Some {
        a
    } else {
        b
    }
}

pub open spec fn opt_id_error(id: Option<u32>) -> Option<ValidationError> {
    match id {
        Some(i) => crate::validate::id_error(i),
        None => None,
    }
}

pub open spec fn opt_shell_error(shell: Option<String>, shells: Seq<String>) -> Option<
    ValidationError,
> {
    match shell {
        Some(s) => if shell_listed(s@, shells) {
            None
        } else {
            Some(ValidationError::ShellNotListed)
        },
        None => None,
    }
}

/// Why a user cannot be created, checked in the order name, user id, group
/// id, shell; `None` where it can.
pub open spec fn create_user_error(name: String, spec: UserSpec, shells: Seq<String>) -> Option<
    ValidationError,
> {
    first_error(
        crate::validate::name_error(
            name@,
            crate::validate::regex_matches(crate::validate::name_pattern(), name@),
        ),
        first_error(
            opt_id_error(spec.uid),
            first_error(opt_id_error(spec.gid), opt_shell_error(spec.shell, shells)),
        ),
    )
}

/// The operations that create a user: the account, then the supplementary
/// groups where a non-empty list is declared. A home directory is created
/// unless declared otherwise.
pub open spec fn create_user_ops(name: String, spec: UserSpec) -> Seq<AccountOp> {
    seq![
        AccountOp::AddUser {
            name: name,
            uid: spec.uid,
            gid: spec.gid,
            home: spec.home,
            shell: spec.shell,
            comment: spec.comment,
            create_home: spec.create_home != Some(false),
            system: spec.system == Some(true),
        },
    ] + match spec.groups {
        Some(g) => if g@.len() > 0 {
            seq![AccountOp::AppendGroups { name: name, groups: g }]
        } else {
            Seq::empty()
        },
        None => Seq::empty(),
    }
}

pub(crate) fn copy_names(v: &Vec<String>) -> (r: Vec<String>)
    ensures
        r@ == v@,
{
    let mut r: Vec<String> = Vec::new();
    let mut i: usize = 0;
    while i < v.len()
        invariant
            i <= v@.len(),
            r@ == v@.take(i as int),
        decreases v@.len() - i,
    {
        r.push(v[i].clone());
        proof {
            assert(r@ =~= v@.take(i as int + 1));
        }
        i += 1;
    }
    proof {
        assert(v@.take(v@.len() as int) =~= v@);
    }
    r
}

fn copy_text(o: &Option<String>) -> (r: Option<String>)
    ensures
        r == *o,
{
    match o {
        Some(s) => Some(s.clone()),
        None => None,
    }
}

fn check_opt_id_exact(id: Option<u32>) -> (r: Result<(), ValidationError>)
    ensures
        r matches Err(e) ==> opt_id_error(id) == Some(e),
        r is Ok <==> opt_id_error(id) is None,
{
    match id {
        Some(i) => validate_uid(i),
        None => Ok(()),
    }
}

/// Plans the creation of a user: refused, with the first failing check,
/// where a value it would write is invalid.
pub fn plan_create_user(name: &String, spec: &UserSpec, shells: &Vec<String>) -> (r: Result<
    Vec<AccountOp>,
    ValidationError,
>)
    ensures
        r matches Err(e) ==> create_user_error(*name, *spec, shells@) == Some(e),
        r is Ok <==> create_user_error(*name, *spec, shells@) is None,
        r matches Ok(ops) ==> ops_agree(ops@, create_user_ops(*name, *spec)),
{
    validate_username(name.as_str())?;
    check_opt_id_exact(spec.uid)?;
    check_opt_id_exact(spec.gid)?;
    match &spec.shell {
        Some(sh) => validate_shell(sh, shells)?,
        None => {},
    }
    let create_home = match spec.create_home {
        Some(c) => c,
        None => true,
    };
    let system = match spec.system {
        Some(s) => s,
        None => false,
    };
    let mut ops: Vec<AccountOp> = Vec::new();
    ops.push(
        AccountOp::AddUser {
            name: name.clone(),
            uid: spec.uid,
            gid: spec.gid,
            home: copy_text(&spec.home),
            shell: copy_text(&spec.shell),
            comment: copy_text(&spec.comment),
            create_home,
            system,
        },
    );
    match &spec.groups {
        Some(g) => if g.len() > 0 {
            ops.push(AccountOp::AppendGroups { name: name.clone(), groups: copy_names(g) });
        },
        None => {},
    }
    proof {
        assert(ops_agree(ops@, create_user_ops(*name, *spec)));
    }
    Ok(ops)
}

/// The same names, in any order and with any repetition.
pub open spec fn same_names(a: Seq<String>, b: Seq<String>) -> bool {
    (forall|i: int| 0 <= i < a.len() ==> in_list(b, #[trigger] a[i]@)) && (forall|i: int|
        0 <= i < b.len() ==> in_list(a, #[trigger] b[i]@))
}

fn all_listed(a: &Vec<String>, b: &Vec<String>) -> (r: bool)
    ensures
        r == (forall|i: int| 0 <= i < a@.len() ==> in_list(b@, #[trigger] a@[i]@)),
{
    let mut i: usize = 0;
    while i < a.len()
        invariant
            i <= a@.len(),
            forall|j: int| 0 <= j < i ==> in_list(b@, #[trigger] a@[j]@),
        decreases a@.len() - i,
    {
        if !contains_name(b, &a[i]) {
            return false;
        }
        i += 1;
    }
    true
}

pub open spec fn changed_id(desired: Option<u32>, current: u32) -> Option<u32> {
    match desired {
        Some(d) => if d != current {
            Some(d)
        } else {
            None
        },
        None => None,
    }
}

pub open spec fn changed_text(desired: Option<String>, current: String) -> Option<String> {
    match desired {
        Some(d) => if d@ != current@ {
            Some(d)
        } else {
            None
        },
        None => None,
    }
}

/// Why the changes to a user cannot be made: an invalid name, a new id out
/// of range or a new shell not listed, in the order name, user id, group id,
/// shell.
pub open spec fn modify_user_error(
    name: String,
    current: CurrentUser,
    desired: UserSpec,
    shells: Seq<String>,
) -> Option<ValidationError> {
    first_error(
        crate::validate::name_error(name@, crate::validate::regex_matches(crate::validate::name_pattern(), name@)),
        first_error(
            opt_id_error(changed_id(desired.uid, current.uid)),
            first_error(
                opt_id_error(changed_id(desired.gid, current.gid)),
                opt_shell_error(changed_text(desired.shell, current.shell), shells),
            ),
        ),
    )
}

pub open spec fn one_if<T>(o: Option<T>, f: spec_fn(T) -> AccountOp) -> Seq<AccountOp> {
    match o {
        Some(x) => seq![f(x)],
        None => Seq::empty(),
    }
}

/// The operations that bring an existing user to its declaration, one per
/// declared attribute that differs; supplementary groups are replaced when
/// they differ as sets.
pub open spec fn modify_user_ops(name: String, current: CurrentUser, desired: UserSpec) -> Seq<
    AccountOp,
> {
    one_if(changed_id(desired.uid, current.uid), |u: u32| AccountOp::SetUserId { name: name, uid: u })
        + one_if(
        changed_id(desired.gid, current.gid),
        |g: u32| AccountOp::SetPrimaryGroup { name: name, gid: g },
    ) + one_if(
        changed_text(desired.home, current.home),
        |h: String| AccountOp::SetHome { name: name, home: h },
    ) + one_if(
        changed_text(desired.shell, current.shell),
        |s: String| AccountOp::SetShell { name: name, shell: s },
    ) + one_if(
        changed_text(desired.comment, current.comment),
        |c: String| AccountOp::SetComment { name: name, comment: c },
    ) + match desired.groups {
        Some(g) => if same_names(g@, current.groups@) {
            Seq::empty()
        } else {
            seq![AccountOp::SetGroups { name: name, groups: g }]
        },
        None => Seq::empty(),
    }
}

fn changed_text_exec(desired: &Option<String>, current: &String) -> (r: Option<String>)
    ensures
        r == changed_text(*desired, *current),
{
    match desired {
        Some(d) => if *d == *current {
            None
        } else {
            Some(d.clone())
        },
        None => None,
    }
}

/// Plans the changes to an existing user: refused, with the first failing
/// check, before any change where a new value is invalid.
#[verifier::rlimit(40)]
pub fn plan_modify_user(
    name: &String,
    current: &CurrentUser,
    desired: &UserSpec,
    shells: &Vec<String>,
) -> (r: Result<Vec<AccountOp>, ValidationError>)
    ensures
        r matches Err(e) ==> modify_user_error(*name, *current, *desired, shells@) == Some(e),
        r is Ok <==> modify_user_error(*name, *current, *desired, shells@) is None,
        r matches Ok(ops) ==> ops_agree(ops@, modify_user_ops(*name, *current, *desired)),
{
    validate_username(name.as_str())?;
    let new_uid = match desired.uid {
        Some(u) => if u != current.uid {
            Some(u)
        } else {
            None
        },
        None => None,
    };
    let new_gid = match desired.gid {
        Some(g) => if g != current.gid {
            Some(g)
        } else {
            None
        },
        None => None,
    };
    let new_home = changed_text_exec(&desired.home, &current.home);
    let new_shell = changed_text_exec(&desired.shell, &current.shell);
    let new_comment = changed_text_exec(&desired.comment, &current.comment);
    check_opt_id_exact(new_uid)?;
    check_opt_id_exact(new_gid)?;
    match &new_shell {
        Some(sh) => validate_shell(sh, shells)?,
        None => {},
    }
    let mut ops: Vec<AccountOp> = Vec::new();
    match new_uid {
        Some(u) => ops.push(AccountOp::SetUserId { name: name.clone(), uid: u }),
        None => {},
    }
    match new_gid {
        Some(g) => ops.push(AccountOp::SetPrimaryGroup { name: name.clone(), gid: g }),
        None => {},
    }
    match new_home {
        Some(h) => ops.push(AccountOp::SetHome { name: name.clone(), home: h }),
        None => {},
    }
    match new_shell {
        Some(s) => ops.push(AccountOp::SetShell { name: name.clone(), shell: s }),
        None => {},
    }
    match new_comment {
        Some(c) => ops.push(AccountOp::SetComment { name: name.clone(), comment: c }),
        None => {},
    }
    match &desired.groups {
        Some(g) => if !(all_listed(g, &current.groups) && all_listed(&current.groups, g)) {
            ops.push(AccountOp::SetGroups { name: name.clone(), groups: copy_names(g) });
        },
        None => {},
    }
    proof {
        assert(ops_agree(ops@, modify_user_ops(*name, *current, *desired)));
    }
    Ok(ops)
}

/// Plans the deletion of a user, with or without its home directory:
/// refused where its name is invalid.
pub fn plan_delete_user(name: &String, remove_home: bool) -> (r: Result<
    Vec<AccountOp>,
    ValidationError,
>)
    ensures
        r is Ok <==> name_valid(name@),
        r matches Err(e) ==> crate::validate::name_error(name@, crate::validate::regex_matches(crate::validate::name_pattern(), name@)) == Some(e),
        r matches Ok(ops) ==> ops@ == seq![
            AccountOp::DeleteUser { name: *name, remove_home: remove_home },
        ],
{
    validate_username(name.as_str())?;
    let ops = vec![AccountOp::DeleteUser { name: name.clone(), remove_home }];
    proof {
        assert(ops@ =~= seq![AccountOp::DeleteUser { name: *name, remove_home: remove_home }]);
    }
    Ok(ops)
}

pub open spec fn id_bytes(x: u32) -> Seq<u8> {
    seq![(x % 256) as u8, ((x / 256) % 256) as u8, ((x / 65536) % 256) as u8, (x / 16777216) as u8]
}

pub open spec fn enc_id(x: Option<u32>) -> Seq<u8> {
    match x {
        Some(v) => seq![1u8] + id_bytes(v),
        None => seq![0u8],
    }
}

pub open spec fn enc_flag(x: Option<bool>) -> Seq<u8> {
    match x {
        Some(true) => seq![1u8, 1u8],
        Some(false) => seq![1u8, 0u8],
        None => seq![0u8],
    }
}

pub open spec fn enc_text(x: Option<String>) -> Seq<u8> {
    match x {
        Some(t) => seq![1u8] + encode_utf8(t@) + seq![0u8],
        None => seq![0u8],
    }
}

pub open spec fn enc_name_list(ns: Seq<String>) -> Seq<u8>
    decreases ns.len(),
{
    if ns.len() == 0 {
        Seq::empty()
    } else {
        enc_name_list(ns.drop_last()) + encode_utf8(ns.last()@) + seq![0u8]
    }
}

pub open spec fn enc_names(x: Option<Vec<String>>) -> Seq<u8> {
    match x {
        Some(ns) => seq![1u8] + enc_name_list(ns@),
        None => seq![0u8],
    }
}

/// What a group's fingerprint covers: each managed attribute, with absent
/// ones marked as such.
pub open spec fn group_preimage(g: GroupSpec) -> Seq<u8> {
    enc_id(g.gid) + enc_names(g.members) + enc_flag(g.system)
}

/// What a user's fingerprint covers.
pub open spec fn user_preimage(u: UserSpec) -> Seq<u8> {
    enc_id(u.uid) + enc_id(u.gid) + enc_names(u.groups) + enc_text(u.home) + enc_text(u.shell)
        + enc_text(u.comment) + enc_flag(u.create_home) + enc_flag(u.system)
}

fn push_id(v: &mut Vec<u8>, x: Option<u32>)
    ensures
        final(v)@ == old(v)@ + enc_id(x),
{
    match x {
        Some(n) => {
            v.push(1u8);
            v.push((n % 256) as u8);
            v.push(((n / 256) % 256) as u8);
            v.push(((n / 65536) % 256) as u8);
            v.push((n / 16777216) as u8);
        },
        None => v.push(0u8),
    }
    proof {
        assert(final(v)@ =~= old(v)@ + enc_id(x));
    }
}

fn push_flag(v: &mut Vec<u8>, x: Option<bool>)
    ensures
        final(v)@ == old(v)@ + enc_flag(x),
{
    match x {
        Some(b) => {
            v.push(1u8);
            v.push(if b { 1u8 } else { 0u8 });
        },
        None => v.push(0u8),
    }
    proof {
        assert(final(v)@ =~= old(v)@ + enc_flag(x));
    }
}

fn push_text(v: &mut Vec<u8>, x: &Option<String>)
    ensures
        final(v)@ == old(v)@ + enc_text(*x),
{
    match x {
        Some(t) => {
            v.push(1u8);
            push_str_bytes(v, t.as_str());
            v.push(0u8);
        },
        None => v.push(0u8),
    }
    proof {
        assert(final(v)@ =~= old(v)@ + enc_text(*x));
    }
}

fn push_names(v: &mut Vec<u8>, x: &Option<Vec<String>>)
    ensures
        final(v)@ == old(v)@ + enc_names(*x),
{
    match x {
        Some(ns) => {
            v.push(1u8);
            let ghost start = v@;
            let mut i: usize = 0;
            while i < ns.len()
                invariant
                    i <= ns@.len(),
                    v@ == start + enc_name_list(ns@.take(i as int)),
                decreases ns@.len() - i,
            {
                proof {
                    assert(ns@.take(i as int + 1).drop_last() =~= ns@.take(i as int));
                }
                push_str_bytes(v, ns[i].as_str());
                v.push(0u8);
                proof {
                    assert(v@ =~= start + enc_name_list(ns@.take(i as int + 1)));
                }
                i += 1;
            }
            proof {
                assert(ns@.take(ns@.len() as int) =~= ns@);
            }
        },
        None => v.push(0u8),
    }
    proof {
        assert(final(v)@ =~= old(v)@ + enc_names(*x));
    }
}

/// The fingerprint of a declared group.
pub fn group_fingerprint(g: &GroupSpec) -> (r: String)
    ensures
        r@ == hex_of(sha256_of(group_preimage(*g))),
{
    let mut data: Vec<u8> = Vec::new();
    push_id(&mut data, g.gid);
    push_names(&mut data, &g.members);
    push_flag(&mut data, g.system);
    proof {
        assert(data@ =~= group_preimage(*g));
    }
    fingerprint_bytes(data.as_slice())
}

/// The fingerprint of a declared user.
pub fn user_fingerprint(u: &UserSpec) -> (r: String)
    ensures
        r@ == hex_of(sha256_of(user_preimage(*u))),
{
    let mut data: Vec<u8> = Vec::new();
    push_id(&mut data, u.uid);
    push_id(&mut data, u.gid);
    push_names(&mut data, &u.groups);
    push_text(&mut data, &u.home);
    push_text(&mut data, &u.shell);
    push_text(&mut data, &u.comment);
    push_flag(&mut data, u.create_home);
    push_flag(&mut data, u.system);
    proof {
        assert(data@ =~= user_preimage(*u));
    }
    fingerprint_bytes(data.as_slice())
}

/// Whether an existing group differs from its declaration on a managed
/// attribute: exactly when there are changes to make.
pub fn group_differs(current: &CurrentGroup, desired: &GroupSpec) -> (r: bool)
    ensures
        r == (changed_id(desired.gid, current.gid) is Some || (desired.members matches Some(m)
            && !same_names(m@, current.members@))),
{
    let gid_differs = match desired.gid {
        Some(g) => g != current.gid,
        None => false,
    };
    let members_differ = match &desired.members {
        Some(m) => !(all_listed(m, &current.members) && all_listed(&current.members, m)),
        None => false,
    };
    gid_differs || members_differ
}

/// Whether an existing user differs from its declaration on a managed
/// attribute.
pub open spec fn user_drift(current: CurrentUser, desired: UserSpec) -> bool {
    changed_id(desired.uid, current.uid) is Some || changed_id(desired.gid, current.gid) is Some
        || changed_text(desired.home, current.home) is Some || changed_text(
        desired.shell,
        current.shell,
    ) is Some || changed_text(desired.comment, current.comment) is Some || (desired.groups matches Some(
        g,
    ) && !same_names(g@, current.groups@))
}

/// Whether an existing user differs from its declaration on a managed
/// attribute: exactly when there are changes to make.
pub fn user_differs(current: &CurrentUser, desired: &UserSpec) -> (r: bool)
    ensures
        r == user_drift(*current, *desired),
        forall|name: String| r <==> #[trigger] modify_user_ops(name, *current, *desired).len() > 0,
{
    let uid_differs = match desired.uid {
        Some(u) => u != current.uid,
        None => false,
    };
    let gid_differs = match desired.gid {
        Some(g) => g != current.gid,
        None => false,
    };
    let home_differs = changed_text_exec(&desired.home, &current.home).is_some();
    let shell_differs = changed_text_exec(&desired.shell, &current.shell).is_some();
    let comment_differs = changed_text_exec(&desired.comment, &current.comment).is_some();
    let groups_differ = match &desired.groups {
        Some(g) => !(all_listed(g, &current.groups) && all_listed(&current.groups, g)),
        None => false,
    };
    uid_differs || gid_differs || home_differs || shell_differs || comment_differs || groups_differ
}

} // verus!
