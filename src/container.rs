//! Containers: fingerprint, classification with the command-line overrides,
//! and the operations that carry out an action.
use vstd::prelude::*;
use vstd::utf8::encode_utf8;
use crate::engine::{Action, Verdict, overridden, verdict_of, apply_overrides, classify, view_opt};
use crate::fingerprint::{hex_of, sha256_of, fingerprint_bytes, push_str_bytes};
use crate::store::{StateStore, after_outcome, records_action};
use crate::text::{replace_all, replaced};

verus! {

/// A declared container.
#[derive(Clone, Debug)]
pub struct ContainerSpec {
    pub name: String,
    pub image: String,
    pub raw_flags: Option<String>,
    pub start_after_creation: bool,
    pub autostart: Option<bool>,
}

pub open spec fn flags_text(c: ContainerSpec) -> Seq<char> {
    match c.raw_flags {
        Some(f) => f@,
        None => Seq::empty(),
    }
}

pub open spec fn wants_autostart(c: ContainerSpec) -> bool {
    c.autostart == Some(true)
}

/// What a container's fingerprint covers: name, image, flags and both
/// start settings.
pub open spec fn container_preimage(c: ContainerSpec) -> Seq<u8> {
    encode_utf8(c.name@) + encode_utf8(c.image@) + encode_utf8(flags_text(c)) + seq![
        if c.start_after_creation { 1u8 } else { 0u8 },
    ] + seq![if wants_autostart(c) { 1u8 } else { 0u8 }]
}

/// Whether the container is to be supervised by the service manager.
pub fn autostart_enabled(c: &ContainerSpec) -> (r: bool)
    ensures
        r == wants_autostart(*c),
{
    match c.autostart {
        Some(a) => a,
        None => false,
    }
}

/// The container's fingerprint.
pub fn container_fingerprint(c: &ContainerSpec) -> (r: String)
    ensures
        r@ == hex_of(sha256_of(container_preimage(*c))),
{
    let mut data: Vec<u8> = Vec::new();
    push_str_bytes(&mut data, c.name.as_str());
    push_str_bytes(&mut data, c.image.as_str());
    match &c.raw_flags {
        Some(f) => push_str_bytes(&mut data, f.as_str()),
        None => {},
    }
    data.push(if c.start_after_creation { 1u8 } else { 0u8 });
    data.push(if autostart_enabled(c) { 1u8 } else { 0u8 });
    proof {
        assert(data@ =~= container_preimage(*c));
    }
    fingerprint_bytes(data.as_slice())
}

/// The verdict for a declared container. What runs cannot be compared with
/// the declaration, so an existing container counts as matching it, and only
/// its record tells whether the declaration changed. A change recreates it.
pub open spec fn container_verdict_of(
    fingerprint: Seq<char>,
    exists: bool,
    prior: Option<Seq<char>>,
    force_recreate: bool,
    no_recreate: bool,
) -> Verdict {
    overridden(
        verdict_of(Some(fingerprint), if exists { Some(fingerprint) } else { None }, prior, false),
        force_recreate,
        no_recreate,
    )
}

/// Classifies a declared container, given whether one of its name exists
/// and the fingerprint recorded for it.
pub fn container_verdict(
    c: &ContainerSpec,
    exists: bool,
    prior: Option<&String>,
    force_recreate: bool,
    no_recreate: bool,
) -> (r: Verdict)
    ensures
        r == container_verdict_of(
            hex_of(sha256_of(container_preimage(*c))),
            exists,
            view_opt(prior),
            force_recreate,
            no_recreate,
        ),
{
    let fp = container_fingerprint(c);
    let v = classify(Some(&fp), if exists { Some(&fp) } else { None }, prior, false);
    apply_overrides(v, force_recreate, no_recreate)
}

/// One operation on the container engine.
#[derive(Clone, Copy, Debug, PartialEq, Eq, Structural)]
pub enum ContainerOp {
    /// Remove the container by force.
    Remove,
    /// Create the container, starting it at once or not.
    Create { start: bool },
}

/// Whether a new container is started at once: only where it asks to be and
/// is not left to the service manager.
pub open spec fn starts_at_once(c: ContainerSpec) -> bool {
    c.start_after_creation && !wants_autostart(c)
}

/// Both immediate start and autostart are asked for; autostart wins.
pub fn start_conflict(c: &ContainerSpec) -> (r: bool)
    ensures
        r == (c.start_after_creation && wants_autostart(*c)),
{
    c.start_after_creation && autostart_enabled(c)
}

/// The operations that carry out an action, in order.
pub open spec fn container_ops_of(c: ContainerSpec, action: Action) -> Seq<ContainerOp> {
    match action {
        Action::Create => seq![ContainerOp::Create { start: starts_at_once(c) }],
        Action::Update | Action::Recreate => seq![
            ContainerOp::Remove,
            ContainerOp::Create { start: starts_at_once(c) },
        ],
        Action::Delete => seq![ContainerOp::Remove],
        _ => Seq::empty(),
    }
}

/// The operations for an action on a container. After the last one succeeds
/// the caller records the container's fingerprint.
pub fn container_ops(c: &ContainerSpec, action: Action) -> (r: Vec<ContainerOp>)
    ensures
        r@ == container_ops_of(*c, action),
{
    let start = c.start_after_creation && !autostart_enabled(c);
    match action {
        Action::Create => vec![ContainerOp::Create { start }],
        Action::Update | Action::Recreate => vec![ContainerOp::Remove, ContainerOp::Create { start }],
        Action::Delete => vec![ContainerOp::Remove],
        _ => Vec::new(),
    }
}

pub open spec fn home_marker() -> Seq<char> {
    seq!['$', 'H', 'O', 'M', 'E']
}

pub(crate) fn home_marker_str() -> (r: &'static str)
    ensures
        r@ == home_marker(),
{
    proof {
        reveal_strlit("$HOME");
    }
    "$HOME"
}

/// The shell command that creates the container (and starts it when asked),
/// with `$HOME` in its flags replaced by the home directory.
pub open spec fn create_command_of(c: ContainerSpec, home: Seq<char>, start: bool) -> Seq<char> {
    (if start {
        "podman run -d --name="@
    } else {
        "podman create --name="@
    }) + c.name@ + " --label managed-by=fedoraforge"@ + match c.raw_flags {
        Some(f) => " "@ + replaced(f@, home_marker(), home),
        None => Seq::empty(),
    } + " "@ + c.image@
}

/// Builds the command of [`create_command_of`].
pub fn create_command(c: &ContainerSpec, home: &str, start: bool) -> (r: String)
    ensures
        r@ == create_command_of(*c, home@, start),
{
    let mut cmd = if start {
        String::from_str("podman run -d --name=")
    } else {
        String::from_str("podman create --name=")
    };
    cmd.append(c.name.as_str());
    cmd.append(" --label managed-by=fedoraforge");
    match &c.raw_flags {
        Some(f) => {
            cmd.append(" ");
            let expanded = replace_all(f.as_str(), home_marker_str(), home);
            cmd.append(expanded.as_str());
        },
        None => {},
    }
    cmd.append(" ");
    cmd.append(c.image.as_str());
    cmd
}

/// Brings the store up to date once `completed` of the action's operations
/// have succeeded: the fingerprint is recorded only when all of them have,
/// that is after the create.
pub fn record_container_action(
    store: &mut StateStore,
    c: &ContainerSpec,
    action: Action,
    completed: usize,
    now: u64,
)
    requires
        old(store).wf(),
    ensures
        final(store).wf(),
        completed == container_ops_of(*c, action).len() ==> final(store).view() == after_outcome(
            old(store).view(),
            c.name@,
            action,
            hex_of(sha256_of(container_preimage(*c))),
        ),
        completed == container_ops_of(*c, action).len() && records_action(action)
            ==> final(store).stamped(c.name@, now),
        completed != container_ops_of(*c, action).len() ==> final(store).view() == old(
            store,
        ).view(),
{
    let ops = container_ops(c, action);
    if completed == ops.len() {
        let fp = container_fingerprint(c);
        store.record_outcome(&c.name, action, &fp, now);
    }
}

} // verus!
