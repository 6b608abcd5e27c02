//! What the coordinator hands to the host when it asks for a new shard.

use crate::identity::{identity_views, principal_parse, Identity};
use vstd::prelude::*;

verus! {

/// An unbounded natural number of `candid`, carried through unread.
#[verifier::external_type_specification]
#[verifier::external_body]
pub struct ExNat(candid::Nat);

/// The cycles that a new shard is given.
pub const CREATE_CYCLES: u64 = 100_000_000_000;

/// The greeting that a new shard is installed with.
pub open spec fn greeting() -> Seq<char> {
    "Hello from Index"@
}

/// The textual identity of the operator who controls every shard beside the
/// coordinator, for the case that somebody has to step in by hand.
pub open spec fn operator_text() -> Seq<char> {
    "l6s27-7ndcl-nowe5-xeyf7-ymdnq-dkemz-jkhfw-zr5wu-jvf2p-aupzq-2qe"@
}

/// The host's answer to the creation of an instance.
#[derive(Debug)]
pub struct CanisterIdRecord {
    pub canister_id: Identity,
}

/// How the host is to set up a new instance.
#[derive(Debug)]
pub struct CreateCanisterSettings {
    pub controllers: Option<Vec<Identity>>,
    pub compute_allocation: Option<candid::Nat>,
    pub memory_allocation: Option<candid::Nat>,
    pub freezing_threshold: Option<candid::Nat>,
}

/// A request to create an instance, and the cycles to pay for it.
#[derive(Debug)]
pub struct CreateCanisterArgs {
    pub cycles: u64,
    pub settings: CreateCanisterSettings,
}

/// What a new shard is told when the coordinator's program is installed in
/// it.
#[derive(Debug)]
pub struct CanisterInstallSendArgs {
    pub greet: String,
    pub controllers: Vec<Identity>,
}

/// Whether `args` asks for an instance that `controller` and `operator`
/// control, with the host's defaults for everything else.
pub open spec fn creates_for(args: CreateCanisterArgs, controller: Seq<u8>, operator: Seq<u8>) -> bool {
    &&& args.cycles == CREATE_CYCLES
    &&& args.settings.controllers matches Some(controllers)
    &&& identity_views(controllers@) == seq![controller, operator]
    &&& args.settings.compute_allocation.is_none()
    &&& args.settings.memory_allocation.is_none()
    &&& args.settings.freezing_threshold.is_none()
}

/// Whether `args` greets a new shard and names `operator` as its further
/// controller.
pub open spec fn installs_for(args: CanisterInstallSendArgs, operator: Seq<u8>) -> bool {
    &&& args.greet@ == greeting()
    &&& identity_views(args.controllers@) == seq![operator]
}

/// The operator's identity, if its text is well-formed.
pub fn operator() -> (id: Option<Identity>)
    ensures
        id.is_some() == principal_parse(operator_text()).is_some(),
        id matches Some(operator) ==> operator@ == principal_parse(operator_text()).unwrap(),
{
    Identity::from_text("l6s27-7ndcl-nowe5-xeyf7-ymdnq-dkemz-jkhfw-zr5wu-jvf2p-aupzq-2qe")
}

/// The request for an instance that `controller_id` and `operator` control.
pub fn create_args_for(controller_id: Identity, operator: Identity) -> (args: CreateCanisterArgs)
    ensures
        creates_for(args, controller_id@, operator@),
{
    let mut controllers: Vec<Identity> = Vec::new();
    controllers.push(controller_id);
    controllers.push(operator);
    assert(identity_views(controllers@) =~= seq![controller_id@, operator@]);
    CreateCanisterArgs {
        cycles: CREATE_CYCLES,
        settings: CreateCanisterSettings {
            controllers: Some(controllers),
            compute_allocation: None,
            memory_allocation: None,
            freezing_threshold: None,
        },
    }
}

/// The request for an instance that the coordinator, running as
/// `controller_id`, and the operator control; `None` where the operator's
/// text is not well-formed.
pub fn prep_canister_create(controller_id: Identity) -> (args: Option<CreateCanisterArgs>)
    ensures
        args.is_some() == principal_parse(operator_text()).is_some(),
        args matches Some(request) ==> creates_for(
            request,
            controller_id@,
            principal_parse(operator_text()).unwrap(),
        ),
{
    match operator() {
        Some(operator) => Some(create_args_for(controller_id, operator)),
        None => None,
    }
}

/// What a new shard is told, with `operator` as its further controller.
pub fn install_args_for(operator: Identity) -> (args: CanisterInstallSendArgs)
    ensures
        installs_for(args, operator@),
{
    let mut controllers: Vec<Identity> = Vec::new();
    controllers.push(operator);
    assert(identity_views(controllers@) =~= seq![operator@]);
    CanisterInstallSendArgs { greet: "Hello from Index".to_owned(), controllers }
}

} // verus!
