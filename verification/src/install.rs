//! The decision core of installing compiled code into a canister: which
//! target the options select, and which option combinations are rejected.
//! The surrounding command — identity resolution, reading the module from
//! disk, the calls over the network — stays outside; it hands in the facts
//! the decision needs (whether the name parses as a canister id, whether it
//! is a pull dependency, whether it is remote on the chosen network).

use vstd::prelude::*;

verus! {

/// How the new module should be installed.
#[derive(Clone, Copy, PartialEq, Eq, Structural)]
pub enum InstallModeHint {
    Install,
    Reinstall,
    Upgrade,
    Auto,
}

/// Installs compiled code in a canister.
pub struct CanisterInstallOpts {
    /// The canister to deploy, by name or id; `None` together with `all`
    /// deploys every canister of the project.
    pub canister: Option<String>,
    /// Deploy all canisters configured in the project.
    pub all: bool,
    /// Do not wait for the result of the call; return a request id instead.
    pub async_call: bool,
    /// The requested install mode.
    pub install_mode: InstallModeHint,
    /// Upgrade the canister even if the module did not change.
    pub upgrade_unchanged: bool,
    /// The install argument given on the command line, if any.
    pub argument: Option<String>,
    /// The type of the install argument, if declared.
    pub argument_type: Option<String>,
    /// A particular module file to install, bypassing the project settings.
    pub wasm: Option<String>,
    /// Where to write environment variables in dotenv format, if anywhere.
    pub output_env_file: Option<String>,
    /// Skip yes/no checks by answering yes.
    pub yes: bool,
    /// Skip upgrading the asset canister, installing only the assets.
    pub no_asset_upgrade: bool,
    /// Always use assist when the argument types are all optional.
    pub always_assist: bool,
}

/// The target an accepted option set selects.
pub enum InstallTarget {
    /// Install a given module into the canister with this id.
    ByCanisterId { canister_id: String, wasm: String },
    /// Install into the named project canister.
    ByName { name: String, wasm: Option<String> },
    /// Install every canister configured in the project.
    AllCanisters,
}

/// Why an option set is rejected before any remote work.
pub enum InstallPlanError {
    /// Reinstall destroys the canister's data, so it needs a single
    /// explicit canister.
    ReinstallRequiresSingleCanister,
    /// Installing by canister id needs an explicit module file.
    WasmRequiredForCanisterId,
    /// The canister is a pull dependency and is deployed another way.
    PullDependency { canister: String },
    /// The canister lives on another network and cannot be installed from
    /// here.
    RemoteCanister { canister: String, network: String },
}

pub open spec fn opt_str_view(o: Option<String>) -> Option<Seq<char>> {
    match o {
        Some(s) => Some(s@),
        None => None,
    }
}

/// Decides what an install invocation should do. `canister_is_id` says
/// whether the given canister text parses as a principal; `is_pull` and
/// `is_remote` report what the project configuration says about the named
/// canister; `network` names the network for the rejection message.
pub fn plan_install(
    opts: &CanisterInstallOpts,
    canister_is_id: bool,
    is_pull_dependency: bool,
    is_remote_on_network: bool,
    network: &String,
) -> (r: Result<InstallTarget, InstallPlanError>)
    requires
        opts.canister is Some || opts.all,
    ensures
        ({
            let reinstall_bad = opts.install_mode is Reinstall && (opts.canister is None
                || opts.all);
            &&& reinstall_bad ==> (r matches Err(InstallPlanError::ReinstallRequiresSingleCanister))
            &&& (!reinstall_bad && opts.canister is None) ==> (r matches Ok(
                InstallTarget::AllCanisters,
            ))
            &&& (!reinstall_bad && opts.canister is Some && canister_is_id && opts.wasm
                is None) ==> (r matches Err(InstallPlanError::WasmRequiredForCanisterId))
            &&& (!reinstall_bad && opts.canister is Some && canister_is_id && opts.wasm
                is Some) ==> (r matches Ok(
                InstallTarget::ByCanisterId { canister_id, wasm },
            ) && canister_id@ == opts.canister->Some_0@ && wasm@ == opts.wasm->Some_0@)
            &&& (!reinstall_bad && opts.canister is Some && !canister_is_id
                && is_pull_dependency) ==> (r matches Err(
                InstallPlanError::PullDependency { canister },
            ) && canister@ == opts.canister->Some_0@)
            &&& (!reinstall_bad && opts.canister is Some && !canister_is_id
                && !is_pull_dependency && is_remote_on_network) ==> (r matches Err(
                InstallPlanError::RemoteCanister { canister, network: n },
            ) && canister@ == opts.canister->Some_0@ && n@ == network@)
            &&& (!reinstall_bad && opts.canister is Some && !canister_is_id
                && !is_pull_dependency && !is_remote_on_network) ==> (r matches Ok(
                InstallTarget::ByName { name, wasm },
            ) && name@ == opts.canister->Some_0@ && opt_str_view(wasm) == opt_str_view(opts.wasm))
        }),
{
    if opts.install_mode == InstallModeHint::Reinstall && (opts.canister.is_none() || opts.all) {
        return Err(InstallPlanError::ReinstallRequiresSingleCanister);
    }
    match &opts.canister {
        Some(canister) => {
            if canister_is_id {
                match &opts.wasm {
                    Some(wasm_path) => Ok(
                        InstallTarget::ByCanisterId {
                            canister_id: canister.clone(),
                            wasm: wasm_path.clone(),
                        },
                    ),
                    None => Err(InstallPlanError::WasmRequiredForCanisterId),
                }
            } else if is_pull_dependency {
                Err(InstallPlanError::PullDependency { canister: canister.clone() })
            } else if is_remote_on_network {
                Err(
                    InstallPlanError::RemoteCanister {
                        canister: canister.clone(),
                        network: network.clone(),
                    },
                )
            } else {
                let wasm = match &opts.wasm {
                    Some(w) => Some(w.clone()),
                    None => None,
                };
                Ok(InstallTarget::ByName { name: canister.clone(), wasm })
            }
        },
        None => Ok(InstallTarget::AllCanisters),
    }
}

} // verus!
