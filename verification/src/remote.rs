//! Folds the per-key responses of the remote state fetch into one snapshot.
//! A "not found" response is not an error: it records the asset as absent.
//! Any other failed read aborts the run, since partial remote state cannot
//! be safely diffed against.

use vstd::prelude::*;
use crate::model::{remote_views, RemoteAssetState, RemoteAssetStateV};
use crate::sync::{GetAssetPropertiesError, UploadContentError};

verus! {

/// What the remote store answered to one get-properties call.
pub enum PropertiesResponse {
    Found { state: RemoteAssetState },
    NotFound { key: String },
    Failed { key: String, message: String },
}

pub enum PropertiesResponseV {
    Found { state: RemoteAssetStateV },
    NotFound { key: Seq<char> },
    Failed { key: Seq<char>, message: Seq<char> },
}

impl View for PropertiesResponse {
    type V = PropertiesResponseV;

    open spec fn view(&self) -> PropertiesResponseV {
        match self {
            PropertiesResponse::Found { state } => PropertiesResponseV::Found { state: state@ },
            PropertiesResponse::NotFound { key } => PropertiesResponseV::NotFound { key: key@ },
            PropertiesResponse::Failed { key, message } => PropertiesResponseV::Failed {
                key: key@,
                message: message@,
            },
        }
    }
}

pub open spec fn response_views(s: Seq<PropertiesResponse>) -> Seq<PropertiesResponseV> {
    s.map_values(|r: PropertiesResponse| r@)
}

/// The remote snapshot entries of the found assets, in response order.
pub open spec fn found_states(rs: Seq<PropertiesResponseV>) -> Seq<RemoteAssetStateV>
    decreases rs.len(),
{
    if rs.len() == 0 {
        Seq::empty()
    } else {
        (match rs[0] {
            PropertiesResponseV::Found { state } => seq![state],
            _ => Seq::empty(),
        }) + found_states(rs.drop_first())
    }
}

pub open spec fn has_failed_response(rs: Seq<PropertiesResponseV>) -> bool {
    exists|i: int| 0 <= i < rs.len() && (#[trigger] rs[i]) is Failed
}

/// Folds the fetch responses into the remote snapshot: succeeds exactly
/// when no read failed, keeping the found assets in order and dropping the
/// absent ones; any failed read surfaces as `GetAssetPropertiesFailed`.
pub fn collect_remote_state(responses: Vec<PropertiesResponse>) -> (r: Result<
    Vec<RemoteAssetState>,
    UploadContentError,
>)
    ensures
        r is Ok <==> !has_failed_response(response_views(responses@)),
        r matches Ok(v) ==> remote_views(v@) == found_states(response_views(responses@)),
        r matches Err(e) ==> (e matches UploadContentError::GetAssetPropertiesFailed(
            GetAssetPropertiesError::GetPropertiesFailed { key, message },
        ) && (exists|i: int|
            0 <= i < responses@.len() && ((#[trigger] response_views(responses@)[i])
                matches PropertiesResponseV::Failed { key: k, message: m } && k == key@ && m
                == message@))),
    decreases responses@.len(),
{
    let mut rs = responses;
    if rs.len() == 0 {
        proof {
            assert(remote_views(Seq::<RemoteAssetState>::empty()) =~= found_states(
                response_views(responses@),
            ));
        }
        return Ok(Vec::new());
    }
    proof {
        assert(response_views(responses@).drop_first() =~= response_views(responses@.drop_first()));
        assert(responses@.drop_first() =~= responses@.skip(1));
    }
    let first = rs.remove(0);
    proof {
        assert(rs@ =~= responses@.drop_first());
    }
    match first {
        PropertiesResponse::Failed { key, message } => {
            proof {
                assert(response_views(responses@)[0] matches PropertiesResponseV::Failed {
                    key: k,
                    ..
                } && k == key@);
            }
            Err(
                UploadContentError::GetAssetPropertiesFailed(
                    GetAssetPropertiesError::GetPropertiesFailed { key, message },
                ),
            )
        },
        PropertiesResponse::Found { state } => {
            match collect_remote_state(rs) {
                Ok(mut rest) => {
                    let ghost tail = rest@;
                    rest.insert(0, state);
                    proof {
                        assert(rest@.drop_first() =~= tail);
                        assert(remote_views(rest@) =~= found_states(response_views(responses@)));
                        assert forall|i: int|
                            0 <= i < response_views(responses@).len() implies !((
                        #[trigger] response_views(responses@)[i]) is Failed) by {
                            if i > 0 {
                                assert(response_views(responses@)[i] == response_views(
                                    responses@.drop_first(),
                                )[i - 1]);
                            }
                        }
                    }
                    Ok(rest)
                },
                Err(e) => {
                    proof {
                        let rv = response_views(responses@);
                        let rd = response_views(responses@.drop_first());
                        let i = choose|i: int|
                            0 <= i < rd.len() && ((#[trigger] rd[i])
                                matches PropertiesResponseV::Failed { key: k, message: m } && k
                                == err_key(e)@ && m == err_message(e)@);
                        assert(rv[i + 1] == rd[i]);
                    }
                    Err(e)
                },
            }
        },
        PropertiesResponse::NotFound { key: _ } => {
            match collect_remote_state(rs) {
                Ok(rest) => {
                    proof {
                        assert(remote_views(rest@) =~= found_states(response_views(responses@)));
                        assert forall|i: int|
                            0 <= i < response_views(responses@).len() implies !((
                        #[trigger] response_views(responses@)[i]) is Failed) by {
                            if i > 0 {
                                assert(response_views(responses@)[i] == response_views(
                                    responses@.drop_first(),
                                )[i - 1]);
                            }
                        }
                    }
                    Ok(rest)
                },
                Err(e) => {
                    proof {
                        let rv = response_views(responses@);
                        let rd = response_views(responses@.drop_first());
                        let i = choose|i: int|
                            0 <= i < rd.len() && ((#[trigger] rd[i])
                                matches PropertiesResponseV::Failed { key: k, message: m } && k
                                == err_key(e)@ && m == err_message(e)@);
                        assert(rv[i + 1] == rd[i]);
                    }
                    Err(e)
                },
            }
        },
    }
}

/// The key a failed read reported, for stating where an error came from.
pub open spec fn err_key(e: UploadContentError) -> String {
    match e {
        UploadContentError::GetAssetPropertiesFailed(
            GetAssetPropertiesError::GetPropertiesFailed { key, .. },
        ) => key,
        _ => arbitrary(),
    }
}

pub open spec fn err_message(e: UploadContentError) -> String {
    match e {
        UploadContentError::GetAssetPropertiesFailed(
            GetAssetPropertiesError::GetPropertiesFailed { message, .. },
        ) => message,
        _ => arbitrary(),
    }
}

} // verus!
