//! The driver: the nine fixups in their fixed, load-bearing order, stopping
//! at the first failure.

use vstd::prelude::*;

use crate::error::FixupError;
use crate::fixup_delete::{apply_create_delete_optional, apply_remove_delete,
    apply_remove_delete_collection, can_create_delete_optional, can_remove_delete,
    can_remove_delete_collection, create_delete_optional,
    remove_delete_collection_operations_query_parameters,
    remove_delete_operations_query_parameters};
use crate::fixup_list::{apply_list, can_list, list};
use crate::fixup_patch::{apply_create_patch_optional, apply_patch, can_create_patch_optional,
    can_patch, create_patch_optional, patch};
use crate::fixup_responses::{apply_response_types, can_response_types, response_types};
use crate::fixup_watch::{apply_separate, apply_watch_event, can_separate, can_watch_event,
    separate_watch_from_list_operations, watch_event};
use crate::ir::ApiSpec;
use crate::model::ApiSpecView;

verus! {

/// The result of the whole pipeline on a model spec: the normalized model
/// when every pass succeeds, in the fixed order, and nothing otherwise.
pub open spec fn pipeline_result(s: ApiSpecView) -> Option<ApiSpecView> {
    if !can_create_delete_optional(s) {
        None
    } else {
        let s1 = apply_create_delete_optional(s);
        if !can_create_patch_optional(s1) {
            None
        } else {
            let s2 = apply_create_patch_optional(s1);
            if !can_patch(s2) {
                None
            } else {
                let s3 = apply_patch(s2);
                if !can_remove_delete_collection(s3) {
                    None
                } else {
                    let s4 = apply_remove_delete_collection(s3);
                    if !can_remove_delete(s4) {
                        None
                    } else {
                        let s5 = apply_remove_delete(s4);
                        if !can_separate(s5) {
                            None
                        } else {
                            let s6 = apply_separate(s5);
                            if !can_watch_event(s6) {
                                None
                            } else {
                                let s7 = apply_watch_event(s6);
                                if !can_list(s7) {
                                    None
                                } else {
                                    let s8 = apply_list(s7);
                                    if !can_response_types(s8) {
                                        None
                                    } else {
                                        Some(apply_response_types(s8))
                                    }
                                }
                            }
                        }
                    }
                }
            }
        }
    }
}

/// Run the nine fixups in order, stopping at the first failure and handing
/// its message back.  On success the spec holds exactly the normalized
/// model that `pipeline_result` describes.
pub fn run_fixups(s: &mut ApiSpec) -> (r: Result<(), FixupError>)
    ensures
        r is Ok <==> pipeline_result(old(s)@) is Some,
        r is Ok ==> Some(final(s)@) == pipeline_result(old(s)@),
{
    match create_delete_optional(s) {
        Ok(_) => {},
        Err(e) => {
            return Err(e);
        },
    }
    match create_patch_optional(s) {
        Ok(_) => {},
        Err(e) => {
            return Err(e);
        },
    }
    match patch(s) {
        Ok(_) => {},
        Err(e) => {
            return Err(e);
        },
    }
    match remove_delete_collection_operations_query_parameters(s) {
        Ok(_) => {},
        Err(e) => {
            return Err(e);
        },
    }
    match remove_delete_operations_query_parameters(s) {
        Ok(_) => {},
        Err(e) => {
            return Err(e);
        },
    }
    match separate_watch_from_list_operations(s) {
        Ok(_) => {},
        Err(e) => {
            return Err(e);
        },
    }
    match watch_event(s) {
        Ok(_) => {},
        Err(e) => {
            return Err(e);
        },
    }
    match list(s) {
        Ok(_) => {},
        Err(e) => {
            return Err(e);
        },
    }
    match response_types(s) {
        Ok(_) => {},
        Err(e) => {
            return Err(e);
        },
    }
    Ok(())
}

/// Law: the pipeline is deterministic.  Feeding two equal fresh input specs
/// through all nine fixups yields identical normalized results — every pass
/// is a function of the model of its input alone.
pub proof fn lemma_pipeline_deterministic(a: ApiSpecView, b: ApiSpecView)
    requires
        a == b,
    ensures
        pipeline_result(a) == pipeline_result(b),
{
}

} // verus!
