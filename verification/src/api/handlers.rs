//! What the boundary does with a request once its values are read: the
//! steps between the request and the services.

use vstd::prelude::*;

use crate::api::dto::{parse_role, CreateMessageRequest, MessageResponse};
use crate::api::error::{shows_error, ApiError};
use crate::db::error::{depth_exceeded, DbError};
use crate::domain::branch::Branch;
use crate::domain::message::{child_message, role_of_text, role_text, MessageRole, MessageView};
use crate::domain::timestamp::Timestamp;
use crate::repositories::branch_repo::{
    branch_at, has_branch, leaf_moved, moved_leaf, BranchRepository,
};
use crate::repositories::lineage_repo::{has_key, message_at, LineageRepository};
use crate::services::conversation_laws::lemma_first_index;
use crate::services::branch_service::BranchService;
use crate::services::conversation_service::{append_refusal, ConversationService};
use crate::utils::uuid_utils::new_uuid;

verus! {

/// What storing the message of a request under the id `message_id` at
/// `created_at` does to the tree store and to the branch directory, and
/// what it answers.
///
/// The role is read first: an unknown name is a bad request and nothing is
/// stored. Then the message is appended; a refusal is shown to the client
/// and nothing is stored. Where the request names a branch, the branch is
/// then moved to the new message. The two writes are not one transaction:
/// where the branch is not stored the request fails with `NotFound`, and the
/// appended message stays.
pub open spec fn message_created(
    store: Seq<MessageView>,
    store_after: Seq<MessageView>,
    branches: Seq<Branch>,
    branches_after: Seq<Branch>,
    leaf_index: Map<u128, (u128, u128)>,
    leaf_index_after: Map<u128, (u128, u128)>,
    conversation_id: u128,
    payload: CreateMessageRequest,
    message_id: u128,
    created_at: Timestamp,
    max_depth: usize,
    result: Result<MessageResponse, ApiError>,
) -> bool {
    match role_of_text(payload.role@) {
        None => result matches Err(ApiError::BadRequest(words)) && words@ == "Invalid role: "@
            + payload.role@ && store_after == store && branches_after == branches
            && leaf_index_after == leaf_index,
        Some(role) => match append_refusal(
            store,
            conversation_id,
            payload.parent_message_id,
            message_id,
            max_depth,
        ) {
            Some(refusal) => result matches Err(shown) && shows_error(shown, refusal)
                && store_after == store && branches_after == branches && leaf_index_after
                == leaf_index,
            None => {
                let appended = child_message(
                    message_at(store, conversation_id, payload.parent_message_id),
                    message_id,
                    role,
                    payload.content@,
                    payload.content_metadata@,
                    payload.created_by,
                    created_at,
                );
                &&& store_after == store.push(appended)
                &&& match payload.branch_id {
                    None => branches_after == branches && leaf_index_after == leaf_index
                        && result is Ok,
                    Some(branch_id) => if has_branch(branches, conversation_id, branch_id) {
                        &&& result is Ok
                        &&& leaf_index_after == moved_leaf(
                            leaf_index,
                            branch_at(branches, conversation_id, branch_id).leaf_message_id,
                            message_id,
                            conversation_id,
                            branch_id,
                        )
                        &&& leaf_moved(
                            branches,
                            branches_after,
                            conversation_id,
                            branch_id,
                            message_id,
                        )
                    } else {
                        &&& result matches Err(shown) && shows_error(shown, DbError::NotFound)
                        &&& branches_after == branches
                        &&& leaf_index_after == leaf_index
                    },
                }
                &&& result matches Ok(response) ==> shows_appended(response, appended)
            },
        },
    }
}

/// Whether a response shows the message that was appended: the same in
/// every field, the role by its name, and the depth counted out.
pub open spec fn shows_appended(response: MessageResponse, appended: MessageView) -> bool {
    &&& response.conversation_id == appended.conversation_id
    &&& response.message_id == appended.message_id
    &&& response.parent_message_id == appended.parent_message_id
    &&& response.role@ == role_text(appended.role)
    &&& response.content@ == appended.content
    &&& response.content_metadata@ == appended.content_metadata
    &&& response.lineage@ == appended.lineage
    &&& response.depth == appended.depth()
    &&& response.created_at == appended.created_at
    &&& response.created_by == appended.created_by
}

/// Appends the message of a request under a fresh random id, now, and lets
/// the branch that the request names follow it. What is stored and answered
/// is what `message_created` says of the id and the time that were drawn;
/// on success they are those of the response.
#[verifier::rlimit(40)]
pub fn create_message(
    conversation_service: &ConversationService,
    branch_service: &BranchService,
    lineage_repo: &mut LineageRepository,
    branch_repo: &mut BranchRepository,
    conversation_id: u128,
    payload: CreateMessageRequest,
) -> (result: Result<MessageResponse, ApiError>)
    ensures
        exists|message_id: u128, created_at: Timestamp| #[trigger]
            message_created(
                old(lineage_repo)@,
                final(lineage_repo)@,
                old(branch_repo).branches(),
                final(branch_repo).branches(),
                old(branch_repo).leaf_index(),
                final(branch_repo).leaf_index(),
                conversation_id,
                payload,
                message_id,
                created_at,
                conversation_service.config().max_lineage_depth,
                result,
            ),
        result matches Ok(response) ==> message_created(
            old(lineage_repo)@,
            final(lineage_repo)@,
            old(branch_repo).branches(),
            final(branch_repo).branches(),
            old(branch_repo).leaf_index(),
            final(branch_repo).leaf_index(),
            conversation_id,
            payload,
            response.message_id,
            response.created_at,
            conversation_service.config().max_lineage_depth,
            result,
        ),
        role_of_text(payload.role@) is None ==> (result matches Err(ApiError::BadRequest(words))
            && words@ == "Invalid role: "@ + payload.role@),
        role_of_text(payload.role@) is Some && !has_key(
            old(lineage_repo)@,
            conversation_id,
            payload.parent_message_id,
        ) ==> (result matches Err(shown) && shows_error(shown, DbError::NotFound)),
        role_of_text(payload.role@) is Some && has_key(
            old(lineage_repo)@,
            conversation_id,
            payload.parent_message_id,
        ) && message_at(old(lineage_repo)@, conversation_id, payload.parent_message_id).depth()
            + 1 > conversation_service.config().max_lineage_depth ==> (result matches Err(shown)
            && shows_error(
            shown,
            depth_exceeded(
                message_at(
                    old(lineage_repo)@,
                    conversation_id,
                    payload.parent_message_id,
                ).depth() + 1,
                conversation_service.config().max_lineage_depth,
            ),
        )),
        result is Err ==> final(branch_repo).branches() == old(branch_repo).branches() && final(
            branch_repo).leaf_index() == old(branch_repo).leaf_index() && old(
            lineage_repo)@.is_prefix_of(final(lineage_repo)@),
        old(lineage_repo).well_formed() ==> final(lineage_repo).well_formed(),
        old(branch_repo).well_formed() ==> final(branch_repo).well_formed(),
{
    let message_id = new_uuid();
    let now = Timestamp::now();
    let ghost request = payload;
    let result = create_message_with(
        conversation_service,
        branch_service,
        lineage_repo,
        branch_repo,
        conversation_id,
        payload,
        message_id,
        now,
    );
    proof {
        assert(message_created(
            old(lineage_repo)@,
            lineage_repo@,
            old(branch_repo).branches(),
            branch_repo.branches(),
            old(branch_repo).leaf_index(),
            branch_repo.leaf_index(),
            conversation_id,
            request,
            message_id,
            now,
            conversation_service.config().max_lineage_depth,
            result,
        ));
    }
    result
}

/// Appends the message of a request under the id `message_id` at
/// `created_at`, and lets the branch that the request names follow it, as
/// `message_created` says.
pub fn create_message_with(
    conversation_service: &ConversationService,
    branch_service: &BranchService,
    lineage_repo: &mut LineageRepository,
    branch_repo: &mut BranchRepository,
    conversation_id: u128,
    payload: CreateMessageRequest,
    message_id: u128,
    created_at: Timestamp,
) -> (result: Result<MessageResponse, ApiError>)
    ensures
        message_created(
            old(lineage_repo)@,
            final(lineage_repo)@,
            old(branch_repo).branches(),
            final(branch_repo).branches(),
            old(branch_repo).leaf_index(),
            final(branch_repo).leaf_index(),
            conversation_id,
            payload,
            message_id,
            created_at,
            conversation_service.config().max_lineage_depth,
            result,
        ),
        old(lineage_repo).well_formed() ==> final(lineage_repo).well_formed(),
        old(branch_repo).well_formed() ==> final(branch_repo).well_formed(),
{
    let role = match parse_role(payload.role.as_str()) {
        Ok(role) => role,
        Err(words) => {
            return Err(ApiError::BadRequest(words));
        },
    };
    proof {
        lemma_role_name_is_unique(payload.role@, role);
        let store = lineage_repo@;
        if has_key(store, conversation_id, payload.parent_message_id) {
            let w = choose|w: int|
                0 <= w < store.len() && (#[trigger] store[w]).conversation_id == conversation_id
                    && store[w].message_id == payload.parent_message_id;
            lemma_first_index(store, conversation_id, payload.parent_message_id, w);
        }
    }
    let message = match conversation_service.append_message_with(
        lineage_repo,
        conversation_id,
        payload.parent_message_id,
        role,
        payload.content,
        payload.content_metadata,
        payload.created_by,
        message_id,
        created_at,
    ) {
        Ok(message) => message,
        Err(e) => {
            return Err(ApiError::from(e));
        },
    };
    if let Some(branch_id) = payload.branch_id {
        match branch_service.extend_branch_with_message(
            branch_repo,
            conversation_id,
            branch_id,
            message.message_id,
        ) {
            Ok(()) => {},
            Err(e) => {
                return Err(ApiError::from(e));
            },
        }
    }
    Ok(MessageResponse::from(message))
}

/// A name that is read as a role is the stored name of that role.
pub proof fn lemma_role_name_is_unique(name: Seq<char>, role: MessageRole)
    requires
        role_of_text(name) == Some(role),
    ensures
        name == role_text(role),
{
}

} // verus!
