use aigc_history::db::DbError;
use aigc_history::domain::{Permission, Share, Timestamp};
use aigc_history::repositories::ShareRepository;
use aigc_history::services::share_service::decide_permission;
use aigc_history::services::ShareService;

fn at(seconds: i64) -> Timestamp {
    Timestamp { seconds, nanoseconds: 0 }
}

#[test]
fn a_user_without_a_share_is_denied() {
    let shares = ShareRepository::new();
    let service = ShareService::new();
    assert_eq!(service.check_permission(&shares, 1, "ann", Permission::Read), Ok(false));
    assert_eq!(service.get_share(&shares, 1, "ann"), Err(DbError::NotFound));
}

#[test]
fn a_tier_allows_itself_and_everything_below() {
    let mut shares = ShareRepository::new();
    let service = ShareService::new();
    let granted = service
        .share_conversation_at(&mut shares, 1, "ann".to_string(), Permission::Branch, "bob".to_string(), at(1))
        .unwrap();
    assert_eq!(
        granted,
        Share {
            conversation_id: 1,
            shared_with: "ann".to_string(),
            permission: Permission::Branch,
            shared_at: at(1),
            shared_by: "bob".to_string(),
        }
    );
    assert_eq!(service.check_permission(&shares, 1, "ann", Permission::Read), Ok(true));
    assert_eq!(service.check_permission(&shares, 1, "ann", Permission::Branch), Ok(true));
    assert_eq!(service.check_permission(&shares, 1, "ann", Permission::Fork), Ok(false));
    assert_eq!(service.check_permission(&shares, 2, "ann", Permission::Read), Ok(false));
    assert_eq!(service.check_permission(&shares, 1, "bob", Permission::Read), Ok(false));
    assert_eq!(service.get_share(&shares, 1, "ann"), Ok(granted));
}

#[test]
fn granting_again_replaces_the_share() {
    let mut shares = ShareRepository::new();
    let service = ShareService::new();
    service.share_conversation(&mut shares, 1, "ann".to_string(), Permission::Read, "bob".to_string()).unwrap();
    service.share_conversation(&mut shares, 1, "cy".to_string(), Permission::Read, "bob".to_string()).unwrap();
    service.share_conversation(&mut shares, 1, "ann".to_string(), Permission::Fork, "bob".to_string()).unwrap();
    let all = service.get_conversation_shares(&shares, 1).unwrap();
    assert_eq!(all.len(), 2);
    assert_eq!(all[0].shared_with, "ann");
    assert_eq!(all[0].permission, Permission::Fork);
    assert_eq!(all[1].shared_with, "cy");
    assert_eq!(service.check_permission(&shares, 1, "ann", Permission::Fork), Ok(true));
    assert_eq!(service.get_conversation_shares(&shares, 2).unwrap().len(), 0);
}

#[test]
fn revoking_a_share_denies_again() {
    let mut shares = ShareRepository::new();
    let service = ShareService::new();
    service.share_conversation(&mut shares, 1, "ann".to_string(), Permission::Fork, "bob".to_string()).unwrap();
    assert_eq!(service.revoke_share(&mut shares, 1, "ann"), Ok(()));
    assert_eq!(service.check_permission(&shares, 1, "ann", Permission::Read), Ok(false));
    assert_eq!(service.revoke_share(&mut shares, 1, "ann"), Ok(()));
}

#[test]
fn the_decision_hands_storage_faults_on() {
    let share = Share {
        conversation_id: 1,
        shared_with: "ann".to_string(),
        permission: Permission::Read,
        shared_at: at(1),
        shared_by: "bob".to_string(),
    };
    assert_eq!(decide_permission(Ok(share.clone()), Permission::Read), Ok(true));
    assert_eq!(decide_permission(Ok(share), Permission::Branch), Ok(false));
    assert_eq!(decide_permission(Err(DbError::NotFound), Permission::Read), Ok(false));
    assert_eq!(
        decide_permission(Err(DbError::QueryError("down".to_string())), Permission::Read),
        Err(DbError::QueryError("down".to_string()))
    );
}

#[test]
fn user_conversations_latest_first() {
    let mut shares = ShareRepository::new();
    let service = ShareService::new();
    shares.upsert_user_conversation("ann", 1, None, at(1)).unwrap();
    shares.upsert_user_conversation("bob", 7, None, at(2)).unwrap();
    shares.upsert_user_conversation("ann", 2, Some(5), at(3)).unwrap();
    service.update_user_activity(&mut shares, "ann", 3, None).unwrap();
    assert_eq!(service.get_user_conversations(&shares, "ann", 50), Ok(vec![3, 2, 1]));
    assert_eq!(service.get_user_conversations(&shares, "ann", 2), Ok(vec![3, 2]));
    assert_eq!(service.get_user_conversations(&shares, "ann", 0), Ok(vec![]));
    assert_eq!(service.get_user_conversations(&shares, "ann", -1), Ok(vec![]));
    assert_eq!(service.get_user_conversations(&shares, "bob", 50), Ok(vec![7]));
    assert_eq!(service.get_user_conversations(&shares, "cy", 50), Ok(vec![]));
    let rows = shares.get_user_conversations("ann", 1).unwrap();
    assert_eq!(rows[0].conversation_id, 3);
    let rows = shares.get_user_conversations("ann", 3).unwrap();
    assert_eq!(rows[1].active_branch_id, Some(5));
    assert_eq!(rows[1].last_activity, at(3));
}
