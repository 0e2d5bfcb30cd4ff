use calloop::loop_logic::{block_on_step, BlockOnStep};
use calloop::list::SourceList;
use calloop::loop_logic::{
    deferred_action, follow_up, has_room_for, resolve_post_action, source_key, FollowUp,
    max_sources, max_sources_mask, max_sources_total, max_subsources,
};
use calloop::sources::futures::Active;
use calloop::{PostAction, RegistrationToken};
use std::sync::Arc;
use std::task::{Wake, Waker};

#[test]
fn source_list_reuses_free_slots() {
    let mut list: SourceList<&str> = SourceList::new();
    assert_eq!(list.vacant_id(), 0);
    assert_eq!(list.add_source("a"), 0);
    assert_eq!(list.add_source("b"), 1);
    assert_eq!(list.add_source("c"), 2);
    assert!(list.contains(1));
    assert_eq!(list.del_source(1), Some("b"));
    assert!(!list.contains(1));
    assert_eq!(list.get_dispatcher(1), None);
    assert_eq!(list.del_source(1), None);
    assert_eq!(list.vacant_id(), 1);
    assert_eq!(list.add_source("d"), 1);
    assert_eq!(list.get_dispatcher(1), Some(&"d"));
    assert_eq!(list.add_source("e"), 3);
    assert!(!list.contains(10));
}

#[test]
fn registration_tokens() {
    let t = RegistrationToken::new(5);
    assert_eq!(t.key(), 5);
    assert_eq!(t, RegistrationToken::new(5));
    assert_ne!(t, RegistrationToken::new(6));
}

#[test]
fn dispatch_decisions() {
    assert_eq!(resolve_post_action(PostAction::Continue, PostAction::Disable), PostAction::Disable);
    assert_eq!(resolve_post_action(PostAction::Remove, PostAction::Disable), PostAction::Remove);
    let keep = follow_up(PostAction::Continue, PostAction::Continue, true);
    assert_eq!(keep, FollowUp { action: PostAction::Continue, unregister: false });
    let update = follow_up(PostAction::Continue, PostAction::Reregister, true);
    assert_eq!(update, FollowUp { action: PostAction::Reregister, unregister: false });
    let disable = follow_up(PostAction::Disable, PostAction::Continue, true);
    assert_eq!(disable, FollowUp { action: PostAction::Disable, unregister: false });
    let remove = follow_up(PostAction::Remove, PostAction::Continue, true);
    assert_eq!(remove, FollowUp { action: PostAction::Remove, unregister: true });
    // removed from within its own callback: the action still applies, then
    // the source is unregistered
    let gone = follow_up(PostAction::Continue, PostAction::Continue, false);
    assert_eq!(gone, FollowUp { action: PostAction::Continue, unregister: true });
    let gone = follow_up(PostAction::Reregister, PostAction::Continue, false);
    assert_eq!(gone, FollowUp { action: PostAction::Reregister, unregister: true });
    assert_eq!(deferred_action(true, PostAction::Reregister), None);
    assert_eq!(deferred_action(false, PostAction::Disable), Some(PostAction::Disable));
}

#[test]
fn source_keys() {
    let total = max_sources_total();
    assert_eq!(total, 1u64 << max_sources());
    assert_eq!(max_sources_mask(), total - 1);
    assert_eq!(max_sources() + max_subsources(), usize::BITS);
    if usize::BITS == 64 {
        assert_eq!(max_sources(), 44);
        assert_eq!(max_subsources(), 20);
    }
    assert!(has_room_for(0));
    assert!(has_room_for((total - 1) as usize));
    assert!(!has_room_for(total as usize));
    assert_eq!(source_key(12), 12);
    assert_eq!(source_key(total as usize + 3), 3);
}

struct NoWake;

impl Wake for NoWake {
    fn wake(self: Arc<Self>) {}
}

#[test]
fn active_tasks() {
    let waker = Waker::from(Arc::new(NoWake));
    let pending: Active<u32> = Active::Future(waker);
    assert!(!pending.is_finished());
    let done: Active<u32> = Active::Finished(42);
    assert!(done.is_finished());
}

#[test]
fn block_on_steps() {
    assert_eq!(block_on_step(true, true), BlockOnStep::Finish);
    assert_eq!(block_on_step(true, false), BlockOnStep::Finish);
    assert_eq!(block_on_step(false, true), BlockOnStep::PollFuture);
    assert_eq!(block_on_step(false, false), BlockOnStep::Dispatch);
}
