use calloop::sys::kqueue::kevent_readiness;
use calloop::sys::kqueue::{
    check_register_receipts, check_unregister_receipts, mode_to_flag, reregister_changes,
    FilterChange, ModeFlag, Receipt, UnregisterError,
};
use calloop::sys::{
    adjust_timeout, after_interruption, epoll_timeout_ms, index_from_fd, Interrupted,
    TokenRegistry, TIMER_DATA,
};
use calloop::{Interest, Mode, Readiness, TokenFactory};

#[test]
fn token_factory_produces_unique_tokens() {
    let mut f = TokenFactory::new(7);
    let a = f.token();
    let b = f.token();
    let c = f.token();
    assert_ne!(a, b);
    assert_ne!(b, c);
    assert_ne!(a, c);
    assert_eq!(a.key(), 7);
    assert_eq!(c.key(), 7);
    let mut g = TokenFactory::new(8);
    assert_ne!(g.token(), a);
}

#[test]
fn interest_shorthands() {
    assert_eq!(Interest::empty(), Interest { readable: false, writable: false });
    assert_eq!(Interest::read(), Interest { readable: true, writable: false });
    assert_eq!(Interest::write(), Interest { readable: false, writable: true });
    assert_eq!(Interest::both(), Interest { readable: true, writable: true });
    let r = Readiness::empty();
    assert!(!r.readable && !r.writable && !r.error);
}

#[test]
fn registry_follows_registrations() {
    let mut f = TokenFactory::new(1);
    let t1 = f.token();
    let t2 = f.token();
    let mut reg = TokenRegistry::new();
    assert_eq!(reg.token_for(3), None);
    assert!(!reg.register(3, t1, false));
    assert_eq!(reg.token_for(3), None);
    assert!(!reg.register(3, t1, true));
    assert_eq!(reg.token_for(3), Some(t1));
    assert!(!reg.reregister(3, t2, true));
    assert_eq!(reg.token_for(3), Some(t2));
    assert!(!reg.unregister(3, false));
    assert_eq!(reg.token_for(3), Some(t2));
    assert!(!reg.unregister(3, true));
    assert_eq!(reg.token_for(3), None);
}

#[test]
fn registry_reports_conflicts() {
    let mut f = TokenFactory::new(4);
    let t1 = f.token();
    let t2 = f.token();
    let mut reg = TokenRegistry::new();
    // updating or removing a descriptor that is not known
    assert!(reg.reregister(6, t1, true));
    assert!(reg.unregister(6, true));
    assert_eq!(reg.token_for(6), None);
    // registering a descriptor twice: the first token stays
    assert!(!reg.register(6, t1, true));
    assert!(reg.register(6, t2, true));
    assert_eq!(reg.token_for(6), Some(t1));
}

#[test]
fn registry_translates_kernel_events() {
    let mut f = TokenFactory::new(2);
    let t = f.token();
    let mut reg = TokenRegistry::new();
    reg.register(5, t, true);
    let ready = Readiness { readable: true, writable: false, error: false };
    let raw = vec![(TIMER_DATA, ready), (9, ready), (5, ready)];
    let (events, timer) = reg.translate_events(&raw);
    assert!(timer);
    assert_eq!(events.len(), 1);
    assert_eq!(events[0].token, t);
    assert_eq!(events[0].readiness, ready);
    let (events, timer) = reg.translate_events(&vec![(5, Readiness::empty())]);
    assert!(!timer);
    assert_eq!(events.len(), 1);
}

#[test]
fn fd_index() {
    assert_eq!(index_from_fd(0), 0);
    assert_eq!(index_from_fd(42), 42);
}

#[test]
fn timeouts_account_for_timers() {
    // no timer: the timeout stands
    assert_eq!(adjust_timeout(Some(50), None, 10), Some(50));
    assert_eq!(adjust_timeout(None, None, 10), None);
    // a timer due already: do not wait
    assert_eq!(adjust_timeout(Some(50), Some(5), 10), Some(0));
    // a timer due before the timeout: wait until it
    assert_eq!(adjust_timeout(Some(50), Some(30), 10), Some(20));
    assert_eq!(adjust_timeout(None, Some(30), 10), Some(20));
    // a timer due after the timeout: the timeout stands
    assert_eq!(adjust_timeout(Some(5), Some(30), 10), Some(5));

    assert_eq!(epoll_timeout_ms(None), -1);
    assert_eq!(epoll_timeout_ms(Some(0)), 1);
    assert_eq!(epoll_timeout_ms(Some(20_000_000)), 21);
    assert_eq!(epoll_timeout_ms(Some(20_500_000)), 21);

    assert_eq!(after_interruption(None, 100), Interrupted::Retry(None));
    assert_eq!(after_interruption(Some(100), 30), Interrupted::Retry(Some(70)));
    assert_eq!(after_interruption(Some(100), 100), Interrupted::Elapsed);
}

#[test]
fn kqueue_changes() {
    assert_eq!(mode_to_flag(Mode::Level), ModeFlag::Level);
    assert_eq!(mode_to_flag(Mode::OneShot), ModeFlag::Dispatch);
    assert_eq!(mode_to_flag(Mode::Edge), ModeFlag::Clear);
    let c = reregister_changes(Interest::read(), Mode::Edge);
    assert_eq!(c.read, FilterChange::Add(ModeFlag::Clear));
    assert_eq!(c.write, FilterChange::Delete);
    let c = reregister_changes(Interest::both(), Mode::OneShot);
    assert_eq!(c.read, FilterChange::Add(ModeFlag::Dispatch));
    assert_eq!(c.write, FilterChange::Add(ModeFlag::Dispatch));
}

// ENOENT: the filter was not there
const ENOENT: i64 = 2;
// EBADF: a bad descriptor
const EBADF: i64 = 9;

#[test]
fn kqueue_receipts() {
    let ok = Receipt { error_flag: false, data: 0 };
    let receipt_ok_flag = Receipt { error_flag: true, data: 0 };
    let missing = Receipt { error_flag: true, data: ENOENT };
    let bad = Receipt { error_flag: true, data: EBADF };

    assert_eq!(check_register_receipts(&vec![ok, receipt_ok_flag]), Ok(()));
    assert_eq!(check_register_receipts(&vec![missing, ok]), Ok(()));
    assert_eq!(check_register_receipts(&vec![missing, bad]), Err(EBADF as i32));

    assert_eq!(check_unregister_receipts(&vec![missing, ok]), Ok(()));
    assert_eq!(
        check_unregister_receipts(&vec![missing, missing]),
        Err(UnregisterError::NotRegistered)
    );
    assert_eq!(
        check_unregister_receipts(&vec![bad, missing]),
        Err(UnregisterError::Os(EBADF as i32))
    );
}

#[test]
fn token_factory_many_tokens_all_distinct() {
    let mut f = TokenFactory::new(3);
    assert_eq!(f.produced_count(), 0);
    let mut tokens = Vec::new();
    for _ in 0..50 {
        tokens.push(f.token());
    }
    assert_eq!(f.produced_count(), 50);
    for i in 0..tokens.len() {
        assert_eq!(tokens[i].key(), 3);
        for j in (i + 1)..tokens.len() {
            assert_ne!(tokens[i], tokens[j]);
        }
    }
}

#[test]
fn kqueue_event_readiness() {
    let r = kevent_readiness(true, false, false, 0);
    assert!(r.readable && !r.writable && !r.error);
    let r = kevent_readiness(false, true, true, 0);
    assert!(!r.readable && r.writable && !r.error);
    let r = kevent_readiness(true, false, true, 9);
    assert!(r.readable && !r.writable && r.error);
}
