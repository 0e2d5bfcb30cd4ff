//! What the kqueue poller asks of the kernel, and how it reads the kernel's
//! receipts.
use vstd::prelude::*;

use crate::sys::{Interest, Mode, Readiness};

verus! {

/// The kernel flag that realises a registration mode.
#[derive(Copy, Clone, Debug, PartialEq, Eq, Structural)]
pub enum ModeFlag {
    /// No flag: level-triggering is the default.
    Level,
    /// `EV_DISPATCH`: disabled after one event.
    Dispatch,
    /// `EV_CLEAR`: state reset after each event.
    Clear,
}

/// The kernel flag for `mode`.
pub fn mode_to_flag(mode: Mode) -> (f: ModeFlag)
    ensures
        mode == Mode::Level ==> f == ModeFlag::Level,
        mode == Mode::OneShot ==> f == ModeFlag::Dispatch,
        mode == Mode::Edge ==> f == ModeFlag::Clear,
{
    match mode {
        Mode::Level => ModeFlag::Level,
        Mode::OneShot => ModeFlag::Dispatch,
        Mode::Edge => ModeFlag::Clear,
    }
}

/// The change asked for one filter (read or write) of a descriptor.
#[derive(Copy, Clone, Debug, PartialEq, Eq, Structural)]
pub enum FilterChange {
    /// `EV_ADD | EV_RECEIPT` with the mode's flag.
    Add(ModeFlag),
    /// `EV_DELETE`.
    Delete,
}

/// The changes for the write and the read filter of a descriptor that is
/// (re-)registered with `interest` and `mode`.
#[derive(Copy, Clone, Debug, PartialEq, Eq, Structural)]
pub struct FilterChanges {
    pub write: FilterChange,
    pub read: FilterChange,
}

/// The filter is added when the interest asks for it, deleted otherwise.
pub open spec fn spec_filter_change(interested: bool, mode: Mode) -> FilterChange {
    if interested {
        FilterChange::Add(
            match mode {
                Mode::Level => ModeFlag::Level,
                Mode::OneShot => ModeFlag::Dispatch,
                Mode::Edge => ModeFlag::Clear,
            },
        )
    } else {
        FilterChange::Delete
    }
}

/// A filter is added exactly when the interest asks for it, and an added
/// filter carries the flag of the requested mode: none for level-triggering,
/// `EV_CLEAR` exactly for edge-triggering, `EV_DISPATCH` exactly for
/// one-shot.
pub proof fn lemma_filter_change_follows_mode(interested: bool, mode: Mode)
    ensures
        spec_filter_change(interested, mode) is Add <==> interested,
        spec_filter_change(interested, mode) matches FilterChange::Add(f) ==> {
            &&& (f == ModeFlag::Level <==> mode == Mode::Level)
            &&& (f == ModeFlag::Clear <==> mode == Mode::Edge)
            &&& (f == ModeFlag::Dispatch <==> mode == Mode::OneShot)
        },
{
}

/// The changes that register a descriptor with `interest` and `mode`.
pub fn reregister_changes(interest: Interest, mode: Mode) -> (c: FilterChanges)
    ensures
        c.write == spec_filter_change(interest.writable, mode),
        c.read == spec_filter_change(interest.readable, mode),
{
    let write = if interest.writable {
        FilterChange::Add(mode_to_flag(mode))
    } else {
        FilterChange::Delete
    };
    let read = if interest.readable {
        FilterChange::Add(mode_to_flag(mode))
    } else {
        FilterChange::Delete
    };
    FilterChanges { write, read }
}

/// The kernel's receipt for one change: its error flag and data.
#[derive(Copy, Clone, Debug, PartialEq, Eq, Structural)]
pub struct Receipt {
    pub error_flag: bool,
    pub data: i64,
}

/// Whether the OS error `code` means "not found" (a filter that was not there).
pub uninterp spec fn os_error_is_not_found(code: i32) -> bool;

/// Calls `std::io::Error::from_raw_os_error(code).kind()` and compares the
/// kind with `NotFound`. The contract claims only that the answer depends on
/// the code alone (on a given target); which codes mean "not found" is left
/// to std and is not stated.
#[verifier::external_body]
fn raw_os_error_is_not_found(code: i32) -> (not_found: bool)
    ensures
        not_found == os_error_is_not_found(code),
{
    std::io::Error::from_raw_os_error(code).kind() == std::io::ErrorKind::NotFound
}

/// The receipt reports an error.
pub open spec fn reports_error(r: Receipt) -> bool {
    r.error_flag && r.data != 0
}

/// The receipt reports that the filter was not there.
pub open spec fn reports_missing(r: Receipt) -> bool {
    reports_error(r) && os_error_is_not_found(r.data as i32)
}

/// The receipt reports an error other than a missing filter.
pub open spec fn reports_failure(r: Receipt) -> bool {
    reports_error(r) && !os_error_is_not_found(r.data as i32)
}

/// The code of the first receipt that reports a failure.
pub open spec fn first_failure(s: Seq<Receipt>) -> Option<i32>
    decreases s.len(),
{
    if s.len() == 0 {
        None
    } else {
        match first_failure(s.drop_last()) {
            Some(code) => Some(code),
            None => if reports_failure(s.last()) {
                Some(s.last().data as i32)
            } else {
                None
            },
        }
    }
}

/// How many receipts report a missing filter.
pub open spec fn missing_count(s: Seq<Receipt>) -> nat
    decreases s.len(),
{
    if s.len() == 0 {
        0
    } else {
        missing_count(s.drop_last()) + if reports_missing(s.last()) {
            1nat
        } else {
            0nat
        }
    }
}

/// The failure reported by receipts is the code of the earliest receipt
/// whose error flag is set with a non-zero code that does not mean "not
/// found"; there is none when no receipt is such.
pub proof fn lemma_first_failure_is_earliest(s: Seq<Receipt>)
    ensures
        first_failure(s) is None <==> forall|i: int|
            0 <= i < s.len() ==> !((#[trigger] s[i]).error_flag && s[i].data != 0
                && !os_error_is_not_found(s[i].data as i32)),
        first_failure(s) matches Some(c) ==> exists|i: int|
            {
                &&& 0 <= i < s.len()
                &&& (#[trigger] s[i]).error_flag && s[i].data != 0
                &&& !os_error_is_not_found(s[i].data as i32)
                &&& c == s[i].data as i32
                &&& forall|k: int|
                    0 <= k < i ==> !((#[trigger] s[k]).error_flag && s[k].data != 0
                        && !os_error_is_not_found(s[k].data as i32))
            },
    decreases s.len(),
{
    if s.len() > 0 {
        let init = s.drop_last();
        lemma_first_failure_is_earliest(init);
        assert forall|i: int| 0 <= i < init.len() implies init[i] == s[i] by {}
        if first_failure(init) is Some {
            let c = first_failure(init)->0;
            let i = choose|i: int|
                {
                    &&& 0 <= i < init.len()
                    &&& (#[trigger] init[i]).error_flag && init[i].data != 0
                    &&& !os_error_is_not_found(init[i].data as i32)
                    &&& c == init[i].data as i32
                    &&& forall|k: int|
                        0 <= k < i ==> !((#[trigger] init[k]).error_flag && init[k].data != 0
                            && !os_error_is_not_found(init[k].data as i32))
                };
            assert(s[i] == init[i]);
            assert forall|k: int| 0 <= k < i implies !((#[trigger] s[k]).error_flag && s[k].data
                != 0 && !os_error_is_not_found(s[k].data as i32)) by {
                assert(s[k] == init[k]);
            }
        } else {
            assert forall|k: int| 0 <= k < s.len() - 1 implies !((#[trigger] s[k]).error_flag
                && s[k].data != 0 && !os_error_is_not_found(s[k].data as i32)) by {
                assert(s[k] == init[k]);
            }
        }
    }
}

/// At most every receipt reports a missing filter, and all of them do
/// exactly when each has its error flag set with a "not found" code.
pub proof fn lemma_missing_count_bounds(s: Seq<Receipt>)
    ensures
        missing_count(s) <= s.len(),
        missing_count(s) == s.len() <==> forall|i: int|
            0 <= i < s.len() ==> (#[trigger] s[i]).error_flag && s[i].data != 0
                && os_error_is_not_found(s[i].data as i32),
    decreases s.len(),
{
    if s.len() > 0 {
        let init = s.drop_last();
        lemma_missing_count_bounds(init);
        assert forall|i: int| 0 <= i < init.len() implies init[i] == s[i] by {}
        if missing_count(s) == s.len() {
            assert forall|i: int| 0 <= i < s.len() implies (#[trigger] s[i]).error_flag && s[i].data
                != 0 && os_error_is_not_found(s[i].data as i32) by {
                if i < init.len() {
                    assert(s[i] == init[i]);
                }
            }
        }
        if forall|i: int|
            0 <= i < s.len() ==> (#[trigger] s[i]).error_flag && s[i].data != 0
                && os_error_is_not_found(s[i].data as i32) {
            assert forall|i: int| 0 <= i < init.len() implies (#[trigger] init[i]).error_flag
                && init[i].data != 0 && os_error_is_not_found(init[i].data as i32) by {
                assert(s[i] == init[i]);
            }
            assert(s[s.len() - 1] == s.last());
        }
    }
}

/// Reads the receipts of a (re-)registration: the first real failure is an
/// error; a filter that was not there is not one.
pub fn check_register_receipts(receipts: &Vec<Receipt>) -> (r: Result<(), i32>)
    ensures
        r matches Err(code) ==> first_failure(receipts@) == Some(code),
        r is Ok ==> first_failure(receipts@) is None,
{
    let n = receipts.len();
    let mut i: usize = 0;
    while i < n
        invariant
            n == receipts@.len(),
            i <= n,
            first_failure(receipts@.take(i as int)) is None,
        decreases n - i,
    {
        proof {
            assert(receipts@.take(i + 1).drop_last() == receipts@.take(i as int));
        }
        let o = receipts[i];
        if o.error_flag && o.data != 0 {
            let code = o.data as i32;
            if !raw_os_error_is_not_found(code) {
                proof {
                    lemma_first_failure_prefix(receipts@, i as int + 1);
                }
                return Err(code);
            }
        }
        i = i + 1;
    }
    proof {
        assert(receipts@.take(n as int) == receipts@);
    }
    Ok(())
}

proof fn lemma_first_failure_prefix(s: Seq<Receipt>, k: int)
    requires
        0 <= k <= s.len(),
        first_failure(s.take(k)) is Some,
    ensures
        first_failure(s) == first_failure(s.take(k)),
    decreases s.len() - k,
{
    if k < s.len() {
        assert(s.take(k + 1).drop_last() == s.take(k));
        lemma_first_failure_prefix(s, k + 1);
    } else {
        assert(s.take(k) == s);
    }
}

/// Why an unregistration failed.
#[derive(Copy, Clone, Debug, PartialEq, Eq, Structural)]
pub enum UnregisterError {
    /// The kernel reported this error.
    Os(i32),
    /// Neither filter was there: the descriptor was not registered at all.
    NotRegistered,
}

/// Reads the receipts of an unregistration (one for the write filter, one
/// for the read filter): a real failure is an error, and so is finding
/// neither filter.
pub fn check_unregister_receipts(receipts: &Vec<Receipt>) -> (r: Result<(), UnregisterError>)
    ensures
        r matches Err(UnregisterError::Os(code)) ==> first_failure(receipts@) == Some(code),
        r matches Err(UnregisterError::NotRegistered) ==> first_failure(receipts@) is None
            && missing_count(receipts@) == 2,
        r is Ok ==> first_failure(receipts@) is None && missing_count(receipts@) != 2,
{
    let n = receipts.len();
    let mut notfound: u64 = 0;
    let mut i: usize = 0;
    while i < n
        invariant
            n == receipts@.len(),
            i <= n,
            first_failure(receipts@.take(i as int)) is None,
            notfound == missing_count(receipts@.take(i as int)),
            notfound <= i,
        decreases n - i,
    {
        proof {
            assert(receipts@.take(i + 1).drop_last() == receipts@.take(i as int));
        }
        let o = receipts[i];
        if o.error_flag && o.data != 0 {
            let code = o.data as i32;
            if !raw_os_error_is_not_found(code) {
                proof {
                    lemma_first_failure_prefix(receipts@, i as int + 1);
                }
                return Err(UnregisterError::Os(code));
            } else {
                notfound = notfound + 1;
            }
        }
        i = i + 1;
    }
    proof {
        assert(receipts@.take(n as int) == receipts@);
    }
    if notfound == 2 {
        return Err(UnregisterError::NotRegistered);
    }
    Ok(())
}

/// The readiness of an event the kernel reported: readable for the read
/// filter, writable for the write filter, in error when it carries the
/// error flag with a non-zero code.
pub fn kevent_readiness(read_filter: bool, write_filter: bool, error_flag: bool, data: i64) -> (r:
    Readiness)
    ensures
        r.readable == read_filter,
        r.writable == write_filter,
        r.error == (error_flag && data != 0),
{
    Readiness { readable: read_filter, writable: write_filter, error: error_flag && data != 0 }
}

} // verus!
