use std::collections::{BTreeMap, BTreeSet};

use boringtun::guarded_page::{page_size, Access, Call, GuardedPage, Setup, MAP_FAILED};

const PAGE: usize = 4096;
const ADDR: usize = 0x7f00_0000;
const FD: i32 = 5;

/// Runs a construction with the given answers: the calls it makes and where it ends.
fn run(has_memfd_secret: bool, replies: &[isize]) -> (Vec<Call>, Setup) {
    let mut calls = Vec::new();
    let mut setup = Setup::new();
    for reply in replies {
        calls.push(setup.call().expect("a pending call"));
        setup = setup.advance(has_memfd_secret, *reply);
    }
    (calls, setup)
}

fn tail() -> Vec<Call> {
    vec![
        Call::CopyIn { addr: ADDR },
        Call::Lock { addr: ADDR, len: PAGE },
        Call::Protect { addr: ADDR, len: PAGE, access: Access::Nothing },
    ]
}

#[test]
fn the_page_size_is_what_the_system_says() {
    assert_eq!(page_size(16384), 16384);
    assert_eq!(page_size(1), 1);
}

#[test]
fn a_page_size_that_is_not_positive_falls_back() {
    assert_eq!(page_size(0), 4096);
    assert_eq!(page_size(-1), 4096);
}

#[test]
fn a_secret_memory_file_backs_the_page() {
    let (calls, end) = run(true, &[4096, 5, 0, ADDR as isize, 0, 0, 0]);
    let mut expected = vec![
        Call::PageSize,
        Call::MemfdSecret,
        Call::Truncate { fd: FD, len: PAGE },
        Call::MapShared { fd: FD, len: PAGE },
    ];
    expected.extend(tail());
    assert_eq!(calls, expected);
    assert_eq!(end, Setup::Ready { at: GuardedPage { addr: ADDR, page: PAGE, memfd: Some(FD) } });
    assert_eq!(end.call(), None);
}

#[test]
fn a_refused_secret_memory_file_falls_back_to_anonymous_memory() {
    let (calls, end) = run(true, &[4096, -1, ADDR as isize, 0, 0, 0]);
    let mut expected =
        vec![Call::PageSize, Call::MemfdSecret, Call::MapAnonymous { len: PAGE }];
    expected.extend(tail());
    assert_eq!(calls, expected);
    assert_eq!(end, Setup::Ready { at: GuardedPage { addr: ADDR, page: PAGE, memfd: None } });
}

#[test]
fn a_file_that_cannot_be_sized_is_closed() {
    let (calls, end) = run(true, &[4096, 5, -1, 0, ADDR as isize, 0, 0, 0]);
    let mut expected = vec![
        Call::PageSize,
        Call::MemfdSecret,
        Call::Truncate { fd: FD, len: PAGE },
        Call::Close { fd: FD },
        Call::MapAnonymous { len: PAGE },
    ];
    expected.extend(tail());
    assert_eq!(calls, expected);
    assert_eq!(end, Setup::Ready { at: GuardedPage { addr: ADDR, page: PAGE, memfd: None } });
}

#[test]
fn a_file_that_cannot_be_mapped_is_closed() {
    let (calls, end) = run(true, &[4096, 0, 0, MAP_FAILED, 0, ADDR as isize, 0, 0, 0]);
    assert_eq!(calls[3], Call::MapShared { fd: 0, len: PAGE });
    assert_eq!(calls[4], Call::Close { fd: 0 });
    assert_eq!(calls[5], Call::MapAnonymous { len: PAGE });
    assert_eq!(calls[6..].to_vec(), tail());
    assert_eq!(end, Setup::Ready { at: GuardedPage { addr: ADDR, page: PAGE, memfd: None } });
}

#[test]
fn no_file_is_asked_for_where_the_platform_knows_none() {
    let (calls, end) = run(false, &[0, ADDR as isize, 0, 0, 0]);
    let mut expected = vec![Call::PageSize, Call::MapAnonymous { len: PAGE }];
    expected.extend(tail());
    assert_eq!(calls, expected);
    assert_eq!(end, Setup::Ready { at: GuardedPage { addr: ADDR, page: PAGE, memfd: None } });
}

#[test]
fn a_failed_anonymous_mapping_ends_the_construction() {
    let (_, end) = run(false, &[4096, MAP_FAILED]);
    assert_eq!(end, Setup::Failed);
    assert_eq!(end.call(), None);
    assert_eq!(end.advance(false, 0), Setup::Failed);
}

#[test]
fn a_failed_lock_or_seal_does_not_end_the_construction() {
    let (_, end) = run(false, &[4096, ADDR as isize, 0, -1, -1]);
    assert_eq!(end, Setup::Ready { at: GuardedPage { addr: ADDR, page: PAGE, memfd: None } });
}

fn protect(access: Access) -> Option<Call> {
    Some(Call::Protect { addr: ADDR, len: PAGE, access })
}

#[test]
fn the_first_window_opens_the_page_and_the_last_closes_it() {
    let at = GuardedPage { addr: ADDR, page: PAGE, memfd: None };
    assert_eq!(at.open_window(0), (1, protect(Access::Read)));
    assert_eq!(at.close_window(1), (0, protect(Access::Nothing)));
}

#[test]
fn a_window_beside_another_leaves_the_page_as_it_is() {
    let at = GuardedPage { addr: ADDR, page: PAGE, memfd: None };
    assert_eq!(at.open_window(1), (2, None));
    assert_eq!(at.open_window(7), (8, None));
    assert_eq!(at.close_window(2), (1, None));
    assert_eq!(at.close_window(usize::MAX), (usize::MAX - 1, None));
}

#[test]
fn a_page_is_wiped_before_it_is_given_back() {
    let at = GuardedPage { addr: ADDR, page: PAGE, memfd: None };
    assert_eq!(
        at.release(),
        vec![
            Call::Protect { addr: ADDR, len: PAGE, access: Access::ReadWrite },
            Call::Wipe { addr: ADDR },
            Call::Unlock { addr: ADDR, len: PAGE },
            Call::Unmap { addr: ADDR, len: PAGE },
        ]
    );
}

#[test]
fn the_file_behind_a_page_is_closed_last() {
    let at = GuardedPage { addr: ADDR, page: PAGE, memfd: Some(FD) };
    let calls = at.release();
    assert_eq!(calls.len(), 5);
    assert_eq!(calls[4], Call::Close { fd: FD });
}

/// A process with files and mappings, and a system that grants everything.
#[derive(Clone, Debug, PartialEq)]
struct Process {
    files: BTreeSet<i32>,
    regions: BTreeMap<usize, (Vec<u8>, Access)>,
}

impl Process {
    fn answer(&mut self, call: Call, secret: &[u8; 32]) -> isize {
        match call {
            Call::PageSize => 4096,
            Call::MemfdSecret => {
                let fd = self.files.iter().max().map_or(3, |fd| fd + 1);
                self.files.insert(fd);
                fd as isize
            }
            Call::MapShared { len, .. } | Call::MapAnonymous { len } => {
                let addr = self.regions.keys().max().map_or(0x1000, |addr| addr + len);
                self.regions.insert(addr, (vec![0xaa; len], Access::ReadWrite));
                addr as isize
            }
            Call::CopyIn { addr } => {
                self.write(addr, secret);
                0
            }
            Call::Protect { addr, access, .. } => {
                self.regions.get_mut(&addr).expect("a mapping").1 = access;
                0
            }
            Call::Wipe { addr } => {
                self.write(addr, &[0u8; 32]);
                0
            }
            Call::Unmap { addr, .. } => {
                let (bytes, _) = self.regions.remove(&addr).expect("a mapping");
                assert_eq!(bytes[..32].to_vec(), vec![0u8; 32]);
                0
            }
            Call::Close { fd } => {
                assert!(self.files.remove(&fd));
                0
            }
            Call::Truncate { .. } | Call::Lock { .. } | Call::Unlock { .. } => 0,
        }
    }

    fn write(&mut self, addr: usize, bytes: &[u8; 32]) {
        let region = self.regions.get_mut(&addr).expect("a mapping");
        assert_eq!(region.1, Access::ReadWrite);
        region.0[..32].copy_from_slice(bytes);
    }

    fn read(&self, addr: usize) -> Option<Vec<u8>> {
        let region = self.regions.get(&addr)?;
        match region.1 {
            Access::Nothing => None,
            _ => Some(region.0[..32].to_vec()),
        }
    }

    fn open(&mut self, at: &GuardedPage, open: &mut usize) {
        let (count, call) = at.open_window(*open);
        *open = count;
        if let Some(call) = call {
            self.answer(call, &[0u8; 32]);
        }
    }

    fn close(&mut self, at: &GuardedPage, open: &mut usize) {
        let (count, call) = at.close_window(*open);
        *open = count;
        if let Some(call) = call {
            self.answer(call, &[0u8; 32]);
        }
    }

    fn page_with(&mut self, has_memfd_secret: bool, secret: &[u8; 32]) -> GuardedPage {
        let mut setup = Setup::new();
        while let Some(call) = setup.call() {
            let reply = self.answer(call, secret);
            setup = setup.advance(has_memfd_secret, reply);
        }
        match setup {
            Setup::Ready { at } => at,
            _ => panic!("no page"),
        }
    }
}

#[test]
fn a_page_shows_its_secret_in_windows_only_and_leaves_nothing_behind() {
    let mut process = Process { files: BTreeSet::from([0, 1, 2]), regions: BTreeMap::new() };
    let before = process.clone();
    let at = process.page_with(true, &[7u8; 32]);
    assert_eq!(at.memfd, Some(3));
    assert_eq!(process.read(at.addr), None);
    let mut open = 0;
    for _ in 0..3 {
        process.open(&at, &mut open);
        assert_eq!(process.read(at.addr), Some(vec![7u8; 32]));
        process.close(&at, &mut open);
        assert_eq!(process.read(at.addr), None);
    }
    for call in at.release() {
        process.answer(call, &[0u8; 32]);
    }
    assert_eq!(process, before);
}

#[test]
fn two_pages_hold_their_own_secrets() {
    let mut process = Process { files: BTreeSet::new(), regions: BTreeMap::new() };
    let a = process.page_with(false, &[1u8; 32]);
    let b = process.page_with(true, &[2u8; 32]);
    let (mut open_a, mut open_b) = (0, 0);
    process.open(&a, &mut open_a);
    process.open(&b, &mut open_b);
    assert_eq!(process.read(a.addr), Some(vec![1u8; 32]));
    assert_eq!(process.read(b.addr), Some(vec![2u8; 32]));
    for call in b.release() {
        process.answer(call, &[0u8; 32]);
    }
    assert_eq!(process.read(a.addr), Some(vec![1u8; 32]));
    assert_eq!(process.read(b.addr), None);
}

#[test]
fn every_construction_ends_within_nine_calls() {
    for has_memfd_secret in [false, true] {
        // Every combination of success and failure.
        for pattern in 0u32..512 {
            let mut setup = Setup::new();
            let mut calls = 0;
            while let Some(call) = setup.call() {
                let fails = pattern & (1 << calls) != 0;
                let reply = match call {
                    Call::MapShared { .. } | Call::MapAnonymous { .. } if !fails => 0x1000,
                    _ if fails => -1,
                    _ => 0,
                };
                setup = setup.advance(has_memfd_secret, reply);
                calls += 1;
            }
            assert!(calls <= 9);
            assert!(matches!(setup, Setup::Ready { .. } | Setup::Failed));
        }
    }
}

#[test]
fn a_nested_window_does_not_close_the_outer_one() {
    let mut process = Process { files: BTreeSet::new(), regions: BTreeMap::new() };
    let at = process.page_with(true, &[5u8; 32]);
    let mut open = 0;
    process.open(&at, &mut open);
    process.open(&at, &mut open);
    process.close(&at, &mut open);
    assert_eq!(process.read(at.addr), Some(vec![5u8; 32]));
    process.close(&at, &mut open);
    assert_eq!(process.read(at.addr), None);
    assert_eq!(open, 0);
}

#[test]
fn overlapping_windows_keep_the_page_readable_until_the_last_closes() {
    let mut process = Process { files: BTreeSet::new(), regions: BTreeMap::new() };
    let at = process.page_with(false, &[6u8; 32]);
    let mut open = 0;
    // Each line is a step; at least one window is open throughout.
    process.open(&at, &mut open);
    for _ in 0..4 {
        process.open(&at, &mut open);
        process.close(&at, &mut open);
        assert_eq!(process.read(at.addr), Some(vec![6u8; 32]));
        assert_eq!(process.regions[&at.addr].1, Access::Read);
    }
    process.close(&at, &mut open);
    assert_eq!(process.read(at.addr), None);
}

#[test]
fn an_opened_file_is_handed_over_or_closed_once() {
    for (replies, kept) in [
        (vec![4096, 5, 0, ADDR as isize, 0, 0, 0], true),
        (vec![4096, 5, -1, 0, ADDR as isize, 0, 0, 0], false),
        (vec![4096, 5, 0, MAP_FAILED, 0, ADDR as isize, 0, 0, 0], false),
        (vec![4096, 5, 0, MAP_FAILED, 0, MAP_FAILED], false),
    ] {
        let (calls, end) = run(true, &replies);
        let closed = calls.iter().filter(|call| **call == Call::Close { fd: FD }).count();
        assert_eq!(closed, if kept { 0 } else { 1 });
        match end {
            Setup::Ready { at } => assert_eq!(at.memfd, if kept { Some(FD) } else { None }),
            other => assert_eq!(other, Setup::Failed),
        }
    }
}
