//! What the system does with a process's memory when the calls of a guarded page are made, and what
//! follows for the page: a secret that was copied in is read back, is out of reach at rest, and is
//! gone, with everything that was opened for it, at the end.
use vstd::prelude::*;

use crate::guarded_page::{Access, Call, GuardedPage, Setup};
use crate::secure_mem::SECRET_LEN;

verus! {

/// An open file.
pub struct File {
    /// Which file it is: a new file has a number that no open or mapped file has.
    pub id: int,
    /// Its length.
    pub len: nat,
    /// Whether it is secret memory.
    pub secret: bool,
}

/// One mapping of the process.
pub struct Region {
    /// What it holds; its length is the length of the mapping.
    pub bytes: Seq<u8>,
    /// How it may be accessed.
    pub access: Access,
    /// Whether it is kept out of swap.
    pub locked: bool,
    /// Which file it maps; `None` for anonymous memory.
    pub file: Option<int>,
    /// How many of its bytes there is memory for: no more than the file was long.
    pub present: nat,
}

/// The part of the process's state that the calls of a guarded page touch.
#[verifier::ext_equal]
pub struct Process {
    /// What the system says when it is asked for the page size.
    pub page_size: isize,
    /// The open files, by descriptor.
    pub files: Map<i32, File>,
    /// The mappings, by where they start.
    pub regions: Map<usize, Region>,
}

impl Process {
    /// The process once the mapping at `addr` is `region`.
    pub open spec fn with_region(self, addr: usize, region: Region) -> Process {
        Process { regions: self.regions.insert(addr, region), ..self }
    }

    /// The process once the descriptor `fd` stands for `file`.
    pub open spec fn with_file(self, fd: i32, file: File) -> Process {
        Process { files: self.files.insert(fd, file), ..self }
    }

    /// Whether any mapping is one of the file `id`.
    pub open spec fn maps_file(self, id: int) -> bool {
        exists|addr: usize| #[trigger]
            self.regions.contains_key(addr) && self.regions[addr].file == Some(id)
    }

    /// Whether the file `id` is neither open nor mapped.
    pub open spec fn unused(self, id: int) -> bool {
        &&& !self.maps_file(id)
        &&& forall|fd: i32| #[trigger] self.files.contains_key(fd) ==> self.files[fd].id != id
    }

    /// Whether the `len` bytes from `addr` are the whole of one mapping.
    pub open spec fn is_mapping(self, addr: usize, len: usize) -> bool {
        &&& self.regions.contains_key(addr)
        &&& self.regions[addr].bytes.len() == len
    }

    /// Whether a read of a secret at `addr` succeeds.
    pub open spec fn readable(self, addr: usize) -> bool {
        &&& self.regions.contains_key(addr)
        &&& self.regions[addr].bytes.len() >= SECRET_LEN
        &&& self.regions[addr].present >= SECRET_LEN
        &&& self.regions[addr].access != Access::Nothing
    }

    /// Whether a write of a secret at `addr` succeeds.
    pub open spec fn writable(self, addr: usize) -> bool {
        &&& self.regions.contains_key(addr)
        &&& self.regions[addr].bytes.len() >= SECRET_LEN
        &&& self.regions[addr].present >= SECRET_LEN
        &&& self.regions[addr].access == Access::ReadWrite
    }

    /// Whether no access at all to the mapping at `addr` succeeds.
    pub open spec fn out_of_reach(self, addr: usize) -> bool {
        &&& self.regions.contains_key(addr)
        &&& self.regions[addr].access == Access::Nothing
    }

    /// The bytes of a secret at `addr`.
    pub open spec fn secret_at(self, addr: usize) -> Seq<u8> {
        self.regions[addr].bytes.take(SECRET_LEN as int)
    }
}

/// A mapping's bytes once `secret` was written over the first of them.
pub open spec fn overwritten(bytes: Seq<u8>, secret: Seq<u8>) -> Seq<u8> {
    secret + bytes.skip(secret.len() as int)
}

/// As many zeros as a secret has bytes.
pub open spec fn zeros() -> Seq<u8> {
    Seq::new(SECRET_LEN as nat, |i: int| 0u8)
}

/// Whether the `len` bytes from `addr` and the `other_len` bytes from `other` have no byte in common.
pub open spec fn apart(addr: usize, len: int, other: usize, other_len: int) -> bool {
    addr + len <= other || other + other_len <= addr
}

/// Whether the `len` bytes from `addr` lie in no mapping of `process`, and none starts there.
pub open spec fn unmapped(process: Process, addr: usize, len: int) -> bool {
    &&& !process.regions.contains_key(addr)
    &&& forall|other: usize| #[trigger]
        process.regions.contains_key(other) ==> apart(
            addr,
            len,
            other,
            process.regions[other].bytes.len() as int,
        )
}

/// Whether a new mapping of `len` bytes of the file `file`, of which `present` can be had, that was
/// answered with `reply` takes `before` to `after`: a failed one, which is answered with -1, changes
/// nothing, any other lies where nothing was mapped and may be written.
pub open spec fn maps(
    before: Process,
    len: usize,
    file: Option<int>,
    present: nat,
    reply: isize,
    after: Process,
) -> bool {
    let addr = reply as usize;
    if reply == -1 {
        after == before
    } else {
        &&& unmapped(before, addr, len as int)
        &&& after.regions.contains_key(addr)
        &&& after.regions[addr].bytes.len() == len
        &&& after.regions[addr].access == Access::ReadWrite
        &&& after.regions[addr].file == file
        &&& after.regions[addr].present == present
        &&& after == before.with_region(addr, after.regions[addr])
    }
}

/// Whether the system may answer `call` with `reply` and take the process from `before` to
/// `after`. `secret` is what [`Call::CopyIn`] copies. A write where none is allowed ends the
/// process: it has no `after`. Of a call on anything but the whole of one mapping, or on the length
/// of a file that is mapped, nothing is said.
pub open spec fn answers(
    before: Process,
    secret: Seq<u8>,
    call: Call,
    reply: isize,
    after: Process,
) -> bool {
    match call {
        Call::PageSize => reply == before.page_size && after == before,
        Call::MemfdSecret => if reply >= 0 {
            let fd = reply as i32;
            &&& reply <= i32::MAX
            &&& !before.files.contains_key(fd)
            &&& after.files.contains_key(fd)
            &&& before.unused(after.files[fd].id)
            &&& after.files[fd].len == 0
            &&& after.files[fd].secret
            &&& after == before.with_file(fd, after.files[fd])
        } else {
            after == before
        },
        Call::Truncate { fd, len } => {
            let file = before.files[fd];
            if !before.files.contains_key(fd) {
                reply != 0 && after == before
            } else if reply != 0 {
                after == before
            } else {
                !before.maps_file(file.id) ==> after == before.with_file(
                    fd,
                    File { len: len as nat, ..file },
                )
            }
        },
        Call::MapShared { fd, len } => {
            let file = before.files[fd];
            if before.files.contains_key(fd) {
                maps(before, len, Some(file.id), file.len, reply, after)
            } else {
                reply == -1 && after == before
            }
        },
        Call::MapAnonymous { len } => maps(before, len, None, len as nat, reply, after),
        Call::CopyIn { addr } => {
            let region = before.regions[addr];
            &&& before.writable(addr)
            &&& after == before.with_region(
                addr,
                Region { bytes: overwritten(region.bytes, secret), ..region },
            )
        },
        Call::Lock { addr, len } => {
            let region = before.regions[addr];
            before.is_mapping(addr, len) ==> after == if reply == 0 {
                before.with_region(addr, Region { locked: true, ..region })
            } else {
                before
            }
        },
        Call::Protect { addr, len, access } => {
            let region = before.regions[addr];
            before.is_mapping(addr, len) ==> after == if reply == 0 {
                before.with_region(addr, Region { access, ..region })
            } else {
                before
            }
        },
        Call::Wipe { addr } => {
            let region = before.regions[addr];
            &&& before.writable(addr)
            &&& after == before.with_region(
                addr,
                Region { bytes: overwritten(region.bytes, zeros()), ..region },
            )
        },
        Call::Unlock { addr, len } => {
            let region = before.regions[addr];
            before.is_mapping(addr, len) ==> after == if reply == 0 {
                before.with_region(addr, Region { locked: false, ..region })
            } else {
                before
            }
        },
        Call::Unmap { addr, len } => before.is_mapping(addr, len) ==> after == if reply == 0 {
            Process { regions: before.regions.remove(addr), ..before }
        } else {
            before
        },
        Call::Close { fd } => after == (Process { files: before.files.remove(fd), ..before }),
    }
}

/// Whether the system can answer `call` with `reply` at all.
pub open spec fn possible(now: Process, secret: Seq<u8>, call: Call, reply: isize) -> bool {
    exists|next: Process| #[trigger] answers(now, secret, call, reply, next)
}

/// Whether `now` is `before` with the secret memory file `fd` of the length `len` open besides.
pub open spec fn adds_file(before: Process, fd: i32, len: nat, now: Process) -> bool {
    &&& !before.files.contains_key(fd)
    &&& now.files.contains_key(fd)
    &&& now.files[fd].secret
    &&& now.files[fd].len == len
    &&& before.unused(now.files[fd].id)
    &&& now.files.remove(fd) == before.files
}

/// Whether `now` is `before` with the page `at` added to it, in memory and with a file that were not
/// in use, and nothing else changed. Where a file belongs to the page, it is secret memory as long
/// as the page, and it is what is mapped there.
pub open spec fn adds_page(before: Process, at: GuardedPage, now: Process) -> bool {
    let region = now.regions[at.addr];
    &&& now.page_size == before.page_size
    &&& unmapped(before, at.addr, at.page as int)
    &&& now.regions.contains_key(at.addr)
    &&& region.bytes.len() == at.page
    &&& region.present == at.page
    &&& now.regions.remove(at.addr) == before.regions
    &&& match at.memfd {
        Some(fd) => adds_file(before, fd, at.page as nat, now) && region.file == Some(
            now.files[fd].id,
        ),
        None => now.files == before.files && region.file == None::<int>,
    }
}

/// The descriptors of a process with the one behind `at` added.
pub open spec fn files_with(files: Set<i32>, at: GuardedPage) -> Set<i32> {
    match at.memfd {
        Some(fd) => files.insert(fd),
        None => files,
    }
}

/// A page takes one descriptor where a file is behind it, and none otherwise.
pub proof fn page_takes_own_descriptor(before: Process, at: GuardedPage, now: Process)
    requires
        adds_page(before, at, now),
    ensures
        now.files.dom() == files_with(before.files.dom(), at),
        at.memfd matches Some(fd) ==> !before.files.contains_key(fd),
        forall|fd: i32| #[trigger]
            before.files.contains_key(fd) ==> now.files[fd] == before.files[fd],
{
    if let Some(fd) = at.memfd {
        assert(now.files =~= now.files.remove(fd).insert(fd, now.files[fd]));
    }
    assert(now.files.dom() =~= files_with(before.files.dom(), at));
}

/// Whether `now` is `before` with the page `at` added to it, and `secret` in the page.
pub open spec fn adds_secret(
    before: Process,
    at: GuardedPage,
    secret: Seq<u8>,
    now: Process,
) -> bool {
    &&& adds_page(before, at, now)
    &&& at.page >= SECRET_LEN
    &&& now.secret_at(at.addr) == secret
}

/// A construction of a page: the states it went through, the answers that took it from each to the
/// next, and the process at each.
pub struct SetupRun {
    pub has_memfd_secret: bool,
    pub secret: Seq<u8>,
    pub states: Seq<Setup>,
    pub replies: Seq<isize>,
    pub processes: Seq<Process>,
}

impl SetupRun {
    /// Whether the run starts at the start and each step makes the pending call and takes its
    /// answer.
    pub open spec fn valid(self) -> bool {
        &&& self.secret.len() == SECRET_LEN
        &&& self.states.len() == self.replies.len() + 1
        &&& self.processes.len() == self.states.len()
        &&& self.states[0] == Setup::PageSize
        &&& forall|i: int|
            0 <= i < self.replies.len() ==> #[trigger] self.step_valid(i)
    }

    /// Whether the step from the state at `i` is one of the construction and of the system.
    pub open spec fn step_valid(self, i: int) -> bool {
        &&& self.states[i].pending() is Some
        &&& self.states[i + 1] == self.states[i].after(self.has_memfd_secret, self.replies[i])
        &&& answers(
            self.processes[i],
            self.secret,
            self.states[i].pending()->0,
            self.replies[i],
            self.processes[i + 1],
        )
    }
}

/// What the process looks like, compared with the one at the start, while the construction stands
/// at `state`.
pub open spec fn stands(
    before: Process,
    secret: Seq<u8>,
    state: Setup,
    now: Process,
) -> bool {
    match state {
        Setup::PageSize => now == before,
        Setup::OpenMemfd { page } => now == before,
        Setup::MapAnonymous { page } => now == before,
        Setup::Failed => now == before,
        Setup::SizeMemfd { page, fd } => holds_file(before, fd, 0, now),
        Setup::MapMemfd { page, fd } => holds_file(before, fd, page as nat, now),
        Setup::CloseMemfd { page, fd } => holds_file(before, fd, now.files[fd].len, now),
        Setup::CopyIn { at } => {
            &&& adds_page(before, at, now)
            &&& now.regions[at.addr].access == Access::ReadWrite
        },
        Setup::Lock { at } => adds_secret(before, at, secret, now),
        Setup::Seal { at } => adds_secret(before, at, secret, now),
        Setup::Ready { at } => adds_secret(before, at, secret, now),
    }
}

/// Whether `now` is `before` with the secret memory file `fd` of the length `len` open besides, and
/// nothing mapped.
pub open spec fn holds_file(before: Process, fd: i32, len: nat, now: Process) -> bool {
    &&& adds_file(before, fd, len, now)
    &&& now.regions == before.regions
    &&& now.page_size == before.page_size
}

/// One step of a construction, from any state, takes the process from what [`stands`] says of the
/// state before it to what it says of the state after it, whatever the system answers.
pub proof fn setup_step_keeps_books(
    has_memfd_secret: bool,
    before: Process,
    secret: Seq<u8>,
    state: Setup,
    reply: isize,
    now: Process,
    next: Process,
)
    requires
        secret.len() == SECRET_LEN,
        stands(before, secret, state, now),
        state.pending() is Some,
        answers(now, secret, state.pending()->0, reply, next),
    ensures
        stands(before, secret, state.after(has_memfd_secret, reply), next),
{
    match state {
        Setup::OpenMemfd { page } => {
            if reply >= 0 {
                let fd = reply as i32;
                assert(next.files.remove(fd) =~= before.files);
            }
        },
        Setup::SizeMemfd { page, fd } => {
            let id = now.files[fd].id;
            assert(!now.maps_file(id)) by {
                assert(!before.maps_file(id));
                if now.maps_file(id) {
                    let addr = choose|addr: usize| #[trigger]
                        now.regions.contains_key(addr) && now.regions[addr].file == Some(id);
                    assert(before.regions.contains_key(addr));
                }
            }
            assert(next.files.remove(fd) =~= before.files);
        },
        Setup::MapMemfd { page, fd } => {
            let at = GuardedPage { addr: reply as usize, page, memfd: Some(fd) };
            if reply != -1 {
                assert(next.regions.remove(at.addr) =~= before.regions);
            }
        },
        Setup::MapAnonymous { page } => {
            let at = GuardedPage { addr: reply as usize, page, memfd: None };
            if reply != -1 {
                assert(next.regions.remove(at.addr) =~= before.regions);
            }
        },
        Setup::CloseMemfd { page, fd } => {
            assert(next =~= before);
        },
        Setup::CopyIn { at } => {
            assert(next.regions.remove(at.addr) =~= before.regions);
            assert(next.secret_at(at.addr) =~= secret);
        },
        Setup::Lock { at } => {
            assert(next.regions.remove(at.addr) =~= before.regions);
        },
        Setup::Seal { at } => {
            assert(next.regions.remove(at.addr) =~= before.regions);
        },
        _ => {},
    }
}

/// Whether a construction that stands at `state` may meet the answer `reply` in the process `now`,
/// by what it is about: any trouble, and any success that there is room for. `id` is the number of a
/// file that a secret memory file may get.
pub open spec fn may_meet(state: Setup, now: Process, reply: isize, id: int) -> bool {
    match state {
        Setup::PageSize => reply == now.page_size,
        Setup::OpenMemfd { page } => reply < 0 || {
            &&& reply <= i32::MAX
            &&& !now.files.contains_key(reply as i32)
            &&& now.unused(id)
        },
        Setup::SizeMemfd { page, fd } => true,
        Setup::MapMemfd { page, fd } => reply == -1 || unmapped(now, reply as usize, page as int),
        Setup::CloseMemfd { page, fd } => true,
        Setup::MapAnonymous { page } => reply == -1 || unmapped(now, reply as usize, page as int),
        Setup::CopyIn { at } => at.page >= SECRET_LEN,
        Setup::Lock { at } => true,
        Setup::Seal { at } => true,
        Setup::Ready { at } => false,
        Setup::Failed => false,
    }
}

/// The call that a construction waits for, in any state, can be carried out and can be answered in
/// every way that [`may_meet`] lists: a new file can be got, the file that was got can be sized and
/// mapped, free memory can be mapped, and the secret can be copied in where a page has room for it.
pub proof fn setup_step_is_possible(
    before: Process,
    secret: Seq<u8>,
    state: Setup,
    now: Process,
    reply: isize,
    id: int,
)
    requires
        stands(before, secret, state, now),
        may_meet(state, now, reply, id),
    ensures
        state.pending() is Some,
        possible(now, secret, state.pending()->0, reply),
{
    let call = state.pending()->0;
    let next = match call {
        Call::MemfdSecret => if reply >= 0 {
            now.with_file(reply as i32, File { id, len: 0, secret: true })
        } else {
            now
        },
        Call::Truncate { fd, len } => if reply == 0 {
            now.with_file(fd, File { len: len as nat, ..now.files[fd] })
        } else {
            now
        },
        Call::MapShared { fd, len } => if reply == -1 {
            now
        } else {
            now.with_region(
                reply as usize,
                Region {
                    bytes: Seq::new(len as nat, |i: int| 0u8),
                    access: Access::ReadWrite,
                    locked: false,
                    file: Some(now.files[fd].id),
                    present: now.files[fd].len,
                },
            )
        },
        Call::MapAnonymous { len } => if reply == -1 {
            now
        } else {
            now.with_region(
                reply as usize,
                Region {
                    bytes: Seq::new(len as nat, |i: int| 0u8),
                    access: Access::ReadWrite,
                    locked: false,
                    file: None,
                    present: len as nat,
                },
            )
        },
        Call::CopyIn { addr } => now.with_region(
            addr,
            Region {
                bytes: overwritten(now.regions[addr].bytes, secret),
                ..now.regions[addr]
            },
        ),
        Call::Lock { addr, len } => if reply == 0 {
            now.with_region(addr, Region { locked: true, ..now.regions[addr] })
        } else {
            now
        },
        Call::Protect { addr, len, access } => if reply == 0 {
            now.with_region(addr, Region { access, ..now.regions[addr] })
        } else {
            now
        },
        Call::Close { fd } => Process { files: now.files.remove(fd), ..now },
        _ => now,
    };
    assert(answers(now, secret, call, reply, next));
}

/// The address that a call names.
pub open spec fn addr_of(call: Call) -> Option<usize> {
    match call {
        Call::CopyIn { addr } => Some(addr),
        Call::Lock { addr, len } => Some(addr),
        Call::Protect { addr, len, access } => Some(addr),
        Call::Wipe { addr } => Some(addr),
        Call::Unlock { addr, len } => Some(addr),
        Call::Unmap { addr, len } => Some(addr),
        _ => None,
    }
}

/// The length that a call names.
pub open spec fn len_of(call: Call) -> Option<usize> {
    match call {
        Call::Truncate { fd, len } => Some(len),
        Call::MapShared { fd, len } => Some(len),
        Call::MapAnonymous { len } => Some(len),
        Call::Lock { addr, len } => Some(len),
        Call::Protect { addr, len, access } => Some(len),
        Call::Unlock { addr, len } => Some(len),
        Call::Unmap { addr, len } => Some(len),
        _ => None,
    }
}

/// The descriptor that a call names.
pub open spec fn fd_of(call: Call) -> Option<i32> {
    match call {
        Call::Truncate { fd, len } => Some(fd),
        Call::MapShared { fd, len } => Some(fd),
        Call::Close { fd } => Some(fd),
        _ => None,
    }
}

/// Whether a call names no memory but the page `at`, whole, and no file but the one behind it.
pub open spec fn names_only(call: Call, at: GuardedPage) -> bool {
    &&& addr_of(call) matches Some(addr) ==> addr == at.addr
    &&& len_of(call) matches Some(len) ==> len == at.page
    &&& fd_of(call) matches Some(fd) ==> at.memfd == Some(fd)
}

/// A construction touches nothing that is not its own, in any state: every length is that of one
/// page, every file is the one it has opened, and every address is that of the page it has mapped.
pub proof fn setup_names_own_things(state: Setup, call: Option<Call>)
    requires
        call_ensures(Setup::call, (&state,), call),
    ensures
        call is None <==> state is Ready || state is Failed,
        call matches Some(call) ==> {
            &&& addr_of(call) == match state {
                Setup::CopyIn { at } => Some(at.addr),
                Setup::Lock { at } => Some(at.addr),
                Setup::Seal { at } => Some(at.addr),
                _ => None,
            }
            &&& len_of(call) == match state {
                Setup::SizeMemfd { page, fd } => Some(page),
                Setup::MapMemfd { page, fd } => Some(page),
                Setup::MapAnonymous { page } => Some(page),
                Setup::Lock { at } => Some(at.page),
                Setup::Seal { at } => Some(at.page),
                _ => None,
            }
            &&& fd_of(call) == match state {
                Setup::SizeMemfd { page, fd } => Some(fd),
                Setup::MapMemfd { page, fd } => Some(fd),
                Setup::CloseMemfd { page, fd } => Some(fd),
                _ => None,
            }
        },
{
}

/// What a call of a construction is for, on memory and files of any kind and size: once the system
/// agrees to it, the file that was opened is as long as the page, the page is out of swap, or out of
/// reach, or the file that was of no use is closed, and nothing else has changed. The page size and a
/// new file are asked for at their place and at no other, and the secret is copied in at its place
/// and at no other.
pub proof fn setup_calls_do_their_part(
    state: Setup,
    call: Option<Call>,
    now: Process,
    secret: Seq<u8>,
    next: Process,
)
    requires
        call_ensures(Setup::call, (&state,), call),
        call is Some,
        answers(now, secret, call->0, 0, next),
    ensures
        call->0 == Call::PageSize <==> state == Setup::PageSize,
        call->0 == Call::MemfdSecret <==> state is OpenMemfd,
        call->0 is CopyIn <==> state is CopyIn,
        call->0 is MapShared <==> state is MapMemfd,
        call->0 is MapAnonymous <==> state is MapAnonymous,
        !(call->0 is Wipe || call->0 is Unlock || call->0 is Unmap),
        match state {
            Setup::SizeMemfd { page, fd } => {
                &&& now.files.contains_key(fd)
                &&& !now.maps_file(now.files[fd].id) ==> next == now.with_file(
                    fd,
                    File { len: page as nat, ..now.files[fd] },
                )
            },
            Setup::CloseMemfd { page, fd } => next == (Process {
                files: now.files.remove(fd),
                ..now
            }),
            Setup::Lock { at } => now.is_mapping(at.addr, at.page) ==> next == now.with_region(
                at.addr,
                Region { locked: true, ..now.regions[at.addr] },
            ),
            Setup::Seal { at } => now.is_mapping(at.addr, at.page) ==> next == now.with_region(
                at.addr,
                Region { access: Access::Nothing, ..now.regions[at.addr] },
            ),
            _ => true,
        },
{
}

/// The page size that a construction goes by where the system says `page_size`.
pub open spec fn page_len(page_size: isize) -> int {
    if page_size > 0 {
        page_size as int
    } else {
        4096
    }
}

/// The page size that a construction in `state` goes by, once it has one.
pub open spec fn page_in(state: Setup) -> Option<usize> {
    match state {
        Setup::PageSize => None,
        Setup::OpenMemfd { page } => Some(page),
        Setup::SizeMemfd { page, fd } => Some(page),
        Setup::MapMemfd { page, fd } => Some(page),
        Setup::CloseMemfd { page, fd } => Some(page),
        Setup::MapAnonymous { page } => Some(page),
        Setup::CopyIn { at } => Some(at.page),
        Setup::Lock { at } => Some(at.page),
        Setup::Seal { at } => Some(at.page),
        Setup::Ready { at } => Some(at.page),
        Setup::Failed => None,
    }
}

/// The secret memory file that a construction in `state` answers for, if there is one.
pub open spec fn file_in(state: Setup) -> Option<i32> {
    match state {
        Setup::SizeMemfd { page, fd } => Some(fd),
        Setup::MapMemfd { page, fd } => Some(fd),
        Setup::CloseMemfd { page, fd } => Some(fd),
        Setup::CopyIn { at } => at.memfd,
        Setup::Lock { at } => at.memfd,
        Setup::Seal { at } => at.memfd,
        Setup::Ready { at } => at.memfd,
        _ => None,
    }
}

/// The memory that a construction in `state` answers for, if there is any.
pub open spec fn addr_in(state: Setup) -> Option<usize> {
    match state {
        Setup::CopyIn { at } => Some(at.addr),
        Setup::Lock { at } => Some(at.addr),
        Setup::Seal { at } => Some(at.addr),
        Setup::Ready { at } => Some(at.addr),
        _ => None,
    }
}

/// What a construction answers for, it keeps, whatever the system says: one page size to its end; a
/// file from the answer that opened it until it was closed; memory from the answer that mapped it.
/// It fails where anonymous memory was refused, and nowhere else, and holds neither file nor memory
/// then.
pub proof fn setup_keeps_what_it_holds(
    state: Setup,
    has_memfd_secret: bool,
    reply: isize,
    next: Setup,
)
    requires
        call_ensures(Setup::advance, (state, has_memfd_secret, reply), next),
    ensures
        next is Failed <==> state is Failed || (state is MapAnonymous && reply == -1),
        !(next is Failed) ==> {
            &&& page_in(next) is Some
            &&& if state is PageSize {
                page_in(next)->0 == page_len(reply)
            } else {
                page_in(next) == page_in(state)
            }
        },
        state is OpenMemfd && reply >= 0 ==> file_in(next) == Some(reply as i32),
        state is OpenMemfd && reply < 0 ==> file_in(next) is None,
        !(state is OpenMemfd || state is CloseMemfd) ==> file_in(next) == file_in(state),
        state is CloseMemfd ==> file_in(next) is None,
        addr_in(next) == match state {
            Setup::MapMemfd { page, fd } => if reply == -1 {
                None
            } else {
                Some(reply as usize)
            },
            Setup::MapAnonymous { page } => if reply == -1 {
                None
            } else {
                Some(reply as usize)
            },
            _ => addr_in(state),
        },
{
}

/// The order of a construction, whatever the system says: a file that was opened is sized, one that
/// was sized is mapped, one that was not sized or not mapped is closed; without a file, anonymous
/// memory is mapped; and what was mapped gets the secret, then the lock, then the seal. Which
/// platform it runs on is asked once, after the page size.
pub proof fn setup_goes_in_order(
    state: Setup,
    has_memfd_secret: bool,
    reply: isize,
    next: Setup,
)
    requires
        call_ensures(Setup::advance, (state, has_memfd_secret, reply), next),
    ensures
        next is OpenMemfd <==> state is PageSize && has_memfd_secret,
        next is SizeMemfd <==> state is OpenMemfd && reply >= 0,
        next is MapMemfd <==> state is SizeMemfd && reply == 0,
        next is CloseMemfd <==> {
            ||| state is SizeMemfd && reply != 0
            ||| state is MapMemfd && reply == -1
        },
        next is MapAnonymous <==> {
            ||| state is PageSize && !has_memfd_secret
            ||| state is OpenMemfd && reply < 0
            ||| state is CloseMemfd
        },
        next is CopyIn <==> (state is MapMemfd || state is MapAnonymous) && reply != -1,
        next is Lock <==> state is CopyIn,
        next is Seal <==> state is Lock,
        next is Ready <==> state is Seal || state is Ready,
        !(next is PageSize),
{
}

/// A construction begins with nothing: it asks for the page size first.
pub proof fn setup_begins_with_nothing(state: Setup, call: Option<Call>)
    requires
        call_ensures(Setup::new, (), state),
        call_ensures(Setup::call, (&state,), call),
    ensures
        call == Some(Call::PageSize),
        page_in(state) is None,
        file_in(state) is None,
        addr_in(state) is None,
{
}

/// What has ended stays as it ended, whatever it is told.
pub proof fn ended_setup_stays(state: Setup, has_memfd_secret: bool, reply: isize)
    requires
        state.pending() is None,
    ensures
        state is Ready || state is Failed,
        state.after(has_memfd_secret, reply) == state,
{
}

/// Through the whole of a construction the process is as [`stands`] says: nothing is mapped or open
/// but what the construction still needs, the new page lies where nothing was mapped and may be
/// written when the secret is copied in, and from then on it holds the secret.
pub proof fn setup_keeps_books(run: SetupRun, i: int)
    requires
        run.valid(),
        0 <= i < run.states.len(),
    ensures
        stands(run.processes[0], run.secret, run.states[i], run.processes[i]),
    decreases i,
{
    if i > 0 {
        setup_keeps_books(run, i - 1);
        assert(run.step_valid(i - 1));
        setup_step_keeps_books(
            run.has_memfd_secret,
            run.processes[0],
            run.secret,
            run.states[i - 1],
            run.replies[i - 1],
            run.processes[i - 1],
            run.processes[i],
        );
    }
}

/// How many more calls a construction makes at most.
pub open spec fn calls_left(state: Setup) -> nat {
    match state {
        Setup::PageSize => 9,
        Setup::OpenMemfd { page } => 8,
        Setup::SizeMemfd { page, fd } => 7,
        Setup::MapMemfd { page, fd } => 6,
        Setup::CloseMemfd { page, fd } => 5,
        Setup::MapAnonymous { page } => 4,
        Setup::CopyIn { at } => 3,
        Setup::Lock { at } => 2,
        Setup::Seal { at } => 1,
        Setup::Ready { at } => 0,
        Setup::Failed => 0,
    }
}

/// Every construction ends, after nine calls at most, whatever the system answers.
pub proof fn setup_ends(run: SetupRun)
    requires
        run.valid(),
    ensures
        run.replies.len() <= 9,
        run.replies.len() == 9 ==> run.states.last().pending() is None,
        run.replies.len() + calls_left(run.states.last()) <= 9,
{
    setup_approaches_end(run, run.states.len() - 1);
}

/// Each call brings the end of a construction closer.
proof fn setup_approaches_end(run: SetupRun, i: int)
    requires
        run.valid(),
        0 <= i < run.states.len(),
    ensures
        i + calls_left(run.states[i]) <= 9,
    decreases i,
{
    if i > 0 {
        setup_approaches_end(run, i - 1);
        assert(run.step_valid(i - 1));
    }
}

/// Whether the system lets the construction map a secret memory file: the platform knows them, and
/// the file is opened, sized and mapped.
pub open spec fn maps_secret_file(run: SetupRun) -> bool {
    &&& run.has_memfd_secret
    &&& run.replies[1] >= 0
    &&& run.replies[2] == 0
    &&& run.replies[3] != -1
}

/// A construction that has ended maps the secret memory file wherever the system lets it. Any
/// trouble with the file leads to anonymous memory instead, and nothing but a failed anonymous
/// mapping ends the construction without a page: the answers to the lock and to the sealing do not
/// matter. The page lies where the mapping that succeeded lies.
pub proof fn setup_falls_back(run: SetupRun)
    requires
        run.valid(),
        run.states.last().pending() is None,
    ensures
        match run.states.last() {
            Setup::Ready { at } => {
                let mapping = run.replies.len() - 4;
                &&& mapping >= 1
                &&& at.page == if run.replies[0] > 0 {
                    run.replies[0] as int
                } else {
                    4096
                }
                &&& run.replies[mapping] != -1
                &&& at.addr == run.replies[mapping] as usize
                &&& if maps_secret_file(run) {
                    &&& mapping == 3
                    &&& at.memfd matches Some(fd) && fd == run.replies[1]
                } else {
                    &&& run.states[mapping] == (Setup::MapAnonymous { page: at.page })
                    &&& at.memfd == None::<i32>
                }
            },
            Setup::Failed => {
                &&& run.replies.last() == -1
                &&& run.states[run.states.len() - 2] is MapAnonymous
                &&& !maps_secret_file(run)
            },
            _ => false,
        },
{
    setup_ends(run);
    unroll(run);
}

/// Every step of a construction, one by one: there are nine at most.
proof fn unroll(run: SetupRun)
    requires
        run.valid(),
    ensures
        run.replies.len() > 0 ==> run.step_valid(0),
        run.replies.len() > 1 ==> run.step_valid(1),
        run.replies.len() > 2 ==> run.step_valid(2),
        run.replies.len() > 3 ==> run.step_valid(3),
        run.replies.len() > 4 ==> run.step_valid(4),
        run.replies.len() > 5 ==> run.step_valid(5),
        run.replies.len() > 6 ==> run.step_valid(6),
        run.replies.len() > 7 ==> run.step_valid(7),
        run.replies.len() > 8 ==> run.step_valid(8),
{
}

impl SetupRun {
    /// Whether the call made at step `i` closes the file `fd`.
    pub open spec fn closes(self, i: int, fd: i32) -> bool {
        0 <= i < self.replies.len() && self.states[i].pending() == Some(Call::Close { fd })
    }
}

/// A secret memory file that a construction opened is either handed over with the page, and was
/// never closed, or was closed exactly once, and no page refers to it: no file is lost, and none is
/// both handed over and closed.
pub proof fn setup_keeps_or_closes_file(run: SetupRun)
    requires
        run.valid(),
        run.states.last().pending() is None,
        run.has_memfd_secret,
        run.replies[1] >= 0,
    ensures
        ({
            let fd = run.replies[1] as i32;
            if maps_secret_file(run) {
                &&& run.states.last() matches Setup::Ready { at } && at.memfd == Some(fd)
                &&& forall|i: int| !#[trigger] run.closes(i, fd)
            } else {
                &&& run.states.last() matches Setup::Ready { at } ==> at.memfd == None::<i32>
                &&& exists|i: int| #[trigger] run.closes(i, fd)
                &&& forall|i: int, j: int| #[trigger]
                    run.closes(i, fd) && #[trigger] run.closes(j, fd) ==> i == j
            }
        }),
{
    setup_falls_back(run);
    setup_ends(run);
    unroll(run);
    let fd = run.replies[1] as i32;
    if !maps_secret_file(run) {
        if run.replies[2] == 0 {
            assert(run.closes(4, fd));
        } else {
            assert(run.closes(3, fd));
        }
    }
}

/// A finished construction has added one page with the secret in it to the process, and nothing
/// else. The page is out of reach if the system agreed to seal it, and is kept out of swap if the
/// system agreed to lock it. A failed construction has changed nothing.
pub proof fn setup_stores_secret(run: SetupRun)
    requires
        run.valid(),
        run.states.last().pending() is None,
    ensures
        match run.states.last() {
            Setup::Ready { at } => {
                let n = run.replies.len() as int;
                let process = run.processes.last();
                &&& adds_secret(run.processes[0], at, run.secret, process)
                &&& run.replies[n - 1] == 0 ==> process.out_of_reach(at.addr)
                &&& run.replies[n - 2] == 0 ==> process.regions[at.addr].locked
            },
            _ => run.processes.last() == run.processes[0],
        },
{
    setup_falls_back(run);
    let n = run.replies.len() as int;
    setup_keeps_books(run, n);
    if run.states.last() is Ready {
        assert(run.step_valid(n - 1));
        assert(run.step_valid(n - 2));
        setup_keeps_books(run, n - 1);
        setup_keeps_books(run, n - 2);
    }
}

/// A construction goes by one page size from its first call to its last: the system's, or 4096
/// bytes where the system tells none.
pub proof fn setup_goes_by_page_size(run: SetupRun, i: int)
    requires
        run.valid(),
        0 < i < run.states.len(),
    ensures
        match page_in(run.states[i]) {
            Some(page) => page == page_len(run.processes[0].page_size),
            None => run.states[i] is Failed,
        },
    decreases i,
{
    assert(run.step_valid(i - 1));
    if i > 1 {
        setup_goes_by_page_size(run, i - 1);
    }
}

impl SetupRun {
    /// The run with one more step: the answer `reply` to the pending call, and the process then.
    pub open spec fn then_answered(self, reply: isize, next: Process) -> SetupRun {
        SetupRun {
            states: self.states.push(self.states.last().after(self.has_memfd_secret, reply)),
            replies: self.replies.push(reply),
            processes: self.processes.push(next),
            ..self
        }
    }
}

/// No construction gets stuck or ends the process: whatever has been answered so far, as long as it
/// has not ended it can go on, on every system whose pages have room for a secret.
pub proof fn setup_can_go_on(run: SetupRun)
    requires
        run.valid(),
        run.states.last().pending() is Some,
        page_len(run.processes[0].page_size) >= SECRET_LEN,
    ensures
        exists|reply: isize, next: Process| #[trigger] run.then_answered(reply, next).valid(),
{
    let n = run.replies.len() as int;
    let state = run.states.last();
    let now = run.processes.last();
    let reply: isize = if state == Setup::PageSize {
        now.page_size
    } else {
        (-1) as isize
    };
    setup_keeps_books(run, n);
    if n > 0 {
        setup_goes_by_page_size(run, n);
    }
    assert(!(state is Ready) && !(state is Failed));
    setup_step_is_possible(run.processes[0], run.secret, state, now, reply, 0);
    let next = choose|next: Process| #[trigger]
        answers(now, run.secret, state.pending()->0, reply, next);
    let more = run.then_answered(reply, next);
    assert forall|i: int| 0 <= i < more.replies.len() implies #[trigger] more.step_valid(i) by {
        if i < n {
            assert(run.step_valid(i));
        }
    }
    assert(more.valid());
}

/// A sequence of calls that was carried out: the calls, their answers, and the process before,
/// between and after them.
pub struct CallRun {
    pub calls: Seq<Call>,
    pub replies: Seq<isize>,
    pub processes: Seq<Process>,
}

impl CallRun {
    /// Whether the system answered every call.
    pub open spec fn valid(self) -> bool {
        &&& self.replies.len() == self.calls.len()
        &&& self.processes.len() == self.calls.len() + 1
        &&& forall|i: int| 0 <= i < self.calls.len() ==> #[trigger] self.step_valid(i)
    }

    /// Whether the system answered the call at `i`. None of the calls copies a secret in.
    pub open spec fn step_valid(self, i: int) -> bool {
        &&& !(self.calls[i] is CopyIn)
        &&& answers(
            self.processes[i],
            Seq::empty(),
            self.calls[i],
            self.replies[i],
            self.processes[i + 1],
        )
    }
}

/// One use of the secret begins or ends. Each use has a number of its own.
pub enum WindowStep {
    Open(int),
    Close(int),
}

/// Windows on a page, opened and closed by uses that may be nested or run on several threads: the
/// openings and closings in the order in which they happened, the uses under way before, between and
/// after them, how many windows were counted as open, the answers of the system, and the process.
pub struct WindowRun {
    pub steps: Seq<WindowStep>,
    pub uses: Seq<Set<int>>,
    pub counts: Seq<nat>,
    pub replies: Seq<isize>,
    pub processes: Seq<Process>,
}

impl WindowRun {
    /// Whether no use is under way at the start, and each step begins or ends one as the page `at`
    /// says.
    pub open spec fn valid(self, at: GuardedPage) -> bool {
        &&& self.replies.len() == self.steps.len()
        &&& self.uses.len() == self.steps.len() + 1
        &&& self.counts.len() == self.steps.len() + 1
        &&& self.processes.len() == self.steps.len() + 1
        &&& self.uses[0] == Set::<int>::empty()
        &&& self.counts[0] == 0
        &&& forall|i: int| 0 <= i < self.steps.len() ==> #[trigger] self.step_valid(at, i)
    }

    /// Whether the step at `i` begins a use that is not under way, or ends one that is, counts it,
    /// and makes the call that the page asks for, if any.
    pub open spec fn step_valid(self, at: GuardedPage, i: int) -> bool {
        &&& match self.steps[i] {
            WindowStep::Open(one) => {
                &&& !self.uses[i].contains(one)
                &&& self.uses[i + 1] == self.uses[i].insert(one)
            },
            WindowStep::Close(one) => {
                &&& self.uses[i].contains(one)
                &&& self.uses[i + 1] == self.uses[i].remove(one)
            },
        }
        &&& self.counts[i + 1] == self.asks(at, i).0
        &&& match self.asks(at, i).1 {
            Some(call) => answers(
                self.processes[i],
                Seq::empty(),
                call,
                self.replies[i],
                self.processes[i + 1],
            ),
            None => self.processes[i + 1] == self.processes[i],
        }
    }

    /// What the page says to the step at `i`.
    pub open spec fn asks(self, at: GuardedPage, i: int) -> (nat, Option<Call>) {
        match self.steps[i] {
            WindowStep::Open(one) => at.after_open(self.counts[i]),
            WindowStep::Close(one) => at.after_close(self.counts[i]),
        }
    }

    /// Whether the system agreed whenever the page was to become readable.
    pub open spec fn openings_granted(self, at: GuardedPage) -> bool {
        forall|i: int|
            0 <= i < self.steps.len() && (#[trigger] self.asks(at, i)).1 == Some(
                Call::Protect { addr: at.addr, len: at.page, access: Access::Read },
            ) ==> self.replies[i] == 0
    }
}

/// However often windows are opened and closed, in whatever order and however many at once, the page
/// holds the secret that was copied in, and the rest of the process does not change. The count is
/// the number of uses under way.
pub proof fn windows_keep_secret(
    before: Process,
    at: GuardedPage,
    secret: Seq<u8>,
    run: WindowRun,
    i: int,
)
    requires
        run.valid(at),
        adds_secret(before, at, secret, run.processes[0]),
        0 <= i <= run.steps.len(),
    ensures
        adds_secret(before, at, secret, run.processes[i]),
        run.uses[i].finite(),
        run.counts[i] == run.uses[i].len(),
    decreases i,
{
    if i > 0 {
        windows_keep_secret(before, at, secret, run, i - 1);
        assert(run.step_valid(at, i - 1));
        assert(run.processes[i].regions.remove(at.addr) =~= before.regions);
        assert(run.processes[i].secret_at(at.addr) =~= secret);
    }
}

/// While any use is under way the page can be read, and not written, and what is read is the secret
/// that was copied in: no use takes the page away from another, be it nested in it or on another
/// thread. The system need only have agreed to make the page readable whenever it was asked to.
pub proof fn windows_show_secret(
    before: Process,
    at: GuardedPage,
    secret: Seq<u8>,
    run: WindowRun,
    i: int,
)
    requires
        run.valid(at),
        run.openings_granted(at),
        adds_secret(before, at, secret, run.processes[0]),
        0 <= i <= run.steps.len(),
    ensures
        run.counts[i] > 0 ==> {
            &&& run.processes[i].readable(at.addr)
            &&& run.processes[i].regions[at.addr].access == Access::Read
            &&& run.processes[i].secret_at(at.addr) == secret
        },
        forall|one: int| #[trigger] run.uses[i].contains(one) ==> run.counts[i] > 0,
    decreases i,
{
    windows_keep_secret(before, at, secret, run, i);
    if i > 0 {
        windows_show_secret(before, at, secret, run, i - 1);
        windows_keep_secret(before, at, secret, run, i - 1);
        assert(run.step_valid(at, i - 1));
        assert(run.asks(at, i - 1).0 == run.counts[i]);
    }
    assert forall|one: int| #[trigger] run.uses[i].contains(one) implies run.counts[i] > 0 by {
        assert(run.uses[i].remove(one).len() < run.uses[i].len());
    }
}

/// Once the last use has ended the page is out of reach, if the system agreed to that.
pub proof fn windows_leave_page_sealed(
    before: Process,
    at: GuardedPage,
    secret: Seq<u8>,
    run: WindowRun,
    i: int,
)
    requires
        run.valid(at),
        adds_secret(before, at, secret, run.processes[0]),
        0 < i <= run.steps.len(),
        run.counts[i] == 0,
        run.replies[i - 1] == 0,
    ensures
        run.uses[i] == Set::<int>::empty(),
        run.processes[i].out_of_reach(at.addr),
{
    windows_keep_secret(before, at, secret, run, i);
    windows_keep_secret(before, at, secret, run, i - 1);
    assert(run.step_valid(at, i - 1));
    if run.steps[i - 1] is Close {
        let one = run.steps[i - 1]->Close_0;
        assert(run.uses[i - 1].remove(one).len() < run.uses[i - 1].len());
    }
    assert(run.uses[i] =~= Set::<int>::empty());
}

/// A use of the secret with no other under way changes the protection of the whole page exactly
/// twice: the page is made readable before it and sealed after it. In between the secret can be read
/// and not written; afterwards the page is as it was, and out of reach.
pub proof fn lone_window_opens_and_closes(
    before: Process,
    at: GuardedPage,
    secret: Seq<u8>,
    one: int,
    run: WindowRun,
)
    requires
        run.valid(at),
        run.steps == seq![WindowStep::Open(one), WindowStep::Close(one)],
        run.replies == seq![0isize, 0isize],
        adds_secret(before, at, secret, run.processes[0]),
    ensures
        run.asks(at, 0).1 == Some(
            Call::Protect { addr: at.addr, len: at.page, access: Access::Read },
        ),
        run.asks(at, 1).1 == Some(
            Call::Protect { addr: at.addr, len: at.page, access: Access::Nothing },
        ),
        run.processes[1].readable(at.addr),
        !run.processes[1].writable(at.addr),
        run.processes[1].secret_at(at.addr) == secret,
        run.processes[2].out_of_reach(at.addr),
        adds_secret(before, at, secret, run.processes[2]),
        run.counts[2] == 0,
{
    assert(run.step_valid(at, 0));
    assert(run.step_valid(at, 1));
    windows_show_secret(before, at, secret, run, 1);
    windows_keep_secret(before, at, secret, run, 2);
    windows_leave_page_sealed(before, at, secret, run, 2);
}

/// An opening counts one window more. Where it is the first, the call that it asks for can be carried
/// out whatever has become of the page, and once the system agrees the page can be read, and nothing
/// else about the process has changed. Beside other windows it asks for nothing.
pub proof fn opening_makes_page_readable(
    before: Process,
    at: GuardedPage,
    now: Process,
    open: usize,
    opened: (usize, Option<Call>),
)
    requires
        adds_page(before, at, now),
        open < usize::MAX,
        call_ensures(GuardedPage::open_window, (&at, open), opened),
    ensures
        opened.0 == open + 1,
        opened.1 is Some <==> open == 0,
        opened.1 matches Some(call) ==> {
            &&& forall|reply: isize| #[trigger] possible(now, Seq::empty(), call, reply)
            &&& forall|next: Process| #[trigger]
                answers(now, Seq::empty(), call, 0, next) ==> next == now.with_region(
                    at.addr,
                    Region { access: Access::Read, ..now.regions[at.addr] },
                )
            &&& at.page >= SECRET_LEN ==> forall|next: Process| #[trigger]
                answers(now, Seq::empty(), call, 0, next) ==> {
                    &&& next.readable(at.addr)
                    &&& !next.writable(at.addr)
                    &&& next.secret_at(at.addr) == now.secret_at(at.addr)
                }
        },
{
    if opened.1 is Some {
        let call = opened.1->0;
        assert forall|reply: isize| #[trigger] possible(now, Seq::empty(), call, reply) by {
            protection_is_possible(now, at, Access::Read, reply);
        }
    }
}

/// A closing counts one window less. Where it is the last, the call that it asks for can be carried
/// out whatever has become of the page, and once the system agrees the page is out of reach, and
/// nothing else about the process has changed. Beside other windows it asks for nothing.
pub proof fn closing_puts_page_out_of_reach(
    before: Process,
    at: GuardedPage,
    now: Process,
    open: usize,
    closed: (usize, Option<Call>),
)
    requires
        adds_page(before, at, now),
        open > 0,
        call_ensures(GuardedPage::close_window, (&at, open), closed),
    ensures
        closed.0 == open - 1,
        closed.1 is Some <==> open == 1,
        closed.1 matches Some(call) ==> {
            &&& forall|reply: isize| #[trigger] possible(now, Seq::empty(), call, reply)
            &&& forall|next: Process| #[trigger]
                answers(now, Seq::empty(), call, 0, next) ==> {
                    &&& next.out_of_reach(at.addr)
                    &&& next == now.with_region(
                        at.addr,
                        Region { access: Access::Nothing, ..now.regions[at.addr] },
                    )
                }
        },
{
    if closed.1 is Some {
        let call = closed.1->0;
        assert forall|reply: isize| #[trigger] possible(now, Seq::empty(), call, reply) by {
            protection_is_possible(now, at, Access::Nothing, reply);
        }
    }
}

/// The protection of a whole page can be changed at any time.
proof fn protection_is_possible(now: Process, at: GuardedPage, access: Access, reply: isize)
    requires
        now.is_mapping(at.addr, at.page),
    ensures
        possible(
            now,
            Seq::empty(),
            Call::Protect { addr: at.addr, len: at.page, access },
            reply,
        ),
{
    let next = if reply == 0 {
        now.with_region(at.addr, Region { access, ..now.regions[at.addr] })
    } else {
        now
    };
    assert(answers(
        now,
        Seq::empty(),
        Call::Protect { addr: at.addr, len: at.page, access },
        reply,
        next,
    ));
}

/// Any use can begin, and any use under way can end, at any time: the step that the page asks for can
/// be carried out, and the system may agree to it or not.
pub proof fn windows_can_go_on(
    before: Process,
    at: GuardedPage,
    secret: Seq<u8>,
    run: WindowRun,
    i: int,
    reply: isize,
)
    requires
        run.valid(at),
        adds_secret(before, at, secret, run.processes[0]),
        0 <= i <= run.steps.len(),
    ensures
        at.after_open(run.counts[i]).1 matches Some(call) ==> possible(
            run.processes[i],
            Seq::empty(),
            call,
            reply,
        ),
        run.counts[i] > 0 ==> (at.after_close(run.counts[i]).1 matches Some(call) ==> possible(
            run.processes[i],
            Seq::empty(),
            call,
            reply,
        )),
{
    windows_keep_secret(before, at, secret, run, i);
    protection_is_possible(run.processes[i], at, Access::Read, reply);
    protection_is_possible(run.processes[i], at, Access::Nothing, reply);
}

/// At the end of its life a page may be written if the system agreed to that, is wiped before it is
/// unmapped, and once the system has agreed to unmap it the process is what it was before the page:
/// no mapping and no file is left behind. Even a page that stays mapped is left wiped.
pub proof fn release_leaves_nothing(
    before: Process,
    at: GuardedPage,
    secret: Seq<u8>,
    run: CallRun,
)
    requires
        run.valid(),
        run.calls == at.release_calls(),
        adds_secret(before, at, secret, run.processes[0]),
    ensures
        run.replies[0] == 0 ==> run.processes[1].writable(at.addr),
        run.processes[3].secret_at(at.addr) == zeros(),
        run.processes.last().files == before.files,
        run.replies[3] == 0 ==> run.processes.last() == before,
        run.replies[3] != 0 ==> run.processes.last().secret_at(at.addr) == zeros(),
{
    assert(run.step_valid(0));
    assert(run.step_valid(1));
    assert(run.step_valid(2));
    assert(run.step_valid(3));
    assert(run.processes[2].secret_at(at.addr) =~= zeros());
    assert(run.processes[3].secret_at(at.addr) =~= zeros());
    assert(run.processes[3].regions.remove(at.addr) =~= before.regions);
    if at.memfd is Some {
        assert(run.step_valid(4));
    }
    assert(run.processes.last().files =~= before.files);
    if run.replies[3] == 0 {
        assert(run.processes.last() =~= before);
    }
}

/// The calls that end a page's life are four, and a fifth where there is a file, and touch nothing
/// but the page and that file.
pub proof fn release_names_own_things(at: GuardedPage, calls: Vec<Call>)
    requires
        call_ensures(GuardedPage::release, (&at,), calls),
    ensures
        calls@.len() == if at.memfd is Some {
            5int
        } else {
            4int
        },
        forall|i: int|
            0 <= i < calls@.len() ==> {
                &&& names_only(#[trigger] calls@[i], at)
                &&& i < 4 <==> addr_of(calls@[i]) is Some
                &&& i == 4 <==> fd_of(calls@[i]) is Some
                &&& i == 1 <==> calls@[i] is Wipe
            },
{
}

/// What the calls that end a page's life are for, one by one, on a mapping of any kind and size: once
/// the system agrees, the page may be written; it holds zeros where the secret was; it is not locked;
/// it is gone; and its file is closed. Nothing else has changed.
pub proof fn release_calls_do_their_part(
    at: GuardedPage,
    calls: Vec<Call>,
    now: Process,
    i: int,
    next: Process,
)
    requires
        call_ensures(GuardedPage::release, (&at,), calls),
        0 <= i < calls@.len(),
        i < 4 ==> now.is_mapping(at.addr, at.page),
        answers(now, Seq::empty(), calls@[i], 0, next),
    ensures
        i == 0 ==> next == now.with_region(
            at.addr,
            Region { access: Access::ReadWrite, ..now.regions[at.addr] },
        ),
        i == 1 ==> {
            &&& next.secret_at(at.addr) == Seq::new(32, |j: int| 0u8)
            &&& next.regions.remove(at.addr) == now.regions.remove(at.addr)
            &&& next.files == now.files
        },
        i == 2 ==> next == now.with_region(
            at.addr,
            Region { locked: false, ..now.regions[at.addr] },
        ),
        i == 3 ==> next == (Process { regions: now.regions.remove(at.addr), ..now }),
        i == 4 ==> next == (Process { files: now.files.remove(at.memfd->0), ..now }),
{
    if i == 1 {
        assert(next.secret_at(at.addr) =~= Seq::new(32, |j: int| 0u8));
        assert(next.regions.remove(at.addr) =~= now.regions.remove(at.addr));
    }
}

/// A page at the end of its life can be wiped without a fault: the call that comes first can be
/// carried out, and once the system agrees to it the page may be written where the wipe writes, and
/// still holds the secret.
pub proof fn release_opens_page_for_wipe(
    before: Process,
    at: GuardedPage,
    secret: Seq<u8>,
    now: Process,
    next: Process,
)
    requires
        adds_secret(before, at, secret, now),
        answers(now, Seq::empty(), at.release_calls()[0], 0, next),
    ensures
        forall|reply: isize| #[trigger]
            possible(now, Seq::empty(), at.release_calls()[0], reply),
        next.writable(at.addr),
        next.secret_at(at.addr) == secret,
        at.release_calls()[1] == (Call::Wipe { addr: at.addr }),
        possible(next, Seq::empty(), at.release_calls()[1], 0),
{
    assert forall|reply: isize| #[trigger]
        possible(now, Seq::empty(), at.release_calls()[0], reply) by {
        protection_is_possible(now, at, Access::ReadWrite, reply);
    }
    assert(answers(
        next,
        Seq::empty(),
        Call::Wipe { addr: at.addr },
        0,
        next.with_region(
            at.addr,
            Region {
                bytes: overwritten(next.regions[at.addr].bytes, zeros()),
                ..next.regions[at.addr]
            },
        ),
    ));
}

/// The end of a page's life gets through: however many of its calls were made, the next can be
/// carried out, and the system may agree to it or not, if it agreed to the first, which gives write
/// access.
pub proof fn release_can_go_on(
    before: Process,
    at: GuardedPage,
    secret: Seq<u8>,
    run: CallRun,
    k: int,
    reply: isize,
)
    requires
        run.valid(),
        0 <= k < at.release_calls().len(),
        run.calls == at.release_calls().take(k),
        adds_secret(before, at, secret, run.processes[0]),
        k > 0 ==> run.replies[0] == 0,
    ensures
        !(at.release_calls()[k] is CopyIn),
        possible(run.processes[k], Seq::empty(), at.release_calls()[k], reply),
{
    let now = run.processes[k];
    let call = at.release_calls()[k];
    assert(k > 0 ==> run.step_valid(0));
    assert(k > 1 ==> run.step_valid(1));
    assert(k > 2 ==> run.step_valid(2));
    assert(k > 3 ==> run.step_valid(3));
    let region = now.regions[at.addr];
    let next = match call {
        Call::Protect { addr, len, access } => if reply == 0 {
            now.with_region(addr, Region { access, ..region })
        } else {
            now
        },
        Call::Wipe { addr } => now.with_region(
            addr,
            Region { bytes: overwritten(region.bytes, zeros()), ..region },
        ),
        Call::Unlock { addr, len } => if reply == 0 {
            now.with_region(addr, Region { locked: false, ..region })
        } else {
            now
        },
        Call::Unmap { addr, len } => if reply == 0 {
            Process { regions: now.regions.remove(addr), ..now }
        } else {
            now
        },
        Call::Close { fd } => Process { files: now.files.remove(fd), ..now },
        _ => now,
    };
    assert(answers(now, Seq::empty(), call, reply, next));
}

/// The first `k` calls of a page's release, carried out with the system's consent.
proof fn granted_release(
    before: Process,
    at: GuardedPage,
    secret: Seq<u8>,
    now: Process,
    k: int,
) -> (run: CallRun)
    requires
        adds_secret(before, at, secret, now),
        0 <= k <= at.release_calls().len(),
    ensures
        run.valid(),
        run.calls == at.release_calls().take(k),
        run.processes[0] == now,
        forall|i: int| 0 <= i < k ==> #[trigger] run.replies[i] == 0,
    decreases k,
{
    if k == 0 {
        CallRun { calls: at.release_calls().take(0), replies: Seq::empty(), processes: seq![now] }
    } else {
        let less = granted_release(before, at, secret, now, k - 1);
        release_can_go_on(before, at, secret, less, k - 1, 0);
        let call = at.release_calls()[k - 1];
        let next = choose|next: Process| #[trigger]
            answers(less.processes[k - 1], Seq::empty(), call, 0, next);
        let run = CallRun {
            calls: less.calls.push(call),
            replies: less.replies.push(0),
            processes: less.processes.push(next),
        };
        assert(run.calls =~= at.release_calls().take(k));
        assert forall|i: int| 0 <= i < run.calls.len() implies #[trigger] run.step_valid(i) by {
            if i < k - 1 {
                assert(less.step_valid(i));
            }
        }
        run
    }
}

/// Every page can be given back: if the system agrees to each call, all of them are carried out, in
/// order, and the process is then what it was before the page.
pub proof fn release_gets_through(before: Process, at: GuardedPage, secret: Seq<u8>, now: Process)
    requires
        adds_secret(before, at, secret, now),
    ensures
        exists|run: CallRun|
            {
                &&& #[trigger] run.valid()
                &&& run.calls == at.release_calls()
                &&& run.processes[0] == now
                &&& forall|i: int| 0 <= i < run.replies.len() ==> #[trigger] run.replies[i] == 0
                &&& run.processes.last() == before
            },
{
    let n = at.release_calls().len() as int;
    let run = granted_release(before, at, secret, now, n);
    assert(run.calls =~= at.release_calls());
    release_leaves_nothing(before, at, secret, run);
}

/// At the end of its life a page is wiped while it is still locked, if it was; it is unlocked before
/// it is unmapped, if the system agrees; and the file behind it is closed only after that.
pub proof fn release_wipes_first(
    before: Process,
    at: GuardedPage,
    secret: Seq<u8>,
    run: CallRun,
    i: int,
)
    requires
        run.valid(),
        run.calls == at.release_calls(),
        adds_secret(before, at, secret, run.processes[0]),
        0 <= i < run.calls.len(),
    ensures
        run.processes[i].secret_at(at.addr) != zeros() && run.processes[i].regions.contains_key(
            at.addr,
        ) ==> run.processes[i].regions[at.addr].locked == run.processes[0].regions[at.addr].locked,
        run.calls[i] is Unlock || run.calls[i] is Unmap ==> {
            &&& run.processes[i].regions.contains_key(at.addr)
            &&& run.processes[i].secret_at(at.addr) == zeros()
        },
        run.calls[i] is Unmap && i > 0 && run.replies[i - 1] == 0 ==> !run.processes[i].regions[
            at.addr
        ].locked,
        run.calls[i] is Close && i > 0 && run.replies[i - 1] == 0
            ==> !run.processes[i].regions.contains_key(at.addr),
        i == run.calls.len() - 1 ==> (run.calls[i] is Close <==> at.memfd is Some),
{
    assert(run.step_valid(0));
    assert(run.step_valid(1));
    assert(run.step_valid(2));
    assert(run.step_valid(3));
    assert(run.processes[2].secret_at(at.addr) =~= zeros());
    assert(run.processes[3].secret_at(at.addr) =~= zeros());
}

/// From the first call of a construction to the last call of the page's release, through any
/// number of windows, the process comes back to where it started if the system agrees to unmap the
/// page; and at no time in between does the page hold anything but the secret and, in the end,
/// zeros.
pub proof fn life_leaves_nothing(setup: SetupRun, windows: WindowRun, release: CallRun)
    requires
        setup.valid(),
        setup.states.last() is Ready,
        windows.valid(setup.states.last()->Ready_at),
        windows.processes[0] == setup.processes.last(),
        release.valid(),
        release.calls == setup.states.last()->Ready_at.release_calls(),
        release.processes[0] == windows.processes.last(),
        release.replies[3] == 0,
    ensures
        release.processes.last() == setup.processes[0],
        forall|i: int|
            0 <= i < windows.processes.len() ==> (#[trigger] windows.processes[i]).secret_at(
                setup.states.last()->Ready_at.addr,
            ) == setup.secret,
        release.processes[3].secret_at(setup.states.last()->Ready_at.addr) == zeros(),
{
    let at = setup.states.last()->Ready_at;
    let before = setup.processes[0];
    setup_stores_secret(setup);
    assert forall|i: int| 0 <= i < windows.processes.len() implies (
    #[trigger] windows.processes[i]).secret_at(at.addr) == setup.secret by {
        windows_keep_secret(before, at, setup.secret, windows, i);
    }
    windows_keep_secret(before, at, setup.secret, windows, windows.steps.len() as int);
    release_leaves_nothing(before, at, setup.secret, release);
}

/// Secrets in different pages are independent: a second page has no byte and no file in common with
/// the first, and with it in the process the first still holds its own secret, under the access it
/// had.
pub proof fn secrets_are_independent(
    before: Process,
    first: GuardedPage,
    first_secret: Seq<u8>,
    between: Process,
    second: GuardedPage,
    second_secret: Seq<u8>,
    now: Process,
)
    requires
        adds_secret(before, first, first_secret, between),
        adds_secret(between, second, second_secret, now),
    ensures
        first.addr != second.addr,
        apart(first.addr, first.page as int, second.addr, second.page as int),
        first.memfd is Some ==> first.memfd != second.memfd,
        now.regions[first.addr].file is Some ==> now.regions[first.addr].file
            != now.regions[second.addr].file,
        now.regions[first.addr] == between.regions[first.addr],
        now.secret_at(first.addr) == first_secret,
        now.secret_at(second.addr) == second_secret,
{
    assert(now.regions.remove(second.addr)[first.addr] == between.regions[first.addr]);
    if second.memfd is Some {
        let id = now.files[second.memfd->0].id;
        assert(between.regions.contains_key(first.addr));
        assert(!between.maps_file(id));
    }
}

} // verus!
