//! A secret in one page of memory that the system protects.
//!
//! The page is readable only for the brief window of a Diffie-Hellman operation; the rest of the time
//! it allows no access. Windows may overlap, nested or on several threads: the page is readable from
//! the first opening to the last closing. It is backed, best first, by
//!
//! * a secret memory file (`memfd_secret`, Linux): memory that only this process has mapped, and
//!   that the kernel itself does not map;
//! * an anonymous private mapping, locked into memory: wherever there are no secret memory files,
//!   or where getting one fails.
//!
//! Nothing here makes a system call. A [`Setup`] says which call comes next and is told the answer,
//! a [`GuardedPage`] says which calls open it, close it, and end its life. Whoever makes them keeps
//! the number of open windows, and lets no two openings or closings of one page run at once.
use vstd::prelude::*;

verus! {

/// What `mmap` returns, as a signed word, when it made no mapping.
pub const MAP_FAILED: isize = -1;

/// The page size assumed where the system does not tell its own.
pub const FALLBACK_PAGE: usize = 4096;

/// How the memory of a mapping may be accessed.
#[derive(Clone, Copy, Debug, PartialEq, Eq, Structural)]
pub enum Access {
    /// Neither reads nor writes.
    Nothing,
    /// Reads only.
    Read,
    /// Reads and writes.
    ReadWrite,
}

/// One thing that the page's owner asks of the system. The answer is the word that the system
/// call returns.
#[derive(Clone, Copy, Debug, PartialEq, Eq, Structural)]
pub enum Call {
    /// `sysconf(_SC_PAGESIZE)`.
    PageSize,
    /// `memfd_secret(0)`.
    MemfdSecret,
    /// `ftruncate(fd, len)`.
    Truncate { fd: i32, len: usize },
    /// `mmap` of the whole of `fd`, readable and writable, shared.
    MapShared { fd: i32, len: usize },
    /// `mmap` of anonymous memory, readable and writable, private.
    MapAnonymous { len: usize },
    /// Copy the secret to the first bytes at `addr`.
    CopyIn { addr: usize },
    /// `mlock(addr, len)`.
    Lock { addr: usize, len: usize },
    /// `mprotect(addr, len, access)`.
    Protect { addr: usize, len: usize, access: Access },
    /// Write zeros over the secret at `addr`.
    Wipe { addr: usize },
    /// `munlock(addr, len)`.
    Unlock { addr: usize, len: usize },
    /// `munmap(addr, len)`.
    Unmap { addr: usize, len: usize },
    /// `close(fd)`.
    Close { fd: i32 },
}

/// One page of memory that holds a secret, as the system handed it out.
#[derive(Clone, Copy, Debug, PartialEq, Eq, Structural)]
pub struct GuardedPage {
    /// Where the mapping starts.
    pub addr: usize,
    /// The length of the mapping: one page.
    pub page: usize,
    /// The secret memory file behind the mapping; `None` for an anonymous mapping.
    pub memfd: Option<i32>,
}

/// How far the construction of a page has come: the call whose answer it waits for, or its end.
#[derive(Clone, Copy, Debug, PartialEq, Eq, Structural)]
pub enum Setup {
    /// Asks for the page size.
    PageSize,
    /// Asks for a secret memory file.
    OpenMemfd { page: usize },
    /// Gives the file the length of one page.
    SizeMemfd { page: usize, fd: i32 },
    /// Maps the file.
    MapMemfd { page: usize, fd: i32 },
    /// Closes a file that could not be sized or mapped.
    CloseMemfd { page: usize, fd: i32 },
    /// Maps anonymous memory.
    MapAnonymous { page: usize },
    /// Copies the secret in.
    CopyIn { at: GuardedPage },
    /// Keeps the page out of swap.
    Lock { at: GuardedPage },
    /// Takes all access away.
    Seal { at: GuardedPage },
    /// The page holds the secret.
    Ready { at: GuardedPage },
    /// No memory could be mapped.
    Failed,
}

/// The page size that an answer to [`Call::PageSize`] stands for.
pub open spec fn page_size_of(reply: isize) -> usize {
    if reply > 0 {
        reply as usize
    } else {
        FALLBACK_PAGE
    }
}

/// Where the construction stands once an anonymous mapping was asked for.
pub open spec fn after_map_anonymous(page: usize, reply: isize) -> Setup {
    if reply == MAP_FAILED {
        Setup::Failed
    } else {
        Setup::CopyIn { at: GuardedPage { addr: reply as usize, page, memfd: None } }
    }
}

impl Setup {
    /// The call whose answer the construction waits for.
    pub open spec fn pending(self) -> Option<Call> {
        match self {
            Setup::PageSize => Some(Call::PageSize),
            Setup::OpenMemfd { page } => Some(Call::MemfdSecret),
            Setup::SizeMemfd { page, fd } => Some(Call::Truncate { fd, len: page }),
            Setup::MapMemfd { page, fd } => Some(Call::MapShared { fd, len: page }),
            Setup::CloseMemfd { page, fd } => Some(Call::Close { fd }),
            Setup::MapAnonymous { page } => Some(Call::MapAnonymous { len: page }),
            Setup::CopyIn { at } => Some(Call::CopyIn { addr: at.addr }),
            Setup::Lock { at } => Some(Call::Lock { addr: at.addr, len: at.page }),
            Setup::Seal { at } => Some(at.protect_with(Access::Nothing)),
            Setup::Ready { at } => None,
            Setup::Failed => None,
        }
    }

    /// Where the construction stands once the pending call was answered with `reply`.
    /// `has_memfd_secret` tells whether the platform knows secret memory files at all.
    pub open spec fn after(self, has_memfd_secret: bool, reply: isize) -> Setup {
        match self {
            Setup::PageSize => if has_memfd_secret {
                Setup::OpenMemfd { page: page_size_of(reply) }
            } else {
                Setup::MapAnonymous { page: page_size_of(reply) }
            },
            Setup::OpenMemfd { page } => if reply >= 0 {
                Setup::SizeMemfd { page, fd: reply as i32 }
            } else {
                Setup::MapAnonymous { page }
            },
            Setup::SizeMemfd { page, fd } => if reply == 0 {
                Setup::MapMemfd { page, fd }
            } else {
                Setup::CloseMemfd { page, fd }
            },
            Setup::MapMemfd { page, fd } => if reply == MAP_FAILED {
                Setup::CloseMemfd { page, fd }
            } else {
                Setup::CopyIn {
                    at: GuardedPage { addr: reply as usize, page, memfd: Some(fd) },
                }
            },
            Setup::CloseMemfd { page, fd } => Setup::MapAnonymous { page },
            Setup::MapAnonymous { page } => after_map_anonymous(page, reply),
            Setup::CopyIn { at } => Setup::Lock { at },
            Setup::Lock { at } => Setup::Seal { at },
            Setup::Seal { at } => Setup::Ready { at },
            Setup::Ready { at } => self,
            Setup::Failed => self,
        }
    }
}

impl GuardedPage {
    /// The call that gives the whole page the access `access`.
    pub open spec fn protect_with(self, access: Access) -> Call {
        Call::Protect { addr: self.addr, len: self.page, access }
    }
}

/// The page size that the answer of `sysconf` stands for: the answer itself where it is positive,
/// [`FALLBACK_PAGE`] otherwise.
pub fn page_size(reply: isize) -> (page: usize)
    ensures
        reply > 0 ==> page == reply,
        reply <= 0 ==> page == 4096,
        page == page_size_of(reply),
{
    if reply > 0 {
        reply as usize
    } else {
        FALLBACK_PAGE
    }
}

/// What an anonymous mapping that was answered with `reply` leads to: a page with no file behind
/// it, or the end of the construction where nothing was mapped.
fn map_anon(page: usize, reply: isize) -> (next: Setup)
    ensures
        next == after_map_anonymous(page, reply),
{
    if reply == MAP_FAILED {
        Setup::Failed
    } else {
        Setup::CopyIn { at: GuardedPage { addr: reply as usize, page, memfd: None } }
    }
}

impl Setup {
    /// The start of every construction.
    pub fn new() -> (setup: Setup)
        ensures
            setup == Setup::PageSize,
    {
        Setup::PageSize
    }

    /// The call to make next; `None` once the construction has ended.
    pub fn call(&self) -> (call: Option<Call>)
        ensures
            call == self.pending(),
    {
        match self {
            Setup::PageSize => Some(Call::PageSize),
            Setup::OpenMemfd { page: _ } => Some(Call::MemfdSecret),
            Setup::SizeMemfd { page, fd } => Some(Call::Truncate { fd: *fd, len: *page }),
            Setup::MapMemfd { page, fd } => Some(Call::MapShared { fd: *fd, len: *page }),
            Setup::CloseMemfd { page: _, fd } => Some(Call::Close { fd: *fd }),
            Setup::MapAnonymous { page } => Some(Call::MapAnonymous { len: *page }),
            Setup::CopyIn { at } => Some(Call::CopyIn { addr: at.addr }),
            Setup::Lock { at } => Some(Call::Lock { addr: at.addr, len: at.page }),
            Setup::Seal { at } => Some(at.seal()),
            Setup::Ready { at: _ } => None,
            Setup::Failed => None,
        }
    }

    /// Takes the answer to the pending call and goes on.
    ///
    /// The page is a secret memory file where the platform knows them, and anonymous memory where
    /// it does not or where any step with the file fails; a file that was opened in vain is closed
    /// first. Whether the page could be locked or sealed is not asked: neither failure ends the
    /// construction. Only a failed anonymous mapping does.
    pub fn advance(self, has_memfd_secret: bool, reply: isize) -> (next: Setup)
        ensures
            next == self.after(has_memfd_secret, reply),
    {
        match self {
            Setup::PageSize => {
                let page: usize = page_size(reply);
                if has_memfd_secret {
                    Setup::OpenMemfd { page }
                } else {
                    Setup::MapAnonymous { page }
                }
            },
            Setup::OpenMemfd { page } => {
                if reply >= 0 {
                    Setup::SizeMemfd { page, fd: reply as i32 }
                } else {
                    Setup::MapAnonymous { page }
                }
            },
            Setup::SizeMemfd { page, fd } => {
                if reply == 0 {
                    Setup::MapMemfd { page, fd }
                } else {
                    Setup::CloseMemfd { page, fd }
                }
            },
            Setup::MapMemfd { page, fd } => {
                if reply == MAP_FAILED {
                    Setup::CloseMemfd { page, fd }
                } else {
                    Setup::CopyIn {
                        at: GuardedPage { addr: reply as usize, page, memfd: Some(fd) },
                    }
                }
            },
            Setup::CloseMemfd { page, fd: _ } => Setup::MapAnonymous { page },
            Setup::MapAnonymous { page } => map_anon(page, reply),
            Setup::CopyIn { at } => Setup::Lock { at },
            Setup::Lock { at } => Setup::Seal { at },
            Setup::Seal { at } => Setup::Ready { at },
            Setup::Ready { at } => Setup::Ready { at },
            Setup::Failed => Setup::Failed,
        }
    }
}

impl GuardedPage {
    /// How many windows are open once one more is opened beside `open` others, and what that asks of
    /// the system: the first window makes the page readable, any other finds it so.
    pub open spec fn after_open(self, open: nat) -> (nat, Option<Call>) {
        (
            open + 1,
            if open == 0 {
                Some(self.protect_with(Access::Read))
            } else {
                None
            },
        )
    }

    /// How many windows are open once one of `open` is closed, and what that asks of the system: the
    /// last window takes all access away, any other leaves the page as it is.
    pub open spec fn after_close(self, open: nat) -> (nat, Option<Call>) {
        (
            (open - 1) as nat,
            if open == 1 {
                Some(self.protect_with(Access::Nothing))
            } else {
                None
            },
        )
    }

    /// Opens a window for one use of the secret, where `open` windows are open already: how many
    /// are open then, and the call to make, if any, before the secret is used.
    pub fn open_window(&self, open: usize) -> (opened: (usize, Option<Call>))
        requires
            open < usize::MAX,
        ensures
            opened.0 == open + 1,
            open == 0 ==> opened.1 == Some(
                Call::Protect { addr: self.addr, len: self.page, access: Access::Read },
            ),
            open != 0 ==> opened.1 == None::<Call>,
            (opened.0 as nat, opened.1) == self.after_open(open as nat),
    {
        if open == 0 {
            (1, Some(Call::Protect { addr: self.addr, len: self.page, access: Access::Read }))
        } else {
            (open + 1, None)
        }
    }

    /// Closes one of `open` windows, after the use that it was opened for: how many are open then,
    /// and the call to make, if any.
    pub fn close_window(&self, open: usize) -> (closed: (usize, Option<Call>))
        requires
            open > 0,
        ensures
            closed.0 == open - 1,
            open == 1 ==> closed.1 == Some(
                Call::Protect { addr: self.addr, len: self.page, access: Access::Nothing },
            ),
            open != 1 ==> closed.1 == None::<Call>,
            (closed.0 as nat, closed.1) == self.after_close(open as nat),
    {
        if open == 1 {
            (0, Some(self.seal()))
        } else {
            (open - 1, None)
        }
    }

    /// The call that takes all access away.
    fn seal(&self) -> (call: Call)
        ensures
            call == self.protect_with(Access::Nothing),
    {
        Call::Protect { addr: self.addr, len: self.page, access: Access::Nothing }
    }

    /// What the end of the page's life asks of the system, in this order: write access, zeros over
    /// the secret, no lock, no mapping, and, where there is one, no file.
    pub open spec fn release_calls(self) -> Seq<Call> {
        let calls = seq![
            self.protect_with(Access::ReadWrite),
            Call::Wipe { addr: self.addr },
            Call::Unlock { addr: self.addr, len: self.page },
            Call::Unmap { addr: self.addr, len: self.page },
        ];
        match self.memfd {
            Some(fd) => calls.push(Call::Close { fd }),
            None => calls,
        }
    }

    /// The calls that end the page's life, in order. Their answers are not asked for.
    pub fn release(&self) -> (calls: Vec<Call>)
        ensures
            calls@ == self.release_calls(),
    {
        let mut calls: Vec<Call> = vec![
            Call::Protect { addr: self.addr, len: self.page, access: Access::ReadWrite },
            Call::Wipe { addr: self.addr },
            Call::Unlock { addr: self.addr, len: self.page },
            Call::Unmap { addr: self.addr, len: self.page },
        ];
        if let Some(fd) = self.memfd {
            calls.push(Call::Close { fd });
        }
        calls
    }
}

} // verus!
