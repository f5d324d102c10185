//! Who the module acts for: the PAM transaction and the entry of its user in
//! the password database.

use libc::{c_int, gid_t, uid_t};
use vstd::prelude::*;

use crate::notice::Notice;
use crate::outside::erange;

verus! {

/// The code with which PAM reports success.
pub const PAM_SUCCESS: c_int = 0;

/// The size of the lookup buffer where the system suggests none.
pub const DEFAULT_BUFLEN: usize = 16384;

/// The size up to which the lookup buffer grows: one mebibyte.
pub const MAX_BUFLEN: usize = 1048576;

/// A PAM transaction. Nothing of it is known here but where it is.
#[allow(non_camel_case_types)]
#[derive(Clone, Copy, Debug, PartialEq, Eq, Structural)]
pub struct pam_handle_t {
    pub address: usize,
}

/// The transaction that a hook of the module was called in.
#[derive(Clone, Copy, Debug, PartialEq, Eq, Structural)]
pub struct PamHandle {
    pub handle: pam_handle_t,
}

impl PamHandle {
    /// Holds on to the transaction `pamh`.
    pub fn new(pamh: pam_handle_t) -> (r: Self)
        ensures
            r.handle == pamh,
    {
        Self { handle: pamh }
    }
}

/// What the module needs of an entry in the password database. The name and
/// the home directory are bytes, as the database holds them.
#[derive(Debug)]
pub struct PasswordInfo {
    pub name: Vec<u8>,
    pub dir: Vec<u8>,
    pub uid: uid_t,
    pub gid: gid_t,
}

/// How far the search for the user has come.
#[derive(Clone, Copy, Debug, PartialEq, Eq, Structural)]
pub enum FetchPhase {
    /// PAM is asked for the name.
    User,
    /// The system is asked how large the lookup buffer should be.
    SizeHint,
    /// The name is looked up with a buffer of this size.
    Lookup(usize),
    /// The entry is there.
    Found,
    /// There is no entry.
    Failed,
}

/// The search for the user of a transaction.
#[derive(Debug)]
pub struct FetchPwd {
    pub pam: PamHandle,
    pub phase: FetchPhase,
    pub entry: Option<PasswordInfo>,
}

/// An answer to the step that the search waits for.
#[derive(Debug)]
pub enum FetchReply {
    /// What asking PAM for the name returned, and whether there was a name.
    User { rc: c_int, named: bool },
    /// The suggested buffer size, not positive where there is none.
    SizeHint(isize),
    /// What the lookup returned, and the entry if it found one.
    Lookup { code: c_int, entry: Option<PasswordInfo> },
}

/// The code of a lookup whose buffer was too small, as Linux numbers it.
pub open spec fn too_small() -> c_int {
    34
}

/// The first buffer size to try.
pub open spec fn first_buflen(hint: isize) -> usize {
    if hint > 0 {
        hint as usize
    } else {
        DEFAULT_BUFLEN
    }
}

/// The buffer size to try after `buflen` was too small: twice as much, up to
/// the limit.
pub open spec fn grown_buflen(buflen: usize) -> usize {
    if 2 * buflen <= MAX_BUFLEN {
        (2 * buflen) as usize
    } else {
        MAX_BUFLEN
    }
}

/// The phase that follows. A lookup whose buffer was too small is repeated
/// with a larger one until the limit is reached. A reply to another phase
/// changes nothing.
pub open spec fn fetch_next(phase: FetchPhase, reply: FetchReply) -> FetchPhase {
    match (phase, reply) {
        (FetchPhase::User, FetchReply::User { rc, named }) => if rc == PAM_SUCCESS && named {
            FetchPhase::SizeHint
        } else {
            FetchPhase::Failed
        },
        (FetchPhase::SizeHint, FetchReply::SizeHint(hint)) => FetchPhase::Lookup(
            first_buflen(hint),
        ),
        (FetchPhase::Lookup(buflen), FetchReply::Lookup { code, entry }) => {
            if code == too_small() && buflen < MAX_BUFLEN {
                FetchPhase::Lookup(grown_buflen(buflen))
            } else if code == 0 && entry is Some {
                FetchPhase::Found
            } else {
                FetchPhase::Failed
            }
        },
        _ => phase,
    }
}

/// What a reply makes the search report: each failure once.
pub open spec fn fetch_notice(phase: FetchPhase, reply: FetchReply) -> Option<Notice> {
    match (phase, reply) {
        (FetchPhase::User, FetchReply::User { rc, .. }) => if fetch_next(phase, reply)
            == FetchPhase::Failed {
            Some(Notice::UserError(rc))
        } else {
            None
        },
        (FetchPhase::Lookup(_), FetchReply::Lookup { .. }) => if fetch_next(phase, reply)
            == FetchPhase::Failed {
            Some(Notice::LookupFailed)
        } else {
            None
        },
        _ => None,
    }
}

impl FetchPwd {
    /// A search that begins by asking PAM for the name.
    pub fn new(pam: PamHandle) -> (r: Self)
        ensures
            r.pam == pam,
            r.phase == FetchPhase::User,
            r.entry is None,
    {
        FetchPwd { pam, phase: FetchPhase::User, entry: None }
    }
}

/// Takes a search one step on.
pub fn fetch_pwd(search: FetchPwd, reply: FetchReply) -> (r: (FetchPwd, Option<Notice>))
    ensures
        r.0.pam == search.pam,
        r.0.phase == fetch_next(search.phase, reply),
        r.0.entry == (if r.0.phase == FetchPhase::Found && search.phase != FetchPhase::Found {
            reply->entry
        } else {
            search.entry
        }),
        r.1 == fetch_notice(search.phase, reply),
{
    let FetchPwd { pam, phase, entry } = search;
    match (phase, reply) {
        (FetchPhase::User, FetchReply::User { rc, named }) => {
            if rc == PAM_SUCCESS && named {
                (FetchPwd { pam, phase: FetchPhase::SizeHint, entry }, None)
            } else {
                (FetchPwd { pam, phase: FetchPhase::Failed, entry }, Some(Notice::UserError(rc)))
            }
        },
        (FetchPhase::SizeHint, FetchReply::SizeHint(hint)) => {
            let buflen: usize = if hint > 0 {
                hint as usize
            } else {
                DEFAULT_BUFLEN
            };
            (FetchPwd { pam, phase: FetchPhase::Lookup(buflen), entry }, None)
        },
        (FetchPhase::Lookup(buflen), FetchReply::Lookup { code, entry: found }) => {
            if code == erange() && buflen < MAX_BUFLEN {
                let larger: usize = if buflen * 2 <= MAX_BUFLEN {
                    buflen * 2
                } else {
                    MAX_BUFLEN
                };
                (FetchPwd { pam, phase: FetchPhase::Lookup(larger), entry }, None)
            } else if code == 0 && found.is_some() {
                (FetchPwd { pam, phase: FetchPhase::Found, entry: found }, None)
            } else {
                (
                    FetchPwd { pam, phase: FetchPhase::Failed, entry },
                    Some(Notice::LookupFailed),
                )
            }
        },
        _ => (FetchPwd { pam, phase, entry }, None),
    }
}

/// A lookup is repeated with a larger buffer each time, never with one above
/// the limit, and not at all once the limit is reached.
pub proof fn law_lookup_grows(buflen: usize, code: c_int, entry: Option<PasswordInfo>)
    requires
        buflen > 0,
    ensures
        ({
            let reply = FetchReply::Lookup { code, entry };
            let next = fetch_next(FetchPhase::Lookup(buflen), reply);
            &&& next matches FetchPhase::Lookup(larger) ==> buflen < larger <= MAX_BUFLEN
            &&& buflen >= MAX_BUFLEN ==> !(next is Lookup)
        }),
{
}

/// Where a lookup that begins with a buffer of `buflen` bytes ends, if a lookup
/// with a buffer of `n` bytes is answered by `answers(n)`.
pub open spec fn lookup_end(
    buflen: usize,
    answers: spec_fn(usize) -> (c_int, Option<PasswordInfo>),
) -> FetchPhase
    decreases (MAX_BUFLEN - buflen),
{
    let (code, entry) = answers(buflen);
    match fetch_next(FetchPhase::Lookup(buflen), FetchReply::Lookup { code, entry }) {
        FetchPhase::Lookup(larger) => if buflen < larger <= MAX_BUFLEN {
            lookup_end(larger, answers)
        } else {
            FetchPhase::Lookup(larger)
        },
        phase => phase,
    }
}

/// Every lookup ends: with the entry or without it.
pub proof fn law_lookup_ends(
    buflen: usize,
    answers: spec_fn(usize) -> (c_int, Option<PasswordInfo>),
)
    requires
        buflen > 0,
    ensures
        lookup_end(buflen, answers) == FetchPhase::Found || lookup_end(buflen, answers)
            == FetchPhase::Failed,
    decreases (MAX_BUFLEN - buflen),
{
    let (code, entry) = answers(buflen);
    match fetch_next(FetchPhase::Lookup(buflen), FetchReply::Lookup { code, entry }) {
        FetchPhase::Lookup(larger) => {
            law_lookup_ends(larger, answers);
        },
        _ => {},
    }
}

/// What becomes of a search, reply by reply: it goes on if and only if PAM
/// succeeds and gives a name; the first buffer has the suggested size, or 16384
/// bytes where none is suggested; a buffer that is too small is doubled, up to
/// one mebibyte; and the entry is found if and only if the lookup succeeds and
/// brings one. Every failure is reported.
pub proof fn law_search(
    rc: c_int,
    named: bool,
    hint: isize,
    buflen: usize,
    code: c_int,
    entry: Option<PasswordInfo>,
)
    ensures
        ({
            let user = FetchReply::User { rc, named };
            let next = fetch_next(FetchPhase::User, user);
            &&& next == FetchPhase::SizeHint <==> rc == 0 && named
            &&& next == FetchPhase::Failed <==> rc != 0 || !named
            &&& fetch_notice(FetchPhase::User, user) == if rc == 0 && named {
                None
            } else {
                Some(Notice::UserError(rc))
            }
        }),
        ({
            let suggested = FetchReply::SizeHint(hint);
            let next = fetch_next(FetchPhase::SizeHint, suggested);
            &&& hint > 0 ==> (next matches FetchPhase::Lookup(size) && size == hint)
            &&& hint <= 0 ==> (next matches FetchPhase::Lookup(size) && size == 16384)
            &&& fetch_notice(FetchPhase::SizeHint, suggested) is None
        }),
        ({
            let answer = FetchReply::Lookup { code, entry };
            let next = fetch_next(FetchPhase::Lookup(buflen), answer);
            let again = code == 34 && buflen < 1048576;
            &&& next is Lookup <==> again
            &&& next matches FetchPhase::Lookup(larger) ==> larger == if buflen <= 524288 {
                2 * buflen
            } else {
                1048576
            }
            &&& next == FetchPhase::Found <==> code == 0 && entry is Some
            &&& next == FetchPhase::Failed <==> !again && !(code == 0 && entry is Some)
            &&& fetch_notice(FetchPhase::Lookup(buflen), answer) == if next
                == FetchPhase::Failed {
                Some(Notice::LookupFailed)
            } else {
                None
            }
        }),
{
}

/// An entry that fits in a buffer of `fits` bytes, up to one mebibyte, is found
/// however small the first buffer is.
pub proof fn law_entry_is_found(buflen: usize, fits: usize, entry: PasswordInfo)
    requires
        buflen > 0,
        fits <= 1048576,
    ensures
        lookup_end(
            buflen,
            |n: usize|
                if n >= fits {
                    (0 as c_int, Some(entry))
                } else {
                    (34 as c_int, None)
                },
        ) == FetchPhase::Found,
    decreases (MAX_BUFLEN - buflen),
{
    if buflen < fits {
        law_entry_is_found(grown_buflen(buflen), fits, entry);
    }
}

} // verus!
