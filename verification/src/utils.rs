//! Small shared helpers: fresh client message identifiers, the current time
//! as an RFC 3339 string, and the pure part of building a SQLite URL from a
//! filesystem path.

use vstd::prelude::*;
use crate::json::push_char;

verus! {

broadcast use vstd::seq::group_seq_axioms;

/// Relies on uuid::Uuid::new_v4 and its Display impl: a fresh version-4 UUID
/// printed in the hyphenated lower-case form, which is 36 characters.
#[verifier::external_body]
pub fn new_client_msg_id() -> (r: String)
    ensures
        r@.len() == 36,
{
    uuid::Uuid::new_v4().to_string()
}

/// Relies on time::OffsetDateTime::now_utc and Rfc3339 formatting: the date
/// and time are written as "YYYY-MM-DDTHH:MM:SS", an optional fraction
/// follows, and a UTC offset is written as a final 'Z'. Formatting the
/// current UTC clock cannot fail: its year has four digits and its offset is
/// zero.
#[verifier::external_body]
fn utc_now_rfc3339() -> (r: String)
    ensures
        r@.len() >= 20,
        r@[4] == '-' && r@[7] == '-' && r@[10] == 'T' && r@[13] == ':' && r@[16] == ':',
        r@[r@.len() - 1] == 'Z',
{
    let now = time::OffsetDateTime::now_utc();
    now.format(&time::format_description::well_known::Rfc3339).expect("format the current time")
}

/// The current instant in UTC as an RFC 3339 string, such as
/// "2025-11-02T12:34:56Z": date and time separated by 'T', ending in 'Z'.
pub fn now_timestamp() -> (r: String)
    ensures
        r@.len() >= 20,
        r@[4] == '-' && r@[7] == '-' && r@[10] == 'T' && r@[13] == ':' && r@[16] == ':',
        r@[r@.len() - 1] == 'Z',
{
    utc_now_rfc3339()
}

/// A path with every backslash turned into a forward slash.
pub open spec fn slashes_forward(s: Seq<char>) -> Seq<char> {
    Seq::new(s.len(), |i: int| if 0 <= i < s.len() && s[i] == '\\' { '/' } else if 0 <= i
        < s.len() {
        s[i]
    } else {
        ' '
    })
}

/// The SQLite URL for an absolute filesystem path: the `sqlite:///` scheme
/// ahead of the path, written with forward slashes.
pub fn sqlite_url_for_path_str(path: &str) -> (r: String)
    ensures
        r@ == ("sqlite:///")@ + slashes_forward(path@),
{
    let mut out = String::from_str("sqlite:///");
    let ghost prefix = out@;
    let n = path.unicode_len();
    let mut k: usize = 0;
    while k < n
        invariant
            n == path@.len(),
            k <= n,
            prefix == ("sqlite:///")@,
            out@ == prefix + slashes_forward(path@).take(k as int),
        decreases n - k,
    {
        let c = path.get_char(k);
        if c == '\\' {
            push_char(&mut out, '/');
        } else {
            push_char(&mut out, c);
        }
        proof {
            assert(out@ =~= prefix + slashes_forward(path@).take(k + 1 as int));
        }
        k = k + 1;
    }
    proof {
        assert(slashes_forward(path@).take(n as int) =~= slashes_forward(path@));
    }
    out
}

/// Whether `s` opens with `prefix`.
pub open spec fn has_prefix(s: Seq<char>, prefix: Seq<char>) -> bool {
    prefix.len() <= s.len() && s.take(prefix.len() as int) == prefix
}

fn starts_with_exec(s: &str, n: usize, prefix: &str) -> (r: bool)
    requires
        n == s@.len(),
    ensures
        r == has_prefix(s@, prefix@),
{
    let m = prefix.unicode_len();
    if m > n {
        return false;
    }
    let mut k: usize = 0;
    while k < m
        invariant
            n == s@.len(),
            m == prefix@.len(),
            m <= n,
            k <= m,
            forall|i: int| 0 <= i < k ==> s@[i] == prefix@[i],
        decreases m - k,
    {
        if s.get_char(k) != prefix.get_char(k) {
            proof {
                assert(s@.take(m as int)[k as int] != prefix@[k as int]);
            }
            return false;
        }
        k = k + 1;
    }
    proof {
        assert(s@.take(m as int) =~= prefix@);
    }
    true
}

/// How the server reads a configured database location: the in-memory URL is
/// kept as it is; an explicit `sqlite://` or `sqlite:///` scheme is stripped
/// down to the path; anything else is already a path.
pub enum DbLocation {
    InMemory,
    FilePath(String),
}

pub struct DbLocationV {
    pub in_memory: bool,
    pub path: Seq<char>,
}

impl View for DbLocation {
    type V = DbLocationV;

    open spec fn view(&self) -> DbLocationV {
        match self {
            DbLocation::InMemory => DbLocationV { in_memory: true, path: Seq::empty() },
            DbLocation::FilePath(p) => DbLocationV { in_memory: false, path: p@ },
        }
    }
}

/// The path part a configured value names.
pub open spec fn spec_db_location(raw: Seq<char>) -> DbLocationV {
    if raw == ("sqlite::memory:")@ {
        DbLocationV { in_memory: true, path: Seq::empty() }
    } else if has_prefix(raw, ("sqlite:///")@) {
        DbLocationV { in_memory: false, path: raw.skip(10) }
    } else if has_prefix(raw, ("sqlite://")@) {
        DbLocationV { in_memory: false, path: raw.skip(9) }
    } else {
        DbLocationV { in_memory: false, path: raw }
    }
}

/// Classifies a configured database location: the special in-memory URL, or
/// the filesystem path with any explicit sqlite scheme stripped.
pub fn classify_db_url(raw: &str) -> (r: DbLocation)
    ensures
        r@ == spec_db_location(raw@),
{
    proof {
        reveal_strlit("sqlite:///");
        reveal_strlit("sqlite://");
        assert(("sqlite:///")@.len() == 10);
        assert(("sqlite://")@.len() == 9);
    }
    let n = raw.unicode_len();
    let memory = String::from_str("sqlite::memory:");
    if raw_eq_string(raw, n, &memory) {
        DbLocation::InMemory
    } else if starts_with_exec(raw, n, "sqlite:///") {
        let rest = raw.substring_char(10, n);
        proof {
            assert(rest@ =~= raw@.skip(10));
        }
        DbLocation::FilePath(String::from_str(rest))
    } else if starts_with_exec(raw, n, "sqlite://") {
        let rest = raw.substring_char(9, n);
        proof {
            assert(rest@ =~= raw@.skip(9));
        }
        DbLocation::FilePath(String::from_str(rest))
    } else {
        DbLocation::FilePath(String::from_str(raw))
    }
}

fn raw_eq_string(s: &str, n: usize, other: &String) -> (r: bool)
    requires
        n == s@.len(),
    ensures
        r == (s@ == other@),
{
    let owned = String::from_str(s);
    owned == *other
}

} // verus!
