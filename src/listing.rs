use vstd::prelude::*;
use vstd::string::StringSliceAdditionalSpecFns;

use crate::path::{last_slash, sub_bytes};
use crate::reply::crlf;
use crate::text::{decimal, push_all, push_decimal, push_two_digits, text_bytes, two_digits, SLASH};

verus! {

/// The last second of the year 9999, in seconds since the Unix epoch.
/// Modification times before the epoch or after this second are not
/// rendered: not every system's local-time conversion accepts them.
pub const MTIME_MAX: i64 = 253402300799;

/// What a listing line shows of one filesystem entry.
pub struct EntryInfo {
    /// The entry's path; the line shows its last component.
    pub path: Vec<u8>,
    pub is_dir: bool,
    pub readonly: bool,
    /// Size in bytes.
    pub size: u64,
    /// Last modification, in seconds since the Unix epoch.
    pub mtime: i64,
}

/// A local calendar time, as far as a listing line shows it.
#[derive(Clone, Copy, Debug, PartialEq, Eq, Structural)]
pub struct LocalTime {
    /// Months since January, 0 to 11.
    pub month: i32,
    /// Day of the month, 1 to 31.
    pub day: i32,
    /// Hours after midnight, 0 to 23.
    pub hour: i32,
    /// Minutes after the hour, 0 to 59.
    pub minute: i32,
}

/// Whether each field of a local time lies in its documented range.
pub open spec fn valid_time(t: LocalTime) -> bool {
    0 <= t.month <= 11 && 1 <= t.day <= 31 && 0 <= t.hour <= 23 && 0 <= t.minute <= 59
}

/// Relies on time::at (with time::Timespec::new): the local calendar time of
/// a Unix timestamp, whose fields the crate documents to lie in the ranges
/// of `valid_time`. The bound keeps every implementation of the crate within
/// its domain: on Unix `localtime_r` succeeds, on Windows the conversion to a
/// file time neither overflows nor goes negative, and the portable fallback
/// (wasm, sgx) gives fields in range for times from the epoch on.
#[verifier::external_body]
fn local_time(secs: i64) -> (r: LocalTime)
    requires
        0 <= secs <= MTIME_MAX,
    ensures
        valid_time(r),
{
    let tm = time::at(time::Timespec::new(secs, 0));
    LocalTime { month: tm.tm_mon, day: tm.tm_mday, hour: tm.tm_hour, minute: tm.tm_min }
}

/// The abbreviation of a month, counted from 0 for January. September is
/// written `Sept`, as listings of this server always have.
pub open spec fn month_text(m: int) -> Seq<u8> {
    if m == 0 {
        "Jan".spec_bytes()
    } else if m == 1 {
        "Feb".spec_bytes()
    } else if m == 2 {
        "Mar".spec_bytes()
    } else if m == 3 {
        "Apr".spec_bytes()
    } else if m == 4 {
        "May".spec_bytes()
    } else if m == 5 {
        "Jun".spec_bytes()
    } else if m == 6 {
        "Jul".spec_bytes()
    } else if m == 7 {
        "Aug".spec_bytes()
    } else if m == 8 {
        "Sept".spec_bytes()
    } else if m == 9 {
        "Oct".spec_bytes()
    } else if m == 10 {
        "Nov".spec_bytes()
    } else {
        "Dec".spec_bytes()
    }
}

/// The last component of a path: what follows its last separator.
pub open spec fn last_component(p: Seq<u8>) -> Seq<u8> {
    p.subrange(last_slash(p) + 1, p.len() as int)
}

/// The type and permission columns: `d` or `-`, then read-only or writable
/// bits for everyone.
pub open spec fn mode_text(is_dir: bool, readonly: bool) -> Seq<u8> {
    (if is_dir {
        "d".spec_bytes()
    } else {
        "-".spec_bytes()
    }) + (if readonly {
        "r--r--r--".spec_bytes()
    } else {
        "rw-rw-rw-".spec_bytes()
    })
}

/// The listing line of an entry modified at local time `t`; hours and
/// minutes take two digits each.
pub open spec fn line_text(e: EntryInfo, t: LocalTime) -> Seq<u8> {
    mode_text(e.is_dir, e.readonly) + " 1 anonymous anonymous ".spec_bytes() + decimal(
        e.size as nat,
    ) + " ".spec_bytes() + month_text(t.month as int) + " ".spec_bytes() + decimal(t.day as nat)
        + " ".spec_bytes() + two_digits(t.hour as nat) + ":".spec_bytes() + two_digits(t.minute as nat)
        + " ".spec_bytes() + last_component(e.path@) + (if e.is_dir {
        "/".spec_bytes()
    } else {
        Seq::empty()
    }) + crlf()
}

/// The abbreviation of a month, counted from 0.
fn month_abbrev(m: i32) -> (r: Vec<u8>)
    requires
        0 <= m <= 11,
    ensures
        r@ == month_text(m as int),
{
    let s = if m == 0 {
        "Jan"
    } else if m == 1 {
        "Feb"
    } else if m == 2 {
        "Mar"
    } else if m == 3 {
        "Apr"
    } else if m == 4 {
        "May"
    } else if m == 5 {
        "Jun"
    } else if m == 6 {
        "Jul"
    } else if m == 7 {
        "Aug"
    } else if m == 8 {
        "Sept"
    } else if m == 9 {
        "Oct"
    } else if m == 10 {
        "Nov"
    } else {
        "Dec"
    };
    text_bytes(s)
}

/// The last component of a path.
fn last_component_of(p: &Vec<u8>) -> (r: Vec<u8>)
    ensures
        r@ == last_component(p@),
{
    let mut i: usize = p.len();
    proof {
        assert(p@.subrange(0, p@.len() as int) =~= p@);
    }
    while i > 0 && p[i - 1] != SLASH
        invariant
            i <= p@.len(),
            last_slash(p@) == last_slash(p@.subrange(0, i as int)),
        decreases i,
    {
        proof {
            assert(p@.subrange(0, i as int).drop_last() =~= p@.subrange(0, i - 1));
        }
        i = i - 1;
    }
    proof {
        if i == 0 {
            assert(p@.subrange(0, 0) =~= Seq::<u8>::empty());
        }
    }
    sub_bytes(p, i, p.len())
}

/// Appends `text` to `out`.
fn push_text(out: &mut Vec<u8>, text: &str)
    ensures
        final(out)@ == old(out)@ + text.spec_bytes(),
{
    let t = text_bytes(text);
    push_all(out, &t);
}

/// The listing line of an entry, given its local modification time.
pub fn listing_line(e: &EntryInfo, t: &LocalTime) -> (r: Vec<u8>)
    requires
        valid_time(*t),
    ensures
        r@ == line_text(*e, *t),
{
    let mut out: Vec<u8> = Vec::new();
    push_text(&mut out, if e.is_dir { "d" } else { "-" });
    push_text(&mut out, if e.readonly { "r--r--r--" } else { "rw-rw-rw-" });
    push_text(&mut out, " 1 anonymous anonymous ");
    push_decimal(&mut out, e.size);
    push_text(&mut out, " ");
    let month = month_abbrev(t.month);
    push_all(&mut out, &month);
    push_text(&mut out, " ");
    push_decimal(&mut out, t.day as u64);
    push_text(&mut out, " ");
    push_two_digits(&mut out, t.hour as u64);
    push_text(&mut out, ":");
    push_two_digits(&mut out, t.minute as u64);
    push_text(&mut out, " ");
    let name = last_component_of(&e.path);
    push_all(&mut out, &name);
    if e.is_dir {
        push_text(&mut out, "/");
    }
    out.push(13u8);
    out.push(10u8);
    proof {
        assert(out@ =~= line_text(*e, *t));
    }
    out
}

/// Appends the listing line of an entry to `out`. An entry whose
/// modification time lies before the epoch or after `MTIME_MAX` gets no line.
pub fn add_file_info(e: &EntryInfo, out: &mut Vec<u8>)
    ensures
        0 <= e.mtime <= MTIME_MAX ==> exists|t: LocalTime|
            valid_time(t) && final(out)@ == old(out)@ + line_text(*e, t),
        !(0 <= e.mtime <= MTIME_MAX) ==> final(out)@ == old(out)@,
{
    if 0 <= e.mtime && e.mtime <= MTIME_MAX {
        let t = local_time(e.mtime);
        let line = listing_line(e, &t);
        push_all(out, &line);
    }
}

/// What `add_file_info` appends for an entry modified at local time `t`:
/// its line, or nothing when its modification time is out of range.
pub open spec fn entry_text(e: EntryInfo, t: LocalTime) -> Seq<u8> {
    if 0 <= e.mtime <= MTIME_MAX {
        line_text(e, t)
    } else {
        Seq::empty()
    }
}

/// The listing of entries modified at the local times `ts`, in order.
pub open spec fn listing_text(es: Seq<EntryInfo>, ts: Seq<LocalTime>) -> Seq<u8>
    decreases es.len(),
{
    if es.len() == 0 || ts.len() == 0 {
        Seq::empty()
    } else {
        listing_text(es.drop_last(), ts.drop_last()) + entry_text(es.last(), ts.last())
    }
}

/// The entries a listing shows: the children of a directory, or the target
/// itself when it is a single file.
pub open spec fn listed(is_dir: bool, target: EntryInfo, children: Seq<EntryInfo>) -> Seq<
    EntryInfo,
> {
    if is_dir {
        children
    } else {
        seq![target]
    }
}

/// The listing of entries, one line each, in order.
pub fn list_entries(entries: &[EntryInfo]) -> (r: Vec<u8>)
    ensures
        exists|ts: Seq<LocalTime>|
            ts.len() == entries@.len() && (forall|k: int| 0 <= k < ts.len() ==> valid_time(
                #[trigger] ts[k],
            )) && r@ == listing_text(entries@, ts),
{
    let mut out: Vec<u8> = Vec::new();
    let ghost mut ts: Seq<LocalTime> = Seq::empty();
    let mut i: usize = 0;
    while i < entries.len()
        invariant
            i <= entries@.len(),
            ts.len() == i,
            forall|k: int| 0 <= k < ts.len() ==> valid_time(#[trigger] ts[k]),
            out@ == listing_text(entries@.subrange(0, i as int), ts),
        decreases entries@.len() - i,
    {
        let ghost before = out@;
        add_file_info(&entries[i], &mut out);
        proof {
            let e = entries@[i as int];
            let t = if 0 <= e.mtime <= MTIME_MAX {
                choose|t: LocalTime| valid_time(t) && out@ == before + line_text(e, t)
            } else {
                LocalTime { month: 0, day: 1, hour: 0, minute: 0 }
            };
            let ts0 = ts;
            ts = ts.push(t);
            let es = entries@.subrange(0, i + 1);
            assert(es.drop_last() =~= entries@.subrange(0, i as int));
            assert(ts.drop_last() =~= ts0);
            assert(out@ =~= listing_text(es, ts));
        }
        i = i + 1;
    }
    proof {
        assert(entries@.subrange(0, entries@.len() as int) =~= entries@);
    }
    out
}

/// The listing sent for a `LIST` target: one line per child of a directory,
/// or the single line of a file.
pub fn listing(is_dir: bool, target: EntryInfo, children: Vec<EntryInfo>) -> (r: Vec<u8>)
    ensures
        exists|ts: Seq<LocalTime>|
            ts.len() == listed(is_dir, target, children@).len() && (forall|k: int|
                0 <= k < ts.len() ==> valid_time(#[trigger] ts[k])) && r@ == listing_text(
                listed(is_dir, target, children@),
                ts,
            ),
{
    let ghost shown = listed(is_dir, target, children@);
    let entries: Vec<EntryInfo> = if is_dir {
        children
    } else {
        let mut one: Vec<EntryInfo> = Vec::new();
        one.push(target);
        one
    };
    proof {
        assert(entries@ =~= shown);
    }
    list_entries(entries.as_slice())
}

} // verus!
