//! The procfs backend logic: reading the positional fields of a
//! parsed status record, the owner ids from the status text, the
//! cumulative I/O counters from the io text, and the NUL-separated
//! command line — and assembling one raw process record from them.
//! The pseudo-files themselves are read outside; this module consumes
//! their bytes.

use vstd::prelude::*;

use crate::memory::{mul_clamp, spec_clamp_u64};
use crate::process::{spec_sat_sub, CounterSample, ProcessIdentity, ProcessRecord};
use crate::stat::{
    copy_range, digits_value, is_ws, is_ws_byte, lemma_find_byte_is, parse_u64, parse_u64_or_zero,
    spec_find_byte, spec_split_byte, spec_split_ws, spells_u64, split_byte, split_ws,
};
use crate::status::ProcessStatus;
use crate::Pid;

verus! {

/// The single-letter state codes of the stat record, as bytes.
pub open spec fn spec_status_from_state_byte(b: u8) -> ProcessStatus {
    if b == 82 {  // R
        ProcessStatus::Run
    } else if b == 83 {  // S
        ProcessStatus::Sleep
    } else if b == 68 {  // D
        ProcessStatus::Idle
    } else if b == 90 {  // Z
        ProcessStatus::Zombie
    } else if b == 84 {  // T
        ProcessStatus::Stop
    } else if b == 116 {  // t
        ProcessStatus::Tracing
    } else if b == 88 || b == 120 {  // X, x
        ProcessStatus::Dead
    } else if b == 75 {  // K
        ProcessStatus::Wakekill
    } else if b == 87 {  // W
        ProcessStatus::Waking
    } else if b == 80 {  // P
        ProcessStatus::Parked
    } else {
        ProcessStatus::Unknown(b as u32)
    }
}

/// Maps a stat state byte to the shared enumeration.
pub fn status_from_state_byte(b: u8) -> (r: ProcessStatus)
    ensures
        r == spec_status_from_state_byte(b),
{
    match b {
        82 => ProcessStatus::Run,
        83 => ProcessStatus::Sleep,
        68 => ProcessStatus::Idle,
        90 => ProcessStatus::Zombie,
        84 => ProcessStatus::Stop,
        116 => ProcessStatus::Tracing,
        88 | 120 => ProcessStatus::Dead,
        75 => ProcessStatus::Wakekill,
        87 => ProcessStatus::Waking,
        80 => ProcessStatus::Parked,
        x => ProcessStatus::Unknown(x as u32),
    }
}

/// One byte sequence opens another.
pub open spec fn spec_starts_with(s: Seq<u8>, p: Seq<u8>) -> bool {
    p.len() <= s.len() && s.subrange(0, p.len() as int) == p
}

/// Tests whether one byte vector opens another.
#[verifier::loop_isolation(false)]
pub fn has_prefix(s: &Vec<u8>, p: &Vec<u8>) -> (r: bool)
    ensures
        r == spec_starts_with(s@, p@),
{
    let m = p.len();
    if m > s.len() {
        return false;
    }
    let mut i: usize = 0;
    while i < m
        invariant
            i <= m,
            forall|j: int| 0 <= j < i ==> s@[j] == p@[j],
        decreases m - i,
    {
        if s[i] != p[i] {
            proof {
                assert(s@.subrange(0, m as int)[i as int] != p@[i as int]);
            }
            return false;
        }
        i = i + 1;
    }
    proof {
        assert(s@.subrange(0, m as int) =~= p@);
    }
    true
}

/// The line prefix of the owner-user-id line of the status text.
pub open spec fn spec_uid_key() -> Seq<u8> {
    seq![85u8, 105u8, 100u8, 58u8]
}

/// The line prefix of the owner-group-id line of the status text.
pub open spec fn spec_gid_key() -> Seq<u8> {
    seq![71u8, 105u8, 100u8, 58u8]
}

fn uid_key() -> (r: Vec<u8>)
    ensures
        r@ == spec_uid_key(),
{
    let mut r: Vec<u8> = Vec::new();
    r.push(85);
    r.push(105);
    r.push(100);
    r.push(58);
    assert(r@ =~= spec_uid_key());
    r
}

fn gid_key() -> (r: Vec<u8>)
    ensures
        r@ == spec_gid_key(),
{
    let mut r: Vec<u8> = Vec::new();
    r.push(71);
    r.push(105);
    r.push(100);
    r.push(58);
    assert(r@ =~= spec_gid_key());
    r
}

/// The id an owner line carries: its third whitespace-separated token
/// (the effective id), read as a number. A line too short to hold the
/// token reads as zero; a token that is no number reads as nothing.
pub open spec fn spec_id_from_line(line: Seq<u8>) -> Option<u32> {
    let toks = spec_split_ws(line);
    if toks.len() < 3 {
        Some(0u32)
    } else if spells_u64(toks[2]) && digits_value(toks[2]) <= u32::MAX {
        Some(digits_value(toks[2]) as u32)
    } else {
        None
    }
}

/// Reads the effective id from one owner line.
fn id_from_line(line: &Vec<u8>) -> (r: Option<u32>)
    ensures
        r == spec_id_from_line(line@),
{
    let toks = split_ws(line);
    if toks.len() < 3 {
        return Some(0);
    }
    proof {
        assert(toks@[2].deep_view() =~= toks@[2]@);
        assert(toks.deep_view()[2] == toks@[2]@);
    }
    match parse_u64(&toks[2]) {
        Some(v) => if v <= u32::MAX as u64 {
            Some(v as u32)
        } else {
            None
        },
        None => None,
    }
}

/// The first line opening with the key whose effective id reads as a
/// number, if the text holds one.
pub open spec fn spec_first_id(lines: Seq<Seq<u8>>, key: Seq<u8>) -> Option<u32>
    decreases lines.len(),
{
    if lines.len() == 0 {
        None
    } else if spec_starts_with(lines[0], key) && spec_id_from_line(lines[0]) is Some {
        spec_id_from_line(lines[0])
    } else {
        spec_first_id(lines.drop_first(), key)
    }
}

#[verifier::loop_isolation(false)]
fn first_id(lines: &Vec<Vec<u8>>, key: &Vec<u8>) -> (r: Option<u32>)
    ensures
        r == spec_first_id(lines.deep_view(), key@),
{
    let n = lines.len();
    let mut i: usize = 0;
    proof {
        assert(lines.deep_view().subrange(0, n as int) =~= lines.deep_view());
    }
    while i < n
        invariant
            i <= n,
            spec_first_id(lines.deep_view(), key@) == spec_first_id(
                lines.deep_view().subrange(i as int, n as int),
                key@,
            ),
        decreases n - i,
    {
        proof {
            assert(lines@[i as int].deep_view() =~= lines@[i as int]@);
            assert(lines.deep_view()[i as int] == lines@[i as int]@);
            assert(lines.deep_view().subrange(i as int, n as int).drop_first()
                =~= lines.deep_view().subrange(i as int + 1, n as int));
            assert(lines.deep_view().subrange(i as int, n as int)[0] == lines@[i as int]@);
        }
        if has_prefix(&lines[i], key) {
            let found = id_from_line(&lines[i]);
            match found {
                Some(v) => {
                    return Some(v);
                },
                None => {},
            }
        }
        i = i + 1;
    }
    proof {
        assert(lines.deep_view().subrange(n as int, n as int) =~= Seq::<Seq<u8>>::empty());
    }
    None
}

/// The owner ids the status text names: the effective user and group
/// id, each from the first of its lines that carries a number. The
/// text yields nothing unless both are found — a caller then leaves
/// the owner fields at their defaults.
pub open spec fn spec_uid_gid(data: Seq<u8>) -> Option<(u32, u32)> {
    let lines = spec_split_byte(data, 10);
    match (spec_first_id(lines, spec_uid_key()), spec_first_id(lines, spec_gid_key())) {
        (Some(u), Some(g)) => Some((u, g)),
        _ => None,
    }
}

/// Reads the effective owner ids from the status text.
pub fn parse_uid_gid(data: &Vec<u8>) -> (r: Option<(u32, u32)>)
    ensures
        r == spec_uid_gid(data@),
{
    let lines = split_byte(data, 10);
    let uid = first_id(&lines, &uid_key());
    let gid = first_id(&lines, &gid_key());
    match (uid, gid) {
        (Some(u), Some(g)) => Some((u, g)),
        _ => None,
    }
}

} // verus!

verus! {

/// Whether a counter-line separator (a colon and a space) stands at
/// this position.
pub open spec fn is_sep_at(s: Seq<u8>, j: int) -> bool {
    0 <= j && j + 1 < s.len() && s[j] == 58 && s[j + 1] == 32
}

/// The position of the first counter-line separator, or the length.
pub open spec fn spec_find_sep(s: Seq<u8>) -> int
    decreases s.len(),
{
    if s.len() < 2 {
        s.len() as int
    } else if s[0] == 58 && s[1] == 32 {
        0
    } else {
        1 + spec_find_sep(s.drop_first())
    }
}

pub proof fn lemma_find_sep_is(s: Seq<u8>, m: int)
    requires
        0 <= m <= s.len(),
        forall|j: int| 0 <= j < m ==> !is_sep_at(s, j),
        m < s.len() ==> is_sep_at(s, m),
    ensures
        spec_find_sep(s) == m,
    decreases s.len(),
{
    if s.len() < 2 {
        // No pair fits: the only admissible position is the length.
        if m < s.len() {
            assert(!is_sep_at(s, m));
        }
    } else if m == 0 {
        assert(is_sep_at(s, 0));
    } else {
        assert(!is_sep_at(s, 0));
        assert forall|j: int| 0 <= j < m - 1 implies !is_sep_at(s.drop_first(), j) by {
            assert(s.drop_first()[j] == s[j + 1]);
            if is_sep_at(s.drop_first(), j) {
                assert(s.drop_first()[j + 1] == s[j + 2]);
                assert(is_sep_at(s, j + 1));
            }
        }
        if m - 1 < s.drop_first().len() {
            assert(s.drop_first()[m - 1] == s[m]);
            assert(s.drop_first()[m] == s[m + 1]);
        }
        lemma_find_sep_is(s.drop_first(), m - 1);
    }
}

/// Finds the first counter-line separator, or the length.
#[verifier::loop_isolation(false)]
fn find_sep(line: &Vec<u8>) -> (r: usize)
    ensures
        r as int == spec_find_sep(line@),
        r <= line@.len(),
        r < line@.len() ==> r + 2 <= line@.len(),
{
    let n = line.len();
    let mut i: usize = 0;
    while i < n && i + 1 < n && !(line[i] == 58 && line[i + 1] == 32)
        invariant
            i <= n,
            forall|j: int| 0 <= j < i ==> !is_sep_at(line@, j),
        decreases n - i,
    {
        i = i + 1;
    }
    if i < n && i + 1 < n {
        proof {
            lemma_find_sep_is(line@, i as int);
        }
        i
    } else {
        proof {
            assert forall|j: int| 0 <= j < n implies !is_sep_at(line@, j) by {
                if j >= i {
                    assert(j + 1 >= n);
                }
            }
            lemma_find_sep_is(line@, n as int);
        }
        n
    }
}

/// What one line of the I/O text says about the counter named by the
/// key: nothing when the line is not this counter's; the sampled
/// value when its first separated segment is the key and the second
/// reads as a number; a corrupt sample when the key matches but no
/// number follows.
pub open spec fn spec_io_line_sample(line: Seq<u8>, key: Seq<u8>) -> Option<CounterSample> {
    let i = spec_find_sep(line);
    if line.subrange(0, i) != key {
        None
    } else if i == line.len() {
        Some(CounterSample::Corrupt)
    } else {
        let rest = line.subrange(i + 2, line.len() as int);
        let value_seg = rest.subrange(0, spec_find_sep(rest));
        if spells_u64(value_seg) {
            Some(CounterSample::Value(digits_value(value_seg) as u64))
        } else {
            Some(CounterSample::Corrupt)
        }
    }
}

/// Reads one line of the I/O text for the counter named by the key.
fn io_line_sample(line: &Vec<u8>, key: &Vec<u8>) -> (r: Option<CounterSample>)
    ensures
        r == spec_io_line_sample(line@, key@),
{
    let n = line.len();
    let i = find_sep(line);
    let seg0 = copy_range(line, 0, i);
    if !vecs_equal(&seg0, key) {
        return None;
    }
    if i == n {
        return Some(CounterSample::Corrupt);
    }
    let rest = copy_range(line, i + 2, n);
    let j = find_sep(&rest);
    let value_seg = copy_range(&rest, 0, j);
    match parse_u64(&value_seg) {
        Some(v) => Some(CounterSample::Value(v)),
        None => Some(CounterSample::Corrupt),
    }
}

/// Tests two byte vectors for equality.
#[verifier::loop_isolation(false)]
fn vecs_equal(a: &Vec<u8>, b: &Vec<u8>) -> (r: bool)
    ensures
        r == (a@ == b@),
{
    if a.len() != b.len() {
        return false;
    }
    let n = a.len();
    let mut i: usize = 0;
    while i < n
        invariant
            i <= n,
            forall|j: int| 0 <= j < i ==> a@[j] == b@[j],
        decreases n - i,
    {
        if a[i] != b[i] {
            return false;
        }
        i = i + 1;
    }
    proof {
        assert(a@ =~= b@);
    }
    true
}

/// The sample of the counter named by the key: the first of its lines
/// decides; a text without such a line leaves the counter untouched.
pub open spec fn spec_io_sample(lines: Seq<Seq<u8>>, key: Seq<u8>) -> CounterSample
    decreases lines.len(),
{
    if lines.len() == 0 {
        CounterSample::Missing
    } else {
        match spec_io_line_sample(lines[0], key) {
            Some(cs) => cs,
            None => spec_io_sample(lines.drop_first(), key),
        }
    }
}

#[verifier::loop_isolation(false)]
fn io_sample(lines: &Vec<Vec<u8>>, key: &Vec<u8>) -> (r: CounterSample)
    ensures
        r == spec_io_sample(lines.deep_view(), key@),
{
    let n = lines.len();
    let mut i: usize = 0;
    proof {
        assert(lines.deep_view().subrange(0, n as int) =~= lines.deep_view());
    }
    while i < n
        invariant
            i <= n,
            spec_io_sample(lines.deep_view(), key@) == spec_io_sample(
                lines.deep_view().subrange(i as int, n as int),
                key@,
            ),
        decreases n - i,
    {
        proof {
            assert(lines@[i as int].deep_view() =~= lines@[i as int]@);
            assert(lines.deep_view()[i as int] == lines@[i as int]@);
            assert(lines.deep_view().subrange(i as int, n as int).drop_first()
                =~= lines.deep_view().subrange(i as int + 1, n as int));
            assert(lines.deep_view().subrange(i as int, n as int)[0] == lines@[i as int]@);
        }
        let found = io_line_sample(&lines[i], key);
        match found {
            Some(cs) => {
                return cs;
            },
            None => {},
        }
        i = i + 1;
    }
    proof {
        assert(lines.deep_view().subrange(n as int, n as int) =~= Seq::<Seq<u8>>::empty());
    }
    CounterSample::Missing
}

/// The name of the cumulative read counter in the I/O text.
pub open spec fn spec_read_key() -> Seq<u8> {
    seq![114u8, 101u8, 97u8, 100u8, 95u8, 98u8, 121u8, 116u8, 101u8, 115u8]
}

/// The name of the cumulative write counter in the I/O text.
pub open spec fn spec_write_key() -> Seq<u8> {
    seq![119u8, 114u8, 105u8, 116u8, 101u8, 95u8, 98u8, 121u8, 116u8, 101u8, 115u8]
}

fn read_key() -> (r: Vec<u8>)
    ensures
        r@ == spec_read_key(),
{
    let mut r: Vec<u8> = Vec::new();
    r.push(114);
    r.push(101);
    r.push(97);
    r.push(100);
    r.push(95);
    r.push(98);
    r.push(121);
    r.push(116);
    r.push(101);
    r.push(115);
    assert(r@ =~= spec_read_key());
    r
}

fn write_key() -> (r: Vec<u8>)
    ensures
        r@ == spec_write_key(),
{
    let mut r: Vec<u8> = Vec::new();
    r.push(119);
    r.push(114);
    r.push(105);
    r.push(116);
    r.push(101);
    r.push(95);
    r.push(98);
    r.push(121);
    r.push(116);
    r.push(101);
    r.push(115);
    assert(r@ =~= spec_write_key());
    r
}

/// The two cumulative disk counters of the I/O text: what the first
/// read-counter line and the first write-counter line sample.
pub open spec fn spec_io_samples(data: Seq<u8>) -> (CounterSample, CounterSample) {
    let lines = spec_split_byte(data, 10);
    (spec_io_sample(lines, spec_read_key()), spec_io_sample(lines, spec_write_key()))
}

/// Reads the cumulative disk read and write counters from the I/O
/// text.
pub fn parse_io_content(data: &Vec<u8>) -> (r: (CounterSample, CounterSample))
    ensures
        r == spec_io_samples(data@),
{
    let lines = split_byte(data, 10);
    let read = io_sample(&lines, &read_key());
    let written = io_sample(&lines, &write_key());
    (read, written)
}

} // verus!

verus! {

/// A byte sequence with its leading whitespace dropped.
pub open spec fn spec_trim_start(s: Seq<u8>) -> Seq<u8>
    decreases s.len(),
{
    if s.len() > 0 && is_ws(s[0]) {
        spec_trim_start(s.drop_first())
    } else {
        s
    }
}

/// A byte sequence with its trailing whitespace dropped.
pub open spec fn spec_trim_end(s: Seq<u8>) -> Seq<u8>
    decreases s.len(),
{
    if s.len() > 0 && is_ws(s[s.len() - 1]) {
        spec_trim_end(s.drop_last())
    } else {
        s
    }
}

/// A byte sequence with whitespace dropped from both ends.
pub open spec fn spec_trim(s: Seq<u8>) -> Seq<u8> {
    spec_trim_end(spec_trim_start(s))
}

proof fn lemma_trim_start_is(s: Seq<u8>, a: int)
    requires
        0 <= a <= s.len(),
        forall|j: int| 0 <= j < a ==> is_ws(s[j]),
        a < s.len() ==> !is_ws(s[a]),
    ensures
        spec_trim_start(s) == s.subrange(a, s.len() as int),
    decreases s.len(),
{
    if s.len() > 0 && is_ws(s[0]) {
        assert(a > 0);
        assert forall|j: int| 0 <= j < a - 1 implies is_ws(s.drop_first()[j]) by {
            assert(s.drop_first()[j] == s[j + 1]);
        }
        lemma_trim_start_is(s.drop_first(), a - 1);
        assert(s.drop_first().subrange(a - 1, s.drop_first().len() as int) =~= s.subrange(
            a,
            s.len() as int,
        ));
    } else {
        assert(a == 0);
        assert(s.subrange(0, s.len() as int) =~= s);
    }
}

proof fn lemma_trim_end_is(s: Seq<u8>, b: int)
    requires
        0 <= b <= s.len(),
        forall|j: int| b <= j < s.len() ==> is_ws(s[j]),
        b > 0 ==> !is_ws(s[b - 1]),
    ensures
        spec_trim_end(s) == s.subrange(0, b),
    decreases s.len(),
{
    if s.len() > 0 && is_ws(s[s.len() - 1]) {
        assert(b < s.len());
        assert forall|j: int| b <= j < s.drop_last().len() implies is_ws(s.drop_last()[j]) by {
            assert(s.drop_last()[j] == s[j]);
        }
        lemma_trim_end_is(s.drop_last(), b);
        assert(s.drop_last().subrange(0, b) =~= s.subrange(0, b));
    } else {
        assert(b == s.len());
        assert(s.subrange(0, s.len() as int) =~= s);
    }
}

/// Drops the whitespace from both ends of a byte vector.
#[verifier::loop_isolation(false)]
pub fn trim_bytes(data: &Vec<u8>) -> (r: Vec<u8>)
    ensures
        r@ == spec_trim(data@),
{
    let n = data.len();
    let mut a: usize = 0;
    while a < n && is_ws_byte(data[a])
        invariant
            a <= n,
            forall|j: int| 0 <= j < a ==> is_ws(data@[j]),
        decreases n - a,
    {
        a = a + 1;
    }
    proof {
        lemma_trim_start_is(data@, a as int);
    }
    let mut b: usize = n;
    while b > a && is_ws_byte(data[b - 1])
        invariant
            a <= b <= n,
            forall|j: int| b <= j < n ==> is_ws(data@[j]),
        decreases b,
    {
        b = b - 1;
    }
    let r = copy_range(data, a, b);
    proof {
        let started = data@.subrange(a as int, n as int);
        assert forall|j: int| b - a <= j < started.len() implies is_ws(started[j]) by {
            assert(started[j] == data@[a + j]);
        }
        if b > a {
            assert(started[b - a - 1] == data@[b - 1]);
        }
        lemma_trim_end_is(started, b as int - a as int);
        assert(started.subrange(0, b as int - a as int) =~= data@.subrange(a as int, b as int));
    }
    r
}

/// The command-line (or environment) entries of a NUL-separated text:
/// each nonempty NUL-terminated segment, trimmed. A final segment
/// without its NUL terminator is dropped, as a truncated read leaves
/// one.
pub open spec fn spec_nul_entries(s: Seq<u8>) -> Seq<Seq<u8>>
    decreases s.len(),
    via spec_nul_entries_decreases
{
    let i = spec_find_byte(s, 0);
    if i == s.len() {
        Seq::empty()
    } else {
        let head: Seq<Seq<u8>> = if i >= 1 {
            seq![spec_trim(s.subrange(0, i))]
        } else {
            Seq::empty()
        };
        head + spec_nul_entries(s.subrange(i + 1, s.len() as int))
    }
}

#[via_fn]
proof fn spec_nul_entries_decreases(s: Seq<u8>) {
    crate::stat::lemma_find_byte_bounds(s, 0);
}

/// Splits a NUL-separated text into its trimmed nonempty entries.
#[verifier::loop_isolation(false)]
pub fn parse_nul_entries(data: &Vec<u8>) -> (r: Vec<Vec<u8>>)
    ensures
        r.deep_view() == spec_nul_entries(data@),
{
    let n = data.len();
    let mut out: Vec<Vec<u8>> = Vec::new();
    let mut pos: usize = 0;
    proof {
        assert(data@.subrange(0, n as int) =~= data@);
        assert(out.deep_view() =~= Seq::<Seq<u8>>::empty());
        assert(out.deep_view() + spec_nul_entries(data@) =~= spec_nul_entries(data@));
    }
    while pos < n
        invariant
            pos <= n,
            spec_nul_entries(data@) == out.deep_view() + spec_nul_entries(
                data@.subrange(pos as int, n as int),
            ),
        decreases n - pos,
    {
        let start = pos;
        let mut e = pos;
        while e < n && data[e] != 0
            invariant
                start <= e <= n,
                forall|j: int| start <= j < e ==> data@[j] != 0,
            decreases n - e,
        {
            e = e + 1;
        }
        let ghost suf = data@.subrange(start as int, n as int);
        proof {
            assert forall|j: int| 0 <= j < e - start implies suf[j] != 0 by {
                assert(suf[j] == data@[start + j]);
            }
            if e < n {
                assert(suf[e - start] == data@[e as int]);
            }
            lemma_find_byte_is(suf, 0, e as int - start as int);
        }
        if e == n {
            // Unterminated remainder: dropped.
            return out;
        }
        if e > start {
            let seg = copy_range(data, start, e);
            let entry = trim_bytes(&seg);
            let ghost out_pre = out.deep_view();
            out.push(entry);
            proof {
                assert(suf.subrange(0, e as int - start as int) =~= seg@);
                assert(out.deep_view() =~~= out_pre + seq![spec_trim(seg@)]);
                assert(suf.subrange(e as int - start as int + 1, suf.len() as int)
                    =~= data@.subrange(e as int + 1, n as int));
                assert(spec_nul_entries(suf) == seq![spec_trim(seg@)] + spec_nul_entries(
                    data@.subrange(e as int + 1, n as int),
                ));
            }
        } else {
            proof {
                assert(suf.subrange(e as int - start as int + 1, suf.len() as int)
                    =~= data@.subrange(e as int + 1, n as int));
                assert(spec_nul_entries(suf) == spec_nul_entries(
                    data@.subrange(e as int + 1, n as int),
                ));
            }
        }
        pos = e + 1;
        proof {
            assert(out.deep_view() + spec_nul_entries(data@.subrange(pos as int, n as int))
                =~= spec_nul_entries(data@));
        }
    }
    proof {
        assert(data@.subrange(n as int, n as int) =~= Seq::<u8>::empty());
        assert(out.deep_view() + Seq::<Seq<u8>>::empty() =~= out.deep_view());
    }
    out
}

} // verus!

verus! {

/// How many positional fields a status record must hold for the
/// counters this backend reads: the resident-set field stands last of
/// them, at position twenty-three.
pub const STAT_MIN_FIELDS: usize = 24;

/// The counters a parsed status record carries, read from their
/// positions: the state letter, the parent pid, the two CPU-time
/// fields, the start tick, the virtual size and the resident pages.
pub struct StatFields {
    /// Normalized process state, from the third field's first byte.
    pub status: ProcessStatus,
    /// Parent pid, where the fourth field names a sensible one.
    pub parent: Option<Pid>,
    /// User-mode CPU ticks.
    pub utime: u64,
    /// Kernel-mode CPU ticks.
    pub stime: u64,
    /// Start time in ticks since boot.
    pub start_ticks: u64,
    /// Virtual memory size.
    pub virtual_memory: u64,
    /// Resident set, in pages.
    pub rss_pages: u64,
}

/// A positional counter field, zero where the bytes spell no number.
pub open spec fn spec_u64_field(parts: Seq<Seq<u8>>, i: int) -> u64 {
    if spells_u64(parts[i]) {
        digits_value(parts[i]) as u64
    } else {
        0u64
    }
}

/// The parent pid a record names: the fourth field, when it spells a
/// positive pid; the root of the process tree and unreadable fields
/// name none.
pub open spec fn spec_parent_field(parts: Seq<Seq<u8>>) -> Option<Pid> {
    if spells_u64(parts[3]) && 0 < digits_value(parts[3]) <= i32::MAX {
        Some(digits_value(parts[3]) as Pid)
    } else {
        None
    }
}

/// The state of a record: its third field's first byte, or the
/// unknown state when the field is empty.
pub open spec fn spec_status_field(parts: Seq<Seq<u8>>) -> ProcessStatus {
    if parts[2].len() > 0 {
        spec_status_from_state_byte(parts[2][0])
    } else {
        ProcessStatus::Unknown(0u32)
    }
}

/// Reads the counters from a parsed status record. A record with too
/// few fields — truncated kernel output — is refused, never indexed
/// past its end.
pub fn extract_stat_fields(parts: &Vec<Vec<u8>>) -> (r: Result<StatFields, ()>)
    ensures
        r is Ok <==> parts.deep_view().len() >= STAT_MIN_FIELDS,
        r matches Ok(f) ==> {
            &&& f.status == spec_status_field(parts.deep_view())
            &&& f.parent == spec_parent_field(parts.deep_view())
            &&& f.utime == spec_u64_field(parts.deep_view(), 13)
            &&& f.stime == spec_u64_field(parts.deep_view(), 14)
            &&& f.start_ticks == spec_u64_field(parts.deep_view(), 21)
            &&& f.virtual_memory == spec_u64_field(parts.deep_view(), 22)
            &&& f.rss_pages == spec_u64_field(parts.deep_view(), 23)
        },
{
    if parts.len() < STAT_MIN_FIELDS {
        return Err(());
    }
    proof {
        assert forall|i: int| 0 <= i < parts@.len() implies parts.deep_view()[i]
            == #[trigger] parts@[i]@ by {
            assert(parts@[i].deep_view() =~= parts@[i]@);
        }
    }
    let status = if parts[2].len() > 0 {
        status_from_state_byte(parts[2][0])
    } else {
        ProcessStatus::Unknown(0)
    };
    let parent = match parse_u64(&parts[3]) {
        Some(v) => if 0 < v && v <= i32::MAX as u64 {
            Some(v as Pid)
        } else {
            None
        },
        None => None,
    };
    Ok(
        StatFields {
            status,
            parent,
            utime: parse_u64_or_zero(&parts[13]),
            stime: parse_u64_or_zero(&parts[14]),
            start_ticks: parse_u64_or_zero(&parts[21]),
            virtual_memory: parse_u64_or_zero(&parts[22]),
            rss_pages: parse_u64_or_zero(&parts[23]),
        },
    )
}

/// Assembles one raw process record from the counters of a status
/// record and the one-shot lookups around it.
///
/// The start tick is scaled by the scheduler tick rate into seconds
/// since boot, and anchored to wall-clock time; the resident set is
/// scaled to the page size, clamped rather than wrapped when the
/// kernel reports nonsense; the CPU usage is left to the tick
/// counters. The parent is the owning process where one is given — a
/// task row belongs to it — and otherwise the record's own parent
/// field.
pub fn record_from_stat(
    pid: Pid,
    fields: &StatFields,
    page_size_kb: u64,
    uptime: u64,
    now: u64,
    clock_cycle: u64,
    parent_override: Option<Pid>,
    identity: ProcessIdentity,
    read_bytes: CounterSample,
    written_bytes: CounterSample,
) -> (r: ProcessRecord)
    requires
        clock_cycle >= 1,
    ensures
        r.pid == pid,
        r.parent == (match parent_override {
            Some(p) => Some(p),
            None => fields.parent,
        }),
        r.status == fields.status,
        r.memory == spec_clamp_u64(fields.rss_pages * page_size_kb),
        r.virtual_memory == fields.virtual_memory,
        r.utime == fields.utime,
        r.stime == fields.stime,
        r.start_time == spec_sat_sub(
            now,
            spec_sat_sub(uptime, (fields.start_ticks / clock_cycle) as u64),
        ),
        r.run_time == spec_sat_sub(uptime, (fields.start_ticks / clock_cycle) as u64),
        r.cpu_usage is None,
        r.read_bytes == read_bytes,
        r.written_bytes == written_bytes,
        r.identity == identity,
{
    let since_boot = fields.start_ticks / clock_cycle;
    let run_time = crate::delta_u64(uptime, since_boot);
    let start_time = crate::delta_u64(now, run_time);
    ProcessRecord {
        pid,
        parent: match parent_override {
            Some(p) => Some(p),
            None => fields.parent,
        },
        status: fields.status,
        memory: mul_clamp(fields.rss_pages as u128, page_size_kb as u128),
        virtual_memory: fields.virtual_memory,
        start_time,
        run_time,
        utime: fields.utime,
        stime: fields.stime,
        cpu_usage: None,
        read_bytes,
        written_bytes,
        identity,
    }
}

} // verus!
