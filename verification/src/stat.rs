//! The per-process status record parser.
//!
//! The record is one line of positionally ordered fields, where the
//! second field is a free-text command name bounded by parentheses.
//! Whitespace and parentheses are legal inside the name, so the
//! parse proceeds in three steps: the first field ends at the first
//! space; the name ends at the *last* closing parenthesis of the
//! whole remainder, so nothing embedded in the name can shift the
//! later fields; everything after that boundary splits on
//! whitespace. A record too short for any step is a typed failure,
//! never a panic: truncated kernel output must not take the caller
//! down.

use vstd::prelude::*;

verus! {

/// The byte of a space.
pub const BYTE_SPACE: u8 = 32;

/// The byte of an opening parenthesis.
pub const BYTE_OPEN_PAREN: u8 = 40;

/// The byte of a closing parenthesis.
pub const BYTE_CLOSE_PAREN: u8 = 41;

/// ASCII whitespace: space, tab, line feed, vertical tab, form feed,
/// carriage return.
pub open spec fn is_ws(b: u8) -> bool {
    b == 32 || (9 <= b && b <= 13)
}

/// Tests a byte for ASCII whitespace.
pub fn is_ws_byte(b: u8) -> (r: bool)
    ensures
        r == is_ws(b),
{
    b == 32 || (9 <= b && b <= 13)
}

/// The position of the first occurrence of a byte, or the length when
/// the byte does not occur.
pub open spec fn spec_find_byte(s: Seq<u8>, b: u8) -> int
    decreases s.len(),
{
    if s.len() == 0 {
        0
    } else if s[0] == b {
        0
    } else {
        1 + spec_find_byte(s.drop_first(), b)
    }
}

/// A position before which the byte never occurs, and which holds the
/// byte or stands at the end, is the first occurrence.
pub proof fn lemma_find_byte_is(s: Seq<u8>, b: u8, m: int)
    requires
        0 <= m <= s.len(),
        forall|j: int| 0 <= j < m ==> s[j] != b,
        m < s.len() ==> s[m] == b,
    ensures
        spec_find_byte(s, b) == m,
    decreases s.len(),
{
    if s.len() > 0 && m > 0 {
        assert(s[0] != b);
        assert forall|j: int| 0 <= j < m - 1 implies s.drop_first()[j] != b by {
            assert(s.drop_first()[j] == s[j + 1]);
        }
        lemma_find_byte_is(s.drop_first(), b, m - 1);
    }
}

/// The position of the last occurrence of a byte, or minus one when
/// the byte does not occur.
pub open spec fn spec_find_last(s: Seq<u8>, b: u8) -> int
    decreases s.len(),
{
    if s.len() == 0 {
        -1
    } else if s[s.len() - 1] == b {
        s.len() - 1
    } else {
        spec_find_last(s.drop_last(), b)
    }
}

/// A position holding the byte after which it never occurs again is
/// the last occurrence; a sequence never holding it has none.
pub proof fn lemma_find_last_is(s: Seq<u8>, b: u8, m: int)
    requires
        -1 <= m < s.len(),
        m >= 0 ==> s[m] == b,
        forall|j: int| m < j < s.len() ==> s[j] != b,
    ensures
        spec_find_last(s, b) == m,
    decreases s.len(),
{
    if s.len() > 0 && m < s.len() - 1 {
        assert(s[s.len() - 1] != b);
        assert forall|j: int| m < j < s.drop_last().len() implies s.drop_last()[j] != b by {
            assert(s.drop_last()[j] == s[j]);
        }
        lemma_find_last_is(s.drop_last(), b, m);
    }
}

/// The position of the first whitespace byte, or the length when the
/// sequence holds none.
pub open spec fn spec_first_ws(s: Seq<u8>) -> int
    decreases s.len(),
{
    if s.len() == 0 {
        0
    } else if is_ws(s[0]) {
        0
    } else {
        1 + spec_first_ws(s.drop_first())
    }
}

pub proof fn lemma_first_ws_bounds(s: Seq<u8>)
    ensures
        0 <= spec_first_ws(s) <= s.len(),
    decreases s.len(),
{
    if s.len() > 0 && !is_ws(s[0]) {
        lemma_first_ws_bounds(s.drop_first());
    }
}

/// A position before which nothing is whitespace, and which holds
/// whitespace or stands at the end, is the first whitespace.
pub proof fn lemma_first_ws_is(s: Seq<u8>, m: int)
    requires
        0 <= m <= s.len(),
        forall|j: int| 0 <= j < m ==> !is_ws(s[j]),
        m < s.len() ==> is_ws(s[m]),
    ensures
        spec_first_ws(s) == m,
    decreases s.len(),
{
    if s.len() > 0 && m > 0 {
        assert(!is_ws(s[0]));
        assert forall|j: int| 0 <= j < m - 1 implies !is_ws(s.drop_first()[j]) by {
            assert(s.drop_first()[j] == s[j + 1]);
        }
        lemma_first_ws_is(s.drop_first(), m - 1);
    }
}

/// The maximal whitespace-free runs of a byte sequence, in order:
/// what splitting on whitespace yields, empty runs left out.
pub open spec fn spec_split_ws(s: Seq<u8>) -> Seq<Seq<u8>>
    decreases s.len(),
    via spec_split_ws_decreases
{
    if s.len() == 0 {
        Seq::empty()
    } else if is_ws(s[0]) {
        spec_split_ws(s.drop_first())
    } else {
        seq![s.subrange(0, spec_first_ws(s))] + spec_split_ws(
            s.subrange(spec_first_ws(s), s.len() as int),
        )
    }
}

#[via_fn]
proof fn spec_split_ws_decreases(s: Seq<u8>) {
    if s.len() > 0 && !is_ws(s[0]) {
        lemma_first_ws_bounds(s.drop_first());
    }
}

/// What parsing a status record yields: the first field (bounded by
/// the first space), the free-text name (everything up to the last
/// closing parenthesis, its own opening parenthesis stripped), and
/// the remaining fields split on whitespace. A record without the
/// space or without the closing parenthesis is refused.
pub open spec fn spec_parse_stat(data: Seq<u8>) -> Option<Seq<Seq<u8>>> {
    let sp = spec_find_byte(data, BYTE_SPACE);
    if sp == data.len() {
        None
    } else {
        let head = data.subrange(0, sp);
        let rest = data.subrange(sp + 1, data.len() as int);
        let rp = spec_find_last(rest, BYTE_CLOSE_PAREN);
        if rp < 0 {
            None
        } else {
            let bounded = rest.subrange(0, rp);
            let name = if bounded.len() > 0 && bounded[0] == BYTE_OPEN_PAREN {
                bounded.drop_first()
            } else {
                bounded
            };
            let tail = rest.subrange(rp + 1, rest.len() as int);
            Some(seq![head, name] + spec_split_ws(tail))
        }
    }
}

/// Copies one range of a byte vector.
#[verifier::loop_isolation(false)]
pub fn copy_range(data: &Vec<u8>, from: usize, to: usize) -> (r: Vec<u8>)
    requires
        from <= to <= data@.len(),
    ensures
        r@ == data@.subrange(from as int, to as int),
{
    let mut r: Vec<u8> = Vec::new();
    let mut i: usize = from;
    while i < to
        invariant
            from <= i <= to,
            r@.len() == i - from,
            forall|j: int| 0 <= j < r@.len() ==> r@[j] == data@[from + j],
        decreases to - i,
    {
        r.push(data[i]);
        i = i + 1;
    }
    assert(r@ =~= data@.subrange(from as int, to as int));
    r
}

/// Finds the first occurrence of a byte, or the length.
#[verifier::loop_isolation(false)]
pub fn find_byte_at(data: &Vec<u8>, b: u8) -> (r: usize)
    ensures
        r as int == spec_find_byte(data@, b),
        r <= data@.len(),
{
    let n = data.len();
    let mut i: usize = 0;
    while i < n
        invariant
            i <= n,
            forall|j: int| 0 <= j < i ==> data@[j] != b,
        decreases n - i,
    {
        if data[i] == b {
            proof {
                lemma_find_byte_is(data@, b, i as int);
            }
            return i;
        }
        i = i + 1;
    }
    proof {
        lemma_find_byte_is(data@, b, n as int);
    }
    n
}

/// Finds the last occurrence of a byte, if the vector holds one.
#[verifier::loop_isolation(false)]
fn rfind_byte(data: &Vec<u8>, b: u8) -> (r: Option<usize>)
    ensures
        r matches Some(i) ==> i as int == spec_find_last(data@, b) && i < data@.len(),
        r is None ==> spec_find_last(data@, b) == -1,
{
    let n = data.len();
    let mut i: usize = n;
    while i > 0
        invariant
            i <= n,
            forall|j: int| i <= j < n ==> data@[j] != b,
        decreases i,
    {
        i = i - 1;
        if data[i] == b {
            proof {
                lemma_find_last_is(data@, b, i as int);
            }
            return Some(i);
        }
    }
    proof {
        lemma_find_last_is(data@, b, -1);
    }
    None
}

/// Splits a byte sequence into its whitespace-separated fields.
#[verifier::loop_isolation(false)]
pub fn split_ws(tail: &Vec<u8>) -> (r: Vec<Vec<u8>>)
    ensures
        r.deep_view() == spec_split_ws(tail@),
{
    let n = tail.len();
    let mut out: Vec<Vec<u8>> = Vec::new();
    let mut pos: usize = 0;
    proof {
        assert(tail@.subrange(0, n as int) =~= tail@);
        assert(out.deep_view() =~= Seq::<Seq<u8>>::empty());
        assert(out.deep_view() + spec_split_ws(tail@) =~= spec_split_ws(tail@));
    }
    while pos < n
        invariant
            pos <= n,
            spec_split_ws(tail@) == out.deep_view() + spec_split_ws(
                tail@.subrange(pos as int, n as int),
            ),
        decreases n - pos,
    {
        if is_ws_byte(tail[pos]) {
            proof {
                let suf = tail@.subrange(pos as int, n as int);
                assert(suf.drop_first() =~= tail@.subrange(pos as int + 1, n as int));
                assert(spec_split_ws(suf) == spec_split_ws(
                    tail@.subrange(pos as int + 1, n as int),
                ));
            }
            pos = pos + 1;
        } else {
            let start = pos;
            let mut e = pos;
            while e < n && !is_ws_byte(tail[e])
                invariant
                    start <= e <= n,
                    forall|j: int| start <= j < e ==> !is_ws(tail@[j]),
                decreases n - e,
            {
                e = e + 1;
            }
            let token = copy_range(tail, start, e);
            let ghost out_pre = out.deep_view();
            out.push(token);
            proof {
                let suf = tail@.subrange(start as int, n as int);
                assert forall|j: int| 0 <= j < e - start implies !is_ws(suf[j]) by {
                    assert(suf[j] == tail@[start + j]);
                }
                if e < n {
                    assert(is_ws(suf[e - start]));
                }
                lemma_first_ws_is(suf, e as int - start as int);
                assert(suf.subrange(0, e as int - start as int) =~= token@);
                assert(suf.subrange(e as int - start as int, suf.len() as int) =~= tail@.subrange(
                    e as int,
                    n as int,
                ));
                assert(spec_split_ws(suf) == seq![token@] + spec_split_ws(
                    tail@.subrange(e as int, n as int),
                ));
                assert(out.deep_view() =~~= out_pre + seq![token@]);
                assert(out.deep_view() + spec_split_ws(tail@.subrange(e as int, n as int))
                    =~= out_pre + spec_split_ws(suf));
            }
            pos = e;
        }
    }
    proof {
        assert(tail@.subrange(n as int, n as int) =~= Seq::<u8>::empty());
        assert(spec_split_ws(tail@) =~= out.deep_view());
    }
    out
}

/// Parses one raw per-process status record into its ordered field
/// list. Fails — it never panics — when the record is shorter than
/// the format demands at any stage.
pub fn parse_stat_file(data: &Vec<u8>) -> (r: Result<Vec<Vec<u8>>, ()>)
    ensures
        r matches Ok(parts) ==> spec_parse_stat(data@) == Some(parts.deep_view()),
        r is Err ==> spec_parse_stat(data@) is None,
{
    let n = data.len();
    let sp = find_byte_at(data, BYTE_SPACE);
    if sp == n {
        return Err(());
    }
    let head = copy_range(data, 0, sp);
    let rest = copy_range(data, sp + 1, n);
    let rp = match rfind_byte(&rest, BYTE_CLOSE_PAREN) {
        Some(i) => i,
        None => {
            return Err(());
        },
    };
    let name = if rp > 0 && rest[0] == BYTE_OPEN_PAREN {
        copy_range(&rest, 1, rp)
    } else {
        copy_range(&rest, 0, rp)
    };
    proof {
        let restv = data@.subrange(sp as int + 1, n as int);
        let bounded = restv.subrange(0, rp as int);
        if rp > 0 && restv[0] == BYTE_OPEN_PAREN {
            assert(name@ =~= bounded.drop_first());
        } else {
            assert(name@ =~= bounded);
        }
    }
    let tail = copy_range(&rest, rp + 1, rest.len());
    let mut fields = split_ws(&tail);
    let ghost headv = head@;
    let ghost namev = name@;
    let ghost fields_view = fields.deep_view();
    let mut parts: Vec<Vec<u8>> = Vec::new();
    parts.push(head);
    parts.push(name);
    parts.append(&mut fields);
    proof {
        assert(parts.deep_view() =~~= seq![headv, namev] + fields_view);
        assert(spec_parse_stat(data@)->Some_0 =~= parts.deep_view());
    }
    Ok(parts)
}

} // verus!

verus! {

/// An ASCII decimal digit.
pub open spec fn is_digit(b: u8) -> bool {
    48 <= b <= 57
}

/// Every byte is an ASCII decimal digit.
pub open spec fn all_digits(s: Seq<u8>) -> bool {
    forall|i: int| 0 <= i < s.len() ==> is_digit(#[trigger] s[i])
}

/// The number the digit bytes spell in base ten.
pub open spec fn digits_value(s: Seq<u8>) -> int
    decreases s.len(),
{
    if s.len() == 0 {
        0
    } else {
        digits_value(s.drop_last()) * 10 + (s.last() - 48)
    }
}

/// A digit string spells a number at least zero, and no prefix spells
/// more than the whole.
pub proof fn lemma_digits_prefix(s: Seq<u8>, k: int)
    requires
        all_digits(s),
        0 <= k <= s.len(),
    ensures
        0 <= digits_value(s.subrange(0, k)) <= digits_value(s),
    decreases s.len() - k,
{
    if k == s.len() {
        assert(s.subrange(0, k) =~= s);
        lemma_digits_nonneg(s);
    } else {
        lemma_digits_prefix(s, k + 1);
        let longer = s.subrange(0, k + 1);
        assert(longer.drop_last() =~= s.subrange(0, k));
        assert(all_digits(s.subrange(0, k))) by {
            assert(forall|j: int|
                0 <= j < k ==> #[trigger] s.subrange(0, k)[j] == s[j]);
        }
        lemma_digits_nonneg(s.subrange(0, k));
        assert(digits_value(longer) == digits_value(s.subrange(0, k)) * 10 + (s[k] - 48));
    }
}

pub proof fn lemma_digits_nonneg(s: Seq<u8>)
    requires
        all_digits(s),
    ensures
        digits_value(s) >= 0,
    decreases s.len(),
{
    if s.len() > 0 {
        assert(all_digits(s.drop_last())) by {
            assert(forall|j: int|
                0 <= j < s.len() - 1 ==> #[trigger] s.drop_last()[j] == s[j]);
        }
        lemma_digits_nonneg(s.drop_last());
    }
}

/// Whether the bytes spell an unsigned number that a machine word can
/// hold: nonempty, all digits, within range.
pub open spec fn spells_u64(s: Seq<u8>) -> bool {
    s.len() > 0 && all_digits(s) && digits_value(s) <= u64::MAX
}

/// Reads an unsigned decimal number. Fails on an empty string, a
/// non-digit byte, or a value too large for the machine word.
#[verifier::loop_isolation(false)]
pub fn parse_u64(s: &Vec<u8>) -> (r: Option<u64>)
    ensures
        r is Some <==> spells_u64(s@),
        r matches Some(v) ==> v == digits_value(s@),
{
    let n = s.len();
    if n == 0 {
        return None;
    }
    let mut acc: u64 = 0;
    let mut i: usize = 0;
    while i < n
        invariant
            i <= n,
            all_digits(s@.subrange(0, i as int)),
            acc == digits_value(s@.subrange(0, i as int)),
        decreases n - i,
    {
        let b = s[i];
        if b < 48 || b > 57 {
            proof {
                assert(!is_digit(s@[i as int]));
            }
            return None;
        }
        let d = (b - 48) as u64;
        let scaled = match acc.checked_mul(10) {
            Some(x) => x,
            None => {
                proof {
                    overflow_step(s@, i as int);
                }
                return None;
            },
        };
        let next = match scaled.checked_add(d) {
            Some(x) => x,
            None => {
                proof {
                    overflow_step(s@, i as int);
                }
                return None;
            },
        };
        proof {
            assert(s@.subrange(0, i as int + 1).drop_last() =~= s@.subrange(0, i as int));
            assert(all_digits(s@.subrange(0, i as int + 1))) by {
                assert(forall|j: int|
                    0 <= j < i + 1 ==> #[trigger] s@.subrange(0, i as int + 1)[j] == s@[j]);
            }
        }
        acc = next;
        i = i + 1;
    }
    proof {
        assert(s@.subrange(0, n as int) =~= s@);
    }
    Some(acc)
}

/// When one more digit pushes the running value beyond the machine
/// word, the whole string cannot spell a machine word either.
proof fn overflow_step(s: Seq<u8>, i: int)
    requires
        0 <= i < s.len(),
        is_digit(s[i]),
        all_digits(s.subrange(0, i)),
        digits_value(s.subrange(0, i)) * 10 + (s[i] - 48) > u64::MAX,
    ensures
        !spells_u64(s),
{
    if all_digits(s) {
        assert(s.subrange(0, i + 1).drop_last() =~= s.subrange(0, i));
        assert(digits_value(s.subrange(0, i + 1)) == digits_value(s.subrange(0, i)) * 10 + (
        s[i] - 48));
        lemma_digits_prefix(s, i + 1);
    }
}

/// Reads an unsigned decimal number, zero where the bytes spell none:
/// how the positional counter fields of a status record are read.
pub fn parse_u64_or_zero(s: &Vec<u8>) -> (r: u64)
    ensures
        spells_u64(s@) ==> r == digits_value(s@),
        !spells_u64(s@) ==> r == 0,
{
    match parse_u64(s) {
        Some(v) => v,
        None => 0,
    }
}

/// The segments of a byte sequence between occurrences of one
/// separator byte, the part after the last separator included.
pub open spec fn spec_split_byte(s: Seq<u8>, b: u8) -> Seq<Seq<u8>>
    decreases s.len(),
    via spec_split_byte_decreases
{
    if spec_find_byte(s, b) == s.len() {
        seq![s]
    } else {
        seq![s.subrange(0, spec_find_byte(s, b))] + spec_split_byte(
            s.subrange(spec_find_byte(s, b) + 1, s.len() as int),
            b,
        )
    }
}

#[via_fn]
proof fn spec_split_byte_decreases(s: Seq<u8>, b: u8) {
    lemma_find_byte_bounds(s, b);
}

pub proof fn lemma_find_byte_bounds(s: Seq<u8>, b: u8)
    ensures
        0 <= spec_find_byte(s, b) <= s.len(),
    decreases s.len(),
{
    if s.len() > 0 && s[0] != b {
        lemma_find_byte_bounds(s.drop_first(), b);
    }
}

/// Splits a byte vector at every occurrence of one separator byte.
#[verifier::loop_isolation(false)]
pub fn split_byte(data: &Vec<u8>, b: u8) -> (r: Vec<Vec<u8>>)
    ensures
        r.deep_view() == spec_split_byte(data@, b),
{
    let n = data.len();
    let mut out: Vec<Vec<u8>> = Vec::new();
    let mut pos: usize = 0;
    proof {
        assert(data@.subrange(0, n as int) =~= data@);
        assert(out.deep_view() =~= Seq::<Seq<u8>>::empty());
        assert(out.deep_view() + spec_split_byte(data@, b) =~= spec_split_byte(data@, b));
    }
    while pos < n
        invariant
            pos <= n,
            spec_split_byte(data@, b) == out.deep_view() + spec_split_byte(
                data@.subrange(pos as int, n as int),
                b,
            ),
        decreases n - pos,
    {
        let start = pos;
        let mut e = pos;
        while e < n && data[e] != b
            invariant
                start <= e <= n,
                forall|j: int| start <= j < e ==> data@[j] != b,
            decreases n - e,
        {
            e = e + 1;
        }
        let token = copy_range(data, start, e);
        let ghost out_pre = out.deep_view();
        out.push(token);
        proof {
            let suf = data@.subrange(start as int, n as int);
            assert forall|j: int| 0 <= j < e - start implies suf[j] != b by {
                assert(suf[j] == data@[start + j]);
            }
            if e < n {
                assert(suf[e - start] == b);
            }
            lemma_find_byte_is(suf, b, e as int - start as int);
            assert(suf.subrange(0, e as int - start as int) =~= token@);
            assert(out.deep_view() =~~= out_pre + seq![token@]);
            if e < n {
                assert(suf.subrange(e as int - start as int + 1, suf.len() as int)
                    =~= data@.subrange(e as int + 1, n as int));
                assert(spec_split_byte(suf, b) == seq![token@] + spec_split_byte(
                    data@.subrange(e as int + 1, n as int),
                    b,
                ));
            } else {
                assert(spec_split_byte(suf, b) == seq![token@]);
                assert(out.deep_view() + Seq::<Seq<u8>>::empty() =~= out.deep_view());
            }
        }
        if e < n {
            pos = e + 1;
            proof {
                assert(out.deep_view() + spec_split_byte(
                    data@.subrange(pos as int, n as int),
                    b,
                ) =~= spec_split_byte(data@, b));
            }
        } else {
            // The part after the last separator is this final token.
            return out;
        }
    }
    // The data ends with a separator (or is empty): one empty segment
    // remains.
    let ghost out_pre = out.deep_view();
    out.push(Vec::new());
    proof {
        let suf = data@.subrange(n as int, n as int);
        assert(suf =~= Seq::<u8>::empty());
        assert(spec_split_byte(suf, b) == seq![suf]);
        assert(out.deep_view() =~~= out_pre + seq![Seq::<u8>::empty()]);
        assert(out.deep_view() =~= spec_split_byte(data@, b));
    }
    out
}

} // verus!

verus! {

/// However the free-text name reads — spaces, opening or closing
/// parentheses inside it included — a record assembled as
/// `head (name) tail` parses back to exactly that head, that name,
/// and the whitespace-separated fields of that tail, unshifted: the
/// name is bounded by the rightmost closing parenthesis of the
/// record, which stands after anything embedded in the name, as long
/// as the head carries no space and the true fields after the name
/// carry no closing parenthesis — which kernel counter fields never
/// do.
pub proof fn lemma_parse_stat_round_trip(head: Seq<u8>, name: Seq<u8>, tail: Seq<u8>)
    requires
        forall|i: int| 0 <= i < head.len() ==> head[i] != BYTE_SPACE,
        forall|i: int| 0 <= i < tail.len() ==> tail[i] != BYTE_CLOSE_PAREN,
    ensures
        spec_parse_stat(
            head + seq![BYTE_SPACE, BYTE_OPEN_PAREN] + name + seq![BYTE_CLOSE_PAREN] + tail,
        ) == Some(seq![head, name] + spec_split_ws(tail)),
{
    let render = head + seq![BYTE_SPACE, BYTE_OPEN_PAREN] + name + seq![BYTE_CLOSE_PAREN] + tail;
    let hl = head.len() as int;
    let nl = name.len() as int;
    assert forall|j: int| 0 <= j < hl implies render[j] != BYTE_SPACE by {
        assert(render[j] == head[j]);
    }
    assert(render[hl] == BYTE_SPACE);
    lemma_find_byte_is(render, BYTE_SPACE, hl);
    assert(render.subrange(0, hl) =~= head);
    let rest = render.subrange(hl + 1, render.len() as int);
    assert(rest =~= seq![BYTE_OPEN_PAREN] + name + seq![BYTE_CLOSE_PAREN] + tail);
    assert(rest[1 + nl] == BYTE_CLOSE_PAREN);
    assert forall|j: int| 1 + nl < j < rest.len() implies rest[j] != BYTE_CLOSE_PAREN by {
        assert(rest[j] == tail[j - (2 + nl)]);
    }
    lemma_find_last_is(rest, BYTE_CLOSE_PAREN, 1 + nl);
    let bounded = rest.subrange(0, 1 + nl);
    assert(bounded =~= seq![BYTE_OPEN_PAREN] + name);
    assert(bounded[0] == BYTE_OPEN_PAREN);
    assert(bounded.drop_first() =~= name);
    assert(rest.subrange(1 + nl + 1, rest.len() as int) =~= tail);
    assert(spec_parse_stat(render)->Some_0 =~= seq![head, name] + spec_split_ws(tail));
}

} // verus!

verus! {

/// Fields joined by single spaces, the way a record writer lays the
/// positional counters out.
pub open spec fn spec_join_ws(fields: Seq<Seq<u8>>) -> Seq<u8>
    decreases fields.len(),
{
    if fields.len() == 0 {
        Seq::empty()
    } else if fields.len() == 1 {
        fields[0]
    } else {
        fields[0] + seq![BYTE_SPACE] + spec_join_ws(fields.drop_first())
    }
}

/// Every byte of a join is a byte of some field, or the separator.
pub proof fn lemma_join_ws_bytes(fields: Seq<Seq<u8>>, b: u8)
    requires
        b != BYTE_SPACE,
        forall|k: int, i: int|
            0 <= k < fields.len() && 0 <= i < fields[k].len() ==> #[trigger] fields[k][i] != b,
    ensures
        forall|i: int| 0 <= i < spec_join_ws(fields).len() ==> #[trigger] spec_join_ws(fields)[i]
            != b,
    decreases fields.len(),
{
    if fields.len() > 1 {
        assert forall|k: int, i: int|
            0 <= k < fields.drop_first().len() && 0 <= i < fields.drop_first()[k].len()
            implies #[trigger] fields.drop_first()[k][i] != b by {
            assert(fields.drop_first()[k] == fields[k + 1]);
        }
        lemma_join_ws_bytes(fields.drop_first(), b);
        let j = spec_join_ws(fields);
        let f0 = fields[0];
        assert forall|i: int| 0 <= i < j.len() implies j[i] != b by {
            if i < f0.len() {
                assert(j[i] == f0[i]);
            } else if i == f0.len() {
                assert(j[i] == BYTE_SPACE);
            } else {
                assert(j[i] == spec_join_ws(fields.drop_first())[i - f0.len() - 1]);
            }
        }
    }
}

/// Splitting a single-space join of nonempty whitespace-free fields
/// yields exactly those fields: writing and reading the positional
/// part of a record lose nothing.
pub proof fn lemma_split_ws_join(fields: Seq<Seq<u8>>)
    requires
        forall|k: int| 0 <= k < fields.len() ==> #[trigger] fields[k].len() > 0,
        forall|k: int, i: int|
            0 <= k < fields.len() && 0 <= i < fields[k].len() ==> !is_ws(#[trigger] fields[k][i]),
    ensures
        spec_split_ws(spec_join_ws(fields)) == fields,
    decreases fields.len(),
{
    if fields.len() == 0 {
        assert(spec_split_ws(Seq::empty()) =~= fields);
    } else if fields.len() == 1 {
        let f0 = fields[0];
        assert(f0.len() > 0);
        assert forall|i: int| 0 <= i < f0.len() implies !is_ws(f0[i]) by {
            assert(f0[i] == fields[0][i]);
        }
        lemma_first_ws_is(f0, f0.len() as int);
        assert(!is_ws(f0[0]));
        assert(f0.subrange(0, f0.len() as int) =~= f0);
        assert(f0.subrange(f0.len() as int, f0.len() as int) =~= Seq::<u8>::empty());
        assert(spec_split_ws(Seq::<u8>::empty()) == Seq::<Seq<u8>>::empty());
        assert(spec_split_ws(f0) =~= fields);
    } else {
        let j = spec_join_ws(fields);
        let f0 = fields[0];
        let rest_join = spec_join_ws(fields.drop_first());
        assert(f0.len() > 0);
        assert forall|i: int| 0 <= i < f0.len() implies !is_ws(j[i]) by {
            assert(j[i] == f0[i]);
            assert(f0[i] == fields[0][i]);
        }
        assert(j[f0.len() as int] == BYTE_SPACE);
        lemma_first_ws_is(j, f0.len() as int);
        assert(!is_ws(j[0]));
        assert(j.subrange(0, f0.len() as int) =~= f0);
        let after = j.subrange(f0.len() as int, j.len() as int);
        assert(after =~= seq![BYTE_SPACE] + rest_join);
        assert(after.drop_first() =~= rest_join);
        assert forall|k: int, i: int|
            0 <= k < fields.drop_first().len() && 0 <= i < fields.drop_first()[k].len()
            implies !is_ws(#[trigger] fields.drop_first()[k][i]) by {
            assert(fields.drop_first()[k] == fields[k + 1]);
        }
        lemma_split_ws_join(fields.drop_first());
        assert(is_ws(after[0]));
        assert(spec_split_ws(after) == spec_split_ws(rest_join));
        assert(spec_split_ws(j) == seq![f0] + fields.drop_first());
        assert(seq![f0] + fields.drop_first() =~= fields);
    }
}

/// The full record round trip: a record written as a head, a
/// parenthesized free-text name, and single-space-joined counter
/// fields parses back to exactly that head, that name, and those
/// fields — whatever punctuation or spacing the name itself holds —
/// as long as the head carries no space and the fields are nonempty,
/// whitespace-free and free of the closing parenthesis, as kernel
/// counter fields are.
pub proof fn lemma_parse_stat_fields_round_trip(
    head: Seq<u8>,
    name: Seq<u8>,
    fields: Seq<Seq<u8>>,
)
    requires
        forall|i: int| 0 <= i < head.len() ==> head[i] != BYTE_SPACE,
        forall|k: int| 0 <= k < fields.len() ==> #[trigger] fields[k].len() > 0,
        forall|k: int, i: int|
            0 <= k < fields.len() && 0 <= i < fields[k].len() ==> !is_ws(#[trigger] fields[k][i])
                && fields[k][i] != BYTE_CLOSE_PAREN,
    ensures
        spec_parse_stat(
            head + seq![BYTE_SPACE, BYTE_OPEN_PAREN] + name + seq![BYTE_CLOSE_PAREN, BYTE_SPACE]
                + spec_join_ws(fields),
        ) == Some(seq![head, name] + fields),
{
    let tail = seq![BYTE_SPACE] + spec_join_ws(fields);
    lemma_join_ws_bytes(fields, BYTE_CLOSE_PAREN);
    assert forall|i: int| 0 <= i < tail.len() implies tail[i] != BYTE_CLOSE_PAREN by {
        if i > 0 {
            assert(tail[i] == spec_join_ws(fields)[i - 1]);
        }
    }
    lemma_parse_stat_round_trip(head, name, tail);
    assert(tail.drop_first() =~= spec_join_ws(fields));
    lemma_split_ws_join(fields);
    assert(spec_split_ws(tail) == fields);
    assert(head + seq![BYTE_SPACE, BYTE_OPEN_PAREN] + name + seq![
        BYTE_CLOSE_PAREN,
        BYTE_SPACE,
    ] + spec_join_ws(fields) =~= head + seq![BYTE_SPACE, BYTE_OPEN_PAREN] + name + seq![
        BYTE_CLOSE_PAREN,
    ] + tail);
    assert(seq![head, name] + spec_split_ws(tail) =~= seq![head, name] + fields);
}

} // verus!
