//! Byte- and string-level utilities: comparisons, line splitting, searching,
//! trimming, decimal formatting, JSON string escaping and form-urlencoding.
//!
//! Contracts are stated over `Seq<u8>`; text handed in as `&str` is related to
//! its bytes through `vstd::utf8::encode_utf8`.

use vstd::prelude::*;
use vstd::string::StringExecFns;
use vstd::utf8::encode_utf8;
use vstd::utf8::encode_utf8_decode_utf8;
use vstd::utf8::valid_utf8;

verus! {

/// Whether two byte slices hold the same bytes.
pub fn bytes_eq(a: &[u8], b: &[u8]) -> (r: bool)
    ensures
        r == (a@ == b@),
{
    if a.len() != b.len() {
        proof {
            assert(a@.len() != b@.len());
        }
        return false;
    }
    let mut i: usize = 0;
    while i < a.len()
        invariant
            i <= a@.len(),
            a@.len() == b@.len(),
            forall|j: int| 0 <= j < i ==> a@[j] == b@[j],
        decreases a@.len() - i,
    {
        if a[i] != b[i] {
            return false;
        }
        i += 1;
    }
    proof {
        assert(a@ =~= b@);
    }
    true
}

/// Whether two strings hold the same characters. Compares the UTF-8 bytes;
/// equal encodings mean equal character sequences.
pub fn str_eq(a: &str, b: &str) -> (r: bool)
    ensures
        r == (a@ == b@),
{
    let r = bytes_eq(a.as_bytes(), b.as_bytes());
    proof {
        encode_utf8_decode_utf8(a@);
        encode_utf8_decode_utf8(b@);
    }
    r
}

/// The bytes of `t` from `a` (inclusive) to `b` (exclusive), as a fresh vector.
pub fn subrange_vec(t: &[u8], a: usize, b: usize) -> (r: Vec<u8>)
    requires
        a <= b <= t@.len(),
    ensures
        r@ == t@.subrange(a as int, b as int),
{
    let mut r: Vec<u8> = Vec::new();
    let mut i: usize = a;
    while i < b
        invariant
            a <= i <= b <= t@.len(),
            r@ == t@.subrange(a as int, i as int),
        decreases b - i,
    {
        r.push(t[i]);
        proof {
            assert(r@ =~= t@.subrange(a as int, i + 1 as int));
        }
        i += 1;
    }
    r
}

/// Whether `h` starts with `n`.
pub open spec fn starts_with(h: Seq<u8>, n: Seq<u8>) -> bool {
    n.len() <= h.len() && h.subrange(0, n.len() as int) == n
}

/// Whether the bytes starting at `i` of `h` read `n`.
pub open spec fn matches_at(h: Seq<u8>, n: Seq<u8>, i: int) -> bool {
    0 <= i && i + n.len() <= h.len() && h.subrange(i, i + n.len()) == n
}

/// Whether `n` occurs as a contiguous run somewhere in `h`.
pub open spec fn contains_seq(h: Seq<u8>, n: Seq<u8>) -> bool {
    exists|i: int| matches_at(h, n, i)
}

/// Whether the bytes starting at `i` of `h` read `n`.
pub fn bytes_match_at(h: &[u8], n: &[u8], i: usize) -> (r: bool)
    requires
        i + n@.len() <= h@.len(),
    ensures
        r == matches_at(h@, n@, i as int),
{
    let hl = h.len();
    let mut j: usize = 0;
    while j < n.len()
        invariant
            j <= n@.len(),
            hl == h@.len(),
            i + n@.len() <= h@.len(),
            forall|k: int| 0 <= k < j ==> h@[i + k] == n@[k],
        decreases n@.len() - j,
    {
        if h[i + j] != n[j] {
            proof {
                assert(h@.subrange(i as int, i + n@.len()) != n@) by {
                    assert(h@.subrange(i as int, i + n@.len())[j as int] == h@[i + j]);
                }
            }
            return false;
        }
        j += 1;
    }
    proof {
        assert(h@.subrange(i as int, i + n@.len()) =~= n@);
    }
    true
}

/// Whether `n` occurs as a contiguous run somewhere in `h`.
pub fn contains_bytes(h: &[u8], n: &[u8]) -> (r: bool)
    ensures
        r == contains_seq(h@, n@),
{
    if n.len() > h.len() {
        return false;
    }
    let last = h.len() - n.len();
    let mut i: usize = 0;
    while i <= last
        invariant
            last == h@.len() - n@.len(),
            i <= last + 1,
            forall|k: int| 0 <= k < i ==> !matches_at(h@, n@, k),
        decreases last + 1 - i,
    {
        if bytes_match_at(h, n, i) {
            return true;
        }
        if i == last {
            return false;
        }
        i += 1;
    }
    false
}

/// Whether `b` is ASCII whitespace: space, tab, line feed, vertical tab,
/// form feed or carriage return.
pub open spec fn is_ascii_ws(b: u8) -> bool {
    b == 32 || b == 9 || b == 10 || b == 11 || b == 12 || b == 13
}

/// `l` without its leading ASCII whitespace.
pub open spec fn trim_front(l: Seq<u8>) -> Seq<u8>
    decreases l.len(),
{
    if l.len() > 0 && is_ascii_ws(l[0]) {
        trim_front(l.skip(1))
    } else {
        l
    }
}

/// `l` without its trailing ASCII whitespace.
pub open spec fn trim_back(l: Seq<u8>) -> Seq<u8>
    decreases l.len(),
{
    if l.len() > 0 && is_ascii_ws(l.last()) {
        trim_back(l.drop_last())
    } else {
        l
    }
}

/// `l` without leading and trailing ASCII whitespace.
pub open spec fn spec_trim(l: Seq<u8>) -> Seq<u8> {
    trim_back(trim_front(l))
}

proof fn lemma_trim_front_skip(l: Seq<u8>, a: int)
    requires
        0 <= a <= l.len(),
        forall|j: int| 0 <= j < a ==> is_ascii_ws(l[j]),
        a == l.len() || !is_ascii_ws(l[a]),
    ensures
        trim_front(l) == l.skip(a),
    decreases a,
{
    if a == 0 {
        assert(l.skip(0) =~= l);
    } else {
        lemma_trim_front_skip(l.skip(1), a - 1);
        assert(l.skip(1).skip(a - 1) =~= l.skip(a));
    }
}

proof fn lemma_trim_back_take(l: Seq<u8>, b: int)
    requires
        0 <= b <= l.len(),
        forall|j: int| b <= j < l.len() ==> is_ascii_ws(l[j]),
        b == 0 || !is_ascii_ws(l[b - 1]),
    ensures
        trim_back(l) == l.take(b),
    decreases l.len(),
{
    if b == l.len() {
        assert(l.take(b) =~= l);
        if l.len() > 0 {
            assert(!is_ascii_ws(l.last()));
        }
    } else {
        assert(is_ascii_ws(l.last()));
        lemma_trim_back_take(l.drop_last(), b);
        assert(l.drop_last().take(b) =~= l.take(b));
    }
}

/// `l` without leading and trailing ASCII whitespace.
pub fn trim_bytes(l: &[u8]) -> (r: Vec<u8>)
    ensures
        r@ == spec_trim(l@),
{
    let mut a: usize = 0;
    while a < l.len() && is_ws_exec(l[a])
        invariant
            a <= l@.len(),
            forall|j: int| 0 <= j < a ==> is_ascii_ws(l@[j]),
        decreases l@.len() - a,
    {
        a += 1;
    }
    proof {
        lemma_trim_front_skip(l@, a as int);
    }
    let mut b: usize = l.len();
    while b > a && is_ws_exec(l[b - 1])
        invariant
            a <= b <= l@.len(),
            trim_front(l@) == l@.skip(a as int),
            forall|j: int| b <= j < l@.len() ==> is_ascii_ws(l@[j]),
        decreases b,
    {
        b -= 1;
    }
    proof {
        if b == a {
            // the whole remainder is whitespace
            assert(trim_front(l@).len() == 0 || is_ascii_ws(trim_front(l@)[0]));
            if trim_front(l@).len() > 0 {
                assert(false);
            }
        }
        lemma_trim_back_take(l@.skip(a as int), b - a);
        assert(l@.skip(a as int).take(b - a) =~= l@.subrange(a as int, b as int));
    }
    subrange_vec(l, a, b)
}

pub fn is_ws_exec(b: u8) -> (r: bool)
    ensures
        r == is_ascii_ws(b),
{
    b == 32 || b == 9 || b == 10 || b == 11 || b == 12 || b == 13
}

/// The position of the first line-feed byte in `t`, or `t.len()` if there is
/// none.
pub open spec fn first_nl(t: Seq<u8>) -> nat
    decreases t.len(),
{
    if t.len() == 0 {
        0
    } else if t[0] == 10u8 {
        0
    } else {
        1 + first_nl(t.skip(1))
    }
}

proof fn lemma_first_nl(t: Seq<u8>)
    ensures
        first_nl(t) <= t.len(),
        first_nl(t) < t.len() ==> t[first_nl(t) as int] == 10u8,
        forall|j: int| 0 <= j < first_nl(t) ==> t[j] != 10u8,
    decreases t.len(),
{
    if t.len() > 0 && t[0] != 10u8 {
        lemma_first_nl(t.skip(1));
        assert(forall|j: int| 0 <= j < first_nl(t.skip(1)) ==> t.skip(1)[j] != 10u8);
        assert(forall|j: int| 1 <= j < first_nl(t) ==> t[j] == t.skip(1)[j - 1]);
    }
}

proof fn lemma_first_nl_is(t: Seq<u8>, m: int)
    requires
        0 <= m <= t.len(),
        forall|j: int| 0 <= j < m ==> t[j] != 10u8,
        m == t.len() || t[m] == 10u8,
    ensures
        first_nl(t) == m,
    decreases m,
{
    if m > 0 {
        lemma_first_nl_is(t.skip(1), m - 1);
    }
}

/// A line with a trailing carriage return loses it.
pub open spec fn strip_cr(l: Seq<u8>) -> Seq<u8> {
    if l.len() > 0 && l.last() == 13u8 {
        l.drop_last()
    } else {
        l
    }
}

/// The lines of `t`: split on line feeds, one trailing carriage return
/// removed from each line, and no empty final line after a trailing line
/// feed. This matches how `str::lines` splits text.
pub open spec fn spec_lines(t: Seq<u8>) -> Seq<Seq<u8>>
    decreases t.len(),
{
    if t.len() == 0 {
        Seq::empty()
    } else {
        let i = first_nl(t);
        if i >= t.len() {
            seq![strip_cr(t)]
        } else {
            seq![strip_cr(t.take(i as int))] + spec_lines(t.skip(i + 1 as int))
        }
    }
}

/// Split `t` into its lines.
pub fn split_lines(t: &[u8]) -> (r: Vec<Vec<u8>>)
    ensures
        r.deep_view() == spec_lines(t@),
{
    let mut r: Vec<Vec<u8>> = Vec::new();
    let mut start: usize = 0;
    proof {
        assert(t@.skip(0) =~= t@);
        assert(r.deep_view() + spec_lines(t@) =~= spec_lines(t@));
    }
    while start < t.len()
        invariant
            start <= t@.len(),
            r.deep_view() + spec_lines(t@.skip(start as int)) == spec_lines(t@),
        decreases t@.len() - start,
    {
        let ghost rest = t@.skip(start as int);
        let mut j: usize = start;
        while j < t.len() && t[j] != 10
            invariant
                start <= j <= t@.len(),
                forall|k: int| start <= k < j ==> t@[k] != 10u8,
            decreases t@.len() - j,
        {
            j += 1;
        }
        proof {
            assert(forall|k: int| 0 <= k < j - start ==> rest[k] == t@[start + k]);
            if j < t@.len() {
                assert(rest[j - start] == t@[j as int]);
            }
            lemma_first_nl_is(rest, j - start);
        }
        let mut line = subrange_vec(t, start, j);
        if line.len() > 0 && line[line.len() - 1] == 13 {
            line.pop();
            proof {
                assert(line@ =~= strip_cr(t@.subrange(start as int, j as int)));
            }
        }
        proof {
            assert(line@ == strip_cr(t@.subrange(start as int, j as int)));
            assert(rest.take(j - start) =~= t@.subrange(start as int, j as int));
        }
        let ghost prev = r.deep_view();
        r.push(line);
        proof {
            assert(line.deep_view() =~= line@);
            assert(r.deep_view() =~= prev.push(line@));
        }
        if j == t.len() {
            proof {
                assert(rest =~= t@.subrange(start as int, j as int));
                assert(spec_lines(rest) =~= seq![line@]);
                assert(prev.push(line@) =~= prev + seq![line@]);
            }
            return r;
        }
        proof {
            assert(spec_lines(rest) == seq![strip_cr(rest.take(j - start))] + spec_lines(
                rest.skip(j - start + 1),
            ));
            assert(rest.skip(j - start + 1) =~= t@.skip(j + 1));
            assert(prev.push(line@) + spec_lines(t@.skip(j + 1)) =~= prev + spec_lines(rest));
        }
        start = j + 1;
    }
    proof {
        assert(t@.skip(start as int).len() == 0);
        assert(r.deep_view() + spec_lines(t@.skip(start as int)) =~= r.deep_view());
    }
    r
}


/// The decimal digit character for `d`.
pub open spec fn digit_char(d: int) -> char
    recommends
        0 <= d <= 9,
{
    ((48 + d) as u8) as char
}

/// The decimal representation of `n`, as characters, without leading zeros.
pub open spec fn dec_digits(n: int) -> Seq<char>
    recommends
        n >= 0,
    decreases n,
{
    if n < 10 {
        seq![digit_char(n)]
    } else {
        dec_digits(n / 10).push(digit_char(n % 10))
    }
}

fn digit_str(d: u32) -> (r: &'static str)
    requires
        d < 10,
    ensures
        r@ =~= seq![digit_char(d as int)],
{
    proof {
        reveal_strlit("0");
        reveal_strlit("1");
        reveal_strlit("2");
        reveal_strlit("3");
        reveal_strlit("4");
        reveal_strlit("5");
        reveal_strlit("6");
        reveal_strlit("7");
        reveal_strlit("8");
        reveal_strlit("9");
    }
    match d {
        0 => "0",
        1 => "1",
        2 => "2",
        3 => "3",
        4 => "4",
        5 => "5",
        6 => "6",
        7 => "7",
        8 => "8",
        _ => "9",
    }
}

/// The decimal representation of `n`.
pub fn u32_to_string(n: u32) -> (r: String)
    ensures
        r@ == dec_digits(n as int),
    decreases n,
{
    if n < 10 {
        let r = digit_str(n).to_owned();
        proof {
            assert(r@ =~= dec_digits(n as int));
        }
        r
    } else {
        let mut s = u32_to_string(n / 10);
        s.append(digit_str(n % 10));
        proof {
            assert(s@ =~= dec_digits(n as int));
        }
        s
    }
}

/// The lowercase hexadecimal digit byte for `d`.
pub open spec fn hex_lower(d: u8) -> u8
    recommends
        d < 16,
{
    if d < 10 {
        (48 + d) as u8
    } else {
        (87 + d) as u8
    }
}

/// The uppercase hexadecimal digit byte for `d`.
pub open spec fn hex_upper(d: u8) -> u8
    recommends
        d < 16,
{
    if d < 10 {
        (48 + d) as u8
    } else {
        (55 + d) as u8
    }
}

fn hex_lower_exec(d: u8) -> (r: u8)
    requires
        d < 16,
    ensures
        r == hex_lower(d),
{
    if d < 10 {
        48 + d
    } else {
        87 + d
    }
}

fn hex_upper_exec(d: u8) -> (r: u8)
    requires
        d < 16,
    ensures
        r == hex_upper(d),
{
    if d < 10 {
        48 + d
    } else {
        55 + d
    }
}

/// How one byte of a string is written inside a JSON string literal: quote
/// and backslash get a backslash escape, the named control characters get
/// their two-character escapes, other control bytes get a `\u00XX` escape
/// with lowercase hex, and everything else stands as itself.
pub open spec fn esc_byte(b: u8) -> Seq<u8> {
    if b == 0x22 {
        seq![0x5cu8, 0x22u8]
    } else if b == 0x5c {
        seq![0x5cu8, 0x5cu8]
    } else if b == 0x08 {
        seq![0x5cu8, 0x62u8]
    } else if b == 0x0c {
        seq![0x5cu8, 0x66u8]
    } else if b == 0x0a {
        seq![0x5cu8, 0x6eu8]
    } else if b == 0x0d {
        seq![0x5cu8, 0x72u8]
    } else if b == 0x09 {
        seq![0x5cu8, 0x74u8]
    } else if b < 0x20 {
        seq![0x5cu8, 0x75u8, 0x30u8, 0x30u8, hex_lower(b / 16), hex_lower(b % 16)]
    } else {
        seq![b]
    }
}

/// The JSON string-literal escaping of `s`, byte by byte.
pub open spec fn json_escape(s: Seq<u8>) -> Seq<u8>
    decreases s.len(),
{
    if s.len() == 0 {
        Seq::empty()
    } else {
        esc_byte(s[0]) + json_escape(s.skip(1))
    }
}

proof fn lemma_json_escape_snoc(s: Seq<u8>, b: u8)
    ensures
        json_escape(s.push(b)) == json_escape(s) + esc_byte(b),
    decreases s.len(),
{
    let sb = s.push(b);
    assert(sb.len() == s.len() + 1);
    if s.len() == 0 {
        assert(sb[0] == b);
        assert(sb.skip(1) =~= Seq::<u8>::empty());
        assert(json_escape(sb) == esc_byte(b) + json_escape(Seq::<u8>::empty()));
        assert(json_escape(sb) =~= json_escape(s) + esc_byte(b));
    } else {
        assert(sb[0] == s[0]);
        assert(sb.skip(1) =~= s.skip(1).push(b));
        lemma_json_escape_snoc(s.skip(1), b);
        assert(json_escape(sb) == esc_byte(s[0]) + json_escape(s.skip(1).push(b)));
        assert(json_escape(sb) =~= json_escape(s) + esc_byte(b));
    }
}

/// Append the JSON string-literal escaping of `s` to `out`.
pub fn json_escape_into(out: &mut Vec<u8>, s: &[u8])
    ensures
        final(out)@ == old(out)@ + json_escape(s@),
{
    let mut i: usize = 0;
    proof {
        assert(old(out)@ + json_escape(s@.take(0)) =~= old(out)@);
    }
    while i < s.len()
        invariant
            i <= s@.len(),
            out@ == old(out)@ + json_escape(s@.take(i as int)),
        decreases s@.len() - i,
    {
        let b = s[i];
        let ghost prev = out@;
        if b == 0x22 {
            out.push(0x5c);
            out.push(0x22);
        } else if b == 0x5c {
            out.push(0x5c);
            out.push(0x5c);
        } else if b == 0x08 {
            out.push(0x5c);
            out.push(0x62);
        } else if b == 0x0c {
            out.push(0x5c);
            out.push(0x66);
        } else if b == 0x0a {
            out.push(0x5c);
            out.push(0x6e);
        } else if b == 0x0d {
            out.push(0x5c);
            out.push(0x72);
        } else if b == 0x09 {
            out.push(0x5c);
            out.push(0x74);
        } else if b < 0x20 {
            out.push(0x5c);
            out.push(0x75);
            out.push(0x30);
            out.push(0x30);
            out.push(hex_lower_exec(b / 16));
            out.push(hex_lower_exec(b % 16));
        } else {
            out.push(b);
        }
        proof {
            assert(out@ =~= prev + esc_byte(b));
            lemma_json_escape_snoc(s@.take(i as int), b);
            assert(s@.take(i as int).push(b) =~= s@.take(i + 1 as int));
            assert(out@ =~= old(out)@ + json_escape(s@.take(i + 1 as int)));
        }
        i += 1;
    }
    proof {
        assert(s@.take(i as int) =~= s@);
    }
}

/// Whether `b` stands for itself under form-urlencoding: an ASCII letter,
/// digit, `*`, `-`, `.` or `_`.
pub open spec fn is_form_safe(b: u8) -> bool {
    (48 <= b <= 57) || (65 <= b <= 90) || (97 <= b <= 122) || b == 42 || b == 45 || b == 46
        || b == 95
}

/// How one byte is written under `application/x-www-form-urlencoded`
/// encoding: safe bytes stand as themselves, a space becomes `+`, and every
/// other byte becomes a `%XX` escape with uppercase hex.
pub open spec fn form_enc_byte(b: u8) -> Seq<u8> {
    if is_form_safe(b) {
        seq![b]
    } else if b == 32 {
        seq![43u8]
    } else {
        seq![37u8, hex_upper(b / 16), hex_upper(b % 16)]
    }
}

/// The form-urlencoding of `s`, byte by byte.
pub open spec fn form_encode(s: Seq<u8>) -> Seq<u8>
    decreases s.len(),
{
    if s.len() == 0 {
        Seq::empty()
    } else {
        form_enc_byte(s[0]) + form_encode(s.skip(1))
    }
}

proof fn lemma_form_encode_snoc(s: Seq<u8>, b: u8)
    ensures
        form_encode(s.push(b)) == form_encode(s) + form_enc_byte(b),
    decreases s.len(),
{
    let sb = s.push(b);
    assert(sb.len() == s.len() + 1);
    if s.len() == 0 {
        assert(sb[0] == b);
        assert(sb.skip(1) =~= Seq::<u8>::empty());
        assert(form_encode(sb) == form_enc_byte(b) + form_encode(Seq::<u8>::empty()));
        assert(form_encode(sb) =~= form_encode(s) + form_enc_byte(b));
    } else {
        assert(sb[0] == s[0]);
        assert(sb.skip(1) =~= s.skip(1).push(b));
        lemma_form_encode_snoc(s.skip(1), b);
        assert(form_encode(sb) == form_enc_byte(s[0]) + form_encode(s.skip(1).push(b)));
        assert(form_encode(sb) =~= form_encode(s) + form_enc_byte(b));
    }
}

/// Append the form-urlencoding of `s` to `out`.
pub fn form_encode_into(out: &mut Vec<u8>, s: &[u8])
    ensures
        final(out)@ == old(out)@ + form_encode(s@),
{
    let mut i: usize = 0;
    proof {
        assert(old(out)@ + form_encode(s@.take(0)) =~= old(out)@);
    }
    while i < s.len()
        invariant
            i <= s@.len(),
            out@ == old(out)@ + form_encode(s@.take(i as int)),
        decreases s@.len() - i,
    {
        let b = s[i];
        let ghost prev = out@;
        if is_form_safe_exec(b) {
            out.push(b);
        } else if b == 32 {
            out.push(43);
        } else {
            out.push(37);
            out.push(hex_upper_exec(b / 16));
            out.push(hex_upper_exec(b % 16));
        }
        proof {
            assert(out@ =~= prev + form_enc_byte(b));
            lemma_form_encode_snoc(s@.take(i as int), b);
            assert(s@.take(i as int).push(b) =~= s@.take(i + 1 as int));
            assert(out@ =~= old(out)@ + form_encode(s@.take(i + 1 as int)));
        }
        i += 1;
    }
    proof {
        assert(s@.take(i as int) =~= s@);
    }
}

fn is_form_safe_exec(b: u8) -> (r: bool)
    ensures
        r == is_form_safe(b),
{
    (48 <= b && b <= 57) || (65 <= b && b <= 90) || (97 <= b && b <= 122) || b == 42 || b == 45
        || b == 46 || b == 95
}

/// Append the bytes of the string literal `s` to `out`.
pub fn append_str_bytes(out: &mut Vec<u8>, s: &str)
    ensures
        final(out)@ == old(out)@ + encode_utf8(s@),
{
    out.extend_from_slice(s.as_bytes());
    proof {
        assert(out@ =~= old(out)@ + encode_utf8(s@));
    }
}

/// Relies on `String::from_utf8`: it returns the string whose UTF-8 encoding
/// is the given bytes, and refuses exactly the byte sequences that are not
/// valid UTF-8.
#[verifier::external_body]
pub(crate) fn string_from_utf8(v: Vec<u8>) -> (r: Option<String>)
    ensures
        match r {
            Some(s) => encode_utf8(s@) == v@,
            None => !valid_utf8(v@),
        },
        valid_utf8(v@) ==> r is Some,
{
    String::from_utf8(v).ok()
}


/// The decimal representation of `n`, as bytes, without leading zeros.
pub open spec fn dec_bytes(n: int) -> Seq<u8>
    recommends
        n >= 0,
    decreases n,
{
    if n < 10 {
        seq![(48 + n) as u8]
    } else {
        dec_bytes(n / 10).push((48 + n % 10) as u8)
    }
}

/// The decimal representation of `n`, as bytes.
pub fn u32_dec_bytes(n: u32) -> (r: Vec<u8>)
    ensures
        r@ == dec_bytes(n as int),
    decreases n,
{
    if n < 10 {
        let mut v: Vec<u8> = Vec::new();
        v.push(48 + (n as u8));
        proof {
            assert(v@ =~= dec_bytes(n as int));
        }
        v
    } else {
        let mut v = u32_dec_bytes(n / 10);
        v.push(48 + ((n % 10) as u8));
        proof {
            assert(v@ =~= dec_bytes(n as int));
        }
        v
    }
}

/// Whether `b` is a decimal digit byte.
pub open spec fn is_digit(b: u8) -> bool {
    48 <= b <= 57
}

/// Whether every byte of `b` is a decimal digit.
pub open spec fn all_digits(b: Seq<u8>) -> bool {
    forall|i: int| 0 <= i < b.len() ==> is_digit(#[trigger] b[i])
}

/// The numeric value of the digit bytes `b`.
pub open spec fn dec_value(b: Seq<u8>) -> int
    recommends
        all_digits(b),
    decreases b.len(),
{
    if b.len() == 0 {
        0
    } else {
        dec_value(b.drop_last()) * 10 + (b.last() - 48)
    }
}

/// The number read from `b`, when `b` is a non-empty run of decimal digits
/// whose value fits.
pub open spec fn spec_parse_u32(b: Seq<u8>) -> Option<u32> {
    if b.len() > 0 && all_digits(b) && dec_value(b) <= u32::MAX {
        Some(dec_value(b) as u32)
    } else {
        None
    }
}

proof fn lemma_dec_value_nonneg(b: Seq<u8>)
    requires
        all_digits(b),
    ensures
        dec_value(b) >= 0,
    decreases b.len(),
{
    if b.len() > 0 {
        assert(all_digits(b.drop_last())) by {
            assert(forall|i: int| 0 <= i < b.len() - 1 ==> is_digit(#[trigger] b.drop_last()[i]));
        }
        lemma_dec_value_nonneg(b.drop_last());
    }
}

proof fn lemma_dec_value_prefix(b: Seq<u8>, m: int)
    requires
        all_digits(b),
        0 <= m <= b.len(),
    ensures
        dec_value(b.take(m)) <= dec_value(b),
    decreases b.len() - m,
{
    if m < b.len() {
        lemma_dec_value_prefix(b, m + 1);
        let p = b.take(m + 1);
        assert(p.drop_last() =~= b.take(m));
        assert(all_digits(b.take(m))) by {
            assert(forall|i: int| 0 <= i < m ==> is_digit(#[trigger] b.take(m)[i]));
        }
        lemma_dec_value_nonneg(b.take(m));
        assert(dec_value(p) == dec_value(b.take(m)) * 10 + (p.last() - 48));
    } else {
        assert(b.take(m) =~= b);
    }
}

/// Read a number from a non-empty run of decimal digits, refusing overflow
/// and any other byte.
pub fn parse_u32(b: &[u8]) -> (r: Option<u32>)
    ensures
        r == spec_parse_u32(b@),
{
    if b.len() == 0 {
        return None;
    }
    let mut acc: u32 = 0;
    let mut i: usize = 0;
    while i < b.len()
        invariant
            i <= b@.len(),
            b@.len() > 0,
            all_digits(b@.take(i as int)),
            acc == dec_value(b@.take(i as int)),
        decreases b@.len() - i,
    {
        let d = b[i];
        if d < 48 || d > 57 {
            proof {
                assert(!all_digits(b@));
            }
            return None;
        }
        let ghost pre = b@.take(i as int);
        proof {
            assert(b@.take(i + 1 as int).drop_last() =~= pre);
            assert(b@.take(i + 1 as int).last() == b@[i as int]);
            assert(all_digits(b@.take(i + 1 as int))) by {
                assert(forall|j: int| 0 <= j < i + 1 ==> is_digit(
                    #[trigger] b@.take(i + 1 as int)[j],
                ));
            }
        }
        let step = match acc.checked_mul(10) {
            Some(x) => x.checked_add((d - 48) as u32),
            None => None,
        };
        match step {
            Some(x) => {
                acc = x;
            },
            None => {
                proof {
                    if all_digits(b@) {
                        assert(dec_value(b@.take(i + 1 as int)) > u32::MAX);
                        lemma_dec_value_prefix(b@, i + 1 as int);
                    }
                }
                return None;
            },
        }
        i += 1;
    }
    proof {
        assert(b@.take(i as int) =~= b@);
    }
    Some(acc)
}

} // verus!
