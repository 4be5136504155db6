//! Small verified helpers for working with strings as sequences of
//! characters: equality, case mapping, decimal rendering, searching and
//! tokenizing.
use vstd::prelude::*;

verus! {

/// The empty string literal reads as the empty sequence.
pub proof fn lemma_empty_strlit()
    ensures
        ""@ == Seq::<char>::empty(),
{
    reveal_strlit("");
    assert(""@ =~= Seq::<char>::empty());
}

/// Character-wise string equality.
pub fn str_eq(a: &str, b: &str) -> (r: bool)
    ensures
        r == (a@ == b@),
{
    let alen = a.unicode_len();
    let blen = b.unicode_len();
    if alen != blen {
        return false;
    }
    let mut i: usize = 0;
    while i < alen
        invariant
            alen == a@.len(),
            blen == b@.len(),
            alen == blen,
            i <= alen,
            forall|j: int| 0 <= j < i ==> a@[j] == b@[j],
        decreases alen - i,
    {
        if a.get_char(i) != b.get_char(i) {
            return false;
        }
        i += 1;
    }
    proof {
        assert(a@ =~= b@);
    }
    true
}

/// Whether `v` holds a string reading `s`.
pub fn vec_contains_str(v: &Vec<String>, s: &str) -> (r: bool)
    ensures
        r == v.deep_view().contains(s@),
{
    let n = v.len();
    let mut i: usize = 0;
    while i < n
        invariant
            n == v@.len(),
            i <= n,
            forall|j: int| 0 <= j < i ==> v.deep_view()[j] != s@,
        decreases n - i,
    {
        if str_eq(v[i].as_str(), s) {
            proof {
                assert(v.deep_view()[i as int] == s@);
            }
            return true;
        }
        i += 1;
    }
    proof {
        if v.deep_view().contains(s@) {
            let j = choose|j: int| 0 <= j < v.deep_view().len() && v.deep_view()[j] == s@;
            assert(v.deep_view()[j] != s@);
        }
    }
    false
}

/// Relies on `String`'s `FromIterator<char>` implementation: collecting an
/// iterator of characters yields the string of exactly those characters in
/// order.
#[verifier::external_body]
pub(crate) fn chars_to_string(v: &Vec<char>) -> (r: String)
    ensures
        r@ == v@,
{
    v.iter().collect()
}

/// Appends every character of `s` to `out`.
pub fn push_str_chars(s: &str, out: &mut Vec<char>)
    ensures
        final(out)@ == old(out)@ + s@,
{
    let n = s.unicode_len();
    let mut i: usize = 0;
    while i < n
        invariant
            n == s@.len(),
            i <= n,
            out@ == old(out)@ + s@.take(i as int),
        decreases n - i,
    {
        let c = s.get_char(i);
        out.push(c);
        proof {
            assert(old(out)@ + s@.take(i + 1) =~= (old(out)@ + s@.take(i as int)).push(s@[i as int]));
        }
        i += 1;
    }
    proof {
        assert(s@.take(n as int) =~= s@);
    }
}

/// The lower-case counterpart of an ASCII letter; any other character is
/// unchanged.
pub open spec fn lower_char(c: char) -> char {
    match c {
        'A' => 'a', 'B' => 'b', 'C' => 'c', 'D' => 'd', 'E' => 'e', 'F' => 'f',
        'G' => 'g', 'H' => 'h', 'I' => 'i', 'J' => 'j', 'K' => 'k', 'L' => 'l',
        'M' => 'm', 'N' => 'n', 'O' => 'o', 'P' => 'p', 'Q' => 'q', 'R' => 'r',
        'S' => 's', 'T' => 't', 'U' => 'u', 'V' => 'v', 'W' => 'w', 'X' => 'x',
        'Y' => 'y', 'Z' => 'z', _ => c,
    }
}

/// The upper-case counterpart of an ASCII letter; any other character is
/// unchanged.
pub open spec fn upper_char(c: char) -> char {
    match c {
        'a' => 'A', 'b' => 'B', 'c' => 'C', 'd' => 'D', 'e' => 'E', 'f' => 'F',
        'g' => 'G', 'h' => 'H', 'i' => 'I', 'j' => 'J', 'k' => 'K', 'l' => 'L',
        'm' => 'M', 'n' => 'N', 'o' => 'O', 'p' => 'P', 'q' => 'Q', 'r' => 'R',
        's' => 'S', 't' => 'T', 'u' => 'U', 'v' => 'V', 'w' => 'W', 'x' => 'X',
        'y' => 'Y', 'z' => 'Z', _ => c,
    }
}

pub open spec fn spec_lower(s: Seq<char>) -> Seq<char> {
    s.map_values(|c: char| lower_char(c))
}

pub open spec fn spec_upper(s: Seq<char>) -> Seq<char> {
    s.map_values(|c: char| upper_char(c))
}

fn lower_char_exec(c: char) -> (r: char)
    ensures
        r == lower_char(c),
{
    match c {
        'A' => 'a', 'B' => 'b', 'C' => 'c', 'D' => 'd', 'E' => 'e', 'F' => 'f',
        'G' => 'g', 'H' => 'h', 'I' => 'i', 'J' => 'j', 'K' => 'k', 'L' => 'l',
        'M' => 'm', 'N' => 'n', 'O' => 'o', 'P' => 'p', 'Q' => 'q', 'R' => 'r',
        'S' => 's', 'T' => 't', 'U' => 'u', 'V' => 'v', 'W' => 'w', 'X' => 'x',
        'Y' => 'y', 'Z' => 'z', _ => c,
    }
}

fn upper_char_exec(c: char) -> (r: char)
    ensures
        r == upper_char(c),
{
    match c {
        'a' => 'A', 'b' => 'B', 'c' => 'C', 'd' => 'D', 'e' => 'E', 'f' => 'F',
        'g' => 'G', 'h' => 'H', 'i' => 'I', 'j' => 'J', 'k' => 'K', 'l' => 'L',
        'm' => 'M', 'n' => 'N', 'o' => 'O', 'p' => 'P', 'q' => 'Q', 'r' => 'R',
        's' => 'S', 't' => 'T', 'u' => 'U', 'v' => 'V', 'w' => 'W', 'x' => 'X',
        'y' => 'Y', 'z' => 'Z', _ => c,
    }
}

/// ASCII lower-casing of a whole string. Only the twenty-six ASCII
/// letters are mapped — narrower than std's Unicode folding, and enough
/// for the severity, license and detector vocabulary compared here.
pub fn to_lowercase(s: &str) -> (r: String)
    ensures
        r@ == spec_lower(s@),
{
    let n = s.unicode_len();
    let mut out: Vec<char> = Vec::new();
    let mut i: usize = 0;
    while i < n
        invariant
            n == s@.len(),
            i <= n,
            out@ == spec_lower(s@.take(i as int)),
        decreases n - i,
    {
        let c = lower_char_exec(s.get_char(i));
        out.push(c);
        proof {
            assert(spec_lower(s@.take(i + 1)) =~= spec_lower(s@.take(i as int)).push(lower_char(s@[i as int])));
        }
        i += 1;
    }
    proof {
        assert(s@.take(n as int) =~= s@);
    }
    chars_to_string(&out)
}

/// ASCII upper-casing of a whole string. Only the twenty-six ASCII
/// letters are mapped — narrower than std's Unicode folding, and enough
/// for the severity, license and detector vocabulary compared here.
pub fn to_uppercase(s: &str) -> (r: String)
    ensures
        r@ == spec_upper(s@),
{
    let n = s.unicode_len();
    let mut out: Vec<char> = Vec::new();
    let mut i: usize = 0;
    while i < n
        invariant
            n == s@.len(),
            i <= n,
            out@ == spec_upper(s@.take(i as int)),
        decreases n - i,
    {
        let c = upper_char_exec(s.get_char(i));
        out.push(c);
        proof {
            assert(spec_upper(s@.take(i + 1)) =~= spec_upper(s@.take(i as int)).push(upper_char(s@[i as int])));
        }
        i += 1;
    }
    proof {
        assert(s@.take(n as int) =~= s@);
    }
    chars_to_string(&out)
}

/// The decimal digit character for `d` (digits above nine give `'9'`, a case
/// no caller reaches).
pub open spec fn digit_char(d: u64) -> char {
    if d == 0 { '0' }
    else if d == 1 { '1' }
    else if d == 2 { '2' }
    else if d == 3 { '3' }
    else if d == 4 { '4' }
    else if d == 5 { '5' }
    else if d == 6 { '6' }
    else if d == 7 { '7' }
    else if d == 8 { '8' }
    else { '9' }
}

/// Decimal rendering of an unsigned number, most significant digit first.
pub open spec fn spec_u64_str(n: u64) -> Seq<char>
    decreases n,
{
    if n < 10 {
        seq![digit_char(n)]
    } else {
        spec_u64_str((n / 10) as u64).push(digit_char((n % 10) as u64))
    }
}

fn digit_char_exec(d: u64) -> (r: char)
    requires
        d < 10,
    ensures
        r == digit_char(d),
{
    if d == 0 { '0' }
    else if d == 1 { '1' }
    else if d == 2 { '2' }
    else if d == 3 { '3' }
    else if d == 4 { '4' }
    else if d == 5 { '5' }
    else if d == 6 { '6' }
    else if d == 7 { '7' }
    else if d == 8 { '8' }
    else { '9' }
}

fn push_u64_chars(n: u64, out: &mut Vec<char>)
    ensures
        final(out)@ == old(out)@ + spec_u64_str(n),
    decreases n,
{
    if n >= 10 {
        push_u64_chars(n / 10, out);
    }
    let c = digit_char_exec(n % 10);
    out.push(c);
    proof {
        if n < 10 {
            assert(n % 10 == n);
            assert(out@ =~= old(out)@ + spec_u64_str(n));
        } else {
            assert(out@ =~= old(out)@ + spec_u64_str(n));
        }
    }
}

/// Renders `n` in decimal.
pub fn u64_to_string(n: u64) -> (r: String)
    ensures
        r@ == spec_u64_str(n),
{
    let mut v: Vec<char> = Vec::new();
    push_u64_chars(n, &mut v);
    proof {
        assert(v@ =~= spec_u64_str(n));
    }
    chars_to_string(&v)
}

/// The magnitude of a negative signed number, as an unsigned number.
pub open spec fn spec_i64_mag(v: i64) -> u64
    recommends
        v < 0,
{
    (-(v as int)) as u64
}

/// Decimal rendering of a signed number.
pub open spec fn spec_i64_str(v: i64) -> Seq<char> {
    if v >= 0 {
        spec_u64_str(v as u64)
    } else {
        seq!['-'] + spec_u64_str(spec_i64_mag(v))
    }
}

/// Renders `v` in decimal, with a leading minus sign when negative.
pub fn i64_to_string(v: i64) -> (r: String)
    ensures
        r@ == spec_i64_str(v),
{
    if v >= 0 {
        let r = u64_to_string(v as u64);
        r
    } else {
        let mag: u64 = if v == i64::MIN {
            9223372036854775808u64
        } else {
            (-v) as u64
        };
        proof {
            assert(mag == spec_i64_mag(v));
        }
        let mut out: Vec<char> = Vec::new();
        out.push('-');
        push_u64_chars(mag, &mut out);
        proof {
            assert(out@ =~= seq!['-'] + spec_u64_str(spec_i64_mag(v)));
        }
        chars_to_string(&out)
    }
}

/// Whether `needle` occurs in `hay` starting at position `i`.
pub open spec fn sub_at(hay: Seq<char>, needle: Seq<char>, i: int) -> bool {
    0 <= i && i + needle.len() <= hay.len() && hay.subrange(i, i + needle.len() as int) == needle
}

/// Whether `needle` occurs anywhere in `hay`.
pub open spec fn spec_contains_sub(hay: Seq<char>, needle: Seq<char>) -> bool {
    exists|i: int| sub_at(hay, needle, i)
}

/// Whether `needle` occurs in `hay` at position `i`, checked character by
/// character.
fn sub_at_exec(hay: &Vec<char>, needle: &Vec<char>, i: usize) -> (r: bool)
    requires
        i + needle@.len() <= hay@.len(),
    ensures
        r == sub_at(hay@, needle@, i as int),
{
    let hn: usize = hay.len();
    let n = needle.len();
    let mut j: usize = 0;
    while j < n
        invariant
            hn == hay@.len(),
            n == needle@.len(),
            i + n <= hay@.len(),
            j <= n,
            forall|k: int| 0 <= k < j ==> hay@[i + k] == needle@[k],
        decreases n - j,
    {
        if hay[i + j] != needle[j] {
            proof {
                assert(hay@.subrange(i as int, i + needle@.len() as int)[j as int] == hay@[i + j]);
            }
            return false;
        }
        j += 1;
    }
    proof {
        assert(hay@.subrange(i as int, i + needle@.len() as int) =~= needle@);
    }
    true
}

/// Substring search.
pub fn contains_sub(hay: &str, needle: &str) -> (r: bool)
    ensures
        r == spec_contains_sub(hay@, needle@),
{
    let mut hv: Vec<char> = Vec::new();
    push_str_chars(hay, &mut hv);
    let mut nv: Vec<char> = Vec::new();
    push_str_chars(needle, &mut nv);
    if nv.len() == 0 {
        proof {
            assert(hay@.subrange(0, 0) =~= needle@);
            assert(sub_at(hay@, needle@, 0));
        }
        return true;
    }
    if nv.len() > hv.len() {
        proof {
            assert(forall|i: int| !sub_at(hay@, needle@, i));
        }
        return false;
    }
    let hlen: usize = hv.len();
    let last = hlen - nv.len();
    let mut i: usize = 0;
    loop
        invariant
            hv@ == hay@,
            nv@ == needle@,
            0 < nv@.len() <= hv@.len(),
            hlen == hv@.len(),
            last == hv@.len() - nv@.len(),
            last < hlen,
            i <= last + 1,
            forall|k: int| 0 <= k < i ==> !sub_at(hay@, needle@, k),
        decreases last + 1 - i,
    {
        if i > last {
            proof {
                assert(forall|k: int| sub_at(hay@, needle@, k) ==> 0 <= k <= last);
            }
            return false;
        }
        if sub_at_exec(&hv, &nv, i) {
            return true;
        }
        i += 1;
    }
}

/// Whether `s` begins with `prefix`.
pub open spec fn spec_starts_with(s: Seq<char>, prefix: Seq<char>) -> bool {
    prefix.len() <= s.len() && s.take(prefix.len() as int) == prefix
}

/// Prefix test.
pub fn starts_with(s: &str, prefix: &str) -> (r: bool)
    ensures
        r == spec_starts_with(s@, prefix@),
{
    let n = prefix.unicode_len();
    let sn = s.unicode_len();
    if n > sn {
        return false;
    }
    let mut i: usize = 0;
    while i < n
        invariant
            n == prefix@.len(),
            sn == s@.len(),
            n <= sn,
            i <= n,
            forall|j: int| 0 <= j < i ==> s@[j] == prefix@[j],
        decreases n - i,
    {
        if s.get_char(i) != prefix.get_char(i) {
            proof {
                assert(s@.take(prefix@.len() as int)[i as int] == s@[i as int]);
            }
            return false;
        }
        i += 1;
    }
    proof {
        assert(s@.take(prefix@.len() as int) =~= prefix@);
    }
    true
}

/// The index of the last path separator of `s`, or -1 when there is
/// none.
pub open spec fn last_sep_index(s: Seq<char>) -> int
    decreases s.len(),
{
    if s.len() == 0 {
        -1
    } else if s.last() == '/' {
        s.len() - 1
    } else {
        last_sep_index(s.drop_last())
    }
}

pub proof fn lemma_last_sep_bounds(s: Seq<char>)
    ensures
        -1 <= last_sep_index(s) < s.len(),
    decreases s.len(),
{
    if s.len() > 0 {
        lemma_last_sep_bounds(s.drop_last());
    }
}

/// The final segment of a path: everything after its last separator.
pub open spec fn file_name_of(p: Seq<char>) -> Seq<char> {
    p.skip(last_sep_index(p) + 1)
}

/// Everything up to and including a path's last separator.
pub open spec fn folder_of(p: Seq<char>) -> Seq<char> {
    p.take(last_sep_index(p) + 1)
}

/// Splits a path into the folder up to its last separator and the final
/// segment.
pub fn split_path(p: &str) -> (r: (String, String))
    ensures
        r.0@ == folder_of(p@),
        r.1@ == file_name_of(p@),
{
    let n = p.unicode_len();
    let mut found = false;
    let mut pos: usize = 0;
    let mut i: usize = 0;
    while i < n
        invariant
            n == p@.len(),
            i <= n,
            found ==> pos < i,
            last_sep_index(p@.take(i as int)) == if found {
                pos as int
            } else {
                -1
            },
        decreases n - i,
    {
        proof {
            assert(p@.take(i + 1).drop_last() =~= p@.take(i as int));
            assert(p@.take(i + 1).last() == p@[i as int]);
        }
        if p.get_char(i) == '/' {
            found = true;
            pos = i;
        }
        i += 1;
    }
    proof {
        assert(p@.take(n as int) =~= p@);
    }
    let cut = if found {
        pos + 1
    } else {
        0
    };
    let folder = p.substring_char(0, cut).to_owned();
    let file = p.substring_char(cut, n).to_owned();
    proof {
        assert(folder@ =~= folder_of(p@));
        assert(file@ =~= file_name_of(p@));
    }
    (folder, file)
}

/// Whitespace for tokenizing purposes.
pub open spec fn is_space(c: char) -> bool {
    c == ' ' || c == '\t' || c == '\n' || c == '\r'
}

fn is_space_exec(c: char) -> (r: bool)
    ensures
        r == is_space(c),
{
    c == ' ' || c == '\t' || c == '\n' || c == '\r'
}

/// State of a left-to-right whitespace scan over a prefix of the input: the
/// completed tokens and the partial token under construction.
pub open spec fn token_scan(s: Seq<char>) -> (Seq<Seq<char>>, Seq<char>)
    decreases s.len(),
{
    if s.len() == 0 {
        (Seq::empty(), Seq::empty())
    } else {
        let prior = token_scan(s.drop_last());
        let c = s.last();
        if is_space(c) {
            if prior.1.len() == 0 {
                prior
            } else {
                (prior.0.push(prior.1), Seq::empty())
            }
        } else {
            (prior.0, prior.1.push(c))
        }
    }
}

/// The maximal whitespace-free words of `s`, in order.
pub open spec fn spec_tokens(s: Seq<char>) -> Seq<Seq<char>> {
    let scan = token_scan(s);
    if scan.1.len() == 0 {
        scan.0
    } else {
        scan.0.push(scan.1)
    }
}

/// Splits `s` into its whitespace-separated words.
pub fn tokenize(s: &str) -> (r: Vec<String>)
    ensures
        r.deep_view() == spec_tokens(s@),
{
    let n = s.unicode_len();
    let mut done: Vec<String> = Vec::new();
    let mut cur: Vec<char> = Vec::new();
    let mut i: usize = 0;
    while i < n
        invariant
            n == s@.len(),
            i <= n,
            done.deep_view() == token_scan(s@.take(i as int)).0,
            cur@ == token_scan(s@.take(i as int)).1,
        decreases n - i,
    {
        let c = s.get_char(i);
        proof {
            assert(s@.take(i + 1).drop_last() =~= s@.take(i as int));
            assert(s@.take(i + 1).last() == s@[i as int]);
        }
        if is_space_exec(c) {
            if cur.len() > 0 {
                let tok = chars_to_string(&cur);
                done.push(tok);
                cur = Vec::new();
                proof {
                    assert(done.deep_view() =~= token_scan(s@.take(i + 1)).0);
                }
            }
        } else {
            cur.push(c);
        }
        i += 1;
    }
    proof {
        assert(s@.take(n as int) =~= s@);
    }
    if cur.len() > 0 {
        let tok = chars_to_string(&cur);
        done.push(tok);
        proof {
            assert(done.deep_view() =~= spec_tokens(s@));
        }
    }
    done
}

/// The segments of `s` between newline characters; one more segment than
/// there are newlines.
pub open spec fn line_scan(s: Seq<char>) -> (Seq<Seq<char>>, Seq<char>)
    decreases s.len(),
{
    if s.len() == 0 {
        (Seq::empty(), Seq::empty())
    } else {
        let prior = line_scan(s.drop_last());
        let c = s.last();
        if c == '\n' {
            (prior.0.push(prior.1), Seq::empty())
        } else {
            (prior.0, prior.1.push(c))
        }
    }
}

pub open spec fn spec_lines(s: Seq<char>) -> Seq<Seq<char>> {
    let scan = line_scan(s);
    scan.0.push(scan.1)
}

/// Splits `s` at newline characters, keeping empty segments.
pub fn split_lines(s: &str) -> (r: Vec<String>)
    ensures
        r.deep_view() == spec_lines(s@),
{
    let n = s.unicode_len();
    let mut done: Vec<String> = Vec::new();
    let mut cur: Vec<char> = Vec::new();
    let mut i: usize = 0;
    while i < n
        invariant
            n == s@.len(),
            i <= n,
            done.deep_view() == line_scan(s@.take(i as int)).0,
            cur@ == line_scan(s@.take(i as int)).1,
        decreases n - i,
    {
        let c = s.get_char(i);
        proof {
            assert(s@.take(i + 1).drop_last() =~= s@.take(i as int));
            assert(s@.take(i + 1).last() == s@[i as int]);
        }
        if c == '\n' {
            let line = chars_to_string(&cur);
            done.push(line);
            cur = Vec::new();
            proof {
                assert(done.deep_view() =~= line_scan(s@.take(i + 1)).0);
            }
        } else {
            cur.push(c);
        }
        i += 1;
    }
    proof {
        assert(s@.take(n as int) =~= s@);
    }
    let line = chars_to_string(&cur);
    done.push(line);
    proof {
        assert(done.deep_view() =~= spec_lines(s@));
    }
    done
}

} // verus!
