//! The composite address codec.
//!
//! A remote message is addressed by the stable string
//! `"{account_id}:{folder}:{uid}"`. Decoding splits on the first two
//! delimiters only — everything after the second is the uid segment — and
//! demands that the uid segment parse as an unsigned 32-bit integer. Any
//! deviation is rejected outright; nothing is truncated or defaulted.

use vstd::prelude::*;

use crate::errors::MailError;

verus! {

/// A decoded composite address.
pub struct CompositeAddress {
    pub account_id: String,
    pub folder: String,
    pub uid: u32,
}

/// Whether the character is a decimal digit.
pub open spec fn is_digit(c: char) -> bool {
    48 <= c as u32 <= 57
}

/// The numeric value of a digit character.
pub open spec fn digit_val(c: char) -> int {
    c as u32 - 48
}

/// Whether every character of the sequence is a decimal digit.
pub open spec fn all_digits(s: Seq<char>) -> bool {
    forall|i: int| 0 <= i < s.len() ==> is_digit(#[trigger] s[i])
}

/// The value of a digit sequence read in base ten.
pub open spec fn digits_val(s: Seq<char>) -> int
    decreases s.len(),
{
    if s.len() == 0 {
        0
    } else {
        digits_val(s.drop_last()) * 10 + digit_val(s.last())
    }
}

/// The digit character of a value below ten.
pub open spec fn digit_char(d: int) -> char {
    if d == 0 {
        '0'
    } else if d == 1 {
        '1'
    } else if d == 2 {
        '2'
    } else if d == 3 {
        '3'
    } else if d == 4 {
        '4'
    } else if d == 5 {
        '5'
    } else if d == 6 {
        '6'
    } else if d == 7 {
        '7'
    } else if d == 8 {
        '8'
    } else {
        '9'
    }
}

/// The canonical decimal rendering of a non-negative value.
pub open spec fn decimal_digits(n: int) -> Seq<char>
    decreases n when n >= 0
{
    if n < 10 {
        seq![digit_char(n)]
    } else {
        decimal_digits(n / 10).push(digit_char(n % 10))
    }
}

/// The digits of the uid segment: an optional leading plus sign is accepted,
/// as the unsigned integer parser accepts one.
pub open spec fn digits_part(s: Seq<char>) -> Seq<char> {
    if s.len() > 0 && s[0] == '+' {
        s.drop_first()
    } else {
        s
    }
}

/// Whether the segment parses as a 32-bit unsigned integer.
pub open spec fn parses_as_u32(s: Seq<char>) -> bool {
    &&& digits_part(s).len() > 0
    &&& all_digits(digits_part(s))
    &&& digits_val(digits_part(s)) <= u32::MAX
}

/// The value the segment parses to.
pub open spec fn parsed_u32(s: Seq<char>) -> int {
    digits_val(digits_part(s))
}

/// The first position of `c` at or after `i`, or -1 when there is none.
pub open spec fn find_from(s: Seq<char>, c: char, i: int) -> int
    decreases s.len() - i when 0 <= i <= s.len()
{
    if i >= s.len() {
        -1
    } else if s[i] == c {
        i
    } else {
        find_from(s, c, i + 1)
    }
}

/// How often `c` occurs in the sequence.
pub open spec fn count_char(s: Seq<char>, c: char) -> int
    decreases s.len(),
{
    if s.len() == 0 {
        0
    } else {
        count_char(s.drop_last(), c) + if s.last() == c {
            1int
        } else {
            0int
        }
    }
}

/// The encoding of an address triple.
pub open spec fn encoded(a: Seq<char>, f: Seq<char>, u: u32) -> Seq<char> {
    a.push(':') + f.push(':') + decimal_digits(u as int)
}

/// Whether the string is a well-formed composite address: it holds at least
/// two delimiters and what follows the second parses as a 32-bit unsigned
/// integer.
pub open spec fn valid_address(s: Seq<char>) -> bool {
    let i = find_from(s, ':', 0);
    let j = find_from(s, ':', i + 1);
    i >= 0 && j >= 0 && parses_as_u32(s.subrange(j + 1, s.len() as int))
}

/// The account segment: everything before the first delimiter.
pub open spec fn addr_account(s: Seq<char>) -> Seq<char> {
    s.subrange(0, find_from(s, ':', 0))
}

/// The folder segment: everything between the first two delimiters.
pub open spec fn addr_folder(s: Seq<char>) -> Seq<char> {
    let i = find_from(s, ':', 0);
    s.subrange(i + 1, find_from(s, ':', i + 1))
}

/// The uid segment: everything after the second delimiter, unsplit.
pub open spec fn addr_uid_segment(s: Seq<char>) -> Seq<char> {
    let i = find_from(s, ':', 0);
    s.subrange(find_from(s, ':', i + 1) + 1, s.len() as int)
}

/// The uid value of a well-formed address.
pub open spec fn addr_uid(s: Seq<char>) -> int {
    parsed_u32(addr_uid_segment(s))
}

/// `find_from` skips over a region free of the needle.
proof fn lemma_find_from_skip(s: Seq<char>, c: char, i: int, j: int)
    requires
        0 <= i <= j <= s.len(),
        forall|k: int| i <= k < j ==> s[k] != c,
    ensures
        find_from(s, c, i) == find_from(s, c, j),
    decreases j - i,
{
    if i < j {
        lemma_find_from_skip(s, c, i + 1, j);
    }
}

/// What a `find_from` result means.
proof fn lemma_find_from_props(s: Seq<char>, c: char, i: int)
    requires
        0 <= i <= s.len(),
    ensures
        find_from(s, c, i) == -1 || (i <= find_from(s, c, i) < s.len() && s[find_from(s, c, i)]
            == c),
    decreases s.len() - i,
{
    if i < s.len() && s[i] != c {
        lemma_find_from_props(s, c, i + 1);
    }
}

/// A sequence of digits has a non-negative value.
proof fn lemma_digits_val_nonneg(s: Seq<char>)
    requires
        all_digits(s),
    ensures
        digits_val(s) >= 0,
    decreases s.len(),
{
    if s.len() > 0 {
        lemma_digits_val_nonneg(s.drop_last());
    }
}

/// Extending a digit sequence never decreases its value.
proof fn lemma_digits_val_extend(s: Seq<char>, k: int)
    requires
        all_digits(s),
        0 <= k <= s.len(),
    ensures
        digits_val(s.subrange(0, k)) <= digits_val(s),
    decreases s.len() - k,
{
    if k < s.len() {
        assert(s.subrange(0, k + 1).drop_last() =~= s.subrange(0, k));
        assert(s.subrange(0, k + 1).last() == s[k]);
        lemma_digits_val_nonneg(s.subrange(0, k));
        lemma_digits_val_extend(s, k + 1);
    } else {
        assert(s.subrange(0, k) =~= s);
    }
}

/// The canonical decimal rendering is made of digits and reads back to the
/// value it renders.
proof fn lemma_decimal_digits_props(n: int)
    requires
        n >= 0,
    ensures
        all_digits(decimal_digits(n)),
        digits_val(decimal_digits(n)) == n,
        decimal_digits(n).len() >= 1,
    decreases n,
{
    if n < 10 {
        assert(decimal_digits(n) =~= seq![digit_char(n)]);
        assert(decimal_digits(n).drop_last() =~= Seq::<char>::empty());
        assert(digits_val(Seq::<char>::empty()) == 0);
        assert(digit_val(digit_char(n)) == n);
        assert(digits_val(decimal_digits(n)) == n);
    } else {
        lemma_decimal_digits_props(n / 10);
        let d = decimal_digits(n);
        assert(d.drop_last() =~= decimal_digits(n / 10));
        assert(d.last() == digit_char(n % 10));
        assert(digits_val(d) == n);
    }
}

/// A string with fewer than two delimiters is never a valid address.
pub proof fn lemma_missing_delimiters_invalid(s: Seq<char>)
    requires
        count_char(s, ':') < 2,
    ensures
        !valid_address(s),
{
    if valid_address(s) {
        let i = find_from(s, ':', 0);
        lemma_find_from_props(s, ':', 0);
        let j = find_from(s, ':', i + 1);
        lemma_find_from_props(s, ':', i + 1);
        lemma_count_at_least_two(s, ':', i, j);
    }
}

/// A valid address's uid segment parses as an unsigned 32-bit integer; a
/// string whose uid segment does not parse is never a valid address.
pub proof fn lemma_nonnumeric_uid_invalid(s: Seq<char>)
    ensures
        valid_address(s) ==> parses_as_u32(addr_uid_segment(s)),
        !parses_as_u32(addr_uid_segment(s)) ==> !valid_address(s),
{
}

/// Two distinct occurrences make the count at least two.
proof fn lemma_count_at_least_two(s: Seq<char>, c: char, i: int, j: int)
    requires
        0 <= i < j < s.len(),
        s[i] == c,
        s[j] == c,
    ensures
        count_char(s, c) >= 2,
    decreases s.len(),
{
    if j == s.len() - 1 {
        lemma_count_at_least_one(s.drop_last(), c, i);
    } else {
        lemma_count_at_least_two(s.drop_last(), c, i, j);
        lemma_count_nonneg(s.drop_last(), c);
    }
}

/// One occurrence makes the count at least one.
proof fn lemma_count_at_least_one(s: Seq<char>, c: char, i: int)
    requires
        0 <= i < s.len(),
        s[i] == c,
    ensures
        count_char(s, c) >= 1,
    decreases s.len(),
{
    if i < s.len() - 1 {
        lemma_count_at_least_one(s.drop_last(), c, i);
        lemma_count_nonneg(s.drop_last(), c);
    } else {
        lemma_count_nonneg(s.drop_last(), c);
    }
}

/// The count is never negative.
proof fn lemma_count_nonneg(s: Seq<char>, c: char)
    ensures
        count_char(s, c) >= 0,
    decreases s.len(),
{
    if s.len() > 0 {
        lemma_count_nonneg(s.drop_last(), c);
    }
}

/// Encoding then decoding gives back the triple: the round trip is exact for
/// every account id and folder free of the delimiter and every uid.
pub proof fn lemma_codec_round_trip(a: Seq<char>, f: Seq<char>, u: u32)
    requires
        !a.contains(':'),
        !f.contains(':'),
    ensures
        valid_address(encoded(a, f, u)),
        addr_account(encoded(a, f, u)) == a,
        addr_folder(encoded(a, f, u)) == f,
        addr_uid(encoded(a, f, u)) == u as int,
{
    let s = encoded(a, f, u);
    let dd = decimal_digits(u as int);
    lemma_decimal_digits_props(u as int);
    let alen = a.len() as int;
    let flen = f.len() as int;
    assert(s.len() == alen + 1 + flen + 1 + dd.len());
    assert forall|k: int| 0 <= k < alen implies s[k] != ':' by {
        assert(s[k] == a[k]);
        if s[k] == ':' {
            assert(a.contains(':'));
        }
    }
    assert(s[alen] == ':');
    lemma_find_from_skip(s, ':', 0, alen);
    assert(find_from(s, ':', 0) == alen);
    assert forall|k: int| alen + 1 <= k < alen + 1 + flen implies s[k] != ':' by {
        assert(s[k] == f[k - alen - 1]);
        if s[k] == ':' {
            assert(f.contains(':'));
        }
    }
    assert(s[alen + 1 + flen] == ':');
    lemma_find_from_skip(s, ':', alen + 1, alen + 1 + flen);
    assert(find_from(s, ':', alen + 1) == alen + 1 + flen);
    let rest = s.subrange(alen + 1 + flen + 1, s.len() as int);
    assert(rest =~= dd);
    assert(is_digit(dd[0]));
    assert(dd[0] != '+');
    assert(digits_part(rest) == rest);
    assert(valid_address(s));
    assert(addr_account(s) =~= a);
    assert(addr_folder(s) =~= f);
}

/// Find the first delimiter at or after `start`.
fn find_char_from(s: &str, start: usize, n: usize) -> (r: Option<usize>)
    requires
        start <= n,
        n == s@.len(),
    ensures
        match r {
            Some(i) => start <= i < n && s@[i as int] == ':' && find_from(s@, ':', start as int)
                == i,
            None => find_from(s@, ':', start as int) == -1,
        },
{
    let mut i: usize = start;
    while i < n
        invariant
            start <= i <= n,
            n == s@.len(),
            forall|k: int| start <= k < i ==> s@[k] != ':',
        decreases n - i,
    {
        if s.get_char(i) == ':' {
            proof {
                lemma_find_from_skip(s@, ':', start as int, i as int);
            }
            return Some(i);
        }
        i = i + 1;
    }
    proof {
        lemma_find_from_skip(s@, ':', start as int, n as int);
    }
    None
}

/// Parse a segment as a 32-bit unsigned integer, accepting an optional
/// leading plus sign and rejecting anything else that is not a digit, an
/// empty digit run, or a value that does not fit.
fn parse_u32_str(s: &str) -> (r: Option<u32>)
    ensures
        match r {
            Some(v) => parses_as_u32(s@) && v as int == parsed_u32(s@),
            None => !parses_as_u32(s@),
        },
{
    let n = s.unicode_len();
    let mut start: usize = 0;
    if n > 0 && s.get_char(0) == '+' {
        start = 1;
    }
    let ghost ds = digits_part(s@);
    proof {
        assert(ds =~= s@.subrange(start as int, n as int));
    }
    if n == start {
        return None;
    }
    let mut val: u64 = 0;
    let mut i: usize = start;
    while i < n
        invariant
            start <= i <= n,
            n == s@.len(),
            ds == digits_part(s@),
            ds =~= s@.subrange(start as int, n as int),
            all_digits(ds.subrange(0, i - start)),
            val as int == digits_val(ds.subrange(0, i - start)),
            val <= u32::MAX,
        decreases n - i,
    {
        let c = s.get_char(i);
        let d = c as u32;
        proof {
            assert(ds[i - start] == s@[i as int]);
        }
        if d < 48 || d > 57 {
            proof {
                assert(!is_digit(ds[i - start]));
            }
            return None;
        }
        let step: u64 = val * 10 + (d - 48) as u64;
        proof {
            assert(ds.subrange(0, i - start + 1).drop_last() =~= ds.subrange(0, i - start));
            assert(ds.subrange(0, i - start + 1).last() == ds[i - start]);
        }
        if step > 0xffff_ffffu64 {
            proof {
                assert(step as int == digits_val(ds.subrange(0, i - start + 1)));
                if parses_as_u32(s@) {
                    lemma_digits_val_extend(ds, i - start + 1);
                }
            }
            return None;
        }
        val = step;
        i = i + 1;
    }
    proof {
        assert(ds.subrange(0, n - start as int) =~= ds);
    }
    Some(val as u32)
}

/// Split a composite id `"{account_id}:{folder}:{uid}"` into its parts.
///
/// The split caps at three segments: the folder may not contain the
/// delimiter, but everything after the second delimiter is taken whole as
/// the uid segment. A missing delimiter or a uid segment that does not parse
/// yields nothing.
pub fn parse_email_id(email_id: &str) -> (r: Option<(String, String, u32)>)
    ensures
        match r {
            Some((a, f, u)) => {
                &&& valid_address(email_id@)
                &&& a@ == addr_account(email_id@)
                &&& f@ == addr_folder(email_id@)
                &&& u as int == addr_uid(email_id@)
            },
            None => !valid_address(email_id@),
        },
{
    let n = email_id.unicode_len();
    let i = match find_char_from(email_id, 0, n) {
        Some(i) => i,
        None => {
            return None;
        },
    };
    let j = match find_char_from(email_id, i + 1, n) {
        Some(j) => j,
        None => {
            return None;
        },
    };
    let account = email_id.substring_char(0, i).to_owned();
    let folder = email_id.substring_char(i + 1, j).to_owned();
    let rest = email_id.substring_char(j + 1, n);
    match parse_u32_str(rest) {
        Some(uid) => Some((account, folder, uid)),
        None => None,
    }
}

/// Decode a composite address, rejecting every malformed string.
pub fn decode_address(s: &str) -> (r: Result<CompositeAddress, MailError>)
    ensures
        match r {
            Ok(addr) => {
                &&& valid_address(s@)
                &&& addr.account_id@ == addr_account(s@)
                &&& addr.folder@ == addr_folder(s@)
                &&& addr.uid as int == addr_uid(s@)
            },
            Err(e) => e == MailError::InvalidAddress && !valid_address(s@),
        },
{
    match parse_email_id(s) {
        Some((account_id, folder, uid)) => Ok(CompositeAddress { account_id, folder, uid }),
        None => Err(MailError::InvalidAddress),
    }
}

/// Append the decimal rendering of `n`.
fn push_decimal(n: u32, out: &mut String)
    ensures
        final(out)@ == old(out)@ + decimal_digits(n as int),
    decreases n,
{
    if n >= 10 {
        push_decimal(n / 10, out);
    }
    let d = n % 10;
    let digit: &str = match d {
        0 => "0",
        1 => "1",
        2 => "2",
        3 => "3",
        4 => "4",
        5 => "5",
        6 => "6",
        7 => "7",
        8 => "8",
        _ => "9",
    };
    proof {
        reveal_strlit("0");
        reveal_strlit("1");
        reveal_strlit("2");
        reveal_strlit("3");
        reveal_strlit("4");
        reveal_strlit("5");
        reveal_strlit("6");
        reveal_strlit("7");
        reveal_strlit("8");
        reveal_strlit("9");
        assert(digit@ =~= seq![digit_char(d as int)]);
    }
    out.append(digit);
    proof {
        if n < 10 {
            assert(decimal_digits(n as int) =~= seq![digit_char(n as int)]);
            assert(final(out)@ =~= old(out)@ + decimal_digits(n as int));
        } else {
            assert(decimal_digits(n as int) == decimal_digits(n as int / 10).push(
                digit_char(n as int % 10),
            ));
            assert(final(out)@ =~= old(out)@ + decimal_digits(n as int));
        }
    }
}

/// Encode an address triple as `"{account_id}:{folder}:{uid}"`.
pub fn encode_address(account_id: &str, folder: &str, uid: u32) -> (r: String)
    ensures
        r@ == encoded(account_id@, folder@, uid),
{
    let mut out = account_id.to_owned();
    out.append(":");
    out.append(folder);
    out.append(":");
    push_decimal(uid, &mut out);
    proof {
        reveal_strlit(":");
        assert(out@ =~= encoded(account_id@, folder@, uid));
    }
    out
}

} // verus!
