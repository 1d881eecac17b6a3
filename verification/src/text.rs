//! Text preparation for the embedding side: HTML stripping, whitespace
//! normalization, truncation, folder-name mapping and content hashing.

use vstd::prelude::*;

use crate::keys::str_eq;

verus! {

/// Whether two views of a pattern occur somewhere in the sequence.
pub open spec fn contains_seq(s: Seq<char>, pat: Seq<char>) -> bool {
    exists|k: int|
        0 <= k <= s.len() - pat.len() && #[trigger] s.subrange(k, k + pat.len() as int) == pat
}

/// Whether the character has Unicode's White_Space property, as
/// `char::is_whitespace` defines it.
pub open spec fn is_space(c: char) -> bool {
    c == ' ' || c == '\t' || c == '\n' || c == '\u{b}' || c == '\u{c}' || c == '\r' || c
        == '\u{85}' || c == '\u{a0}' || c == '\u{1680}' || c == '\u{2000}' || c == '\u{2001}' || c
        == '\u{2002}' || c == '\u{2003}' || c == '\u{2004}' || c == '\u{2005}' || c == '\u{2006}'
        || c == '\u{2007}' || c == '\u{2008}' || c == '\u{2009}' || c == '\u{200a}' || c
        == '\u{2028}' || c == '\u{2029}' || c == '\u{202f}' || c == '\u{205f}' || c == '\u{3000}'
}

/// The characters kept by the tag-stripping pass, given the four global
/// marks (a style opener or closer, a script opener or closer occurs
/// anywhere in the input) and the scanner's current state.
pub open spec fn stripped_chars(
    s: Seq<char>,
    hs: bool,
    hsc: bool,
    hse: bool,
    hsce: bool,
    in_tag: bool,
    in_style: bool,
    in_script: bool,
) -> Seq<char>
    decreases s.len(),
{
    if s.len() == 0 {
        Seq::empty()
    } else {
        let c = s[0];
        if c == '<' {
            stripped_chars(s.drop_first(), hs, hsc, hse, hsce, true, in_style || hs, in_script
                || hsc)
        } else if c == '>' {
            stripped_chars(s.drop_first(), hs, hsc, hse, hsce, false, in_style && !hse, in_script
                && !hsce)
        } else if !in_tag && !in_style && !in_script {
            seq![c] + stripped_chars(s.drop_first(), hs, hsc, hse, hsce, in_tag, in_style,
                in_script)
        } else {
            stripped_chars(s.drop_first(), hs, hsc, hse, hsce, in_tag, in_style, in_script)
        }
    }
}

/// The tag-stripping pass over a whole document.
pub open spec fn spec_stripped(s: Seq<char>) -> Seq<char> {
    stripped_chars(
        s,
        contains_seq(s, "<style"@),
        contains_seq(s, "<script"@),
        contains_seq(s, "</style>"@),
        contains_seq(s, "</script>"@),
        false,
        false,
        false,
    )
}

/// Whitespace normalization: the maximal runs of non-space characters,
/// joined by single spaces. `started` records whether a word was emitted,
/// `pending` whether a space is owed before the next word.
pub open spec fn normalized_from(s: Seq<char>, started: bool, pending: bool) -> Seq<char>
    decreases s.len(),
{
    if s.len() == 0 {
        Seq::empty()
    } else if is_space(s[0]) {
        normalized_from(s.drop_first(), started, started)
    } else {
        (if pending {
            seq![' ', s[0]]
        } else {
            seq![s[0]]
        }) + normalized_from(s.drop_first(), true, false)
    }
}

/// Whitespace normalization of a whole sequence.
pub open spec fn spec_normalized(s: Seq<char>) -> Seq<char> {
    normalized_from(s, false, false)
}

/// The truncation of a text to at most `max_chars` bytes of content: a text
/// that already fits is kept whole; otherwise its first `max_chars`
/// characters (or all of them, when the overrun is only in multi-byte
/// characters) are kept and an ellipsis is appended.
pub open spec fn spec_truncated(s: Seq<char>, max_chars: int) -> Seq<char> {
    if vstd::utf8::encode_utf8(s).len() <= max_chars {
        s
    } else {
        s.subrange(
            0,
            if s.len() <= max_chars {
                s.len() as int
            } else {
                max_chars
            },
        ) + "..."@
    }
}

/// Whether the pattern occurs in the string.
fn contains_str(s: &str, pat: &str) -> (r: bool)
    ensures
        r == contains_seq(s@, pat@),
{
    let n = s.unicode_len();
    let m = pat.unicode_len();
    if m > n {
        return false;
    }
    if m == 0 {
        proof {
            assert(s@.subrange(0, 0 + pat@.len() as int) =~= pat@);
            assert(contains_seq(s@, pat@));
        }
        return true;
    }
    let mut k: usize = 0;
    while k <= n - m
        invariant
            0 < m <= n,
            n == s@.len(),
            m == pat@.len(),
            k <= n - m + 1,
            forall|k2: int|
                0 <= k2 < k ==> #[trigger] s@.subrange(k2, k2 + pat@.len() as int) != pat@,
        decreases n - m + 1 - k,
    {
        let mut j: usize = 0;
        let mut matched = true;
        while j < m
            invariant
                k + m <= n,
                n == s@.len(),
                m == pat@.len(),
                j <= m,
                matched ==> forall|j2: int| 0 <= j2 < j ==> s@[k + j2] == pat@[j2],
                !matched ==> s@.subrange(k as int, k + m as int) != pat@,
            decreases m - j,
        {
            if s.get_char(k + j) != pat.get_char(j) {
                proof {
                    assert(s@.subrange(k as int, k + m as int)[j as int] != pat@[j as int]);
                }
                matched = false;
                j = m;
            } else {
                j = j + 1;
            }
        }
        if matched {
            proof {
                assert(s@.subrange(k as int, k + pat@.len() as int) =~= pat@);
            }
            return true;
        }
        k = k + 1;
    }
    false
}

/// Strip HTML markup from text: tag bodies are dropped, style and script
/// regions are handled by the document-wide marks, and the surviving
/// characters are whitespace-normalized into single-space-separated words.
pub fn strip_html(html: &str) -> (r: String)
    ensures
        r@ == spec_normalized(spec_stripped(html@)),
{
    let hs = contains_str(html, "<style");
    let hsc = contains_str(html, "<script");
    let hse = contains_str(html, "</style>");
    let hsce = contains_str(html, "</script>");
    let n = html.unicode_len();
    let mut kept = String::new();
    let mut in_tag = false;
    let mut in_style = false;
    let mut in_script = false;
    let mut i: usize = 0;
    proof {
        assert(html@.skip(0) =~= html@);
        assert(kept@ + stripped_chars(html@, hs, hsc, hse, hsce, false, false, false)
            =~= spec_stripped(html@));
    }
    while i < n
        invariant
            i <= n,
            n == html@.len(),
            hs == contains_seq(html@, "<style"@),
            hsc == contains_seq(html@, "<script"@),
            hse == contains_seq(html@, "</style>"@),
            hsce == contains_seq(html@, "</script>"@),
            kept@ + stripped_chars(html@.skip(i as int), hs, hsc, hse, hsce, in_tag, in_style,
                in_script) == spec_stripped(html@),
        decreases n - i,
    {
        let c = html.get_char(i);
        proof {
            assert(html@.skip(i as int)[0] == html@[i as int]);
            assert(html@.skip(i as int).drop_first() =~= html@.skip(i + 1));
        }
        if c == '<' {
            in_tag = true;
            if hs {
                in_style = true;
            }
            if hsc {
                in_script = true;
            }
        } else if c == '>' {
            in_tag = false;
            if in_style && hse {
                in_style = false;
            }
            if in_script && hsce {
                in_script = false;
            }
        } else if !in_tag && !in_style && !in_script {
            kept.push(c);
        }
        i = i + 1;
        proof {
            assert(kept@ + stripped_chars(html@.skip(i as int), hs, hsc, hse, hsce, in_tag,
                in_style, in_script) =~= spec_stripped(html@));
        }
    }
    proof {
        assert(html@.skip(n as int) =~= Seq::<char>::empty());
        assert(kept@ =~= spec_stripped(html@));
    }
    normalize_whitespace(kept.as_str())
}

/// Relies on String::push: it appends the given character to the string.
pub assume_specification[ String::push ](s: &mut String, ch: char)
    ensures
        final(s)@ == old(s)@.push(ch),
;

/// Collapse whitespace runs into single spaces and trim the ends.
fn normalize_whitespace(s: &str) -> (r: String)
    ensures
        r@ == spec_normalized(s@),
{
    let n = s.unicode_len();
    let mut out = String::new();
    let mut started = false;
    let mut pending = false;
    let mut i: usize = 0;
    proof {
        assert(s@.skip(0) =~= s@);
        assert(out@ + normalized_from(s@, false, false) =~= spec_normalized(s@));
    }
    while i < n
        invariant
            i <= n,
            n == s@.len(),
            out@ + normalized_from(s@.skip(i as int), started, pending) == spec_normalized(s@),
        decreases n - i,
    {
        let c = s.get_char(i);
        proof {
            assert(s@.skip(i as int)[0] == s@[i as int]);
            assert(s@.skip(i as int).drop_first() =~= s@.skip(i + 1));
        }
        if is_whitespace_char(c) {
            pending = started;
        } else {
            if pending {
                out.push(' ');
            }
            out.push(c);
            started = true;
            pending = false;
        }
        i = i + 1;
        proof {
            assert(out@ + normalized_from(s@.skip(i as int), started, pending) =~= spec_normalized(
                s@,
            ));
        }
    }
    proof {
        assert(s@.skip(n as int) =~= Seq::<char>::empty());
        assert(out@ =~= spec_normalized(s@));
    }
    out
}

/// Whether the character has Unicode's White_Space property.
fn is_whitespace_char(c: char) -> (r: bool)
    ensures
        r == is_space(c),
{
    c == ' ' || c == '\t' || c == '\n' || c == '\u{b}' || c == '\u{c}' || c == '\r' || c
        == '\u{85}' || c == '\u{a0}' || c == '\u{1680}' || c == '\u{2000}' || c == '\u{2001}' || c
        == '\u{2002}' || c == '\u{2003}' || c == '\u{2004}' || c == '\u{2005}' || c == '\u{2006}'
        || c == '\u{2007}' || c == '\u{2008}' || c == '\u{2009}' || c == '\u{200a}' || c
        == '\u{2028}' || c == '\u{2029}' || c == '\u{202f}' || c == '\u{205f}' || c == '\u{3000}'
}

/// Truncate text to at most `max_chars` bytes, appending an ellipsis when
/// anything had to go.
pub fn truncate_text(text: &str, max_chars: usize) -> (r: String)
    ensures
        r@ == spec_truncated(text@, max_chars as int),
{
    if text.as_bytes().len() <= max_chars {
        text.to_owned()
    } else {
        let n = text.unicode_len();
        let k = if n < max_chars {
            n
        } else {
            max_chars
        };
        let sub = text.substring_char(0, k);
        let mut out = sub.to_owned();
        out.append("...");
        proof {
            assert(out@ =~= spec_truncated(text@, max_chars as int));
        }
        out
    }
}

/// Prepare an email's text for embedding: strip the body's markup, cap its
/// length, and join sender, subject and content into one line.
pub fn prepare_email_text(subject: &str, from: &str, body: &str) -> (r: String)
    ensures
        r@ == "From: "@ + from@ + " Subject: "@ + subject@ + " Content: "@ + spec_truncated(
            spec_normalized(spec_stripped(body@)),
            1000,
        ),
{
    let clean_body = strip_html(body);
    let truncated_body = truncate_text(clean_body.as_str(), 1000);
    let mut out = String::new();
    out.append("From: ");
    out.append(from);
    out.append(" Subject: ");
    out.append(subject);
    out.append(" Content: ");
    out.append(truncated_body.as_str());
    proof {
        assert(out@ =~= "From: "@ + from@ + " Subject: "@ + subject@ + " Content: "@
            + spec_truncated(spec_normalized(spec_stripped(body@)), 1000));
    }
    out
}

/// The lowercase form of a string, as `str::to_lowercase` computes it.
pub uninterp spec fn lower_of(s: Seq<char>) -> Seq<char>;

/// Relies on str::to_lowercase: the result depends on the characters alone.
#[verifier::external_body]
fn to_lowercase_string(s: &str) -> (r: String)
    ensures
        r@ == lower_of(s@),
{
    s.to_lowercase()
}

/// Map a caller-facing folder name, case-insensitively, to the server's
/// folder name; unknown folders pass through unchanged.
pub fn map_folder_name<'a>(folder: &'a str) -> (r: &'a str)
    ensures
        lower_of(folder@) == "inbox"@ ==> r@ == "INBOX"@,
        lower_of(folder@) == "sent"@ ==> r@ == "Sent"@,
        lower_of(folder@) == "drafts"@ ==> r@ == "Drafts"@,
        lower_of(folder@) == "trash"@ ==> r@ == "Trash"@,
        lower_of(folder@) == "spam"@ ==> r@ == "Spam"@,
        (lower_of(folder@) != "inbox"@ && lower_of(folder@) != "sent"@ && lower_of(folder@)
            != "drafts"@ && lower_of(folder@) != "trash"@ && lower_of(folder@) != "spam"@) ==> r@
            == folder@,
{
    proof {
        reveal_strlit("inbox");
        reveal_strlit("sent");
        reveal_strlit("drafts");
        reveal_strlit("trash");
        reveal_strlit("spam");
        assert("inbox"@.len() == 5);
        assert("sent"@.len() == 4);
        assert("drafts"@.len() == 6);
        assert("trash"@.len() == 5);
        assert("spam"@.len() == 4);
        assert("inbox"@[0] == 'i');
        assert("trash"@[0] == 't');
        assert("inbox"@ != "trash"@);
        assert("sent"@[1] == 'e');
        assert("spam"@[1] == 'p');
        assert("sent"@ != "spam"@);
    }
    let lowered = to_lowercase_string(folder);
    if str_eq(lowered.as_str(), "inbox") {
        "INBOX"
    } else if str_eq(lowered.as_str(), "sent") {
        "Sent"
    } else if str_eq(lowered.as_str(), "drafts") {
        "Drafts"
    } else if str_eq(lowered.as_str(), "trash") {
        "Trash"
    } else if str_eq(lowered.as_str(), "spam") {
        "Spam"
    } else {
        folder
    }
}

/// The lowercase hex rendering of a text's MD5 digest.
pub uninterp spec fn md5_hex(s: Seq<char>) -> Seq<char>;

/// Relies on md5::compute and the digest's LowerHex rendering: 16 bytes,
/// each printed as two lowercase hex digits, a function of the input alone.
#[verifier::external_body]
fn md5_hex_digest(text: &str) -> (r: String)
    ensures
        r@ == md5_hex(text@),
        r@.len() == 32,
{
    format!("{:x}", md5::compute(text))
}

/// The content hash used for change detection.
pub fn calculate_text_hash(text: &str) -> (r: String)
    ensures
        r@ == md5_hex(text@),
        r@.len() == 32,
{
    md5_hex_digest(text)
}

} // verus!
