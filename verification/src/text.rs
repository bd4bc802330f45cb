//! Character-level text helpers for the summary view: the link-scanning
//! pass that finds an image URL in a message's text, truncation with an
//! ellipsis for reply excerpts, and decimal rendering of ids and counts.

use vstd::prelude::*;

verus! {

/// Whitespace for the purpose of splitting text into link candidates.
pub open spec fn spec_is_space(c: char) -> bool {
    c == ' ' || c == '\n' || c == '\t' || c == '\r'
}

/// ASCII lower-casing; everything else passes through. The extensions
/// scanned for are ASCII, so this is all case-insensitivity needs.
pub open spec fn spec_lower_char(c: char) -> char {
    if 'A' <= c && c <= 'Z' {
        (((c as u8) + 32) as u8) as char
    } else {
        c
    }
}

/// Whether one of the image extensions stands at offset `k`, compared
/// case-insensitively.
pub open spec fn spec_ext_at(t: Seq<char>, k: int) -> bool {
    ||| (0 <= k && k + 4 <= t.len() && t[k] == '.' && spec_lower_char(t[k + 1]) == 'j'
        && spec_lower_char(t[k + 2]) == 'p' && spec_lower_char(t[k + 3]) == 'g')
    ||| (0 <= k && k + 5 <= t.len() && t[k] == '.' && spec_lower_char(t[k + 1]) == 'j'
        && spec_lower_char(t[k + 2]) == 'p' && spec_lower_char(t[k + 3]) == 'e'
        && spec_lower_char(t[k + 4]) == 'g')
    ||| (0 <= k && k + 4 <= t.len() && t[k] == '.' && spec_lower_char(t[k + 1]) == 'p'
        && spec_lower_char(t[k + 2]) == 'n' && spec_lower_char(t[k + 3]) == 'g')
    ||| (0 <= k && k + 4 <= t.len() && t[k] == '.' && spec_lower_char(t[k + 1]) == 'g'
        && spec_lower_char(t[k + 2]) == 'i' && spec_lower_char(t[k + 3]) == 'f')
}

/// Whether the text holds one of the image extensions anywhere.
pub open spec fn spec_has_image_ext(t: Seq<char>) -> bool {
    exists|k: int| spec_ext_at(t, k)
}

/// Whether the token is a web link.
pub open spec fn spec_is_url(t: Seq<char>) -> bool {
    ||| (t.len() >= 7 && t[0] == 'h' && t[1] == 't' && t[2] == 't' && t[3] == 'p' && t[4] == ':'
        && t[5] == '/' && t[6] == '/')
    ||| (t.len() >= 8 && t[0] == 'h' && t[1] == 't' && t[2] == 't' && t[3] == 'p' && t[4] == 's'
        && t[5] == ':' && t[6] == '/' && t[7] == '/')
}

/// A link whose text carries an image extension.
pub open spec fn spec_is_image_url(t: Seq<char>) -> bool {
    spec_is_url(t) && spec_has_image_ext(t)
}

/// The length of the whitespace-free run at the front of the text.
pub open spec fn spec_token_len(s: Seq<char>) -> nat
    decreases s.len(),
{
    if s.len() == 0 || spec_is_space(s[0]) {
        0
    } else {
        1 + spec_token_len(s.skip(1))
    }
}

/// The first whitespace-separated token that is an image link, scanning
/// the raw text left to right.
pub open spec fn spec_first_image_url(s: Seq<char>) -> Option<Seq<char>>
    decreases s.len(),
        via spec_first_image_url_decreases
{
    if s.len() == 0 {
        None
    } else if spec_is_space(s[0]) {
        spec_first_image_url(s.skip(1))
    } else {
        let k = spec_token_len(s);
        let t = s.take(k as int);
        if spec_is_image_url(t) {
            Some(t)
        } else {
            spec_first_image_url(s.skip(k as int))
        }
    }
}

/// The front token never runs past the end of the text.
pub proof fn lemma_token_len_le_len(s: Seq<char>)
    ensures
        spec_token_len(s) <= s.len(),
    decreases s.len(),
{
    if s.len() > 0 && !spec_is_space(s[0]) {
        lemma_token_len_le_len(s.skip(1));
    }
}

#[via_fn]
proof fn spec_first_image_url_decreases(s: Seq<char>) {
    if s.len() > 0 && !spec_is_space(s[0]) {
        lemma_token_len_le_len(s);
        assert(spec_token_len(s) == 1 + spec_token_len(s.skip(1)));
    }
}

/// A run of non-space characters ended by a space or the end of the
/// text is exactly the front token.
proof fn lemma_token_len_from_range(s: Seq<char>, k: int)
    requires
        0 <= k <= s.len(),
        forall|t: int| 0 <= t < k ==> !spec_is_space(#[trigger] s[t]),
        k == s.len() || spec_is_space(s[k]),
    ensures
        spec_token_len(s) == k,
    decreases s.len(),
{
    if k == 0 {
    } else {
        assert(!spec_is_space(s[0]));
        assert forall|t: int| 0 <= t < k - 1 implies !spec_is_space(#[trigger] s.skip(1)[t]) by {
            assert(s.skip(1)[t] == s[t + 1]);
        }
        if k < s.len() {
            assert(s.skip(1)[k - 1] == s[k]);
        }
        lemma_token_len_from_range(s.skip(1), k - 1);
    }
}

/// Whether the character splits link candidates.
pub fn is_space_char(c: char) -> (b: bool)
    ensures
        b == spec_is_space(c),
{
    c == ' ' || c == '\n' || c == '\t' || c == '\r'
}

/// ASCII lower-casing of one character.
pub fn lower_char(c: char) -> (r: char)
    ensures
        r == spec_lower_char(c),
{
    if 'A' <= c && c <= 'Z' {
        ((c as u8) + 32) as char
    } else {
        c
    }
}

/// Checks for an image extension at one offset of the token.
fn ext_at(t: &str, k: usize) -> (b: bool)
    requires
        k <= t@.len(),
    ensures
        b == spec_ext_at(t@, k as int),
{
    let n = t.unicode_len();
    if n >= 4 && k <= n - 4 && t.get_char(k) == '.' {
        let c1 = lower_char(t.get_char(k + 1));
        let c2 = lower_char(t.get_char(k + 2));
        let c3 = lower_char(t.get_char(k + 3));
        if c1 == 'j' && c2 == 'p' && c3 == 'g' {
            return true;
        }
        if c1 == 'p' && c2 == 'n' && c3 == 'g' {
            return true;
        }
        if c1 == 'g' && c2 == 'i' && c3 == 'f' {
            return true;
        }
        if n >= 5 && k <= n - 5 && c1 == 'j' && c2 == 'p' && c3 == 'e' && lower_char(
            t.get_char(k + 4),
        ) == 'g' {
            return true;
        }
        false
    } else {
        false
    }
}

/// Checks whether the token is a link with an image extension.
pub fn is_image_url_token(t: &str) -> (b: bool)
    ensures
        b == spec_is_image_url(t@),
{
    let n = t.unicode_len();
    let is_url = if n >= 7 && t.get_char(0) == 'h' && t.get_char(1) == 't' && t.get_char(2) == 't'
        && t.get_char(3) == 'p' {
        if t.get_char(4) == ':' && t.get_char(5) == '/' && t.get_char(6) == '/' {
            true
        } else {
            n >= 8 && t.get_char(4) == 's' && t.get_char(5) == ':' && t.get_char(6) == '/'
                && t.get_char(7) == '/'
        }
    } else {
        false
    };
    if !is_url {
        return false;
    }
    let mut k: usize = 0;
    while k < n
        invariant
            k <= n,
            n == t@.len(),
            spec_is_url(t@),
            forall|k2: int| 0 <= k2 < k ==> !spec_ext_at(t@, k2),
        decreases n - k,
    {
        if ext_at(t, k) {
            return true;
        }
        k += 1;
    }
    proof {
        assert forall|k2: int| !spec_ext_at(t@, k2) by {
            if 0 <= k2 < n {
            }
        }
    }
    false
}

/// Finds the first image link in the raw message text: the text is split
/// on whitespace, and the first token that is a link carrying one of the
/// image extensions (case-insensitively) is returned.
pub fn first_image_url(text: &str) -> (r: Option<String>)
    ensures
        r is Some <==> spec_first_image_url(text@) is Some,
        r matches Some(u) ==> Some(u@) == spec_first_image_url(text@),
{
    let ghost all = text@;
    let n = text.unicode_len();
    let mut i: usize = 0;
    proof {
        assert(all.skip(0int) =~= all);
    }
    while i < n
        invariant
            i <= n,
            n == all.len(),
            all == text@,
            spec_first_image_url(all) == spec_first_image_url(all.skip(i as int)),
        decreases n - i,
    {
        proof {
            assert(all.skip(i as int)[0] == all[i as int]);
            assert(all.skip(i as int).skip(1) =~= all.skip(i + 1));
        }
        let c = text.get_char(i);
        if is_space_char(c) {
            i += 1;
        } else {
            let mut j: usize = i + 1;
            while j < n && !is_space_char(text.get_char(j))
                invariant
                    i < j <= n,
                    n == all.len(),
                    all == text@,
                    forall|k2: int| i <= k2 < j ==> !spec_is_space(#[trigger] all[k2]),
                decreases n - j,
            {
                j += 1;
            }
            proof {
                let suf = all.skip(i as int);
                assert forall|k2: int| 0 <= k2 < j - i implies !spec_is_space(
                    #[trigger] suf[k2],
                ) by {
                    assert(suf[k2] == all[k2 + i]);
                }
                if j < n {
                    assert(suf[j - i] == all[j as int]);
                }
                lemma_token_len_from_range(suf, j - i);
            }
            let token = text.substring_char(i, j);
            proof {
                assert(token@ =~= all.skip(i as int).take(j - i));
            }
            if is_image_url_token(token) {
                return Some(String::from_str(token));
            }
            proof {
                assert(all.skip(i as int).skip(j - i) =~= all.skip(j as int));
            }
            i = j;
        }
    }
    proof {
        assert(all.skip(n as int) =~= Seq::<char>::empty());
    }
    None
}

/// The text unchanged when it fits, else its first `max` characters with
/// a trailing ellipsis.
pub fn truncate_with_ellipsis(s: &str, max: usize) -> (r: String)
    ensures
        s@.len() <= max ==> r@ == s@,
        s@.len() > max ==> r@ == s@.take(max as int) + "..."@,
{
    let n = s.unicode_len();
    if n <= max {
        String::from_str(s)
    } else {
        let head = s.substring_char(0, max);
        proof {
            assert(head@ =~= s@.take(max as int));
        }
        String::from_str(head).concat("...")
    }
}

/// The decimal digit character for one value below ten.
pub open spec fn spec_dec_digit(d: int) -> char {
    if d == 0 {
        '0'
    } else if d == 1 {
        '1'
    } else if d == 2 {
        '2'
    } else if d == 3 {
        '3'
    } else if d == 4 {
        '4'
    } else if d == 5 {
        '5'
    } else if d == 6 {
        '6'
    } else if d == 7 {
        '7'
    } else if d == 8 {
        '8'
    } else {
        '9'
    }
}

/// The decimal rendering of a number: most significant digit first, no
/// sign and no leading zeroes.
pub open spec fn spec_dec_str(n: nat) -> Seq<char>
    decreases n,
{
    if n < 10 {
        seq![spec_dec_digit(n as int)]
    } else {
        spec_dec_str(n / 10) + seq![spec_dec_digit((n % 10) as int)]
    }
}

/// Relies on std's `Display` for `u64` via `format!`: the decimal
/// digits of the value, most significant first, with no sign, padding
/// or leading zeroes.
#[verifier::external_body]
pub(crate) fn format_u64(n: u64) -> (s: String)
    ensures
        s@ == spec_dec_str(n as nat),
{
    format!("{}", n)
}

} // verus!
