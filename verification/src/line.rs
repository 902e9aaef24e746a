//! Line classification: the pure predicates and extraction functions that
//! decide what a single line of a credentials file means.

use vstd::prelude::*;

verus! {

/// The whitespace characters that are trimmed from line ends.
pub open spec fn is_space(c: char) -> bool {
    c == ' ' || c == '\t' || c == '\r' || c == '\n'
}

/// A sequence with its leading whitespace removed.
pub open spec fn trim_start_of(s: Seq<char>) -> Seq<char>
    decreases s.len(),
{
    if s.len() > 0 && is_space(s[0]) {
        trim_start_of(s.skip(1))
    } else {
        s
    }
}

/// A sequence with its trailing whitespace removed.
pub open spec fn trim_end_of(s: Seq<char>) -> Seq<char>
    decreases s.len(),
{
    if s.len() > 0 && is_space(s.last()) {
        trim_end_of(s.drop_last())
    } else {
        s
    }
}

/// A sequence with whitespace removed from both ends.
pub open spec fn trim_of(s: Seq<char>) -> Seq<char> {
    trim_end_of(trim_start_of(s))
}

proof fn lemma_trim_start_skip(s: Seq<char>, i: int)
    requires
        0 <= i <= s.len(),
        forall|j: int| 0 <= j < i ==> is_space(s[j]),
    ensures
        trim_start_of(s) == trim_start_of(s.skip(i)),
    decreases i,
{
    if i > 0 {
        assert(is_space(s[0]));
        assert(trim_start_of(s) == trim_start_of(s.skip(1)));
        lemma_trim_start_skip(s.skip(1), i - 1);
        assert(s.skip(1).skip(i - 1) =~= s.skip(i));
    } else {
        assert(s.skip(0) =~= s);
    }
}

proof fn lemma_trim_end_prefix(s: Seq<char>, j: int)
    requires
        0 <= j <= s.len(),
        forall|k: int| j <= k < s.len() ==> is_space(s[k]),
    ensures
        trim_end_of(s) == trim_end_of(s.subrange(0, j)),
    decreases s.len() - j,
{
    if j < s.len() {
        assert(is_space(s.last()));
        assert(trim_end_of(s) == trim_end_of(s.drop_last()));
        assert(s.drop_last() =~= s.subrange(0, s.len() - 1));
        lemma_trim_end_prefix(s.subrange(0, s.len() - 1), j);
        assert(s.subrange(0, s.len() - 1).subrange(0, j) =~= s.subrange(0, j));
    } else {
        assert(s.subrange(0, s.len() as int) =~= s);
    }
}

/// Returns the given string with leading and trailing whitespace removed.
pub fn trim(s: &str) -> (r: &str)
    ensures
        r@ == trim_of(s@),
{
    let len = s.unicode_len();
    let mut i: usize = 0;
    while i < len && is_space_char(s.get_char(i))
        invariant
            0 <= i <= len,
            len == s@.len(),
            forall|j: int| 0 <= j < i ==> is_space(s@[j]),
        decreases len - i,
    {
        i = i + 1;
    }
    proof {
        lemma_trim_start_skip(s@, i as int);
    }
    let mut j: usize = len;
    while j > i && is_space_char(s.get_char(j - 1))
        invariant
            i <= j <= len,
            len == s@.len(),
            forall|k: int| j <= k < len ==> is_space(s@[k]),
        decreases j,
    {
        j = j - 1;
    }
    let r = s.substring_char(i, j);
    proof {
        let t = s@.skip(i as int);
        assert(trim_start_of(s@) == t);
        if i == len {
            assert(t =~= Seq::<char>::empty());
            assert(trim_end_of(t) == t);
            assert(r@ =~= t);
        } else {
            assert(!is_space(s@[i as int]));
            assert(t[0] == s@[i as int]);
            assert(trim_start_of(t) == t);
            lemma_trim_end_prefix(t, j - i);
            assert(t.subrange(0, j - i) =~= s@.subrange(i as int, j as int));
            if j > i {
                assert(!is_space(s@[j - 1]));
                let u = s@.subrange(i as int, j as int);
                assert(u.last() == s@[j - 1]);
                assert(trim_end_of(u) == u);
            } else {
                let u = s@.subrange(i as int, j as int);
                assert(u =~= Seq::<char>::empty());
                assert(trim_end_of(u) == u);
            }
        }
    }
    r
}

/// Whether a character is one of the trimmed whitespace characters.
pub fn is_space_char(c: char) -> (r: bool)
    ensures
        r == is_space(c),
{
    c == ' ' || c == '\t' || c == '\r' || c == '\n'
}

/// An ASCII upper-case letter mapped to lower case; any other character kept.
pub open spec fn lower_char(c: char) -> char {
    if 'A' <= c && c <= 'Z' {
        (((c as u8) + 32) as char)
    } else {
        c
    }
}

/// A sequence with every ASCII upper-case letter mapped to lower case.
pub open spec fn lower_of(s: Seq<char>) -> Seq<char> {
    Seq::new(s.len(), |i: int| lower_char(s[i]))
}

/// Relies on String::push: appends exactly the given character.
pub assume_specification[ String::push ](s: &mut String, c: char)
    ensures
        final(s)@ == old(s)@.push(c),
;

/// Returns a copy of the string with ASCII upper-case letters lowered.
pub fn to_ascii_lower(s: &str) -> (r: String)
    ensures
        r@ == lower_of(s@),
{
    let len = s.unicode_len();
    let mut r = String::new();
    let mut i: usize = 0;
    while i < len
        invariant
            0 <= i <= len,
            len == s@.len(),
            r@ =~= lower_of(s@).take(i as int),
        decreases len - i,
    {
        let c = s.get_char(i);
        let l = if 'A' <= c && c <= 'Z' {
            (((c as u8) + 32) as char)
        } else {
            c
        };
        r.push(l);
        proof {
            assert(l == lower_char(s@[i as int]));
            assert(r@ =~= lower_of(s@).take(i + 1));
        }
        i = i + 1;
    }
    proof {
        assert(lower_of(s@).take(len as int) =~= lower_of(s@));
    }
    r
}

/// Whether `needle` occurs in `hay` starting at position `i`.
pub open spec fn match_at(hay: Seq<char>, needle: Seq<char>, i: int) -> bool {
    &&& 0 <= i
    &&& i + needle.len() <= hay.len()
    &&& forall|k: int| 0 <= k < needle.len() ==> hay[i + k] == needle[k]
}

/// Whether `needle` occurs anywhere in `hay` as a contiguous run.
pub open spec fn contains_seq(hay: Seq<char>, needle: Seq<char>) -> bool {
    exists|i: int| match_at(hay, needle, i)
}

/// Returns whether `needle` occurs in `hay` as a contiguous substring.
pub fn str_contains(hay: &str, needle: &str) -> (b: bool)
    ensures
        b == contains_seq(hay@, needle@),
{
    let hlen = hay.unicode_len();
    let nlen = needle.unicode_len();
    if nlen > hlen {
        return false;
    }
    let mut i: usize = 0;
    while i <= hlen - nlen
        invariant
            0 <= i <= hlen - nlen + 1,
            nlen <= hlen,
            hlen == hay@.len(),
            nlen == needle@.len(),
            forall|j: int| 0 <= j < i ==> !match_at(hay@, needle@, j),
        decreases hlen - nlen - i + 1,
    {
        let mut k: usize = 0;
        let mut hit = true;
        while k < nlen && hit
            invariant
                0 <= k <= nlen,
                0 <= i <= hlen - nlen,
                hlen == hay@.len(),
                nlen == needle@.len(),
                hit ==> forall|m: int| 0 <= m < k ==> hay@[i + m] == needle@[m],
                !hit ==> !match_at(hay@, needle@, i as int),
            decreases nlen - k + (if hit {
                1int
            } else {
                0int
            }),
        {
            if hay.get_char(i + k) != needle.get_char(k) {
                hit = false;
            } else {
                k = k + 1;
            }
        }
        if hit {
            assert(match_at(hay@, needle@, i as int));
            return true;
        }
        i = i + 1;
    }
    assert forall|j: int| !match_at(hay@, needle@, j) by {
        if 0 <= j && j + needle@.len() <= hay@.len() {
            assert(j < i);
        }
    }
    false
}

/// Returns whether the two strings hold the same characters.
pub fn str_eq(a: &str, b: &str) -> (r: bool)
    ensures
        r == (a@ == b@),
{
    let alen = a.unicode_len();
    let blen = b.unicode_len();
    if alen != blen {
        return false;
    }
    let mut i: usize = 0;
    while i < alen
        invariant
            0 <= i <= alen,
            alen == a@.len(),
            alen == b@.len(),
            forall|j: int| 0 <= j < i ==> a@[j] == b@[j],
        decreases alen - i,
    {
        if a.get_char(i) != b.get_char(i) {
            return false;
        }
        i = i + 1;
    }
    proof {
        assert(a@ =~= b@);
    }
    true
}

/// Whether the line is blank or a comment once trimmed.
pub open spec fn spec_is_comment_or_empty(s: Seq<char>) -> bool {
    let t = trim_of(s);
    t.len() == 0 || t[0] == '#' || t[0] == ';'
}

/// Returns whether the trimmed line is empty or starts with `#` or `;`.
pub fn is_comment_or_empty(line: &str) -> (r: bool)
    ensures
        r == spec_is_comment_or_empty(line@),
{
    let t = trim(line);
    if t.unicode_len() == 0 {
        true
    } else {
        let c = t.get_char(0);
        c == '#' || c == ';'
    }
}

/// Whether the trimmed line is a bracketed profile header.
pub open spec fn spec_is_profile(s: Seq<char>) -> bool {
    let t = trim_of(s);
    t.len() >= 2 && t[0] == '[' && t.last() == ']'
}

/// Returns whether the trimmed line has the `[...]` shape of a profile header.
pub fn is_profile(line: &str) -> (r: bool)
    ensures
        r == spec_is_profile(line@),
{
    let t = trim(line);
    let len = t.unicode_len();
    len >= 2 && t.get_char(0) == '[' && t.get_char(len - 1) == ']'
}

/// Whether the bracket-stripped header body begins with the word `profile`
/// followed by a space.
pub open spec fn has_profile_prefix(inner: Seq<char>) -> bool {
    inner.len() > 8 && inner.subrange(0, 8) == "profile "@
}

fn starts_with_profile_word(s: &str) -> (b: bool)
    ensures
        b == has_profile_prefix(s@),
{
    let p = "profile ";
    proof {
        reveal_strlit("profile ");
    }
    if s.unicode_len() <= 8 {
        return false;
    }
    let mut k: usize = 0;
    while k < 8
        invariant
            0 <= k <= 8,
            s@.len() > 8,
            p@ == "profile "@,
            p@.len() == 8,
            forall|m: int| 0 <= m < k ==> s@[m] == p@[m],
        decreases 8 - k,
    {
        if s.get_char(k) != p.get_char(k) {
            return false;
        }
        k = k + 1;
    }
    proof {
        assert(s@.subrange(0, 8) =~= p@);
    }
    true
}

/// The profile name carried by a header line: the text between the brackets,
/// trimmed, with a leading `profile ` word stripped; absent when the line is
/// not a header or the name would be empty.
pub open spec fn spec_profile_name(s: Seq<char>) -> Option<Seq<char>> {
    if !spec_is_profile(s) {
        None
    } else {
        let t = trim_of(s);
        let inner = trim_of(t.subrange(1, t.len() - 1));
        let name = if has_profile_prefix(inner) {
            trim_of(inner.skip(8))
        } else {
            inner
        };
        if name.len() == 0 {
            None
        } else {
            Some(name)
        }
    }
}

/// Returns the profile name of a header line, or `None` when the line is not
/// a header or carries an empty name.
pub fn get_profile_name_from(line: &str) -> (r: Option<String>)
    ensures
        r.deep_view() == spec_profile_name(line@),
{
    let t = trim(line);
    let tlen = t.unicode_len();
    if tlen < 2 || t.get_char(0) != '[' || t.get_char(tlen - 1) != ']' {
        return None;
    }
    let inner = trim(t.substring_char(1, tlen - 1));
    let name = if starts_with_profile_word(inner) {
        trim(inner.substring_char(8, inner.unicode_len()))
    } else {
        inner
    };
    if name.unicode_len() == 0 {
        None
    } else {
        Some(name.to_owned())
    }
}

/// The index of the first `=` in the sequence, if any.
pub open spec fn find_eq(s: Seq<char>) -> Option<int>
    decreases s.len(),
{
    if s.len() == 0 {
        None
    } else if s[0] == '=' {
        Some(0)
    } else {
        match find_eq(s.skip(1)) {
            None => None,
            Some(i) => Some(i + 1),
        }
    }
}

pub proof fn lemma_find_eq_at(s: Seq<char>, i: int)
    requires
        0 <= i < s.len(),
        s[i] == '=',
        forall|j: int| 0 <= j < i ==> s[j] != '=',
    ensures
        find_eq(s) == Some(i),
    decreases i,
{
    if i == 0 {
    } else {
        lemma_find_eq_at(s.skip(1), i - 1);
    }
}

pub proof fn lemma_find_eq_none(s: Seq<char>)
    requires
        forall|j: int| 0 <= j < s.len() ==> s[j] != '=',
    ensures
        find_eq(s) is None,
    decreases s.len(),
{
    if s.len() > 0 {
        lemma_find_eq_none(s.skip(1));
    }
}

/// The value carried by a `key = value` line: the trimmed text after the
/// first `=`; absent when the line holds no `=`.
pub open spec fn spec_extract_value(s: Seq<char>) -> Option<Seq<char>> {
    match find_eq(s) {
        None => None,
        Some(i) => Some(trim_of(s.skip(i + 1))),
    }
}

/// Returns the trimmed right-hand side of the first `=`, or `None` when the
/// line holds no `=`.
pub fn extract_value_from(line: &str) -> (r: Option<String>)
    ensures
        r.deep_view() == spec_extract_value(line@),
{
    let len = line.unicode_len();
    let mut i: usize = 0;
    while i < len && line.get_char(i) != '='
        invariant
            0 <= i <= len,
            len == line@.len(),
            forall|j: int| 0 <= j < i ==> line@[j] != '=',
        decreases len - i,
    {
        i = i + 1;
    }
    if i == len {
        proof {
            lemma_find_eq_none(line@);
        }
        return None;
    }
    proof {
        lemma_find_eq_at(line@, i as int);
    }
    let rhs = line.substring_char(i + 1, len);
    let v = trim(rhs);
    proof {
        assert(rhs@ =~= line@.skip(i + 1));
    }
    Some(v.to_owned())
}

/// Returns whether the line mentions the access-key field name.
pub fn is_aws_access_key(line: &str) -> (r: bool)
    ensures
        r == contains_seq(line@, "aws_access_key_id"@),
{
    str_contains(line, "aws_access_key_id")
}

/// Returns whether the line mentions the secret-key field name.
pub fn is_aws_secret_key(line: &str) -> (r: bool)
    ensures
        r == contains_seq(line@, "aws_secret_access_key"@),
{
    str_contains(line, "aws_secret_access_key")
}

/// Returns whether the line mentions a session-token field name, under
/// either of its two accepted spellings.
pub fn is_aws_token(line: &str) -> (r: bool)
    ensures
        r == (contains_seq(line@, "aws_session_token"@) || contains_seq(
            line@,
            "aws_security_token"@,
        )),
{
    str_contains(line, "aws_session_token") || str_contains(line, "aws_security_token")
}

} // verus!
