//! Identifier codec: a two-way mapping between a (project id, env-file path,
//! group id) triple and a single flat menu-item token.
//!
//! A token is the action prefix, then the three fields joined by the
//! delimiter `':'`. The env-file path may itself contain the delimiter, so
//! decoding takes the text before the first delimiter as the project id, the
//! text after the last delimiter as the group id, and everything in between
//! as the path. That strategy is injective only because the two id fields
//! are restricted to a delimiter-free safe character set (ASCII letters,
//! digits, dash, underscore), which `encode` enforces by failing with
//! `EncodeError::UnsafeIdentifier` on any other id.

use vstd::prelude::*;
use vstd::string::{StrSliceExecFns, StringExecFns};

verus! {

/// Error produced when a token cannot be built.
#[derive(Debug, Clone, Copy, PartialEq, Eq, Structural)]
pub enum EncodeError {
    /// A project or group id holds a character outside the safe set.
    UnsafeIdentifier,
}

/// Error produced when a token cannot be read back.
#[derive(Debug, Clone, Copy, PartialEq, Eq, Structural)]
pub enum DecodeError {
    /// The token does not carry the action prefix; it belongs to a header,
    /// a separator, the quit item, or some foreign menu entry.
    NotATargetToken,
    /// The token carries the action prefix but has fewer than three fields.
    Malformed,
}

/// A decoded (project id, env-file path, group id) triple.
#[derive(Debug)]
pub struct GroupRef {
    pub project_id: String,
    pub env_file_path: String,
    pub group_id: String,
}

/// The prefix of every actionable token.
pub open spec fn action_prefix() -> Seq<char> {
    "tray-config-"@
}

/// The field delimiter inside an actionable token.
pub open spec fn is_delim(c: char) -> bool {
    c == ':'
}

/// The safe character set for id fields: ASCII digits, letters, dash and
/// underscore. The delimiter is not in the set.
pub open spec fn safe_char(c: char) -> bool {
    let u = c as u32;
    (48 <= u && u <= 57) || (65 <= u && u <= 90) || (97 <= u && u <= 122) || u == 45 || u == 95
}

/// An id is safe when every one of its characters is.
pub open spec fn safe_id(s: Seq<char>) -> bool {
    forall|k: int| 0 <= k < s.len() ==> safe_char(#[trigger] s[k])
}

/// The token that `encode` produces for a triple.
pub open spec fn encode_spec(project_id: Seq<char>, env_file_path: Seq<char>, group_id: Seq<char>) -> Seq<char> {
    action_prefix() + project_id + seq![':'] + env_file_path + seq![':'] + group_id
}

/// Whether a token starts with the action prefix.
pub open spec fn has_action_prefix(t: Seq<char>) -> bool {
    t.len() >= action_prefix().len()
        && t.subrange(0, action_prefix().len() as int) == action_prefix()
}

/// Index of the first delimiter of `s`, or `s.len()` if there is none.
pub open spec fn first_delim(s: Seq<char>) -> int
    decreases s.len(),
{
    if s.len() == 0 {
        0
    } else if is_delim(s[0]) {
        0
    } else {
        1 + first_delim(s.drop_first())
    }
}

/// Index of the last delimiter of `s`, or `-1` if there is none.
pub open spec fn last_delim(s: Seq<char>) -> int
    decreases s.len(),
{
    if s.len() == 0 {
        -1
    } else if is_delim(s[s.len() - 1]) {
        s.len() - 1
    } else {
        last_delim(s.drop_last())
    }
}

/// The triple that `decode` recovers from a token.
pub open spec fn decode_spec(t: Seq<char>) -> Result<(Seq<char>, Seq<char>, Seq<char>), DecodeError> {
    if !has_action_prefix(t) {
        Err(DecodeError::NotATargetToken)
    } else {
        let b = t.subrange(action_prefix().len() as int, t.len() as int);
        let i = first_delim(b);
        let j = last_delim(b);
        if i < j {
            Ok((b.subrange(0, i), b.subrange(i + 1, j), b.subrange(j + 1, b.len() as int)))
        } else {
            Err(DecodeError::Malformed)
        }
    }
}

/// A safe character is never the delimiter.
pub proof fn lemma_safe_char_not_delim(c: char)
    requires
        safe_char(c),
    ensures
        !is_delim(c),
{
    if c == ':' {
        assert(c as u32 == 58);
    }
}

/// `first_delim` returns the position of a delimiter that nothing precedes.
pub proof fn lemma_first_delim_at(s: Seq<char>, m: int)
    requires
        0 <= m < s.len(),
        is_delim(s[m]),
        forall|k: int| 0 <= k < m ==> !is_delim(#[trigger] s[k]),
    ensures
        first_delim(s) == m,
    decreases m,
{
    if m > 0 {
        assert(!is_delim(s[0]));
        let r = s.drop_first();
        assert(r[m - 1] == s[m]);
        assert(forall|k: int| 0 <= k < m - 1 ==> !is_delim(#[trigger] r[k]));
        lemma_first_delim_at(r, m - 1);
    }
}

/// On a delimiter-free sequence, `first_delim` returns the length.
pub proof fn lemma_first_delim_none(s: Seq<char>)
    requires
        forall|k: int| 0 <= k < s.len() ==> !is_delim(#[trigger] s[k]),
    ensures
        first_delim(s) == s.len(),
    decreases s.len(),
{
    if s.len() > 0 {
        let r = s.drop_first();
        assert(forall|k: int| 0 <= k < r.len() ==> !is_delim(#[trigger] r[k]));
        lemma_first_delim_none(r);
    }
}

/// `last_delim` returns the position of a delimiter that nothing follows.
pub proof fn lemma_last_delim_at(s: Seq<char>, m: int)
    requires
        0 <= m < s.len(),
        is_delim(s[m]),
        forall|k: int| m < k < s.len() ==> !is_delim(#[trigger] s[k]),
    ensures
        last_delim(s) == m,
    decreases s.len(),
{
    if m < s.len() - 1 {
        assert(!is_delim(s[s.len() - 1]));
        let r = s.drop_last();
        assert(r[m] == s[m]);
        assert(forall|k: int| m < k < r.len() ==> !is_delim(#[trigger] r[k]));
        lemma_last_delim_at(r, m);
    }
}

/// On a delimiter-free sequence, `last_delim` returns `-1`.
pub proof fn lemma_last_delim_none(s: Seq<char>)
    requires
        forall|k: int| 0 <= k < s.len() ==> !is_delim(#[trigger] s[k]),
    ensures
        last_delim(s) == -1,
    decreases s.len(),
{
    if s.len() > 0 {
        let r = s.drop_last();
        assert(forall|k: int| 0 <= k < r.len() ==> !is_delim(#[trigger] r[k]));
        lemma_last_delim_none(r);
    }
}

/// Round-trip law: decoding an encoded triple with safe ids gives the triple
/// back exactly, whatever the env-file path holds — delimiters included.
pub proof fn lemma_round_trip(p: Seq<char>, e: Seq<char>, g: Seq<char>)
    requires
        safe_id(p),
        safe_id(g),
    ensures
        decode_spec(encode_spec(p, e, g)) matches Ok(v) && v.0 == p && v.1 == e && v.2 == g,
{
    let t = encode_spec(p, e, g);
    let pl = action_prefix().len() as int;
    assert(t.subrange(0, pl) =~= action_prefix());
    assert(has_action_prefix(t));
    let b = t.subrange(pl, t.len() as int);
    assert(b =~= p + seq![':'] + e + seq![':'] + g);
    let i = p.len() as int;
    let j = p.len() + 1 + e.len() as int;
    assert(is_delim(b[i]));
    assert(is_delim(b[j]));
    assert forall|k: int| 0 <= k < i implies !is_delim(#[trigger] b[k]) by {
        assert(b[k] == p[k]);
        lemma_safe_char_not_delim(p[k]);
    }
    assert forall|k: int| j < k < b.len() implies !is_delim(#[trigger] b[k]) by {
        assert(b[k] == g[k - j - 1]);
        lemma_safe_char_not_delim(g[k - j - 1]);
    }
    lemma_first_delim_at(b, i);
    lemma_last_delim_at(b, j);
    assert(b.subrange(0, i) =~= p);
    assert(b.subrange(i + 1, j) =~= e);
    assert(b.subrange(j + 1, b.len() as int) =~= g);
}

/// Prefix discrimination, first half: a token that starts with the header
/// prefix `"label-"` — or any token without the action prefix — decodes to
/// `NotATargetToken`.
pub proof fn lemma_header_token_rejected(t: Seq<char>)
    requires
        t.len() >= "label-"@.len(),
        t.subrange(0, "label-"@.len() as int) == "label-"@,
    ensures
        decode_spec(t) == Err::<(Seq<char>, Seq<char>, Seq<char>), DecodeError>(
            DecodeError::NotATargetToken,
        ),
{
    reveal_strlit("label-");
    reveal_strlit("tray-config-");
    if has_action_prefix(t) {
        assert(t.subrange(0, action_prefix().len() as int)[0] == t[0]);
        assert(t.subrange(0, "label-"@.len() as int)[0] == t[0]);
        assert(t[0] == 't');
        assert(t[0] == 'l');
    }
}

/// Prefix discrimination, second half: a token that `encode` produces never
/// decodes to `NotATargetToken`, whatever the fields were.
pub proof fn lemma_encoded_token_not_rejected(p: Seq<char>, e: Seq<char>, g: Seq<char>)
    ensures
        decode_spec(encode_spec(p, e, g)) != Err::<(Seq<char>, Seq<char>, Seq<char>), DecodeError>(
            DecodeError::NotATargetToken,
        ),
{
    let t = encode_spec(p, e, g);
    let pl = action_prefix().len() as int;
    assert(t.subrange(0, pl) =~= action_prefix());
    assert(has_action_prefix(t));
}

/// Whether a single character is in the safe set.
fn is_safe_char(c: char) -> (b: bool)
    ensures
        b == safe_char(c),
{
    let u: u32 = c as u32;
    (48 <= u && u <= 57) || (65 <= u && u <= 90) || (97 <= u && u <= 122) || u == 45 || u == 95
}

/// Whether every character of `s` is in the safe set.
pub fn is_safe_id(s: &str) -> (b: bool)
    ensures
        b == safe_id(s@),
{
    let n: usize = s.unicode_len();
    let mut i: usize = 0;
    while i < n
        invariant
            i <= n,
            n == s@.len(),
            forall|k: int| 0 <= k < i ==> safe_char(#[trigger] s@[k]),
        decreases n - i,
    {
        let c: char = s.get_char(i);
        if !is_safe_char(c) {
            assert(!safe_id(s@));
            return false;
        }
        i = i + 1;
    }
    true
}

/// Builds the token for a triple, or fails with `UnsafeIdentifier` exactly
/// when the project id or the group id leaves the safe character set.
pub fn encode(project_id: &str, env_file_path: &str, group_id: &str) -> (r: Result<
    String,
    EncodeError,
>)
    ensures
        r is Ok <==> safe_id(project_id@) && safe_id(group_id@),
        r matches Ok(t) ==> t@ == encode_spec(project_id@, env_file_path@, group_id@),
        r matches Err(e) ==> e == EncodeError::UnsafeIdentifier,
{
    if !is_safe_id(project_id) || !is_safe_id(group_id) {
        return Err(EncodeError::UnsafeIdentifier);
    }
    let mut t = String::from_str("tray-config-");
    t.append(project_id);
    t.append(":");
    t.append(env_file_path);
    t.append(":");
    t.append(group_id);
    proof {
        reveal_strlit(":");
        assert(":"@ =~= seq![':']);
        assert(t@ =~= encode_spec(project_id@, env_file_path@, group_id@));
    }
    Ok(t)
}

/// Recovers the triple from a token: `NotATargetToken` without the action
/// prefix, `Malformed` with the prefix but fewer than three fields.
pub fn decode(token: &str) -> (r: Result<GroupRef, DecodeError>)
    ensures
        r is Ok <==> decode_spec(token@) is Ok,
        r matches Ok(v) ==> (decode_spec(token@) matches Ok(w) && v.project_id@ == w.0
            && v.env_file_path@ == w.1 && v.group_id@ == w.2),
        r matches Err(e) ==> (decode_spec(token@) matches Err(w) && e == w),
{
    let prefix = "tray-config-";
    proof {
        reveal_strlit("tray-config-");
    }
    let plen: usize = prefix.unicode_len();
    let n: usize = token.unicode_len();
    if n < plen {
        return Err(DecodeError::NotATargetToken);
    }
    let mut i: usize = 0;
    while i < plen
        invariant
            i <= plen <= n,
            prefix@ == action_prefix(),
            plen == action_prefix().len(),
            n == token@.len(),
            forall|k: int| 0 <= k < i ==> token@[k] == action_prefix()[k],
        decreases plen - i,
    {
        if token.get_char(i) != prefix.get_char(i) {
            proof {
                assert(token@.subrange(0, plen as int)[i as int] != action_prefix()[i as int]);
            }
            return Err(DecodeError::NotATargetToken);
        }
        i = i + 1;
    }
    proof {
        assert(token@.subrange(0, plen as int) =~= action_prefix());
        assert(has_action_prefix(token@));
    }
    let ghost b = token@.subrange(plen as int, n as int);
    let mut first: usize = n;
    let mut last: usize = n;
    let mut j: usize = plen;
    while j < n
        invariant
            plen <= j <= n,
            n == token@.len(),
            first == n || (plen <= first && first < j),
            last == n || (plen <= last && last < j),
            (first == n) == (last == n),
            first == n ==> forall|k: int| plen <= k < j ==> !is_delim(#[trigger] token@[k]),
            first < n ==> is_delim(token@[first as int]),
            first < n ==> forall|k: int| plen <= k < first ==> !is_delim(#[trigger] token@[k]),
            last < n ==> is_delim(token@[last as int]),
            last < n ==> forall|k: int| last < k < j ==> !is_delim(#[trigger] token@[k]),
        decreases n - j,
    {
        let c: char = token.get_char(j);
        if c == ':' {
            if first == n {
                first = j;
            }
            last = j;
        }
        j = j + 1;
    }
    proof {
        assert(forall|k: int| 0 <= k < b.len() ==> b[k] == token@[k + plen]);
    }
    if first == n {
        proof {
            assert(forall|k: int| 0 <= k < b.len() ==> !is_delim(#[trigger] b[k]));
            lemma_first_delim_none(b);
            lemma_last_delim_none(b);
        }
        return Err(DecodeError::Malformed);
    }
    proof {
        assert(b[first - plen] == token@[first as int]);
        assert forall|k: int| 0 <= k < first - plen implies !is_delim(#[trigger] b[k]) by {
            assert(b[k] == token@[k + plen]);
        }
        lemma_first_delim_at(b, first - plen);
        assert(b[last - plen] == token@[last as int]);
        assert forall|k: int| last - plen < k < b.len() implies !is_delim(#[trigger] b[k]) by {
            assert(b[k] == token@[k + plen]);
        }
        lemma_last_delim_at(b, last - plen);
    }
    if first == last {
        return Err(DecodeError::Malformed);
    }
    let p = String::from_str(token.substring_char(plen, first));
    let e = String::from_str(token.substring_char(first + 1, last));
    let g = String::from_str(token.substring_char(last + 1, n));
    proof {
        assert(p@ =~= b.subrange(0, first - plen));
        assert(e@ =~= b.subrange(first - plen + 1, last - plen));
        assert(g@ =~= b.subrange(last - plen + 1, b.len() as int));
    }
    Ok(GroupRef { project_id: p, env_file_path: e, group_id: g })
}

} // verus!
