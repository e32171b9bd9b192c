//! Message-ID lists of the `References` header, and the fallback that finds an HTML part in
//! raw message text.
use vstd::prelude::*;
use vstd::utf8::{decode_utf8, valid_utf8};
use crate::text::{chars_of, find_chars, find_from, lemma_find_from, lit, matches_at, push_char,
    push_str, string_of, string_of_range, trim, trim_bounds};

verus! {

/// The scanner's state: the IDs found so far, the ID being read, and whether one is open.
pub open spec fn ids_step(st: (Seq<Seq<char>>, Seq<char>, bool), ch: char) -> (
    Seq<Seq<char>>,
    Seq<char>,
    bool,
) {
    let (out, current, in_token) = st;
    if ch == '<' {
        (out, seq!['<'], true)
    } else if ch == '>' && in_token {
        (out.push(current.push('>')), Seq::empty(), false)
    } else if in_token {
        (out, current.push(ch), true)
    } else {
        st
    }
}

pub open spec fn ids_scan(s: Seq<char>) -> (Seq<Seq<char>>, Seq<char>, bool)
    decreases s.len(),
{
    if s.len() == 0 {
        (Seq::empty(), Seq::empty(), false)
    } else {
        ids_step(ids_scan(s.drop_last()), s.last())
    }
}

/// The `<...>` tokens of a header value, in order: a `<` restarts the token being read, and a
/// `>` closes it.
pub open spec fn message_ids(header_value: Seq<char>) -> Seq<Seq<char>> {
    ids_scan(header_value).0
}

pub open spec fn strings_view(v: Seq<String>) -> Seq<Seq<char>> {
    v.map_values(|s: String| s@)
}

/// The message IDs of a `References`-style header value.
pub fn extract_message_ids(header_value: &str) -> (r: Vec<String>)
    ensures
        strings_view(r@) == message_ids(header_value@),
{
    let v = chars_of(header_value);
    let mut out: Vec<String> = Vec::new();
    let mut current: Vec<char> = Vec::new();
    let mut in_token = false;
    let mut i: usize = 0;
    assert(v@.take(0) =~= Seq::<char>::empty());
    assert(strings_view(out@) =~= Seq::<Seq<char>>::empty());
    assert(current@ =~= Seq::<char>::empty());
    while i < v.len()
        invariant
            v@ == header_value@,
            i <= v@.len(),
            ids_scan(v@.take(i as int)) == (strings_view(out@), current@, in_token),
        decreases v.len() - i,
    {
        let ch = v[i];
        assert(v@.take(i + 1).drop_last() =~= v@.take(i as int));
        assert(v@.take(i + 1).last() == ch);
        if ch == '<' {
            in_token = true;
            current = Vec::new();
            current.push(ch);
            assert(current@ =~= seq!['<']);
        } else if ch == '>' && in_token {
            current.push(ch);
            let ghost before = strings_view(out@);
            let id = string_of(&current);
            out.push(id);
            assert(strings_view(out@) =~= before.push(current@));
            in_token = false;
            current = Vec::new();
            assert(current@ =~= Seq::<char>::empty());
        } else if in_token {
            current.push(ch);
        }
        i = i + 1;
    }
    assert(v@.take(i as int) =~= v@);
    out
}

/// A message ID as the scanner reads one: `<`, then characters other than `<` and `>`, then
/// `>`.
pub open spec fn bracketed_id(id: Seq<char>) -> bool {
    &&& id.len() >= 2
    &&& id[0] == '<'
    &&& id.last() == '>'
    &&& forall|j: int| 0 < j < id.len() - 1 ==> id[j] != '<' && id[j] != '>'
}

/// The token being read: `<` and then neither `<` nor `>`.
pub open spec fn open_token(cur: Seq<char>) -> bool {
    &&& cur.len() >= 1
    &&& cur[0] == '<'
    &&& forall|j: int| 0 < j < cur.len() ==> cur[j] != '<' && cur[j] != '>'
}

proof fn lemma_scan_shape(s: Seq<char>)
    ensures
        forall|k: int| 0 <= k < ids_scan(s).0.len() ==> bracketed_id(#[trigger] ids_scan(s).0[k]),
        ids_scan(s).2 ==> open_token(ids_scan(s).1),
    decreases s.len(),
{
    if s.len() > 0 {
        lemma_scan_shape(s.drop_last());
        let (out, cur, in_token) = ids_scan(s.drop_last());
        let ch = s.last();
        if ch == '>' && in_token {
            let id = cur.push('>');
            assert forall|j: int| 0 < j < id.len() - 1 implies id[j] != '<' && id[j] != '>' by {
                assert(id[j] == cur[j]);
            }
            assert(bracketed_id(id));
            assert forall|k: int| 0 <= k < out.push(id).len() implies bracketed_id(#[trigger] out.push(id)[k]) by {
                if k < out.len() {
                    assert(out.push(id)[k] == out[k]);
                }
            }
        } else if ch != '<' && in_token {
            let c2 = cur.push(ch);
            assert forall|j: int| 0 < j < c2.len() implies c2[j] != '<' && c2[j] != '>' by {
                if j < cur.len() {
                    assert(c2[j] == cur[j]);
                }
            }
        }
    }
}

/// Every extracted message ID is one `<...>` token with no angle bracket inside.
pub proof fn message_ids_are_bracketed(header_value: Seq<char>)
    ensures
        forall|k: int| 0 <= k < message_ids(header_value).len() ==> bracketed_id(#[trigger] message_ids(header_value)[k]),
{
    lemma_scan_shape(header_value);
}

/// Strings joined with single spaces.
pub open spec fn join_spaced(ss: Seq<Seq<char>>) -> Seq<char>
    decreases ss.len(),
{
    if ss.len() == 0 {
        Seq::empty()
    } else if ss.len() == 1 {
        ss[0]
    } else {
        join_spaced(ss.drop_last()) + " "@ + ss.last()
    }
}

/// The message IDs of a reply's `References` header: those of the parent's `References`
/// header, then the parent's own ID unless it is already among them.
pub open spec fn references_ids(existing: Option<Seq<char>>, parent_message_id: Seq<char>) -> Seq<
    Seq<char>,
> {
    let refs = match existing {
        Some(e) => message_ids(e),
        None => Seq::empty(),
    };
    if refs.contains(parent_message_id) {
        refs
    } else {
        refs.push(parent_message_id)
    }
}

pub open spec fn references_chain(existing: Option<Seq<char>>, parent_message_id: Seq<char>) -> Seq<
    char,
> {
    join_spaced(references_ids(existing, parent_message_id))
}

pub fn join_with_spaces(v: &Vec<String>) -> (r: String)
    ensures
        r@ == join_spaced(strings_view(v@)),
{
    let mut s = String::new();
    let mut i: usize = 0;
    assert(strings_view(v@).take(0) =~= Seq::<Seq<char>>::empty());
    while i < v.len()
        invariant
            i <= v@.len(),
            s@ == join_spaced(strings_view(v@).take(i as int)),
        decreases v.len() - i,
    {
        let ghost t = strings_view(v@).take(i + 1);
        assert(t.drop_last() =~= strings_view(v@).take(i as int));
        assert(t.last() == v@[i as int]@);
        if i > 0 {
            push_str(&mut s, " ");
        } else {
            assert(t =~= seq![v@[0]@]);
        }
        push_str(&mut s, v[i].as_str());
        i = i + 1;
    }
    assert(strings_view(v@).take(i as int) =~= strings_view(v@));
    s
}

/// The `References` header of a reply to a message whose own `References` header is
/// `existing_references` and whose ID is `parent_message_id`.
pub fn build_references_chain(existing_references: Option<&str>, parent_message_id: &str) -> (r:
    String)
    ensures
        r@ == references_chain(
            match existing_references {
                Some(e) => Some(e@),
                None => None,
            },
            parent_message_id@,
        ),
{
    let mut refs = match existing_references {
        Some(e) => extract_message_ids(e),
        None => {
            let v: Vec<String> = Vec::new();
            assert(strings_view(v@) =~= Seq::<Seq<char>>::empty());
            v
        },
    };
    let parent = lit(parent_message_id);
    let ghost before = strings_view(refs@);
    let mut found = false;
    let mut i: usize = 0;
    while i < refs.len()
        invariant
            i <= refs@.len(),
            parent@ == parent_message_id@,
            before == strings_view(refs@),
            !found ==> forall|j: int| 0 <= j < i ==> before[j] != parent_message_id@,
            found ==> before.contains(parent_message_id@),
        decreases refs.len() - i,
    {
        if refs[i] == parent {
            assert(before[i as int] == parent_message_id@);
            found = true;
        }
        i = i + 1;
    }
    if !found {
        refs.push(parent);
        assert(strings_view(refs@) =~= before.push(parent_message_id@));
    }
    join_with_spaces(&refs)
}

/// The chain always names the parent.
pub proof fn references_name_parent(existing: Option<Seq<char>>, parent_message_id: Seq<char>)
    ensures
        references_ids(existing, parent_message_id).contains(parent_message_id),
{
    let refs = match existing {
        Some(e) => message_ids(e),
        None => Seq::empty(),
    };
    if !refs.contains(parent_message_id) {
        assert(refs.push(parent_message_id)[refs.len() as int] == parent_message_id);
    }
}

/// `std::str::from_utf8`: the text of `raw` when it is valid UTF-8.
#[verifier::external_body]
fn utf8_text(raw: &[u8]) -> (r: Option<String>)
    ensures
        r is Some <==> valid_utf8(raw@),
        r is Some ==> r->0@ == decode_utf8(raw@),
{
    std::str::from_utf8(raw).ok().map(|s| s.to_string())
}

/// The HTML part that `extract_html_part_from_raw` finds in decoded message text: what
/// follows the blank line after the first `Content-Type: text/html`, up to the next
/// `\r\n--` boundary, trimmed.
pub open spec fn html_part_of(text: Seq<char>) -> Option<Seq<char>> {
    match find_from(text, "Content-Type: text/html"@, 0) {
        None => None,
        Some(start) => match find_from(text, "\r\n\r\n"@, start) {
            None => None,
            Some(sep) => {
                let remaining = text.skip(sep + 4);
                let end = match find_from(remaining, "\r\n--"@, 0) {
                    Some(e) => e,
                    None => remaining.len() as int,
                };
                Some(trim(remaining.take(end)))
            },
        },
    }
}

/// Finds an HTML part in raw message bytes that are valid UTF-8.
pub fn extract_html_part_from_raw(raw: &[u8]) -> (r: Option<String>)
    ensures
        !valid_utf8(raw@) ==> r is None,
        valid_utf8(raw@) ==> (r is Some <==> html_part_of(decode_utf8(raw@)) is Some),
        valid_utf8(raw@) && r is Some ==> r->0@ == html_part_of(decode_utf8(raw@))->0,
{
    let text = match utf8_text(raw) {
        Some(t) => t,
        None => return None,
    };
    let v = chars_of(text.as_str());
    let marker = chars_of("Content-Type: text/html");
    let start = match find_chars(&v, &marker, 0) {
        Some(s) => s,
        None => return None,
    };
    let sep_pat = chars_of("\r\n\r\n");
    let sep = match find_chars(&v, &sep_pat, start) {
        Some(s) => s,
        None => return None,
    };
    proof {
        reveal_strlit("\r\n\r\n");
        reveal_strlit("\r\n--");
    }
    assert(matches_at(v@, sep_pat@, sep as int));
    let n = v.len();
    assert(sep + 4 <= n);
    let after = sep + 4;
    let mut rest: Vec<char> = Vec::new();
    let mut i = after;
    while i < n
        invariant
            after <= i <= n == v@.len(),
            rest@ == v@.subrange(after as int, i as int),
        decreases n - i,
    {
        rest.push(v[i]);
        assert(rest@ =~= v@.subrange(after as int, i + 1));
        i = i + 1;
    }
    assert(rest@ =~= v@.skip(after as int));
    let boundary = chars_of("\r\n--");
    let end = match find_chars(&rest, &boundary, 0) {
        Some(e) => {
            assert(matches_at(rest@, boundary@, e as int));
            e
        },
        None => rest.len(),
    };
    let mut body: Vec<char> = Vec::new();
    let mut k: usize = 0;
    while k < end
        invariant
            end <= rest@.len(),
            k <= end,
            body@ == rest@.take(k as int),
        decreases end - k,
    {
        body.push(rest[k]);
        assert(body@ =~= rest@.take(k + 1));
        k = k + 1;
    }
    let (a, b) = trim_bounds(&body);
    Some(string_of_range(&body, a, b))
}

} // verus!
