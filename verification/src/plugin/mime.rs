//! Reading a raw RFC 5322 message into the fields the store keeps. The MIME parsing itself is
//! `mail-parser`'s; what the library decides from its answers (which body wins, the snippet,
//! the sender and recipients, the fallback message ID, the attachment metadata) is verified.
use vstd::prelude::*;
use vstd::utf8::{decode_utf8, valid_utf8};
use mail_parser::{Address, MessageParser, MimeHeaders};
use sha2::Digest;
use crate::text::{chars_of, concat2, concat3, find_chars, find_from, int_decimal, lit, push_char, push_i64, push_str,
    string_of, string_of_range, trim, trim_str};
use crate::db::{AttachmentMeta, NewMessage};
use crate::plugin::headers::{extract_html_part_from_raw, html_part_of};

verus! {

/// Whether `mail-parser` (`MessageParser::default().parse`) accepts the raw message.
pub uninterp spec fn mime_parses(raw: Seq<u8>) -> bool;

/// The text contents of each text body part that `Message::text_bodies` lists.
pub uninterp spec fn mime_text_bodies(raw: Seq<u8>) -> Seq<Option<Seq<char>>>;

/// `Message::body_text(0)`.
pub uninterp spec fn mime_body_text(raw: Seq<u8>) -> Option<Seq<char>>;

/// The text contents of each HTML body part that `Message::html_bodies` lists.
pub uninterp spec fn mime_html_bodies(raw: Seq<u8>) -> Seq<Option<Seq<char>>>;

/// `Message::body_html(0)`.
pub uninterp spec fn mime_body_html(raw: Seq<u8>) -> Option<Seq<char>>;

/// `Message::message_id`.
pub uninterp spec fn mime_message_id(raw: Seq<u8>) -> Option<Seq<char>>;

/// `Message::subject`.
pub uninterp spec fn mime_subject(raw: Seq<u8>) -> Option<Seq<char>>;

/// The `From` field (`Message::from`): for each group of addresses (a plain list counts as one
/// group), each address's e-mail part where it has one.
pub uninterp spec fn mime_from(raw: Seq<u8>) -> Option<Seq<Seq<Option<Seq<char>>>>>;

/// The `To` field (`Message::to`), in the same form as `mime_from`.
pub uninterp spec fn mime_to(raw: Seq<u8>) -> Option<Seq<Seq<Option<Seq<char>>>>>;

/// `Message::references().as_text()`.
pub uninterp spec fn mime_references(raw: Seq<u8>) -> Option<Seq<char>>;

/// For each part that `Message::attachments` lists: its file name, its content type (type and
/// subtype) and its decoded contents.
pub uninterp spec fn mime_attachments(raw: Seq<u8>) -> Seq<
    (Option<Seq<char>>, Option<(Seq<char>, Option<Seq<char>>)>, Seq<u8>),
>;

/// The SHA-256 digest of the bytes (`sha2::Sha256::digest`).
pub uninterp spec fn sha256(data: Seq<u8>) -> Seq<u8>;

/// Parses with `mail-parser` and says whether it accepted the message. What it accepts is not
/// stated.
#[verifier::external_body]
fn parse_accepts(raw: &[u8]) -> (r: bool)
    ensures
        r == mime_parses(raw@),
{
    MessageParser::default().parse(raw).is_some()
}

/// `Message::text_bodies`, each part's `text_contents`.
#[verifier::external_body]
fn text_body_contents(raw: &[u8]) -> (r: Vec<Option<String>>)
    ensures
        r.deep_view() == mime_text_bodies(raw@),
{
    match MessageParser::default().parse(raw) {
        Some(m) => m.text_bodies().map(|p| p.text_contents().map(|v| v.to_string())).collect(),
        None => Vec::new(),
    }
}

/// `Message::body_text(0)`.
#[verifier::external_body]
fn first_body_text(raw: &[u8]) -> (r: Option<String>)
    ensures
        r.deep_view() == mime_body_text(raw@),
{
    match MessageParser::default().parse(raw) {
        Some(m) => m.body_text(0).map(|v| v.into_owned()),
        None => None,
    }
}

/// `Message::html_bodies`, each part's `text_contents`.
#[verifier::external_body]
fn html_body_contents(raw: &[u8]) -> (r: Vec<Option<String>>)
    ensures
        r.deep_view() == mime_html_bodies(raw@),
{
    match MessageParser::default().parse(raw) {
        Some(m) => m.html_bodies().map(|p| p.text_contents().map(|v| v.to_string())).collect(),
        None => Vec::new(),
    }
}

/// `Message::body_html(0)`.
#[verifier::external_body]
fn first_body_html(raw: &[u8]) -> (r: Option<String>)
    ensures
        r.deep_view() == mime_body_html(raw@),
{
    match MessageParser::default().parse(raw) {
        Some(m) => m.body_html(0).map(|v| v.into_owned()),
        None => None,
    }
}

/// `Message::message_id`.
#[verifier::external_body]
fn header_message_id(raw: &[u8]) -> (r: Option<String>)
    ensures
        r.deep_view() == mime_message_id(raw@),
{
    match MessageParser::default().parse(raw) {
        Some(m) => m.message_id().map(|v| v.to_string()),
        None => None,
    }
}

/// `Message::subject`.
#[verifier::external_body]
fn header_subject(raw: &[u8]) -> (r: Option<String>)
    ensures
        r.deep_view() == mime_subject(raw@),
{
    match MessageParser::default().parse(raw) {
        Some(m) => m.subject().map(|v| v.to_string()),
        None => None,
    }
}

/// `Message::from`, as groups of optional e-mail addresses.
#[verifier::external_body]
fn header_from(raw: &[u8]) -> (r: Option<Vec<Vec<Option<String>>>>)
    ensures
        r.deep_view() == mime_from(raw@),
{
    let m = MessageParser::default().parse(raw)?;
    m.from().map(|a| match a {
        Address::List(l) => vec![l.iter().map(|x| x.address.as_ref().map(|v| v.to_string())).collect()],
        Address::Group(g) => g.iter().map(|x| x.addresses.iter().map(|y| y.address.as_ref().map(|v| v.to_string())).collect()).collect(),
    })
}

/// `Message::to`, as groups of optional e-mail addresses.
#[verifier::external_body]
fn header_to(raw: &[u8]) -> (r: Option<Vec<Vec<Option<String>>>>)
    ensures
        r.deep_view() == mime_to(raw@),
{
    let m = MessageParser::default().parse(raw)?;
    m.to().map(|a| match a {
        Address::List(l) => vec![l.iter().map(|x| x.address.as_ref().map(|v| v.to_string())).collect()],
        Address::Group(g) => g.iter().map(|x| x.addresses.iter().map(|y| y.address.as_ref().map(|v| v.to_string())).collect()).collect(),
    })
}

/// `Message::references().as_text()`.
#[verifier::external_body]
fn header_references(raw: &[u8]) -> (r: Option<String>)
    ensures
        r.deep_view() == mime_references(raw@),
{
    match MessageParser::default().parse(raw) {
        Some(m) => m.references().as_text().map(|v| v.to_string()),
        None => None,
    }
}

/// `Message::attachments`: each part's `attachment_name`, `content_type` and `contents`.
#[verifier::external_body]
fn attachment_parts(raw: &[u8]) -> (r: Vec<(Option<String>, Option<(String, Option<String>)>, Vec<u8>)>)
    ensures
        r.deep_view() == mime_attachments(raw@),
{
    match MessageParser::default().parse(raw) {
        Some(m) => m.attachments().map(|p| (
            p.attachment_name().map(|n| n.to_string()),
            p.content_type().map(|c| (c.c_type.to_string(), c.c_subtype.as_ref().map(|s| s.to_string()))),
            p.contents().to_vec(),
        )).collect(),
        None => Vec::new(),
    }
}

/// `sha2::Sha256::digest`. The digest is stated to be 32 bytes long; its bytes are named only.
#[verifier::external_body]
fn sha256_digest(data: &[u8]) -> (r: Vec<u8>)
    ensures
        r@ == sha256(data@),
        r@.len() == 32,
{
    sha2::Sha256::digest(data).to_vec()
}


/// The first part that has text contents.
pub open spec fn first_text(parts: Seq<Option<Seq<char>>>) -> Option<Seq<char>>
    decreases parts.len(),
{
    if parts.len() == 0 {
        None
    } else {
        match parts[0] {
            Some(t) => Some(t),
            None => first_text(parts.drop_first()),
        }
    }
}

/// `a`, or else `b`.
pub open spec fn or_else(a: Option<Seq<char>>, b: Option<Seq<char>>) -> Option<Seq<char>> {
    match a {
        Some(x) => Some(x),
        None => b,
    }
}

/// The HTML part found in the raw text when the message is valid UTF-8.
pub open spec fn raw_html_part(raw: Seq<u8>) -> Option<Seq<char>> {
    if valid_utf8(raw) {
        html_part_of(decode_utf8(raw))
    } else {
        None
    }
}

/// At most the first 120 characters.
pub open spec fn snippet_text(s: Seq<char>) -> Seq<char> {
    if s.len() <= 120 {
        s
    } else {
        s.take(120)
    }
}

/// The snippet: the start of the text body, else of the HTML body.
pub open spec fn snippet_of(body_text: Option<Seq<char>>, body_html: Option<Seq<char>>) -> Option<Seq<char>> {
    match or_else(body_text, body_html) {
        Some(s) => Some(snippet_text(s)),
        None => None,
    }
}

/// The snippet is the start of the text body (else of the HTML body), at most 120 characters.
pub proof fn snippet_is_a_short_prefix(body_text: Option<Seq<char>>, body_html: Option<Seq<char>>)
    ensures
        snippet_of(body_text, body_html) is Some <==> (body_text is Some || body_html is Some),
        snippet_of(body_text, body_html) matches Some(sn) ==> {
            let body = match body_text {
                Some(t) => t,
                None => body_html->0,
            };
            &&& sn.len() <= 120
            &&& sn == body.take(sn.len() as int)
            &&& body.len() <= 120 ==> sn == body
        },
{
    match or_else(body_text, body_html) {
        Some(b) => {
            assert(b.take(b.len() as int) =~= b);
        },
        None => {},
    }
}

/// The addresses that are present in a list, in order.
pub open spec fn present(s: Seq<Option<Seq<char>>>) -> Seq<Seq<char>>
    decreases s.len(),
{
    if s.len() == 0 {
        Seq::empty()
    } else {
        match s.last() {
            Some(a) => present(s.drop_last()).push(a),
            None => present(s.drop_last()),
        }
    }
}

/// The addresses present in all groups, group after group.
pub open spec fn group_addresses(groups: Seq<Seq<Option<Seq<char>>>>) -> Seq<Seq<char>>
    decreases groups.len(),
{
    if groups.len() == 0 {
        Seq::empty()
    } else {
        group_addresses(groups.drop_last()) + present(groups.last())
    }
}

/// The strings joined by `sep`.
pub open spec fn join_with(ss: Seq<Seq<char>>, sep: Seq<char>) -> Seq<char>
    decreases ss.len(),
{
    if ss.len() == 0 {
        Seq::empty()
    } else if ss.len() == 1 {
        ss[0]
    } else {
        join_with(ss.drop_last(), sep) + sep + ss.last()
    }
}

/// An address field's addresses joined by `, `; none when it has none.
pub open spec fn flattened(field: Option<Seq<Seq<Option<Seq<char>>>>>) -> Option<Seq<char>> {
    match field {
        None => None,
        Some(groups) => if group_addresses(groups).len() == 0 {
            None
        } else {
            Some(join_with(group_addresses(groups), ", "@))
        },
    }
}

/// What comes before the first comma (all of it when there is none).
pub open spec fn before_comma(s: Seq<char>) -> Seq<char> {
    match find_from(s, ","@, 0) {
        Some(i) => s.take(i),
        None => s,
    }
}

/// The first address of a field: what precedes the first comma of the flattened field, trimmed.
pub open spec fn first_of(field: Option<Seq<Seq<Option<Seq<char>>>>>) -> Option<Seq<char>> {
    match flattened(field) {
        Some(v) => Some(trim(before_comma(v))),
        None => None,
    }
}

/// A lower-case hexadecimal digit.
pub open spec fn hex_digit(d: int) -> char {
    if d < 10 {
        ((d + 48) as u8) as char
    } else {
        ((d + 87) as u8) as char
    }
}

/// Bytes in lower-case hexadecimal, two digits each.
pub open spec fn hex_of(s: Seq<u8>) -> Seq<char>
    decreases s.len(),
{
    if s.len() == 0 {
        Seq::empty()
    } else {
        hex_of(s.drop_last()).push(hex_digit(s.last() as int / 16)).push(hex_digit(s.last() as int % 16))
    }
}

/// `generated-<account>-<now>-<hex of the digest>`.
pub open spec fn generated_id(account_id: int, now_ts: int, digest: Seq<u8>) -> Seq<char> {
    "generated-"@ + int_decimal(account_id) + "-"@ + int_decimal(now_ts) + "-"@ + hex_of(digest)
}

/// The ID given to a message without a `Message-ID` header: derived from the account, the
/// time and the SHA-256 digest of the raw message.
pub open spec fn fallback_id(raw: Seq<u8>, account_id: int, now_ts: int) -> Seq<char> {
    generated_id(account_id, now_ts, sha256(raw))
}

/// An attachment's content type as `type/subtype`, with `octet-stream` for a missing subtype.
pub open spec fn content_type_text(ct: Option<(Seq<char>, Option<Seq<char>>)>) -> Option<Seq<char>> {
    match ct {
        Some((t, st)) => Some(
            t + "/"@ + match st {
                Some(x) => x,
                None => "octet-stream"@,
            },
        ),
        None => None,
    }
}

/// The metadata of an attachment part, not yet stored anywhere.
pub open spec fn meta_of(
    m: AttachmentMeta,
    part: (Option<Seq<char>>, Option<(Seq<char>, Option<Seq<char>>)>, Seq<u8>),
) -> bool {
    &&& m.filename.deep_view() == part.0
    &&& m.content_type.deep_view() == content_type_text(part.1)
    &&& m.size == part.2.len()
    &&& m.local_path is None
}

fn copy_opt(o: &Option<String>) -> (r: Option<String>)
    ensures
        r.deep_view() == o.deep_view(),
{
    match o {
        Some(s) => Some(s.clone()),
        None => None,
    }
}

/// The first part that has text contents.
pub fn first_text_of(parts: &Vec<Option<String>>) -> (r: Option<String>)
    ensures
        r.deep_view() == first_text(parts.deep_view()),
{
    let mut i: usize = 0;
    assert(parts.deep_view().skip(0) =~= parts.deep_view());
    while i < parts.len()
        invariant
            i <= parts@.len(),
            first_text(parts.deep_view()) == first_text(parts.deep_view().skip(i as int)),
        decreases parts@.len() - i,
    {
        let ghost rest = parts.deep_view().skip(i as int);
        assert(rest[0] == parts@[i as int].deep_view());
        assert(rest.drop_first() =~= parts.deep_view().skip(i + 1));
        match &parts[i] {
            Some(t) => return Some(t.clone()),
            None => {},
        }
        i = i + 1;
    }
    assert(parts.deep_view().skip(i as int) =~= Seq::<Option<Seq<char>>>::empty());
    None
}

/// At most the first 120 characters of a text.
pub fn snippet_from(s: &String) -> (r: String)
    ensures
        r@ == snippet_text(s@),
{
    let v = chars_of(s.as_str());
    if v.len() <= 120 {
        string_of(&v)
    } else {
        let r = string_of_range(&v, 0, 120);
        assert(v@.subrange(0, 120) =~= s@.take(120));
        r
    }
}

/// The addresses present in a list, appended to `out`.
fn push_present(out: &mut Vec<String>, list: &Vec<Option<String>>)
    ensures
        final(out)@.map_values(|s: String| s@) == old(out)@.map_values(|s: String| s@) + present(
            list.deep_view(),
        ),
{
    let mut i: usize = 0;
    while i < list.len()
        invariant
            i <= list@.len(),
            out@.map_values(|s: String| s@) == old(out)@.map_values(|s: String| s@) + present(
                list.deep_view().take(i as int),
            ),
        decreases list@.len() - i,
    {
        let ghost t = list.deep_view().take(i + 1);
        let ghost before = out@.map_values(|s: String| s@);
        assert(t.drop_last() =~= list.deep_view().take(i as int));
        assert(t.last() == list@[i as int].deep_view());
        match &list[i] {
            Some(a) => {
                out.push(a.clone());
                assert(out@.map_values(|s: String| s@) =~= before.push(a@));
                assert(present(t) == present(t.drop_last()).push(a@));
            },
            None => {
                assert(present(t) == present(t.drop_last()));
            },
        }
        i = i + 1;
        assert(out@.map_values(|s: String| s@) =~= old(out)@.map_values(|s: String| s@) + present(
            list.deep_view().take(i as int),
        ));
    }
    assert(list.deep_view().take(i as int) =~= list.deep_view());
}

/// The addresses present in all groups, group after group.
fn collect_addresses(groups: &Vec<Vec<Option<String>>>) -> (r: Vec<String>)
    ensures
        r@.map_values(|s: String| s@) == group_addresses(groups.deep_view()),
{
    let mut out: Vec<String> = Vec::new();
    let mut i: usize = 0;
    assert(out@.map_values(|s: String| s@) =~= Seq::<Seq<char>>::empty());
    while i < groups.len()
        invariant
            i <= groups@.len(),
            out@.map_values(|s: String| s@) == group_addresses(groups.deep_view().take(i as int)),
        decreases groups@.len() - i,
    {
        let ghost t = groups.deep_view().take(i + 1);
        assert(t.drop_last() =~= groups.deep_view().take(i as int));
        assert(t.last() == groups@[i as int].deep_view());
        push_present(&mut out, &groups[i]);
        i = i + 1;
    }
    assert(groups.deep_view().take(i as int) =~= groups.deep_view());
    out
}

/// The strings joined by `, `.
fn join_comma(v: &Vec<String>) -> (r: String)
    ensures
        r@ == join_with(v@.map_values(|s: String| s@), ", "@),
{
    let mut s = String::new();
    let mut i: usize = 0;
    let ghost sv = v@.map_values(|s: String| s@);
    assert(sv.take(0) =~= Seq::<Seq<char>>::empty());
    while i < v.len()
        invariant
            i <= v@.len(),
            sv == v@.map_values(|s: String| s@),
            s@ == join_with(sv.take(i as int), ", "@),
        decreases v.len() - i,
    {
        let ghost t = sv.take(i + 1);
        assert(t.drop_last() =~= sv.take(i as int));
        assert(t.last() == v@[i as int]@);
        if i > 0 {
            push_str(&mut s, ", ");
        } else {
            assert(t =~= seq![v@[0]@]);
        }
        push_str(&mut s, v[i].as_str());
        i = i + 1;
    }
    assert(sv.take(i as int) =~= sv);
    s
}

/// An address field's addresses joined by `, `; none when it has none.
pub fn flatten_addresses(field: &Option<Vec<Vec<Option<String>>>>) -> (r: Option<String>)
    ensures
        r.deep_view() == flattened(field.deep_view()),
{
    match field {
        None => None,
        Some(groups) => {
            let all = collect_addresses(groups);
            if all.len() == 0 {
                None
            } else {
                Some(join_comma(&all))
            }
        },
    }
}

/// The first address of a field.
pub fn first_address(field: &Option<Vec<Vec<Option<String>>>>) -> (r: Option<String>)
    ensures
        r.deep_view() == first_of(field.deep_view()),
{
    match flatten_addresses(field) {
        None => None,
        Some(v) => {
            let chars = chars_of(v.as_str());
            let comma = chars_of(",");
            let head = match find_chars(&chars, &comma, 0) {
                Some(i) => {
                    assert(chars@.subrange(0, i as int) =~= v@.take(i as int));
                    string_of_range(&chars, 0, i)
                },
                None => string_of(&chars),
            };
            Some(trim_str(head.as_str()))
        },
    }
}


fn hex_char(d: u8) -> (c: char)
    requires
        d < 16,
    ensures
        c == hex_digit(d as int),
{
    if d < 10 {
        (d + 48) as char
    } else {
        (d + 87) as char
    }
}

/// Bytes in lower-case hexadecimal, two digits each.
pub fn hex_lower(bytes: &Vec<u8>) -> (r: String)
    ensures
        r@ == hex_of(bytes@),
{
    let mut s = String::new();
    let mut i: usize = 0;
    while i < bytes.len()
        invariant
            i <= bytes@.len(),
            s@ == hex_of(bytes@.take(i as int)),
        decreases bytes@.len() - i,
    {
        let b = bytes[i];
        assert(bytes@.take(i + 1).drop_last() =~= bytes@.take(i as int));
        push_char(&mut s, hex_char(b / 16));
        push_char(&mut s, hex_char(b % 16));
        i = i + 1;
    }
    assert(bytes@.take(i as int) =~= bytes@);
    s
}

/// `generated-<account>-<now>-<hex of the digest>`, from a digest already computed.
pub fn generated_message_id(account_id: i64, now_ts: i64, digest: &Vec<u8>) -> (r: String)
    ensures
        r@ == generated_id(account_id as int, now_ts as int, digest@),
{
    let mut s = lit("generated-");
    push_i64(&mut s, account_id);
    push_str(&mut s, "-");
    push_i64(&mut s, now_ts);
    push_str(&mut s, "-");
    let hex = hex_lower(digest);
    push_str(&mut s, hex.as_str());
    s
}

/// The ID given to a message without a `Message-ID` header.
pub fn fallback_message_id(raw: &[u8], account_id: i64, now_ts: i64) -> (r: String)
    ensures
        r@ == fallback_id(raw@, account_id as int, now_ts as int),
{
    let digest = sha256_digest(raw);
    generated_message_id(account_id, now_ts, &digest)
}

/// The metadata of an attachment part: its name, its content type as `type/subtype`, its
/// size; it is not stored anywhere yet.
pub fn attachment_meta(part: &(Option<String>, Option<(String, Option<String>)>, Vec<u8>)) -> (r: AttachmentMeta)
    ensures
        meta_of(r, part.deep_view()),
{
    let content_type = match &part.1 {
        Some((t, st)) => {
            let sub = match st {
                Some(x) => x.clone(),
                None => lit("octet-stream"),
            };
            Some(concat3(t.as_str(), "/", sub.as_str()))
        },
        None => None,
    };
    AttachmentMeta { filename: copy_opt(&part.0), content_type, size: part.2.len(), local_path: None }
}

/// What `mail-parser` reports of a message, as plain values.
pub struct MimeParts {
    pub text_bodies: Vec<Option<String>>,
    pub body_text: Option<String>,
    pub html_bodies: Vec<Option<String>>,
    pub body_html: Option<String>,
    /// The HTML part found in the raw text, where the parser found none.
    pub raw_html: Option<String>,
    pub message_id: Option<String>,
    pub subject: Option<String>,
    pub from: Option<Vec<Vec<Option<String>>>>,
    pub to: Option<Vec<Vec<Option<String>>>>,
    pub references: Option<String>,
    pub attachments: Vec<(Option<String>, Option<(String, Option<String>)>, Vec<u8>)>,
}

/// The parts are what `mail-parser` reports of `raw`.
pub open spec fn parts_of(p: MimeParts, raw: Seq<u8>) -> bool {
    &&& p.text_bodies.deep_view() == mime_text_bodies(raw)
    &&& p.body_text.deep_view() == mime_body_text(raw)
    &&& p.html_bodies.deep_view() == mime_html_bodies(raw)
    &&& p.body_html.deep_view() == mime_body_html(raw)
    &&& p.raw_html.deep_view() == raw_html_part(raw)
    &&& p.message_id.deep_view() == mime_message_id(raw)
    &&& p.subject.deep_view() == mime_subject(raw)
    &&& p.from.deep_view() == mime_from(raw)
    &&& p.to.deep_view() == mime_to(raw)
    &&& p.references.deep_view() == mime_references(raw)
    &&& p.attachments.deep_view() == mime_attachments(raw)
}

/// Asks `mail-parser` everything the library reads of a message; nothing when it does not
/// accept the message.
pub fn read_mime_parts(raw: &[u8]) -> (r: Option<MimeParts>)
    ensures
        r is Some <==> mime_parses(raw@),
        r is Some ==> parts_of(r->0, raw@),
{
    if !parse_accepts(raw) {
        return None;
    }
    let raw_html = extract_html_part_from_raw(raw);
    Some(
        MimeParts {
            text_bodies: text_body_contents(raw),
            body_text: first_body_text(raw),
            html_bodies: html_body_contents(raw),
            body_html: first_body_html(raw),
            raw_html,
            message_id: header_message_id(raw),
            subject: header_subject(raw),
            from: header_from(raw),
            to: header_to(raw),
            references: header_references(raw),
            attachments: attachment_parts(raw),
        },
    )
}

/// The fields of a parsed message that the store keeps.
pub struct ParsedMime {
    pub message_id: String,
    pub subject: Option<String>,
    pub sender: Option<String>,
    pub recipients: Option<String>,
    pub snippet: Option<String>,
    pub body_text: Option<String>,
    pub body_html: Option<String>,
    pub references_header: Option<String>,
    pub attachments: Vec<AttachmentMeta>,
    /// The decoded contents of each attachment, for whoever stores them.
    pub attachment_contents: Vec<Vec<u8>>,
}

/// The text body: the first text part with contents, else the parser's first text body.
pub open spec fn chosen_text(p: MimeParts) -> Option<Seq<char>> {
    or_else(first_text(p.text_bodies.deep_view()), p.body_text.deep_view())
}

/// The HTML body: the first HTML part with contents, else the parser's first HTML body, else
/// the HTML part found in the raw text.
pub open spec fn chosen_html(p: MimeParts) -> Option<Seq<char>> {
    or_else(or_else(first_text(p.html_bodies.deep_view()), p.body_html.deep_view()), p.raw_html.deep_view())
}

/// The parsed message built from what the parser reported and the chosen message ID.
pub open spec fn parsed_from(m: ParsedMime, p: MimeParts, message_id: Seq<char>) -> bool {
    &&& m.message_id@ == message_id
    &&& m.subject.deep_view() == p.subject.deep_view()
    &&& m.sender.deep_view() == first_of(p.from.deep_view())
    &&& m.recipients.deep_view() == flattened(p.to.deep_view())
    &&& m.body_text.deep_view() == chosen_text(p)
    &&& m.body_html.deep_view() == chosen_html(p)
    &&& m.snippet.deep_view() == snippet_of(chosen_text(p), chosen_html(p))
    &&& m.references_header.deep_view() == p.references.deep_view()
    &&& m.attachments@.len() == p.attachments@.len()
    &&& forall|i: int| 0 <= i < m.attachments@.len() ==> meta_of(#[trigger] m.attachments@[i], p.attachments@[i].deep_view())
    &&& m.attachment_contents@.len() == p.attachments@.len()
    &&& forall|i: int| 0 <= i < m.attachment_contents@.len() ==> (#[trigger] m.attachment_contents@[i])@ == p.attachments@[i].2@
}

fn copy_bytes(v: &Vec<u8>) -> (r: Vec<u8>)
    ensures
        r@ == v@,
{
    let mut out: Vec<u8> = Vec::new();
    let mut i: usize = 0;
    while i < v.len()
        invariant
            i <= v@.len(),
            out@ == v@.take(i as int),
        decreases v@.len() - i,
    {
        out.push(v[i]);
        i = i + 1;
        assert(out@ =~= v@.take(i as int));
    }
    assert(v@.take(i as int) =~= v@);
    out
}

/// Builds the parsed message from what the parser reported, with the given message ID.
pub fn build_parsed_mime(parts: &MimeParts, message_id: String) -> (r: ParsedMime)
    ensures
        parsed_from(r, *parts, message_id@),
{
    let body_text = match first_text_of(&parts.text_bodies) {
        Some(t) => Some(t),
        None => copy_opt(&parts.body_text),
    };
    let body_html = match first_text_of(&parts.html_bodies) {
        Some(t) => Some(t),
        None => match copy_opt(&parts.body_html) {
            Some(t) => Some(t),
            None => copy_opt(&parts.raw_html),
        },
    };
    let snippet = match &body_text {
        Some(t) => Some(snippet_from(t)),
        None => match &body_html {
            Some(h) => Some(snippet_from(h)),
            None => None,
        },
    };
    let mut attachments: Vec<AttachmentMeta> = Vec::new();
    let mut contents: Vec<Vec<u8>> = Vec::new();
    let mut i: usize = 0;
    while i < parts.attachments.len()
        invariant
            i <= parts.attachments@.len(),
            attachments@.len() == i,
            contents@.len() == i,
            forall|k: int| 0 <= k < i ==> meta_of(#[trigger] attachments@[k], parts.attachments@[k].deep_view()),
            forall|k: int| 0 <= k < i ==> (#[trigger] contents@[k])@ == parts.attachments@[k].2@,
        decreases parts.attachments@.len() - i,
    {
        attachments.push(attachment_meta(&parts.attachments[i]));
        contents.push(copy_bytes(&parts.attachments[i].2));
        i = i + 1;
    }
    ParsedMime {
        message_id,
        subject: copy_opt(&parts.subject),
        sender: first_address(&parts.from),
        recipients: flatten_addresses(&parts.to),
        snippet,
        body_text,
        body_html,
        references_header: copy_opt(&parts.references),
        attachments,
        attachment_contents: contents,
    }
}

/// Parses a raw message into the fields the store keeps; nothing when `mail-parser` does not
/// accept it. A message without a `Message-ID` header gets `fallback_id`. Attachments come
/// back unstored.
pub fn parse_mime_message(raw: &[u8], account_id: i64, now_ts: i64) -> (r: Option<ParsedMime>)
    ensures
        r is Some <==> mime_parses(raw@),
        r is Some ==> exists|p: MimeParts|
            #![trigger parts_of(p, raw@)]
            parts_of(p, raw@) && parsed_from(
                r->0,
                p,
                match mime_message_id(raw@) {
                    Some(id) => id,
                    None => fallback_id(raw@, account_id as int, now_ts as int),
                },
            ),
{
    let parts = match read_mime_parts(raw) {
        Some(p) => p,
        None => return None,
    };
    let message_id = match &parts.message_id {
        Some(id) => id.clone(),
        None => fallback_message_id(raw, account_id, now_ts),
    };
    Some(build_parsed_mime(&parts, message_id))
}


/// The message to store from a parsed one fetched at `now_ts`, with its attachments' metadata
/// already serialized to JSON.
pub fn new_message_from_parsed(
    parsed: ParsedMime,
    account_id: i64,
    folder_id: Option<i64>,
    now_ts: i64,
    attachments_json: String,
) -> (r: NewMessage)
    ensures
        r.account_id == account_id,
        r.folder_id == folder_id,
        r.message_id == parsed.message_id,
        r.subject == parsed.subject,
        r.sender == parsed.sender,
        r.recipients == parsed.recipients,
        r.snippet == parsed.snippet,
        r.body_text == parsed.body_text,
        r.body_html == parsed.body_html,
        r.attachments_json == Some(attachments_json),
        r.references_header == parsed.references_header,
        r.received_at == Some(now_ts),
        r.now_ts == now_ts,
{
    NewMessage {
        account_id,
        folder_id,
        message_id: parsed.message_id,
        subject: parsed.subject,
        sender: parsed.sender,
        recipients: parsed.recipients,
        snippet: parsed.snippet,
        body_text: parsed.body_text,
        body_html: parsed.body_html,
        attachments_json: Some(attachments_json),
        references_header: parsed.references_header,
        received_at: Some(now_ts),
        now_ts,
    }
}

proof fn lemma_first_text_at(s: Seq<Option<Seq<char>>>, i: int)
    requires
        0 <= i < s.len(),
        s[i] is Some,
        forall|j: int| 0 <= j < i ==> s[j] is None,
    ensures
        first_text(s) == s[i],
    decreases i,
{
    if i > 0 {
        assert forall|j: int| 0 <= j < i - 1 implies s.drop_first()[j] is None by {
            assert(s.drop_first()[j] == s[j + 1]);
        }
        lemma_first_text_at(s.drop_first(), i - 1);
    }
}

proof fn lemma_first_text_none(s: Seq<Option<Seq<char>>>)
    requires
        forall|j: int| 0 <= j < s.len() ==> s[j] is None,
    ensures
        first_text(s) is None,
    decreases s.len(),
{
    if s.len() > 0 {
        assert forall|j: int| 0 <= j < s.len() - 1 implies s.drop_first()[j] is None by {
            assert(s.drop_first()[j] == s[j + 1]);
        }
        lemma_first_text_none(s.drop_first());
    }
}

/// The bodies of a parsed message are the parser's. The HTML body is the first HTML part with
/// contents, else the parser's first HTML body; the HTML found by scanning the raw text is
/// used only when the parser reports none. The text body is the first text part with
/// contents, else the parser's first text body.
pub proof fn parsed_bodies_prefer_parser(m: ParsedMime, p: MimeParts, message_id: Seq<char>)
    requires
        parsed_from(m, p, message_id),
    ensures
        forall|i: int|
            0 <= i < p.html_bodies.deep_view().len() && #[trigger] p.html_bodies.deep_view()[i] is Some && (forall|j: int|
                0 <= j < i ==> p.html_bodies.deep_view()[j] is None) ==> m.body_html.deep_view() == p.html_bodies.deep_view()[i],
        (forall|j: int| 0 <= j < p.html_bodies.deep_view().len() ==> p.html_bodies.deep_view()[j] is None) ==> {
            &&& p.body_html is Some ==> m.body_html.deep_view() == p.body_html.deep_view()
            &&& p.body_html is None ==> m.body_html.deep_view() == p.raw_html.deep_view()
        },
        forall|i: int|
            0 <= i < p.text_bodies.deep_view().len() && #[trigger] p.text_bodies.deep_view()[i] is Some && (forall|j: int|
                0 <= j < i ==> p.text_bodies.deep_view()[j] is None) ==> m.body_text.deep_view() == p.text_bodies.deep_view()[i],
        (forall|j: int| 0 <= j < p.text_bodies.deep_view().len() ==> p.text_bodies.deep_view()[j] is None)
            ==> m.body_text.deep_view() == p.body_text.deep_view(),
{
    let hs = p.html_bodies.deep_view();
    let ts = p.text_bodies.deep_view();
    assert forall|i: int|
        0 <= i < hs.len() && #[trigger] hs[i] is Some && (forall|j: int| 0 <= j < i ==> hs[j] is None) implies m.body_html.deep_view()
            == hs[i] by {
        lemma_first_text_at(hs, i);
    }
    if forall|j: int| 0 <= j < hs.len() ==> hs[j] is None {
        lemma_first_text_none(hs);
    }
    assert forall|i: int|
        0 <= i < ts.len() && #[trigger] ts[i] is Some && (forall|j: int| 0 <= j < i ==> ts[j] is None) implies m.body_text.deep_view()
            == ts[i] by {
        lemma_first_text_at(ts, i);
    }
    if forall|j: int| 0 <= j < ts.len() ==> ts[j] is None {
        lemma_first_text_none(ts);
    }
}

} // verus!
