//! Addressing a BlueBubbles server: URLs, endpoints and reply status.

use vstd::prelude::*;
use crate::text::{
    chars_of, concat, decimal, owned, seq_starts_with, spec_decimal, str_starts_with,
    string_of_vec,
};
use crate::types::Message;

verus! {

/// The request methods the server understands.
#[derive(Debug, Clone, Copy, PartialEq, Eq, Structural)]
pub enum Method {
    Get,
    Post,
    Put,
    Delete,
}

/// Bytes that `urlencoding` leaves as they are: ASCII letters, digits, `-`, `.`, `_`, `~`.
pub open spec fn url_safe_byte(b: u8) -> bool {
    (48 <= b <= 57) || (65 <= b <= 90) || (97 <= b <= 122) || b == 45 || b == 46 || b == 95
        || b == 126
}

/// Upper-case hexadecimal digit for `d < 16`.
pub open spec fn hex_upper(d: int) -> char {
    if d < 10 { (48 + d) as char } else { (55 + d) as char }
}

/// Percent-encoding of one byte.
pub open spec fn url_encode_byte(b: u8) -> Seq<char> {
    if url_safe_byte(b) {
        seq![b as char]
    } else {
        seq!['%', hex_upper((b / 16) as int), hex_upper((b % 16) as int)]
    }
}

/// Percent-encoding of a byte sequence, byte by byte.
pub open spec fn url_encode_bytes(bs: Seq<u8>) -> Seq<char>
    decreases bs.len(),
{
    if bs.len() == 0 {
        Seq::empty()
    } else {
        url_encode_byte(bs[0]) + url_encode_bytes(bs.drop_first())
    }
}

/// Percent-encoding of the UTF-8 bytes of a string.
pub open spec fn spec_url_encode(s: Seq<char>) -> Seq<char> {
    url_encode_bytes(vstd::utf8::encode_utf8(s))
}

fn hex_upper_exec(d: u8) -> (c: char)
    requires
        d < 16,
    ensures
        c == hex_upper(d as int),
{
    if d < 10 { (48 + d) as char } else { (55 + d) as char }
}

/// Percent-encodes `s` as `urlencoding::encode` does (see `spec_url_encode`):
/// every byte of its UTF-8 encoding but ASCII alphanumerics and `-`, `_`,
/// `.`, `~` becomes `%` and two upper-case hex digits.
fn url_encode(s: &str) -> (r: String)
    ensures
        r@ == spec_url_encode(s@),
{
    let bytes = s.as_bytes();
    let n = bytes.len();
    let mut out: Vec<char> = Vec::new();
    let mut i: usize = 0;
    assert(bytes@.skip(0) =~= bytes@);
    while i < n
        invariant
            i <= n,
            n == bytes@.len(),
            bytes@ == vstd::utf8::encode_utf8(s@),
            out@ + url_encode_bytes(bytes@.skip(i as int)) == spec_url_encode(s@),
        decreases n - i,
    {
        let ghost rest = bytes@.skip(i as int);
        let ghost old_out = out@;
        let b = bytes[i];
        assert(rest[0] == b);
        assert(rest.drop_first() =~= bytes@.skip(i + 1));
        if (48 <= b && b <= 57) || (65 <= b && b <= 90) || (97 <= b && b <= 122) || b == 45 || b == 46 || b == 95
            || b == 126 {
            out.push(b as char);
        } else {
            out.push('%');
            out.push(hex_upper_exec(b / 16));
            out.push(hex_upper_exec(b % 16));
        }
        assert(out@ =~= old_out + url_encode_byte(b));
        assert(out@ + url_encode_bytes(bytes@.skip(i + 1)) =~= old_out + url_encode_bytes(rest));
        i += 1;
    }
    assert(bytes@.skip(n as int) =~= Seq::<u8>::empty());
    assert(out@ + Seq::<char>::empty() =~= out@);
    string_of_vec(&out)
}

/// `s` with every trailing `c` removed (`str::trim_end_matches` with a char).
pub open spec fn spec_trim_end_char(s: Seq<char>, c: char) -> Seq<char>
    decreases s.len(),
{
    if s.len() > 0 && s.last() == c {
        spec_trim_end_char(s.drop_last(), c)
    } else {
        s
    }
}

fn trim_end_char(s: &str, c: char) -> (r: String)
    ensures
        r@ == spec_trim_end_char(s@, c),
{
    let mut v = chars_of(s);
    let ghost orig = v@;
    while v.len() > 0 && v[v.len() - 1] == c
        invariant
            spec_trim_end_char(orig, c) == spec_trim_end_char(v@, c),
        decreases v@.len(),
    {
        let ghost before = v@;
        v.pop();
        assert(before.drop_last() =~= v@);
    }
    string_of_vec(&v)
}

/// Server address as `BlueBubblesApi::new` stores it: trailing slashes
/// dropped, and `http://` put in front when no scheme is given.
pub open spec fn spec_normalize_host(host: Seq<char>) -> Seq<char> {
    let h = spec_trim_end_char(host, '/');
    if !seq_starts_with(h, "http://"@) && !seq_starts_with(h, "https://"@) {
        "http://"@ + h
    } else {
        h
    }
}

proof fn lemma_trim_end_char(s: Seq<char>, c: char)
    ensures
        spec_trim_end_char(s, c).len() == 0 || spec_trim_end_char(s, c).last() != c,
    decreases s.len(),
{
    if s.len() > 0 && s.last() == c {
        lemma_trim_end_char(s.drop_last(), c);
    }
}

/// Normalising a server address a second time changes nothing, unless the
/// address is empty once its trailing slashes are gone.
pub proof fn law_normalize_host_idempotent(host: Seq<char>)
    requires
        spec_trim_end_char(host, '/').len() > 0,
    ensures
        spec_normalize_host(spec_normalize_host(host)) == spec_normalize_host(host),
{
    let h = spec_trim_end_char(host, '/');
    lemma_trim_end_char(host, '/');
    reveal_strlit("http://");
    reveal_strlit("https://");
    let n = spec_normalize_host(host);
    if !seq_starts_with(h, "http://"@) && !seq_starts_with(h, "https://"@) {
        assert(n.last() == h.last());
        assert(seq_starts_with(n, "http://"@)) by {
            assert(n.subrange(0, 7) =~= "http://"@);
        }
    }
    assert(spec_trim_end_char(n, '/') == n);
}

/// Where the server is and how to authenticate with it.
#[derive(Debug, Clone)]
pub struct BlueBubblesApi {
    pub host: String,
    pub password: String,
}

/// The query separator for a path: `&` when it already has a query, else `?`.
pub open spec fn query_sep(path: Seq<char>) -> Seq<char> {
    if path.contains('?') { "&"@ } else { "?"@ }
}

/// Full URL of `path` on the server, with the URL-encoded password appended
/// as the `password` query parameter.
pub open spec fn spec_build_url(host: Seq<char>, password: Seq<char>, path: Seq<char>) -> Seq<char> {
    host + path + query_sep(path) + "password="@ + spec_url_encode(password)
}

fn has_char(v: &Vec<char>, c: char) -> (b: bool)
    ensures
        b == v@.contains(c),
{
    let mut i: usize = 0;
    while i < v.len()
        invariant
            i <= v@.len(),
            forall|k: int| 0 <= k < i ==> v@[k] != c,
        decreases v@.len() - i,
    {
        if v[i] == c {
            return true;
        }
        i += 1;
    }
    false
}

impl BlueBubblesApi {
    /// Addresses the server at `host`, normalising the address as
    /// `spec_normalize_host` says.
    pub fn new(host: String, password: String) -> (r: Self)
        ensures
            r.host@ == spec_normalize_host(host@),
            r.password@ == password@,
    {
        let h = trim_end_char(host.as_str(), '/');
        let h = if !str_starts_with(h.as_str(), "http://") && !str_starts_with(h.as_str(), "https://") {
            concat("http://", h.as_str())
        } else {
            h
        };
        BlueBubblesApi { host: h, password }
    }

    /// Addresses the server at `host` as given, only dropping trailing slashes.
    pub fn with_host(host: String, password: String) -> (r: Self)
        ensures
            r.host@ == spec_trim_end_char(host@, '/'),
            r.password@ == password@,
    {
        BlueBubblesApi { host: trim_end_char(host.as_str(), '/'), password }
    }

    /// The URL of `path` on this server, carrying the password.
    pub fn build_url(&self, path: &str) -> (r: String)
        ensures
            r@ == spec_build_url(self.host@, self.password@, path@),
    {
        let encoded = url_encode(self.password.as_str());
        let pv = chars_of(path);
        let sep = if has_char(&pv, '?') { "&" } else { "?" };
        let a = concat(self.host.as_str(), path);
        let b = concat(a.as_str(), sep);
        let c = concat(b.as_str(), "password=");
        concat(c.as_str(), encoded.as_str())
    }

    /// The URL of an endpoint on this server.
    pub fn endpoint_url(&self, e: &Endpoint) -> (r: String)
        ensures
            r@ == spec_build_url(self.host@, self.password@, spec_endpoint_path(*e)),
    {
        let p = e.path();
        self.build_url(p.as_str())
    }
}

/// The server operations the client uses, with their path parameters.
#[derive(Debug, Clone)]
pub enum Endpoint {
    DownloadAttachment(String),
    ChatCount,
    ChatByGuid(String),
    ChatMessages(String),
    QueryChats,
    NewChat,
    MarkChatRead(String),
    MarkChatUnread(String),
    ShareContactInfo(String),
    ContactShareStatus(String),
    ChatIcon(String),
    DeleteChat(String),
    UpdateChat(String),
    AddParticipant(String),
    RemoveParticipant(String),
    LeaveChat(String),
    RemoveGroupIcon(String),
    SetGroupIcon(String),
    Contacts,
    QueryContacts,
    MessageCount,
    MyMessageCount,
    MessageByGuid(String),
    EmbeddedMedia(String),
    QueryMessages,
    SendText,
    SendReaction,
    EditMessage(String),
    UnsendMessage(String),
    NotifySilenced(String),
    ScheduledMessages,
    ScheduleMessage,
    ScheduledMessageById(u64),
    DeleteScheduledMessage(u64),
    UpdateScheduledMessage(u64),
    SendAttachment,
    SendMultipartMessage,
    Ping,
}

/// Path of an endpoint below the server address.
pub open spec fn spec_endpoint_path(e: Endpoint) -> Seq<char> {
    match e {
        Endpoint::DownloadAttachment(g) => "/api/v1/attachment/"@ + g@ + "/download"@,
        Endpoint::ChatCount => "/api/v1/chat/count"@,
        Endpoint::ChatByGuid(g) => "/api/v1/chat/"@ + g@,
        Endpoint::ChatMessages(g) => "/api/v1/chat/"@ + g@ + "/message"@,
        Endpoint::QueryChats => "/api/v1/chat/query"@,
        Endpoint::NewChat => "/api/v1/chat/new"@,
        Endpoint::MarkChatRead(g) => "/api/v1/chat/"@ + g@ + "/read"@,
        Endpoint::MarkChatUnread(g) => "/api/v1/chat/"@ + g@ + "/unread"@,
        Endpoint::ShareContactInfo(g) => "/api/v1/chat/"@ + g@ + "/share/contact"@,
        Endpoint::ContactShareStatus(g) => "/api/v1/chat/"@ + g@ + "/share/contact/status"@,
        Endpoint::ChatIcon(g) => "/api/v1/chat/"@ + g@ + "/icon"@,
        Endpoint::DeleteChat(g) => "/api/v1/chat/"@ + g@,
        Endpoint::UpdateChat(g) => "/api/v1/chat/"@ + g@,
        Endpoint::AddParticipant(g) => "/api/v1/chat/"@ + g@ + "/participant"@,
        Endpoint::RemoveParticipant(g) => "/api/v1/chat/"@ + g@ + "/participant"@,
        Endpoint::LeaveChat(g) => "/api/v1/chat/"@ + g@ + "/leave"@,
        Endpoint::RemoveGroupIcon(g) => "/api/v1/chat/"@ + g@ + "/icon"@,
        Endpoint::SetGroupIcon(g) => "/api/v1/chat/"@ + g@ + "/icon"@,
        Endpoint::Contacts => "/api/v1/contact"@,
        Endpoint::QueryContacts => "/api/v1/contact/query"@,
        Endpoint::MessageCount => "/api/v1/message/count"@,
        Endpoint::MyMessageCount => "/api/v1/message/count/me"@,
        Endpoint::MessageByGuid(g) => "/api/v1/message/"@ + g@,
        Endpoint::EmbeddedMedia(g) => "/api/v1/message/"@ + g@ + "/embedded-media"@,
        Endpoint::QueryMessages => "/api/v1/message/query"@,
        Endpoint::SendText => "/api/v1/message/text"@,
        Endpoint::SendReaction => "/api/v1/message/react"@,
        Endpoint::EditMessage(g) => "/api/v1/message/"@ + g@ + "/edit"@,
        Endpoint::UnsendMessage(g) => "/api/v1/message/"@ + g@ + "/unsend"@,
        Endpoint::NotifySilenced(g) => "/api/v1/message/"@ + g@ + "/notify"@,
        Endpoint::ScheduledMessages => "/api/v1/message/schedule"@,
        Endpoint::ScheduleMessage => "/api/v1/message/schedule"@,
        Endpoint::ScheduledMessageById(id) => "/api/v1/message/schedule/"@ + spec_decimal(id as nat),
        Endpoint::DeleteScheduledMessage(id) => "/api/v1/message/schedule/"@ + spec_decimal(id as nat),
        Endpoint::UpdateScheduledMessage(id) => "/api/v1/message/schedule/"@ + spec_decimal(id as nat),
        Endpoint::SendAttachment => "/api/v1/message/attachment"@,
        Endpoint::SendMultipartMessage => "/api/v1/message/multipart"@,
        Endpoint::Ping => "/api/v1/ping"@,
    }
}

/// Request method of an endpoint (multipart uploads are posts, raw downloads are gets).
pub open spec fn spec_endpoint_method(e: Endpoint) -> Method {
    match e {
        Endpoint::QueryChats | Endpoint::NewChat | Endpoint::MarkChatRead(_)
        | Endpoint::MarkChatUnread(_) | Endpoint::ShareContactInfo(_)
        | Endpoint::AddParticipant(_) | Endpoint::LeaveChat(_) | Endpoint::SetGroupIcon(_)
        | Endpoint::QueryContacts | Endpoint::QueryMessages | Endpoint::SendText
        | Endpoint::SendReaction | Endpoint::EditMessage(_) | Endpoint::UnsendMessage(_)
        | Endpoint::NotifySilenced(_) | Endpoint::ScheduleMessage | Endpoint::SendAttachment
        | Endpoint::SendMultipartMessage => Method::Post,
        Endpoint::UpdateChat(_) | Endpoint::UpdateScheduledMessage(_) => Method::Put,
        Endpoint::DeleteChat(_) | Endpoint::RemoveParticipant(_) | Endpoint::RemoveGroupIcon(_)
        | Endpoint::DeleteScheduledMessage(_) => Method::Delete,
        _ => Method::Get,
    }
}

fn join3(a: &str, b: &str, c: &str) -> (r: String)
    ensures
        r@ == a@ + b@ + c@,
{
    let x = concat(a, b);
    concat(x.as_str(), c)
}

impl Endpoint {
    /// Path of this endpoint below the server address.
    pub fn path(&self) -> (r: String)
        ensures
            r@ == spec_endpoint_path(*self),
    {
        match self {
            Endpoint::DownloadAttachment(g) => join3("/api/v1/attachment/", g.as_str(), "/download"),
            Endpoint::ChatCount => owned("/api/v1/chat/count"),
            Endpoint::ChatByGuid(g) => concat("/api/v1/chat/", g.as_str()),
            Endpoint::ChatMessages(g) => join3("/api/v1/chat/", g.as_str(), "/message"),
            Endpoint::QueryChats => owned("/api/v1/chat/query"),
            Endpoint::NewChat => owned("/api/v1/chat/new"),
            Endpoint::MarkChatRead(g) => join3("/api/v1/chat/", g.as_str(), "/read"),
            Endpoint::MarkChatUnread(g) => join3("/api/v1/chat/", g.as_str(), "/unread"),
            Endpoint::ShareContactInfo(g) => join3("/api/v1/chat/", g.as_str(), "/share/contact"),
            Endpoint::ContactShareStatus(g) => join3("/api/v1/chat/", g.as_str(), "/share/contact/status"),
            Endpoint::ChatIcon(g) => join3("/api/v1/chat/", g.as_str(), "/icon"),
            Endpoint::DeleteChat(g) => concat("/api/v1/chat/", g.as_str()),
            Endpoint::UpdateChat(g) => concat("/api/v1/chat/", g.as_str()),
            Endpoint::AddParticipant(g) => join3("/api/v1/chat/", g.as_str(), "/participant"),
            Endpoint::RemoveParticipant(g) => join3("/api/v1/chat/", g.as_str(), "/participant"),
            Endpoint::LeaveChat(g) => join3("/api/v1/chat/", g.as_str(), "/leave"),
            Endpoint::RemoveGroupIcon(g) => join3("/api/v1/chat/", g.as_str(), "/icon"),
            Endpoint::SetGroupIcon(g) => join3("/api/v1/chat/", g.as_str(), "/icon"),
            Endpoint::Contacts => owned("/api/v1/contact"),
            Endpoint::QueryContacts => owned("/api/v1/contact/query"),
            Endpoint::MessageCount => owned("/api/v1/message/count"),
            Endpoint::MyMessageCount => owned("/api/v1/message/count/me"),
            Endpoint::MessageByGuid(g) => concat("/api/v1/message/", g.as_str()),
            Endpoint::EmbeddedMedia(g) => join3("/api/v1/message/", g.as_str(), "/embedded-media"),
            Endpoint::QueryMessages => owned("/api/v1/message/query"),
            Endpoint::SendText => owned("/api/v1/message/text"),
            Endpoint::SendReaction => owned("/api/v1/message/react"),
            Endpoint::EditMessage(g) => join3("/api/v1/message/", g.as_str(), "/edit"),
            Endpoint::UnsendMessage(g) => join3("/api/v1/message/", g.as_str(), "/unsend"),
            Endpoint::NotifySilenced(g) => join3("/api/v1/message/", g.as_str(), "/notify"),
            Endpoint::ScheduledMessages => owned("/api/v1/message/schedule"),
            Endpoint::ScheduleMessage => owned("/api/v1/message/schedule"),
            Endpoint::ScheduledMessageById(id) => {
                let d = decimal(*id);
                concat("/api/v1/message/schedule/", d.as_str())
            },
            Endpoint::DeleteScheduledMessage(id) => {
                let d = decimal(*id);
                concat("/api/v1/message/schedule/", d.as_str())
            },
            Endpoint::UpdateScheduledMessage(id) => {
                let d = decimal(*id);
                concat("/api/v1/message/schedule/", d.as_str())
            },
            Endpoint::SendAttachment => owned("/api/v1/message/attachment"),
            Endpoint::SendMultipartMessage => owned("/api/v1/message/multipart"),
            Endpoint::Ping => owned("/api/v1/ping"),
        }
    }

    /// Request method of this endpoint.
    pub fn method(&self) -> (m: Method)
        ensures
            m == spec_endpoint_method(*self),
    {
        match self {
            Endpoint::QueryChats | Endpoint::NewChat | Endpoint::MarkChatRead(_)
            | Endpoint::MarkChatUnread(_) | Endpoint::ShareContactInfo(_)
            | Endpoint::AddParticipant(_) | Endpoint::LeaveChat(_) | Endpoint::SetGroupIcon(_)
            | Endpoint::QueryContacts | Endpoint::QueryMessages | Endpoint::SendText
            | Endpoint::SendReaction | Endpoint::EditMessage(_) | Endpoint::UnsendMessage(_)
            | Endpoint::NotifySilenced(_) | Endpoint::ScheduleMessage | Endpoint::SendAttachment
            | Endpoint::SendMultipartMessage => Method::Post,
            Endpoint::UpdateChat(_) | Endpoint::UpdateScheduledMessage(_) => Method::Put,
            Endpoint::DeleteChat(_) | Endpoint::RemoveParticipant(_) | Endpoint::RemoveGroupIcon(_)
            | Endpoint::DeleteScheduledMessage(_) => Method::Delete,
            _ => Method::Get,
        }
    }
}

/// Error text for a reply whose status is not 200.
pub open spec fn spec_api_error(status: u64, message: Option<Seq<char>>) -> Seq<char> {
    let m = match message {
        Some(m) => m,
        None => "Unknown error"@,
    };
    "API error ("@ + spec_decimal(status as nat) + "): "@ + m
}

/// Outcome of checking a reply's status field: a missing status is an error,
/// a status other than 200 is an API error carrying the reply's message.
pub open spec fn spec_check_status(status: Option<u64>, message: Option<Seq<char>>) -> Result<(), Seq<char>> {
    match status {
        None => Err("Missing status"@),
        Some(s) => if s != 200 { Err(spec_api_error(s, message)) } else { Ok(()) },
    }
}

/// View of a result whose error is a `String`.
pub open spec fn unit_result_view(r: Result<(), String>) -> Result<(), Seq<char>> {
    match r {
        Ok(()) => Ok(()),
        Err(e) => Err(e@),
    }
}

/// Checks the status of a server reply (its `status` and `message` fields).
pub fn check_status(status: Option<u64>, message: Option<&str>) -> (r: Result<(), String>)
    ensures
        unit_result_view(r) == spec_check_status(
            status,
            match message {
                Some(m) => Some(m@),
                None => None,
            },
        ),
{
    match status {
        None => Err(owned("Missing status")),
        Some(s) => {
            if s != 200 {
                let m = match message {
                    Some(m) => m,
                    None => "Unknown error",
                };
                let d = decimal(s);
                let a = concat("API error (", d.as_str());
                let b = concat(a.as_str(), "): ");
                Err(concat(b.as_str(), m))
            } else {
                Ok(())
            }
        },
    }
}

/// Error text for a message of a query reply that could not be read.
pub open spec fn spec_parse_error_at(idx: nat, detail: Seq<char>) -> Seq<char> {
    "Failed to parse message at index "@ + spec_decimal(idx) + ": "@ + detail
}

/// Index of the first failed entry at or after `i` (the length when there is none).
pub open spec fn first_err_from(rs: Seq<Result<Message, String>>, i: int) -> int
    decreases rs.len() - i,
{
    if i < 0 || i >= rs.len() {
        rs.len() as int
    } else if rs[i] is Err {
        i
    } else {
        first_err_from(rs, i + 1)
    }
}

proof fn lemma_first_err_bounds(rs: Seq<Result<Message, String>>, i: int)
    requires
        0 <= i <= rs.len(),
    ensures
        i <= first_err_from(rs, i) <= rs.len(),
        first_err_from(rs, i) < rs.len() ==> rs[first_err_from(rs, i)] is Err,
        forall|j: int| i <= j < first_err_from(rs, i) ==> rs[j] is Ok,
    decreases rs.len() - i,
{
    if i < rs.len() && !(rs[i] is Err) {
        lemma_first_err_bounds(rs, i + 1);
    }
}

/// Gathers the messages of a query reply read one by one: all of them, in
/// order, when every entry was read; otherwise an error naming the first
/// entry that was not.
pub fn collect_messages(results: Vec<Result<Message, String>>) -> (r: Result<Vec<Message>, String>)
    requires
        results@.len() <= u64::MAX,
    ensures
        ({
            let k = first_err_from(results@, 0);
            if k == results@.len() {
                &&& r is Ok
                &&& r->Ok_0@.len() == results@.len()
                &&& forall|i: int| 0 <= i < results@.len() ==> results@[i] == Ok::<Message, String>(r->Ok_0@[i])
            } else {
                &&& r is Err
                &&& r->Err_0@ == spec_parse_error_at(k as nat, results@[k]->Err_0@)
            }
        }),
{
    let ghost orig = results@;
    proof {
        lemma_first_err_bounds(orig, 0);
    }
    let mut rest = results;
    let n = rest.len();
    let mut rev: Vec<Result<Message, String>> = Vec::new();
    while rest.len() > 0
        invariant
            rest@.len() + rev@.len() == n,
            n == orig.len(),
            forall|k: int| 0 <= k < rest@.len() ==> rest@[k] == orig[k],
            forall|k: int| 0 <= k < rev@.len() ==> rev@[k] == orig[n - 1 - k],
        decreases rest@.len(),
    {
        let x = rest.pop().unwrap();
        rev.push(x);
    }
    let mut out: Vec<Message> = Vec::new();
    let mut i: usize = 0;
    while rev.len() > 0
        invariant
            i + rev@.len() == n,
            n == orig.len(),
            n <= u64::MAX,
            orig == results@,
            out@.len() == i,
            forall|k: int| 0 <= k < rev@.len() ==> rev@[k] == orig[n - 1 - k],
            forall|k: int| 0 <= k < i ==> orig[k] == Ok::<Message, String>(out@[k]),
            first_err_from(orig, 0) == first_err_from(orig, i as int),
        decreases rev@.len(),
    {
        let x = rev.pop().unwrap();
        assert(x == orig[i as int]);
        match x {
            Ok(m) => {
                out.push(m);
            },
            Err(e) => {
                let d = decimal(i as u64);
                let a = concat("Failed to parse message at index ", d.as_str());
                let b = concat(a.as_str(), ": ");
                let msg = concat(b.as_str(), e.as_str());
                return Err(msg);
            },
        }
        i += 1;
    }
    Ok(out)
}

/// Form fields of an attachment upload: the chat, the file name and whether
/// it is an audio message, then the temporary guid and the send method when
/// given.
pub open spec fn spec_attachment_fields(
    chat_guid: Seq<char>,
    file_name: Seq<char>,
    temp_guid: Option<Seq<char>>,
    method: Option<Seq<char>>,
    is_audio_message: bool,
) -> Seq<(Seq<char>, Seq<char>)> {
    let base = seq![
        ("chatGuid"@, chat_guid),
        ("name"@, file_name),
        ("isAudioMessage"@, if is_audio_message { "true"@ } else { "false"@ }),
    ];
    let with_guid = match temp_guid {
        Some(g) => base.push(("tempGuid"@, g)),
        None => base,
    };
    match method {
        Some(m) => with_guid.push(("method"@, m)),
        None => with_guid,
    }
}

/// The form fields of an attachment upload (see `spec_attachment_fields`).
pub fn attachment_fields(
    chat_guid: &str,
    file_name: &str,
    temp_guid: Option<&str>,
    method: Option<&str>,
    is_audio_message: bool,
) -> (r: Vec<(String, String)>)
    ensures
        r@.map_values(|p: (String, String)| (p.0@, p.1@)) == spec_attachment_fields(
            chat_guid@,
            file_name@,
            match temp_guid { Some(g) => Some(g@), None => None },
            match method { Some(m) => Some(m@), None => None },
            is_audio_message,
        ),
{
    let mut fields: Vec<(String, String)> = Vec::new();
    fields.push((owned("chatGuid"), owned(chat_guid)));
    fields.push((owned("name"), owned(file_name)));
    let audio = if is_audio_message { owned("true") } else { owned("false") };
    fields.push((owned("isAudioMessage"), audio));
    match temp_guid {
        Some(g) => fields.push((owned("tempGuid"), owned(g))),
        None => {},
    }
    match method {
        Some(m) => fields.push((owned("method"), owned(m))),
        None => {},
    }
    proof {
        reveal_strlit("chatGuid");
        reveal_strlit("name");
        reveal_strlit("isAudioMessage");
        reveal_strlit("tempGuid");
        reveal_strlit("method");
        reveal_strlit("true");
        reveal_strlit("false");
    }
    assert(fields@.map_values(|p: (String, String)| (p.0@, p.1@)) =~= spec_attachment_fields(
        chat_guid@,
        file_name@,
        match temp_guid { Some(g) => Some(g@), None => None },
        match method { Some(m) => Some(m@), None => None },
        is_audio_message,
    ));
    fields
}

} // verus!
