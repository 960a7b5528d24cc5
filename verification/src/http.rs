//! The loopback HTTP exchange with the engine: the request that is sent, and what a reply means.
use crate::ascii::{
    is_ascii, lemma_ascii_is_read_where_it_stands, lemma_stands_in_more, stands_at, stands_in,
};
use crate::text::{
    after, before, chars_of, contains, cut_after, cut_before, decimal, decimal_of, digit, has,
    law_cut_at_the_first, law_nothing_is_cut, law_words_stand_between_white_space, lines, newline, next_line, next_word, occurs_at, parse_u16, parsed_u16, push_text, string_of,
    trim, trimmed, white_space, without_return, words,
};
use vstd::prelude::*;
use vstd::slice::slice_subrange;
use vstd::utf8::{decode_utf8, encode_utf8, is_ascii_chars, valid_utf8};

verus! {

/// Reading stops once this many bytes have been received.
pub const REPLY_BUDGET: usize = 524288;

/// The most bytes that one read delivers.
pub const READ_CHUNK: usize = 8192;

// ---------------------------------------------------------------------------------------------
// Text of received bytes
// ---------------------------------------------------------------------------------------------

/// The text that `String::from_utf8_lossy` makes of bytes that are not valid UTF-8.
pub uninterp spec fn utf8_lossy(bytes: Seq<u8>) -> Seq<char>;

/// The text in received bytes: what they encode, where they are valid UTF-8, and a text with
/// replacement characters where they are not.
pub open spec fn text_in(bytes: Seq<u8>) -> Seq<char> {
    if valid_utf8(bytes) {
        decode_utf8(bytes)
    } else {
        utf8_lossy(bytes)
    }
}

/// `String::from_utf8_lossy` decodes bytes to text. Bytes that are valid UTF-8 give exactly the
/// text that they encode. In other bytes the invalid sequences give replacement characters. An
/// ASCII byte is part of no invalid sequence and a replacement character is not ASCII, so ASCII
/// text is in the result exactly where its bytes stand together; how the invalid sequences are
/// delimited is left unsaid, beyond being a function of the bytes.
#[verifier::external_body]
pub(crate) fn text_of_bytes(bytes: &[u8]) -> (s: String)
    ensures
        valid_utf8(bytes@) ==> s@ == decode_utf8(bytes@),
        !valid_utf8(bytes@) ==> s@ == utf8_lossy(bytes@),
        !valid_utf8(bytes@) ==> forall|word: Seq<char>|
            is_ascii_chars(word) && word.len() > 0 ==> #[trigger] contains(s@, word) == stands_in(
                bytes@,
                word,
            ),
{
    String::from_utf8_lossy(bytes).into_owned()
}

// ---------------------------------------------------------------------------------------------
// Requests
// ---------------------------------------------------------------------------------------------

/// The loopback address of `port`, as `host:port`.
pub open spec fn address_text(port: u16) -> Seq<char> {
    "127.0.0.1:"@ + decimal(port as nat)
}

/// The URL of an engine on `port`.
pub open spec fn engine_url_text(port: u16) -> Seq<char> {
    "http://127.0.0.1:"@ + decimal(port as nat)
}

/// `path`, with the token appended to its query if there is one that is not empty.
pub open spec fn path_with_token(path: Seq<char>, token: Option<Seq<char>>) -> Seq<char> {
    match token {
        Some(t) => if t.len() == 0 {
            path
        } else if path.contains('?') {
            path + "&token="@ + t
        } else {
            path + "?token="@ + t
        },
        None => path,
    }
}

/// The GET request for `path` with `token`, to the engine on `port`.
pub open spec fn request_text(port: u16, path: Seq<char>, token: Option<Seq<char>>) -> Seq<char> {
    "GET "@ + path_with_token(path, token) + " HTTP/1.1\r\nHost: 127.0.0.1:"@ + decimal(port as nat)
        + "\r\nConnection: close\r\n\r\n"@
}

/// What an optional string slice holds.
pub open spec fn optional_str(s: Option<&str>) -> Option<Seq<char>> {
    match s {
        Some(s) => Some(s@),
        None => None,
    }
}

/// The loopback address of `port`, as `host:port`.
pub fn address(port: u16) -> (s: String)
    ensures
        s@ == address_text(port),
{
    let mut s = "127.0.0.1:".to_string();
    push_text(&mut s, decimal_of(port).as_str());
    s
}

/// The URL of an engine on `port`.
pub fn engine_url(port: u16) -> (s: String)
    ensures
        s@ == engine_url_text(port),
{
    let mut s = "http://127.0.0.1:".to_string();
    push_text(&mut s, decimal_of(port).as_str());
    s
}

/// `path`, with the token appended to its query.
pub fn full_path(path: &str, token: Option<&str>) -> (s: String)
    ensures
        s@ == path_with_token(path@, optional_str(token)),
{
    let mut s = path.to_string();
    match token {
        Some(t) => {
            if !t.is_empty() {
                if has_char(path, '?') {
                    push_text(&mut s, "&token=");
                } else {
                    push_text(&mut s, "?token=");
                }
                push_text(&mut s, t);
            }
        },
        None => {},
    }
    s
}

/// Whether `c` occurs in `s`.
fn has_char(s: &str, c: char) -> (r: bool)
    ensures
        r == s@.contains(c),
{
    let v = chars_of(s);
    let mut i: usize = 0;
    while i < v.len()
        invariant
            i <= v@.len(),
            v@ == s@,
            forall|j: int| 0 <= j < i ==> v@[j] != c,
        decreases v@.len() - i,
    {
        if v[i] == c {
            return true;
        }
        i = i + 1;
    }
    false
}

/// The GET request for `path` with `token`, to the engine on `port`.
pub fn request(port: u16, path: &str, token: Option<&str>) -> (s: String)
    ensures
        s@ == request_text(port, path@, optional_str(token)),
{
    let mut s = "GET ".to_string();
    push_text(&mut s, full_path(path, token).as_str());
    push_text(&mut s, " HTTP/1.1\r\nHost: 127.0.0.1:");
    push_text(&mut s, decimal_of(port).as_str());
    push_text(&mut s, "\r\nConnection: close\r\n\r\n");
    s
}

// ---------------------------------------------------------------------------------------------
// Replies
// ---------------------------------------------------------------------------------------------

/// A reply while it is being received.
pub struct ReplyBuffer {
    pub bytes: Vec<u8>,
    /// Whether a read failed.
    pub failed: bool,
}

/// What has been received of a reply.
#[verifier::ext_equal]
pub struct BufferState {
    pub bytes: Seq<u8>,
    pub failed: bool,
}

impl View for ReplyBuffer {
    type V = BufferState;

    open spec fn view(&self) -> BufferState {
        BufferState { bytes: self.bytes@, failed: self.failed }
    }
}

/// What an optional chunk of bytes holds.
pub open spec fn optional_bytes(read: Option<&[u8]>) -> Option<Seq<u8>> {
    match read {
        Some(chunk) => Some(chunk@),
        None => None,
    }
}

impl BufferState {
    /// Nothing received yet.
    pub open spec fn fresh() -> BufferState {
        BufferState { bytes: Seq::empty(), failed: false }
    }

    /// What has been received after one more read: `None` stands for a failed read.
    pub open spec fn after(self, read: Option<Seq<u8>>) -> BufferState {
        match read {
            Some(chunk) => BufferState { bytes: self.bytes + chunk, failed: self.failed },
            None => BufferState { bytes: self.bytes, failed: true },
        }
    }

    /// Whether to read on after that read: as long as no read failed, bytes came, and the budget
    /// is not used up.
    pub open spec fn reads_on(self, read: Option<Seq<u8>>) -> bool {
        &&& !self.after(read).failed
        &&& read matches Some(chunk) && chunk.len() > 0
        &&& self.after(read).bytes.len() < REPLY_BUDGET
    }

    /// The status and the bytes of the reply that was received.
    pub open spec fn received(self) -> Option<(u16, Seq<u8>)> {
        if self.failed {
            None
        } else {
            reply_in(self.bytes)
        }
    }

    /// What has been received once a series of reads has come to its end.
    pub open spec fn after_all(self, reads: Seq<Option<Seq<u8>>>) -> BufferState
        decreases reads.len(),
    {
        if reads.len() == 0 {
            self
        } else if self.reads_on(reads[0]) {
            self.after(reads[0]).after_all(reads.drop_first())
        } else {
            self.after(reads[0])
        }
    }
}

impl ReplyBuffer {
    /// Nothing received yet.
    pub fn new() -> (b: Self)
        ensures
            b@ == BufferState::fresh(),
    {
        let b = ReplyBuffer { bytes: Vec::new(), failed: false };
        assert(b@ =~= BufferState::fresh());
        b
    }

    /// Takes the outcome of one read: `None` for a failed read, no bytes at the end of the
    /// stream. Says whether to read on.
    pub fn feed(&mut self, read: Option<&[u8]>) -> (more: bool)
        ensures
            final(self)@ == old(self)@.after(optional_bytes(read)),
            more == old(self)@.reads_on(optional_bytes(read)),
    {
        match read {
            Some(chunk) => {
                self.bytes.extend_from_slice(chunk);
                assert(self.bytes@ =~= old(self).bytes@ + chunk@);
                !self.failed && chunk.len() > 0 && self.bytes.len() < REPLY_BUDGET
            },
            None => {
                self.failed = true;
                false
            },
        }
    }

    /// The reply that was received. There is none where a read failed, whatever had come before.
    pub fn reply(self) -> (r: Option<Reply>)
        ensures
            self@.failed ==> r is None,
            !self@.failed ==> match r {
                Some(reply) => status_in(text_in(self@.bytes)) == Some(reply.status)
                    && reply.body@ == self@.bytes,
                None => status_in(text_in(self@.bytes)) is None,
            },
            reply_state(r) == self@.received(),
    {
        if self.failed {
            None
        } else {
            http_reply(self.bytes)
        }
    }
}

/// A reply that carries a status. The body is everything that was received, head included.
pub struct Reply {
    pub status: u16,
    pub body: Vec<u8>,
}

/// What an optional reply holds: its status, and its bytes.
pub open spec fn reply_state(r: Option<Reply>) -> Option<(u16, Seq<u8>)> {
    match r {
        Some(reply) => Some((reply.status, reply.body@)),
        None => None,
    }
}

/// The status and the bytes of the reply that was received as `bytes`, if it carries a status.
pub open spec fn reply_in(bytes: Seq<u8>) -> Option<(u16, Seq<u8>)> {
    match status_in(text_in(bytes)) {
        Some(status) => Some((status, bytes)),
        None => None,
    }
}

/// The status in the text of a reply: its second word, read as a number.
pub open spec fn status_in(text: Seq<char>) -> Option<u16> {
    if words(text).len() >= 2 {
        parsed_u16(words(text)[1])
    } else {
        None
    }
}

/// The status in the text of a reply.
pub fn status_of_text(text: &str) -> (r: Option<u16>)
    ensures
        r == status_in(text@),
{
    let v = chars_of(text);
    match next_word(v.as_slice()) {
        Some((_, rest)) => match next_word(rest) {
            Some((w, _)) => {
                assert(words(text@)[1] == w@);
                parse_u16(w)
            },
            None => None,
        },
        None => None,
    }
}

/// The reply that was received as `bytes`, if it carries a status.
pub fn http_reply(bytes: Vec<u8>) -> (r: Option<Reply>)
    ensures
        match r {
            Some(reply) => status_in(text_in(bytes@)) == Some(reply.status) && reply.body@
                == bytes@,
            None => status_in(text_in(bytes@)) is None,
        },
        reply_state(r) == reply_in(bytes@),
{
    let text = text_of_bytes(bytes.as_slice());
    match status_of_text(text.as_str()) {
        Some(status) => Some(Reply { status, body: bytes }),
        None => None,
    }
}

/// Whether a server answered: openly, or by asking for authentication.
pub open spec fn answers(reply: Option<Reply>) -> bool {
    reply matches Some(r) && (r.status == 200 || r.status == 401)
}

/// Whether a server answered a probe.
pub fn server_up(reply: &Option<Reply>) -> (up: bool)
    ensures
        up == answers(*reply),
{
    match reply {
        Some(r) => r.status == 200 || r.status == 401,
        None => false,
    }
}

/// Whether a page is the engine's.
pub open spec fn dsh_text(text: Seq<char>) -> bool {
    contains(text, "__DSH_BOOT__"@) || contains(text, "DeepSeek Harness"@)
}

/// Whether the text of a page is the engine's.
pub fn text_looks_like_dsh(text: &str) -> (r: bool)
    ensures
        r == dsh_text(text@),
{
    let v = chars_of(text);
    let boot = chars_of("__DSH_BOOT__");
    let name = chars_of("DeepSeek Harness");
    has(v.as_slice(), boot.as_slice()) || has(v.as_slice(), name.as_slice())
}

/// Whether the bytes of a page are the engine's.
pub open spec fn dsh_bytes(body: Seq<u8>) -> bool {
    stands_in(body, "__DSH_BOOT__"@) || stands_in(body, "DeepSeek Harness"@)
}

/// Whether the bytes of a page are the engine's. Its text tells, and so do the bytes themselves.
pub fn looks_like_dsh(body: &[u8]) -> (r: bool)
    ensures
        r == dsh_text(text_in(body@)),
        r == dsh_bytes(body@),
{
    let text = text_of_bytes(body);
    proof {
        reveal_strlit("__DSH_BOOT__");
        reveal_strlit("DeepSeek Harness");
        assert(is_ascii_chars("__DSH_BOOT__"@));
        assert(is_ascii_chars("DeepSeek Harness"@));
        if valid_utf8(body@) {
            lemma_ascii_is_read_where_it_stands(body@, "__DSH_BOOT__"@);
            lemma_ascii_is_read_where_it_stands(body@, "DeepSeek Harness"@);
        }
    }
    text_looks_like_dsh(text.as_str())
}

/// More bytes before or after a page's never hide that it is the engine's.
pub proof fn law_more_bytes_hide_no_page(a: Seq<u8>, body: Seq<u8>, c: Seq<u8>)
    requires
        dsh_bytes(body),
    ensures
        dsh_bytes(a + body + c),
{
    if stands_in(body, "__DSH_BOOT__"@) {
        lemma_stands_in_more(a, body, c, "__DSH_BOOT__"@);
    } else {
        lemma_stands_in_more(a, body, c, "DeepSeek Harness"@);
    }
}

/// Whether the server that gave `reply` is an engine. One that asks for authentication is taken
/// for an engine whatever its page holds.
pub open spec fn dsh_reply(reply: Option<Reply>) -> bool {
    reply matches Some(r) && (r.status == 401 || (r.status == 200 && dsh_text(
        text_in(r.body@),
    )))
}

/// Whether the server that gave `reply` is an engine.
pub fn is_dsh(reply: &Option<Reply>) -> (r: bool)
    ensures
        r == dsh_reply(*reply),
        r == (reply matches Some(a) && (a.status == 401 || (a.status == 200 && dsh_bytes(
            a.body@,
        )))),
{
    match reply {
        Some(r) => r.status == 401 || (r.status == 200 && looks_like_dsh(r.body.as_slice())),
        None => false,
    }
}

// ---------------------------------------------------------------------------------------------
// Token exchange
// ---------------------------------------------------------------------------------------------

/// The token in a URL: what follows the first `token=`, up to the next `&` or the next `token=`.
/// An empty token counts as none.
pub open spec fn token_in(url: Seq<char>) -> Option<Seq<char>> {
    match after(url, "token="@) {
        Some(rest) => {
            let token = before(before(rest, "token="@), "&"@);
            if token.len() > 0 {
                Some(token)
            } else {
                None
            }
        },
        None => None,
    }
}

/// The token in a URL.
pub fn auth_token(token_url: &str) -> (r: Option<String>)
    ensures
        crate::text::optional(r) == token_in(token_url@),
{
    let url = chars_of(token_url);
    let mark = chars_of("token=");
    let amp = chars_of("&");
    match cut_after(url.as_slice(), mark.as_slice()) {
        Some(rest) => {
            let token = cut_before(cut_before(rest, mark.as_slice()), amp.as_slice());
            if token.len() > 0 {
                Some(string_of(token))
            } else {
                None
            }
        },
        None => None,
    }
}

/// Whether `c` becomes the ASCII character `l` in lower case. Besides the ASCII letters this
/// holds of the Kelvin sign, whose lower case is `k`.
pub open spec fn lowers_to(c: char, l: char) -> bool {
    ||| c == l && !('A' <= c <= 'Z')
    ||| 'A' <= c <= 'Z' && c as u32 + 32 == l as u32
    ||| c == '\u{212a}' && l == 'k'
}

/// Whether a line is a `Set-Cookie` header, in whatever case it is written: in lower case it
/// starts with the name.
pub open spec fn set_cookie_header(line: Seq<char>) -> bool {
    &&& line.len() >= "set-cookie:"@.len()
    &&& forall|i: int|
        0 <= i < "set-cookie:"@.len() ==> lowers_to(#[trigger] line[i], "set-cookie:"@[i])
}

/// Whether the name of a `Set-Cookie` header is spelt in ASCII.
pub open spec fn plainly_spelt(line: Seq<char>) -> bool {
    is_ascii_chars(line.take("set-cookie:"@.len() as int))
}

/// The `name=value` pair of a `Set-Cookie` header, without its attributes. A header whose name is
/// not spelt in ASCII has none.
pub open spec fn header_pair(line: Seq<char>) -> Seq<char> {
    if plainly_spelt(line) {
        trimmed(before(trimmed(line.skip("set-cookie:"@.len() as int)), ";"@))
    } else {
        Seq::empty()
    }
}

/// The `name=value` pair of the first `Set-Cookie` header among `ls`, if it is not empty.
pub open spec fn cookie_in(ls: Seq<Seq<char>>) -> Option<Seq<char>>
    decreases ls.len(),
{
    if ls.len() == 0 {
        None
    } else if set_cookie_header(ls[0]) {
        if header_pair(ls[0]).len() > 0 {
            Some(header_pair(ls[0]))
        } else {
            None
        }
    } else {
        cookie_in(ls.drop_first())
    }
}

/// Whether `c` becomes the ASCII character `l` in lower case.
pub fn is_lowered_to(c: char, l: char) -> (r: bool)
    ensures
        r == lowers_to(c, l),
{
    let u: u32 = c as u32;
    let v: u32 = l as u32;
    if 65 <= u && u <= 90 {
        u + 32 == v
    } else {
        c == l || (u == 0x212a && v == 107)
    }
}

/// Whether a line is a `Set-Cookie` header.
fn is_set_cookie_header(line: &[char]) -> (r: bool)
    ensures
        r == set_cookie_header(line@),
{
    let name = chars_of("set-cookie:");
    if line.len() < name.len() {
        return false;
    }
    let mut i: usize = 0;
    while i < name.len()
        invariant
            i <= name@.len(),
            name@ == "set-cookie:"@,
            name@.len() <= line@.len(),
            forall|j: int| 0 <= j < i ==> lowers_to(#[trigger] line@[j], name@[j]),
        decreases name@.len() - i,
    {
        if !is_lowered_to(line[i], name[i]) {
            assert(!lowers_to(line@[i as int], name@[i as int]));
            return false;
        }
        i = i + 1;
    }
    true
}

/// The `name=value` pair of the first `Set-Cookie` header in the text of a reply.
pub fn cookie_of_text(text: &str) -> (r: Option<String>)
    ensures
        crate::text::optional(r) == cookie_in(lines(text@)),
{
    let v = chars_of(text);
    let semicolon = chars_of(";");
    let name = chars_of("set-cookie:");
    let mut rest: &[char] = v.as_slice();
    while rest.len() > 0
        invariant
            cookie_in(lines(text@)) == cookie_in(lines(rest@)),
            semicolon@ == ";"@,
            name@ == "set-cookie:"@,
        decreases rest@.len(),
    {
        let (line, next) = next_line(rest);
        assert(lines(rest@)[0] == line@);
        assert(lines(rest@).drop_first() =~= lines(next@));
        if is_set_cookie_header(line) {
            if !is_ascii(slice_subrange(line, 0, name.len())) {
                return None;
            }
            let value = slice_subrange(line, name.len(), line.len());
            let pair = trim(cut_before(trim(value), semicolon.as_slice()));
            if pair.len() > 0 {
                return Some(string_of(pair));
            }
            return None;
        }
        rest = next;
    }
    None
}

/// The cookie that an exchange of the token in `url` yields: the exchange must have been
/// answered by a redirect that sets it.
pub open spec fn exchanged_cookie(url: Seq<char>, reply: Option<Reply>) -> Option<Seq<char>> {
    if token_in(url) is Some {
        match reply {
            Some(r) => if r.status == 303 {
                cookie_in(lines(text_in(r.body@)))
            } else {
                None
            },
            None => None,
        }
    } else {
        None
    }
}

/// The authentication cookie's `name=value`, out of the reply to the exchange of the token in
/// `token_url`.
pub fn fetch_auth_cookie_name_value(token_url: &str, reply: &Option<Reply>) -> (r: Option<String>)
    ensures
        crate::text::optional(r) == exchanged_cookie(token_url@, *reply),
{
    match auth_token(token_url) {
        Some(_) => match reply {
            Some(r) => {
                if r.status == 303 {
                    let text = text_of_bytes(r.body.as_slice());
                    cookie_of_text(text.as_str())
                } else {
                    None
                }
            },
            None => None,
        },
        None => None,
    }
}

// ---------------------------------------------------------------------------------------------
// Laws
// ---------------------------------------------------------------------------------------------

/// Whether a token can stand in a URL and be found again: it is not empty, and holds neither `&`
/// nor `token=`.
pub open spec fn plain_token(token: Seq<char>) -> bool {
    token.len() > 0 && !token.contains('&') && !contains(token, "token="@)
}

/// The token is found behind its mark, where the mark is set off by a `?` or a `&` from a path
/// that holds none.
proof fn lemma_token_is_found(path: Seq<char>, mark: char, token: Seq<char>)
    requires
        mark == '?' || mark == '&',
        !contains(path, "token="@),
        plain_token(token),
    ensures
        token_in(path + seq![mark] + "token="@ + token) == Some(token),
{
    reveal_strlit("token=");
    reveal_strlit("&");
    let pat = "token="@;
    let s = path + seq![mark] + pat + token;
    let n = path.len() as int + 1;
    assert(s.subrange(n, n + 6) =~= pat);
    assert forall|j: int| 0 <= j < n implies !occurs_at(s, pat, j) by {
        if occurs_at(s, pat, j) {
            if j + 6 < n {
                assert(path.subrange(j, j + 6) =~= s.subrange(j, j + 6));
                assert(occurs_at(path, pat, j));
            } else {
                assert(s.subrange(j, j + 6)[n - 1 - j] == mark);
            }
        }
    }
    crate::text::lemma_first_at(s, pat, n);
    assert(s.skip(n + 6) =~= token);
    assert forall|j: int| !occurs_at(token, "&"@, j) by {
        if occurs_at(token, "&"@, j) {
            assert(token.subrange(j, j + 1)[0] == '&');
            assert(token[j] == '&');
        }
    }
}

/// The request that is sent carries the token: it is the token in the path that is asked for.
pub proof fn law_request_carries_the_token(path: Seq<char>, token: Seq<char>)
    requires
        !contains(path, "token="@),
        plain_token(token),
    ensures
        token_in(path_with_token(path, Some(token))) == Some(token),
{
    reveal_strlit("&token=");
    reveal_strlit("?token=");
    reveal_strlit("token=");
    let mark = if path.contains('?') {
        '&'
    } else {
        '?'
    };
    assert(path_with_token(path, Some(token)) =~= path + seq![mark] + "token="@ + token);
    lemma_token_is_found(path, mark, token);
}

/// The URL that an engine on `port` announces for `token`.
pub open spec fn announced_url(port: u16, token: Seq<char>) -> Seq<char> {
    engine_url_text(port) + "/?token="@ + token
}

/// The token is found in the URL that the engine announces.
pub proof fn law_announced_token_is_found(port: u16, token: Seq<char>)
    requires
        plain_token(token),
    ensures
        token_in(announced_url(port, token)) == Some(token),
{
    reveal_strlit("/?token=");
    reveal_strlit("token=");
    reveal_strlit("http://127.0.0.1:");
    let path = engine_url_text(port) + seq!['/'];
    crate::text::lemma_decimal(port as nat);
    assert forall|j: int| !occurs_at(path, "token="@, j) by {
        if occurs_at(path, "token="@, j) {
            assert(path.subrange(j, j + 6)[5] == '=');
            assert(path[j + 5] == '=');
            let d = decimal(port as nat);
            if 17 <= j + 5 < 17 + d.len() {
                assert(digit(d[j + 5 - 17]));
            }
        }
    }
    assert(announced_url(port, token) =~= path + seq!['?'] + "token="@ + token);
    lemma_token_is_found(path, '?', token);
}

/// The status of a reply is the number behind the protocol version.
pub proof fn law_status_line_is_read(version: Seq<char>, status: u16, rest: Seq<char>)
    requires
        version.len() > 0,
        forall|i: int| 0 <= i < version.len() ==> !white_space(#[trigger] version[i]),
        rest.len() > 0 ==> white_space(rest[0]),
    ensures
        status_in(version + " "@ + decimal(status as nat) + rest) == Some(status),
{
    reveal_strlit(" ");
    let d = decimal(status as nat);
    crate::text::lemma_decimal(status as nat);
    let tail = " "@ + d + rest;
    let text = version + " "@ + d + rest;
    assert(text =~= version + tail);
    assert forall|i: int| 0 <= i < d.len() implies !white_space(#[trigger] d[i]) by {
        assert(digit(d[i]));
    }
    lemma_words_first(version, tail);
    assert(tail =~= seq![' '] + (d + rest));
    lemma_words_skip(seq![' '], d + rest);
    lemma_words_first(d, rest);
    assert(words(text)[1] == d);
    crate::text::law_decimal_reads_back(status);
}

proof fn lemma_words_first(word: Seq<char>, rest: Seq<char>)
    requires
        word.len() > 0,
        forall|i: int| 0 <= i < word.len() ==> !white_space(#[trigger] word[i]),
        rest.len() > 0 ==> white_space(rest[0]),
    ensures
        words(word + rest) == seq![word] + words(rest),
{
    let text = word + rest;
    assert(text[0] == word[0]);
    assert(crate::text::trimmed_start(text) == text);
    lemma_first_word(word, rest);
    assert(text.skip(word.len() as int) =~= rest);
}

proof fn lemma_words_skip(gap: Seq<char>, s: Seq<char>)
    requires
        forall|i: int| 0 <= i < gap.len() ==> white_space(#[trigger] gap[i]),
    ensures
        words(gap + s) == words(s),
{
    crate::text::lemma_trimmed_start_skips(gap, s);
}

proof fn lemma_first_word(word: Seq<char>, rest: Seq<char>)
    requires
        forall|i: int| 0 <= i < word.len() ==> !white_space(#[trigger] word[i]),
        rest.len() > 0 ==> white_space(rest[0]),
    ensures
        crate::text::first_word(word + rest) == word,
{
    crate::text::lemma_first_word_of(word, rest);
}

/// A head of a reply: lines that end with a carriage return and a line feed.
pub open spec fn head_text(headers: Seq<Seq<char>>) -> Seq<char>
    decreases headers.len(),
{
    if headers.len() == 0 {
        Seq::empty()
    } else {
        headers[0] + seq!['\r'] + newline() + head_text(headers.drop_first())
    }
}

proof fn lemma_lines_of_head(headers: Seq<Seq<char>>, rest: Seq<char>)
    requires
        forall|i: int| 0 <= i < headers.len() ==> !(#[trigger] headers[i]).contains('\n'),
    ensures
        lines(head_text(headers) + rest) == headers + lines(rest),
    decreases headers.len(),
{
    if headers.len() == 0 {
        assert(head_text(headers) + rest =~= rest);
        assert(headers + lines(rest) =~= lines(rest));
    } else {
        let line = headers[0] + seq!['\r'];
        let later = head_text(headers.drop_first()) + rest;
        assert(head_text(headers) + rest =~= line + newline() + later);
        assert(!line.contains('\n')) by {
            if line.contains('\n') {
                let k = choose|k: int| 0 <= k < line.len() && line[k] == '\n';
                assert(headers[0][k] == '\n');
                assert(headers[0].contains('\n'));
            }
        }
        crate::text::lemma_lines_first(line, later);
        assert(without_return(line) =~= headers[0]);
        assert forall|i: int| 0 <= i < headers.drop_first().len() implies !(
        #[trigger] headers.drop_first()[i]).contains('\n') by {
            assert(headers.drop_first()[i] == headers[i + 1]);
        }
        lemma_lines_of_head(headers.drop_first(), rest);
        assert(seq![headers[0]] + (headers.drop_first() + lines(rest)) =~= headers + lines(rest));
    }
}

proof fn lemma_cookie_of_first_header(ls: Seq<Seq<char>>, k: int)
    requires
        0 <= k < ls.len(),
        set_cookie_header(ls[k]),
        forall|j: int| 0 <= j < k ==> !set_cookie_header(#[trigger] ls[j]),
    ensures
        cookie_in(ls) == (if header_pair(ls[k]).len() > 0 {
            Some(header_pair(ls[k]))
        } else {
            None
        }),
    decreases k,
{
    if k > 0 {
        assert(!set_cookie_header(ls[0]));
        assert forall|j: int| 0 <= j < k - 1 implies !set_cookie_header(
            #[trigger] ls.drop_first()[j],
        ) by {
            assert(ls.drop_first()[j] == ls[j + 1]);
        }
        lemma_cookie_of_first_header(ls.drop_first(), k - 1);
    }
}

/// A `Set-Cookie` header line: its name in ASCII and in whatever case, white space if any, the pair, and the
/// attributes, which are set off by a semicolon.
pub open spec fn header_line(
    line: Seq<char>,
    name: Seq<char>,
    gap: Seq<char>,
    pair: Seq<char>,
    attributes: Seq<char>,
) -> bool {
    &&& line == name + gap + pair + attributes
    &&& name.len() == "set-cookie:"@.len()
    &&& set_cookie_header(name)
    &&& is_ascii_chars(name)
    &&& forall|i: int| 0 <= i < gap.len() ==> white_space(#[trigger] gap[i])
    &&& pair.len() > 0
    &&& !white_space(pair[0])
    &&& !white_space(pair.last())
    &&& !pair.contains(';')
    &&& attributes.len() > 0 ==> attributes[0] == ';'
}

/// The pair is read off a `Set-Cookie` header line.
pub proof fn law_header_line_is_read(
    line: Seq<char>,
    name: Seq<char>,
    gap: Seq<char>,
    pair: Seq<char>,
    attributes: Seq<char>,
)
    requires
        header_line(line, name, gap, pair, attributes),
    ensures
        set_cookie_header(line),
        header_pair(line) == pair,
{
    reveal_strlit("set-cookie:");
    reveal_strlit(";");
    let value = pair + attributes;
    let n = pair.len() as int;
    assert forall|i: int| 0 <= i < 11 implies lowers_to(#[trigger] line[i], "set-cookie:"@[i]) by {
        assert(line[i] == name[i]);
    }
    assert(line.take(11) =~= name);
    assert(line.skip(11) =~= gap + value);
    crate::text::lemma_trimmed_start_skips(gap, value);
    assert(trimmed(line.skip(11)) == crate::text::trimmed_end(value));
    let v = trimmed(line.skip(11));
    assert(value[n - 1] == pair.last());
    crate::text::lemma_trimmed_end_keeps(value, n - 1);
    if attributes.len() > 0 {
        assert(value[n] == ';');
        crate::text::lemma_trimmed_end_keeps(value, n);
    }
    assert forall|j: int| 0 <= j < n implies !occurs_at(v, ";"@, j) by {
        if occurs_at(v, ";"@, j) {
            assert(v.subrange(j, j + 1)[0] == pair[j]);
            assert(pair.contains(pair[j]));
        }
    }
    if attributes.len() > 0 {
        assert(v.subrange(n, n + 1) =~= ";"@);
        crate::text::lemma_first_at(v, ";"@, n);
        assert(v.take(n) =~= pair);
    } else {
        assert(v =~= pair);
        assert(!contains(v, ";"@));
    }
    crate::text::lemma_trimmed_already(pair);
}

/// The usual spelling of the header's name is one.
pub proof fn law_usual_spelling_is_a_header()
    ensures
        set_cookie_header("Set-Cookie:"@),
        set_cookie_header("set-cookie:"@),
        is_ascii_chars("Set-Cookie:"@),
        is_ascii_chars("set-cookie:"@),
        "Set-Cookie:"@.len() == "set-cookie:"@.len(),
{
    reveal_strlit("Set-Cookie:");
    reveal_strlit("set-cookie:");
}

/// Exchanging the token that the engine announced yields the cookie: where the reply is a
/// redirect whose head sets one, the result is the pair of the first `Set-Cookie` header.
pub proof fn law_exchange_yields_the_cookie(
    port: u16,
    token: Seq<char>,
    reply: Reply,
    headers: Seq<Seq<char>>,
    page: Seq<char>,
    k: int,
    name: Seq<char>,
    gap: Seq<char>,
    pair: Seq<char>,
    attributes: Seq<char>,
)
    requires
        plain_token(token),
        reply.status == 303,
        text_in(reply.body@) == head_text(headers) + page,
        forall|i: int| 0 <= i < headers.len() ==> !(#[trigger] headers[i]).contains('\n'),
        0 <= k < headers.len(),
        header_line(headers[k], name, gap, pair, attributes),
        forall|j: int| 0 <= j < k ==> !set_cookie_header(#[trigger] headers[j]),
    ensures
        exchanged_cookie(announced_url(port, token), Some(reply)) == Some(pair),
{
    law_announced_token_is_found(port, token);
    law_header_line_is_read(headers[k], name, gap, pair, attributes);
    lemma_lines_of_head(headers, page);
    let ls = headers + lines(page);
    assert forall|j: int| 0 <= j < k implies !set_cookie_header(#[trigger] ls[j]) by {
        assert(ls[j] == headers[j]);
    }
    lemma_cookie_of_first_header(ls, k);
}

/// All the chunks of a series of reads, one after the other.
pub open spec fn stream(reads: Seq<Option<Seq<u8>>>) -> Seq<u8>
    decreases reads.len(),
{
    if reads.len() == 0 {
        Seq::empty()
    } else {
        match reads.last() {
            Some(chunk) => stream(reads.drop_last()) + chunk,
            None => stream(reads.drop_last()),
        }
    }
}

proof fn lemma_stream_first(reads: Seq<Option<Seq<u8>>>)
    requires
        reads.len() > 0,
        reads[0] is Some,
    ensures
        stream(reads) == reads[0]->0 + stream(reads.drop_first()),
    decreases reads.len(),
{
    let rest = reads.drop_first();
    if rest.len() == 0 {
        assert(reads.last() == reads[0]);
        assert(stream(reads.drop_last()) =~= Seq::<u8>::empty());
        assert(stream(rest) =~= Seq::<u8>::empty());
        assert(stream(reads) =~= reads[0]->0 + stream(rest));
    } else {
        lemma_stream_first(reads.drop_last());
        assert(reads.drop_last().drop_first() =~= rest.drop_last());
        assert(rest.last() == reads.last());
        assert(stream(reads) =~= reads[0]->0 + stream(rest));
    }
}

proof fn lemma_reads_from(b: BufferState, reads: Seq<Option<Seq<u8>>>, k: int)
    requires
        !b.failed,
        0 <= k < reads.len(),
        forall|i: int| 0 <= i < k ==> (#[trigger] reads[i]) is Some && reads[i]->0.len() > 0,
        b.bytes.len() + stream(reads.take(k)).len() < REPLY_BUDGET,
        reads[k] matches Some(chunk) ==> chunk.len() == 0 || b.bytes.len() + stream(
            reads.take(k + 1),
        ).len() >= REPLY_BUDGET,
    ensures
        b.after_all(reads) == (BufferState {
            bytes: b.bytes + stream(reads.take(k + 1)),
            failed: reads[k] is None,
        }),
    decreases k,
{
    let upto = reads.take(k + 1);
    assert(upto.drop_last() =~= reads.take(k));
    if k == 0 {
        assert(reads.take(0) =~= Seq::empty());
        assert(b.after(reads[0]).bytes =~= b.bytes + stream(upto));
    } else {
        assert(reads[0] is Some && reads[0]->0.len() > 0);
        let next = b.after(reads[0]);
        let rest = reads.drop_first();
        assert(rest.take(k - 1) =~= reads.take(k).drop_first());
        assert(rest.take(k) =~= upto.drop_first());
        lemma_stream_first(reads.take(k));
        lemma_stream_first(upto);
        assert forall|i: int| 0 <= i < k - 1 implies (#[trigger] rest[i]) is Some
            && rest[i]->0.len() > 0 by {
            assert(rest[i] == reads[i + 1]);
        }
        assert(rest[k - 1] == reads[k]);
        lemma_reads_from(next, rest, k - 1);
        assert(next.bytes + stream(rest.take(k)) =~= b.bytes + stream(upto));
    }
}

/// What a series of reads leaves: the chunks in their order, up to the read that ends the
/// series. That is a failed read, and then there is no reply; or the end of the stream, and then
/// the whole stream is there; or the one that uses the budget up, and then the bytes stay below
/// the budget and one chunk more.
pub proof fn law_reads_are_kept_in_order(reads: Seq<Option<Seq<u8>>>, k: int)
    requires
        0 <= k < reads.len(),
        forall|i: int| 0 <= i < k ==> (#[trigger] reads[i]) is Some && reads[i]->0.len() > 0,
        stream(reads.take(k)).len() < REPLY_BUDGET,
        reads[k] matches Some(chunk) ==> chunk.len() == 0 || stream(reads.take(k + 1)).len()
            >= REPLY_BUDGET,
    ensures
        BufferState::fresh().after_all(reads).failed == (reads[k] is None),
        BufferState::fresh().after_all(reads).bytes == stream(reads.take(k + 1)),
        reads[k] matches Some(chunk) && chunk.len() == 0 ==> BufferState::fresh().after_all(
            reads,
        ).bytes == stream(reads.take(k)),
        (reads[k] matches Some(chunk) ==> chunk.len() <= READ_CHUNK)
            ==> BufferState::fresh().after_all(reads).bytes.len() < REPLY_BUDGET + READ_CHUNK,
{
    lemma_reads_from(BufferState::fresh(), reads, k);
    let upto = reads.take(k + 1);
    assert(upto.drop_last() =~= reads.take(k));
    assert(Seq::<u8>::empty() + stream(upto) =~= stream(upto));
    if let Some(chunk) = reads[k] {
        if chunk.len() == 0 {
            assert(stream(upto) =~= stream(reads.take(k)));
        }
    }
}

proof fn lemma_cookie_comes_from_a_line(ls: Seq<Seq<char>>) -> (k: int)
    requires
        cookie_in(ls) is Some,
    ensures
        0 <= k < ls.len(),
        set_cookie_header(ls[k]),
        cookie_in(ls) == Some(header_pair(ls[k])),
        header_pair(ls[k]).len() > 0,
    decreases ls.len(),
{
    if set_cookie_header(ls[0]) {
        0
    } else {
        lemma_cookie_comes_from_a_line(ls.drop_first()) + 1
    }
}

/// A cookie that an exchange yields is a single pair: it is not empty, holds no line feed and no
/// semicolon, and has no white space around it.
pub proof fn law_exchanged_cookie_is_a_single_pair(url: Seq<char>, reply: Option<Reply>)
    ensures
        exchanged_cookie(url, reply) matches Some(p) ==> p.len() > 0 && !p.contains('\n')
            && !p.contains(';') && trimmed(p) == p,
{
    if let Some(p) = exchanged_cookie(url, reply) {
        let text = text_in(reply->0.body@);
        let k = lemma_cookie_comes_from_a_line(lines(text));
        let line = lines(text)[k];
        crate::text::lemma_lines_hold_no_newline(text, k);
        reveal_strlit("set-cookie:");
        assert(plainly_spelt(line));
        let value = line.skip(11);
        reveal_strlit(";");
        assert(";"@ =~= seq![';']);
        let cut = before(trimmed(value), ";"@);
        crate::text::lemma_trimmed_ends(cut);
        crate::text::lemma_trimmed_already(p);
        if p.contains('\n') {
            crate::text::lemma_trimmed_holds(cut, '\n');
            crate::text::lemma_before_holds(trimmed(value), ";"@, '\n');
            crate::text::lemma_trimmed_holds(value, '\n');
            let i = choose|i: int| 0 <= i < value.len() && value[i] == '\n';
            assert(line[i + 11] == '\n');
        }
        if p.contains(';') {
            crate::text::lemma_trimmed_holds(cut, ';');
            crate::text::lemma_before_lacks(trimmed(value), ';');
        }
    }
}

/// Without a redirect, and without an answer, there is no cookie.
pub proof fn law_no_redirect_no_cookie(url: Seq<char>, reply: Option<Reply>)
    requires
        reply matches Some(r) ==> r.status != 303,
    ensures
        exchanged_cookie(url, reply) is None,
{
}

/// The addresses name the loopback host and the port, which is read back from behind the colon.
/// So the addresses of two ports differ.
pub proof fn law_addresses_name_the_port(port: u16, other: u16)
    ensures
        address_text(port).take(10) == "127.0.0.1:"@,
        parsed_u16(address_text(port).skip(10)) == Some(port),
        engine_url_text(port) == "http://"@ + address_text(port),
        port != other ==> engine_url_text(port) != engine_url_text(other),
{
    reveal_strlit("127.0.0.1:");
    reveal_strlit("http://127.0.0.1:");
    reveal_strlit("http://");
    crate::text::law_decimal_reads_back(port);
    crate::text::law_decimal_reads_back(other);
    let a = address_text(port);
    assert(a.take(10) =~= "127.0.0.1:"@);
    assert(a.skip(10) =~= decimal(port as nat));
    assert(engine_url_text(port) =~= "http://"@ + a);
    assert(engine_url_text(port).skip(17) =~= decimal(port as nat));
    assert(engine_url_text(other).skip(17) =~= decimal(other as nat));
}

/// The request, character by character: the path as it is given, the engine's port, and nothing
/// of its own but the fixed text. A token that is not empty is asked for as a part of the path's
/// query; an empty one is none.
pub proof fn law_request_asks_for_the_path(port: u16, path: Seq<char>, token: Seq<char>)
    ensures
        request_text(port, path, None).take(4) == "GET "@,
        request_text(port, path, None).subrange(4, 4 + path.len() as int) == path,
        exists|d: Seq<char>| #[trigger]
            parsed_u16(d) == Some(port) && request_text(port, path, None).skip(
                4 + path.len() as int,
            ) == " HTTP/1.1\r\nHost: 127.0.0.1:"@ + d + "\r\nConnection: close\r\n\r\n"@,
        token.len() > 0 && path.contains('?') ==> request_text(port, path, Some(token))
            == request_text(port, path + "&token="@ + token, None),
        token.len() > 0 && !path.contains('?') ==> request_text(port, path, Some(token))
            == request_text(port, path + "?token="@ + token, None),
        token.len() == 0 ==> request_text(port, path, Some(token)) == request_text(
            port,
            path,
            None,
        ),
{
    reveal_strlit("GET ");
    let d = decimal(port as nat);
    let n = path.len() as int;
    let s = request_text(port, path, None);
    crate::text::law_decimal_reads_back(port);
    assert(parsed_u16(d) == Some(port));
    assert(s.take(4) =~= "GET "@);
    assert(s.subrange(4, 4 + n) =~= path);
    assert(s.skip(4 + n) =~= " HTTP/1.1\r\nHost: 127.0.0.1:"@ + d
        + "\r\nConnection: close\r\n\r\n"@);
}

proof fn lemma_request_words(port: u16, asked: Seq<char>)
    requires
        asked.len() > 0,
        forall|i: int| 0 <= i < asked.len() ==> !white_space(#[trigger] asked[i]),
    ensures
        words(request_text(port, asked, None)).len() >= 2,
        words(request_text(port, asked, None))[0] == "GET"@,
        words(request_text(port, asked, None))[1] == asked,
{
    reveal_strlit("GET ");
    reveal_strlit("GET");
    reveal_strlit(" HTTP/1.1\r\nHost: 127.0.0.1:");
    let s = request_text(port, asked, None);
    let later = " HTTP/1.1\r\nHost: 127.0.0.1:"@ + decimal(port as nat)
        + "\r\nConnection: close\r\n\r\n"@;
    let rest = seq![' '] + asked + later;
    assert(later[0] == ' ');
    assert(Seq::<char>::empty() + "GET"@ + rest =~= s);
    law_words_stand_between_white_space(Seq::empty(), "GET"@, rest);
    law_words_stand_between_white_space(seq![' '], asked, later);
}

/// The request itself carries the token: its second word is the path with the whole token in its
/// query, and the token found in that word is the given one.
pub proof fn law_sent_request_carries_the_token(port: u16, path: Seq<char>, token: Seq<char>)
    requires
        !contains(path, "token="@),
        token.len() > 0,
        !token.contains('&'),
        !contains(token, "token="@),
        forall|i: int| 0 <= i < path.len() ==> !white_space(#[trigger] path[i]),
        forall|i: int| 0 <= i < token.len() ==> !white_space(#[trigger] token[i]),
    ensures
        words(request_text(port, path, Some(token))).len() >= 2,
        words(request_text(port, path, Some(token)))[0] == "GET"@,
        words(request_text(port, path, Some(token)))[1] == path + (if path.contains('?') {
            "&token="@
        } else {
            "?token="@
        }) + token,
        token_in(words(request_text(port, path, Some(token)))[1]) == Some(token),
{
    reveal_strlit("&token=");
    reveal_strlit("?token=");
    let mark = if path.contains('?') {
        "&token="@
    } else {
        "?token="@
    };
    let asked = path + mark + token;
    assert forall|i: int| 0 <= i < asked.len() implies !white_space(#[trigger] asked[i]) by {
        if i < path.len() {
            assert(asked[i] == path[i]);
        } else if i < path.len() + 7 {
            assert(asked[i] == mark[i - path.len()]);
        } else {
            assert(asked[i] == token[i - path.len() - 7]);
        }
    }
    law_request_asks_for_the_path(port, path, token);
    lemma_request_words(port, asked);
    law_request_carries_the_token(path, token);
}

/// The request without a token asks for the path alone.
pub proof fn law_sent_request_names_the_path(port: u16, path: Seq<char>)
    requires
        path.len() > 0,
        forall|i: int| 0 <= i < path.len() ==> !white_space(#[trigger] path[i]),
    ensures
        words(request_text(port, path, None)).len() >= 2,
        words(request_text(port, path, None))[0] == "GET"@,
        words(request_text(port, path, None))[1] == path,
{
    lemma_request_words(port, path);
}

/// The headers of a request for `path`, and the blank line behind them.
pub open spec fn request_lines(port: u16, path: Seq<char>) -> Seq<Seq<char>> {
    seq![
        "GET "@ + path + " HTTP/1.1"@,
        "Host: 127.0.0.1:"@ + decimal(port as nat),
        "Connection: close"@,
        Seq::empty(),
    ]
}

proof fn lemma_head_first(line: Seq<char>, later: Seq<Seq<char>>)
    ensures
        head_text(seq![line] + later) == line + (seq!['\r', '\n'] + head_text(later)),
{
    assert((seq![line] + later).drop_first() =~= later);
    assert(line + seq!['\r'] + newline() + head_text(later) =~= line + (seq!['\r', '\n']
        + head_text(later)));
}

proof fn lemma_head_of_request(a: Seq<char>, b: Seq<char>, c: Seq<char>)
    ensures
        head_text(seq![a, b, c, Seq::<char>::empty()]) == a + (seq!['\r', '\n'] + (b + (seq![
            '\r',
            '\n',
        ] + (c + seq!['\r', '\n', '\r', '\n'])))),
{
    let none = Seq::<char>::empty();
    let end = seq!['\r', '\n'];
    lemma_head_first(none, Seq::empty());
    assert(none + (end + head_text(Seq::<Seq<char>>::empty())) =~= end);
    assert(seq![none] + Seq::<Seq<char>>::empty() =~= seq![none]);
    lemma_head_first(c, seq![none]);
    assert(seq![c] + seq![none] =~= seq![c, none]);
    assert(end + end =~= seq!['\r', '\n', '\r', '\n']);
    lemma_head_first(b, seq![c, none]);
    assert(seq![b] + seq![c, none] =~= seq![b, c, none]);
    lemma_head_first(a, seq![b, c, none]);
    assert(seq![a] + seq![b, c, none] =~= seq![a, b, c, none]);
}

#[verifier::spinoff_prover]
proof fn lemma_request_is_a_head(port: u16, path: Seq<char>)
    ensures
        request_text(port, path, None) == head_text(request_lines(port, path)),
{
    let end = seq!['\r', '\n'];
    let two = seq!['\r', '\n', '\r', '\n'];
    let d = decimal(port as nat);
    let first = "GET "@ + path + " HTTP/1.1"@;
    let host = "Host: 127.0.0.1:"@ + d;
    let close = "Connection: close"@;
    lemma_head_of_request(first, host, close);
    assert(" HTTP/1.1\r\nHost: 127.0.0.1:"@ =~= " HTTP/1.1"@ + end + "Host: 127.0.0.1:"@) by {
        reveal_strlit(" HTTP/1.1\r\nHost: 127.0.0.1:");
        reveal_strlit(" HTTP/1.1");
        reveal_strlit("Host: 127.0.0.1:");
    }
    assert("\r\nConnection: close\r\n\r\n"@ =~= end + (close + two)) by {
        reveal_strlit("\r\nConnection: close\r\n\r\n");
        reveal_strlit("Connection: close");
    }
    let tail = end + (close + two);
    assert(request_text(port, path, None) == "GET "@ + path + (" HTTP/1.1"@ + end
        + "Host: 127.0.0.1:"@) + d + tail);
    assert("GET "@ + path + (" HTTP/1.1"@ + end + "Host: 127.0.0.1:"@) + d + tail =~= first + (end
        + (host + tail)));
}

/// The lines of a request: what is asked for, the host with its port, and that the connection is
/// to be closed; then a blank line.
pub proof fn law_lines_of_the_request(port: u16, path: Seq<char>)
    requires
        !path.contains('\n'),
    ensures
        lines(request_text(port, path, None)) == seq![
            "GET "@ + path + " HTTP/1.1"@,
            "Host: 127.0.0.1:"@ + decimal(port as nat),
            "Connection: close"@,
            Seq::empty(),
        ],
{
    let d = decimal(port as nat);
    let headers = request_lines(port, path);
    assert forall|i: int| 0 <= i < headers.len() implies !(#[trigger] headers[i]).contains(
        '\n',
    ) by {
        reveal_strlit("GET ");
        reveal_strlit(" HTTP/1.1");
        reveal_strlit("Host: 127.0.0.1:");
        reveal_strlit("Connection: close");
        crate::text::lemma_decimal(port as nat);
        if headers[i].contains('\n') {
            let k = choose|k: int| 0 <= k < headers[i].len() && headers[i][k] == '\n';
            if i == 0 {
                assert(4 <= k < 4 + path.len());
                assert(path[k - 4] == '\n');
            } else if i == 1 {
                assert(k >= 16);
                assert(digit(d[k - 16]));
            }
        }
    }
    let none = Seq::<char>::empty();
    lemma_request_is_a_head(port, path);
    lemma_lines_of_head(headers, none);
    assert(head_text(headers) + none =~= head_text(headers));
    assert(lines(none) =~= Seq::<Seq<char>>::empty());
    assert(headers + lines(none) =~= headers);
}

/// What has been received of a reply: chunks are added at the end, a failed read is remembered,
/// and reading goes on exactly while no read failed, bytes came, and fewer than 524288 are there.
pub proof fn law_reading_goes_on_below_the_budget(b: BufferState, chunk: Seq<u8>)
    ensures
        BufferState::fresh().bytes.len() == 0,
        !BufferState::fresh().failed,
        b.after(Some(chunk)).bytes == b.bytes + chunk,
        b.after(Some(chunk)).failed == b.failed,
        b.after(None).bytes == b.bytes,
        b.after(None).failed,
        b.reads_on(Some(chunk)) <==> !b.failed && chunk.len() > 0 && b.bytes.len() + chunk.len()
            < 524288,
        !b.reads_on(None),
{
}

/// A reply is whole or none: where a read failed there is none; otherwise it has all the bytes,
/// and its status is the number that stands second in their text.
pub proof fn law_reply_has_all_the_bytes(
    b: BufferState,
    front: Seq<char>,
    version: Seq<char>,
    gap: Seq<char>,
    word: Seq<char>,
    rest: Seq<char>,
)
    requires
        text_in(b.bytes) == front + version + gap + word + rest,
        forall|i: int| 0 <= i < front.len() ==> white_space(#[trigger] front[i]),
        forall|i: int| 0 <= i < version.len() ==> !white_space(#[trigger] version[i]),
        forall|i: int| 0 <= i < gap.len() ==> white_space(#[trigger] gap[i]),
        forall|i: int| 0 <= i < word.len() ==> !white_space(#[trigger] word[i]),
        version.len() > 0,
        gap.len() > 0,
        word.len() > 0,
        rest.len() > 0 ==> white_space(rest[0]),
    ensures
        b.failed ==> b.received() is None,
        !b.failed && parsed_u16(word) is None ==> b.received() is None,
        !b.failed && parsed_u16(word) is Some ==> b.received() == Some(
            (parsed_u16(word)->0, b.bytes),
        ),
{
    law_status_is_the_second_word(front, version, gap, word, rest);
}

/// The status of a reply is its second word, if that is a number; without a second word there is
/// none.
pub proof fn law_status_is_the_second_word(
    front: Seq<char>,
    version: Seq<char>,
    gap: Seq<char>,
    word: Seq<char>,
    rest: Seq<char>,
)
    requires
        forall|i: int| 0 <= i < front.len() ==> white_space(#[trigger] front[i]),
        forall|i: int| 0 <= i < version.len() ==> !white_space(#[trigger] version[i]),
        forall|i: int| 0 <= i < gap.len() ==> white_space(#[trigger] gap[i]),
        forall|i: int| 0 <= i < word.len() ==> !white_space(#[trigger] word[i]),
        version.len() > 0,
        gap.len() > 0,
        word.len() > 0,
        rest.len() > 0 ==> white_space(rest[0]),
    ensures
        status_in(front + version + gap + word + rest) == parsed_u16(word),
        status_in(front + version + gap) is None,
        status_in(front) is None,
{
    let tail = gap + word + rest;
    assert(tail[0] == gap[0]);
    assert(white_space(gap[0]));
    assert(front + version + tail =~= front + version + gap + word + rest);
    law_words_stand_between_white_space(front, version, tail);
    law_words_stand_between_white_space(gap, word, rest);
    law_words_stand_between_white_space(front, version, gap);
    assert(words(front + version + gap).len() == 1);
}

/// A server answers by the status 200 or 401, and by nothing else.
pub proof fn law_server_answers_200_or_401(reply: Option<Reply>)
    ensures
        answers(reply) <==> (reply matches Some(r) && (r.status == 200 || r.status == 401)),
{
}

/// Whether the characters of `mark` stand together somewhere in `page`.
pub open spec fn marked(page: Seq<u8>, mark: Seq<char>) -> bool {
    exists|i: int|
        0 <= i <= page.len() - mark.len() && #[trigger] page.subrange(i, i + mark.len())
            == encode_utf8(mark)
}

proof fn lemma_marked(page: Seq<u8>, mark: Seq<char>)
    requires
        is_ascii_chars(mark),
    ensures
        marked(page, mark) == stands_in(page, mark),
{
    vstd::utf8::is_ascii_chars_encode_utf8(mark);
    let n = mark.len() as int;
    assert forall|j: int| 0 <= j < n implies encode_utf8(mark)[j] as u32 == (
    #[trigger] mark[j]) as u32 by {
        let u = mark[j] as u32;
        assert('\0' <= mark[j] <= '\u{7f}');
        assert(encode_utf8(mark)[j] == mark[j] as u8);
    }
    if marked(page, mark) {
        let i = choose|i: int|
            0 <= i <= page.len() - mark.len() && #[trigger] page.subrange(i, i + mark.len())
                == encode_utf8(mark);
        assert forall|j: int| 0 <= j < n implies page[i + j] as u32 == (
        #[trigger] mark[j]) as u32 by {
            assert(page.subrange(i, i + mark.len())[j] == page[i + j]);
        }
        assert(stands_at(page, mark, i));
    }
    if stands_in(page, mark) {
        let i = choose|i: int| stands_at(page, mark, i);
        assert(page.subrange(i, i + mark.len()) =~= encode_utf8(mark)) by {
            assert forall|j: int| 0 <= j < n implies page[i + j] == encode_utf8(mark)[j] by {
                assert(mark[j] as u32 == encode_utf8(mark)[j] as u32);
            }
        }
        assert(0 <= i <= page.len() - mark.len());
    }
}

/// A page is the engine's exactly if one of two marks stands in it: its bytes hold those of
/// `__DSH_BOOT__` together, or those of `DeepSeek Harness`. Nothing else makes it the engine's.
pub proof fn law_page_is_known_by_its_marks(page: Seq<u8>)
    ensures
        marked(page, "__DSH_BOOT__"@) ==> dsh_bytes(page),
        marked(page, "DeepSeek Harness"@) ==> dsh_bytes(page),
        !marked(page, "__DSH_BOOT__"@) && !marked(page, "DeepSeek Harness"@) ==> !dsh_bytes(page),
{
    reveal_strlit("__DSH_BOOT__");
    reveal_strlit("DeepSeek Harness");
    lemma_marked(page, "__DSH_BOOT__"@);
    lemma_marked(page, "DeepSeek Harness"@);
}

/// Whether some stretch of `page` is `mark`.
pub open spec fn spelt_in(page: Seq<char>, mark: Seq<char>) -> bool {
    exists|i: int|
        0 <= i <= page.len() - mark.len() && #[trigger] page.subrange(i, i + mark.len()) == mark
}

/// The text of a page is the engine's exactly if a stretch of it is one of the two marks.
pub proof fn law_page_text_is_known_by_its_marks(page: Seq<char>)
    ensures
        dsh_text(page) <==> spelt_in(page, "__DSH_BOOT__"@) || spelt_in(page, "DeepSeek Harness"@),
{
    crate::text::law_contained_is_a_stretch(page, "__DSH_BOOT__"@);
    crate::text::law_contained_is_a_stretch(page, "DeepSeek Harness"@);
}

/// A server is an engine if it asks for authentication, or if its page is open and marked as the
/// engine's; every other answer, and none, is not an engine's.
pub proof fn law_engine_is_known_by_status_and_marks(reply: Option<Reply>)
    ensures
        reply is None ==> !dsh_reply(reply),
        reply matches Some(r) ==> {
            &&& r.status == 401 ==> dsh_reply(reply)
            &&& r.status != 401 && r.status != 200 ==> !dsh_reply(reply)
            &&& r.status == 200 && valid_utf8(r.body@) && (marked(r.body@, "__DSH_BOOT__"@)
                || marked(r.body@, "DeepSeek Harness"@)) ==> dsh_reply(reply)
            &&& r.status == 200 && valid_utf8(r.body@) && !marked(r.body@, "__DSH_BOOT__"@)
                && !marked(r.body@, "DeepSeek Harness"@) ==> !dsh_reply(reply)
            &&& r.status == 200 ==> (dsh_reply(reply) <==> contains(
                text_in(r.body@),
                "__DSH_BOOT__"@,
            ) || contains(text_in(r.body@), "DeepSeek Harness"@))
        },
{
    if let Some(r) = reply {
        reveal_strlit("__DSH_BOOT__");
        reveal_strlit("DeepSeek Harness");
        lemma_marked(r.body@, "__DSH_BOOT__"@);
        lemma_marked(r.body@, "DeepSeek Harness"@);
        if valid_utf8(r.body@) {
            lemma_ascii_is_read_where_it_stands(r.body@, "__DSH_BOOT__"@);
            lemma_ascii_is_read_where_it_stands(r.body@, "DeepSeek Harness"@);
        }
    }
}

/// A token is what stands behind the first `token=`, up to the next `&` or the next `token=`; an
/// empty one is none, and neither is there one without a mark.
pub proof fn law_token_is_cut_out(front: Seq<char>, token: Seq<char>, back: Seq<char>)
    requires
        forall|j: int|
            0 <= j < front.len() ==> #[trigger] (front + "token="@ + (token + back)).subrange(
                j,
                j + 6,
            ) != "token="@,
        !token.contains('&'),
        forall|j: int|
            0 <= j < token.len() ==> #[trigger] (token + back).subrange(j, j + 6) != "token="@,
        back.len() == 0 || back[0] == '&' || (back.len() >= 6 && back.take(6) == "token="@),
    ensures
        token.len() > 0 ==> token_in(front + "token="@ + (token + back)) == Some(token),
        token.len() == 0 ==> token_in(front + "token="@ + (token + back)) is None,
{
    reveal_strlit("token=");
    reveal_strlit("&");
    let pat = "token="@;
    let rest = token + back;
    let n = token.len() as int;
    law_cut_at_the_first(front, pat, rest);
    let cut = before(rest, pat);
    lemma_cut_keeps(token, back, pat);
    let more = cut.skip(n);
    assert(cut =~= token + more);
    assert forall|j: int| 0 <= j < n implies #[trigger] cut.subrange(j, j + 1) != "&"@ by {
        if cut.subrange(j, j + 1) == "&"@ {
            assert(cut.subrange(j, j + 1)[0] == token[j]);
            assert(token.contains(token[j]));
        }
    }
    if more.len() > 0 {
        assert(more[0] == back[0]);
        if back[0] != '&' {
            assert(rest.subrange(n, n + 6) =~= back.take(6));
            assert(occurs_at(rest, pat, n));
            crate::text::lemma_first_at_bound(rest, pat, n);
            assert(false);
        }
        assert(more =~= "&"@ + more.skip(1));
        assert(token + "&"@ + more.skip(1) =~= cut);
        law_cut_at_the_first(token, "&"@, more.skip(1));
    } else {
        assert(cut =~= token);
        law_nothing_is_cut(cut, "&"@);
    }
}

proof fn lemma_cut_keeps(token: Seq<char>, back: Seq<char>, pat: Seq<char>)
    requires
        forall|j: int|
            0 <= j < token.len() ==> #[trigger] (token + back).subrange(j, j + pat.len()) != pat,
    ensures
        before(token + back, pat).len() >= token.len(),
        before(token + back, pat).len() <= (token + back).len(),
        before(token + back, pat) == (token + back).take(before(token + back, pat).len() as int),
{
    let s = token + back;
    if contains(s, pat) {
        let i = choose|i: int| occurs_at(s, pat, i);
        let k = crate::text::lemma_first_exists(s, pat, i);
        crate::text::lemma_first_at(s, pat, k);
        if k < token.len() {
            assert(s.subrange(k, k + pat.len()) != pat);
        }
        assert(before(s, pat) =~= s.take(k));
    } else {
        assert(s.take(s.len() as int) =~= s);
    }
}

/// Without the mark there is no token.
pub proof fn law_no_mark_no_token(url: Seq<char>)
    requires
        forall|j: int|
            0 <= j <= url.len() - 6 ==> #[trigger] url.subrange(j, j + 6) != "token="@,
    ensures
        token_in(url) is None,
{
    reveal_strlit("token=");
    law_nothing_is_cut(url, "token="@);
}

/// A line is a `Set-Cookie` header exactly if its first eleven characters are those of the name,
/// each as a small or as a capital letter; the Kelvin sign passes for a K, but such a header has
/// no pair.
pub proof fn law_header_is_known_in_any_case(line: Seq<char>)
    ensures
        set_cookie_header(line) <==> line.len() >= 11 && forall|i: int|
            0 <= i < 11 ==> {
                ||| #[trigger] line[i] == "set-cookie:"@[i]
                ||| line[i] == "SET-COOKIE:"@[i]
                ||| i == 7 && line[i] == '\u{212a}'
            },
        line.len() >= 11 && line[7] == '\u{212a}' ==> header_pair(line).len() == 0,
{
    reveal_strlit("set-cookie:");
    reveal_strlit("SET-COOKIE:");
    if line.len() >= 11 {
        assert forall|i: int| 0 <= i < 11 implies (lowers_to(#[trigger] line[i], "set-cookie:"@[i])
            <==> {
            ||| line[i] == "set-cookie:"@[i]
            ||| line[i] == "SET-COOKIE:"@[i]
            ||| i == 7 && line[i] == '\u{212a}'
        }) by {
            let c = line[i];
            let u = c as u32;
            vstd::utf8::char_u32_cast(c, u);
        }
        if line[7] == '\u{212a}' {
            assert(line.take(11)[7] == line[7]);
            assert(!('\0' <= line.take(11)[7] <= '\u{7f}'));
        }
    }
}

/// The cookie that an exchange yields depends on the URL only by its having a token. It is the
/// pair of the first `Set-Cookie` header of a redirect, and none where that pair is empty; with
/// another status, without a header or without a reply there is none.
pub proof fn law_cookie_is_that_of_the_first_header(
    url: Seq<char>,
    reply: Reply,
    k: int,
)
    requires
        token_in(url) is Some,
    ensures
        exchanged_cookie(url, None) is None,
        reply.status != 303 ==> exchanged_cookie(url, Some(reply)) is None,
        reply.status == 303 && (forall|j: int|
            0 <= j < lines(text_in(reply.body@)).len() ==> !set_cookie_header(
                #[trigger] lines(text_in(reply.body@))[j],
            )) ==> exchanged_cookie(url, Some(reply)) is None,
        reply.status == 303 && 0 <= k < lines(text_in(reply.body@)).len() && set_cookie_header(
            lines(text_in(reply.body@))[k],
        ) && (forall|j: int|
            0 <= j < k ==> !set_cookie_header(#[trigger] lines(text_in(reply.body@))[j]))
            ==> exchanged_cookie(url, Some(reply)) == (if header_pair(
            lines(text_in(reply.body@))[k],
        ).len() > 0 {
            Some(header_pair(lines(text_in(reply.body@))[k]))
        } else {
            None
        }),
{
    let ls = lines(text_in(reply.body@));
    if reply.status == 303 {
        if forall|j: int| 0 <= j < ls.len() ==> !set_cookie_header(#[trigger] ls[j]) {
            if cookie_in(ls) is Some {
                let i = lemma_cookie_comes_from_a_line(ls);
            }
        }
        if 0 <= k < ls.len() && set_cookie_header(ls[k]) && (forall|j: int|
            0 <= j < k ==> !set_cookie_header(#[trigger] ls[j])) {
            lemma_cookie_of_first_header(ls, k);
        }
    }
}

/// Without a token there is nothing to exchange.
pub proof fn law_no_token_no_exchange(url: Seq<char>, reply: Option<Reply>)
    requires
        token_in(url) is None,
    ensures
        exchanged_cookie(url, reply) is None,
{
}

/// What is seen of a buffer, of an optional text and of a reply is what they hold.
pub proof fn law_replies_are_seen_as_they_are(b: ReplyBuffer, r: Reply, text: &str, chunk: &[u8])
    ensures
        b@.bytes == b.bytes@,
        b@.failed == b.failed,
        reply_state(Some(r)) == Some((r.status, r.body@)),
        reply_state(None) is None,
        optional_str(Some(text)) == Some(text@),
        optional_str(None) is None,
        optional_bytes(Some(chunk)) == Some(chunk@),
        optional_bytes(None) is None,
{
}

} // verus!
