//! Handing the authentication cookie to the page.
//!
//! The web view drops cookies that come with a redirect. So the token URL is loaded for its
//! origin only, the cookie is fetched apart from the web view, and a script writes it on that
//! origin; then the page is loaded once more.
use crate::http::{exchanged_cookie, law_exchanged_cookie_is_a_single_pair, Reply};
use crate::text::{chars_of, optional, push_text, string_of};
use vstd::prelude::*;

verus! {

/// How long the token URL has to be loaded before the cookie is written, in milliseconds.
pub const LOAD_SETTLE_MS: u64 = 3000;

/// How long to wait between writing the cookie and loading the page again, in milliseconds.
pub const COOKIE_SETTLE_MS: u64 = 700;

/// What stands for `c` in a script's string literal.
pub open spec fn escaped_char(c: char) -> Seq<char> {
    if c == '\\' || c == '\'' {
        seq!['\\', c]
    } else {
        seq![c]
    }
}

/// What stands for `s` in a script's string literal between single quotes.
pub open spec fn escaped(s: Seq<char>) -> Seq<char>
    decreases s.len(),
{
    if s.len() == 0 {
        Seq::empty()
    } else {
        escaped_char(s[0]) + escaped(s.drop_first())
    }
}

/// The script that writes the cookie `pair`.
pub open spec fn cookie_script_text(pair: Seq<char>) -> Seq<char> {
    "document.cookie = '"@ + escaped(pair) + "; path=/'; 'ok'"@
}

/// A step of the hand-over, once the token was exchanged.
pub enum AuthStep {
    /// Run a script on the page. The label is for the log.
    Run { label: String, script: String },
    /// Wait, for so many milliseconds.
    Wait { ms: u64 },
}

/// A step of the hand-over, with strings as sequences of characters.
pub enum AuthStepState {
    Run { label: Seq<char>, script: Seq<char> },
    Wait { ms: u64 },
}

impl View for AuthStep {
    type V = AuthStepState;

    open spec fn view(&self) -> AuthStepState {
        match self {
            AuthStep::Run { label, script } => AuthStepState::Run {
                label: label@,
                script: script@,
            },
            AuthStep::Wait { ms } => AuthStepState::Wait { ms: *ms },
        }
    }
}

/// The steps of the hand-over: nothing is done where the exchange gave no cookie.
pub open spec fn hand_over(cookie: Option<Seq<char>>) -> Seq<AuthStepState> {
    match cookie {
        Some(pair) => seq![
            AuthStepState::Run { label: "cookie-write"@, script: cookie_script_text(pair) },
            AuthStepState::Wait { ms: COOKIE_SETTLE_MS },
            AuthStepState::Run { label: "reload"@, script: "location.reload(); 'ok'"@ },
        ],
        None => Seq::empty(),
    }
}

/// What stands for `s` in a script's string literal between single quotes.
pub fn escape(s: &str) -> (r: String)
    ensures
        r@ == escaped(s@),
{
    let chars = chars_of(s);
    let mut out: Vec<char> = Vec::new();
    let mut i: usize = 0;
    assert(chars@.skip(0) =~= chars@);
    assert(out@ + escaped(chars@) =~= escaped(chars@));
    while i < chars.len()
        invariant
            i <= chars@.len(),
            chars@ == s@,
            out@ + escaped(chars@.skip(i as int)) == escaped(s@),
        decreases chars@.len() - i,
    {
        let c = chars[i];
        let ghost before = out@;
        let ghost rest = escaped(chars@.skip(i + 1));
        assert(chars@.skip(i as int).drop_first() =~= chars@.skip(i + 1));
        if c == '\\' || c == '\'' {
            out.push('\\');
        }
        out.push(c);
        assert(out@ + rest =~= before + (escaped_char(c) + rest));
        i = i + 1;
    }
    assert(out@ =~= escaped(s@));
    string_of(out.as_slice())
}

/// The script that writes the cookie `pair`.
pub fn cookie_script(pair: &str) -> (s: String)
    ensures
        s@ == cookie_script_text(pair@),
{
    let mut s = "document.cookie = '".to_string();
    push_text(&mut s, escape(pair).as_str());
    push_text(&mut s, "; path=/'; 'ok'");
    s
}

/// The steps of the hand-over of `cookie`.
pub fn auth_steps(cookie: &Option<String>) -> (steps: Vec<AuthStep>)
    ensures
        steps@.map_values(|s: AuthStep| s@) == hand_over(optional(*cookie)),
{
    let mut steps: Vec<AuthStep> = Vec::new();
    match cookie {
        Some(pair) => {
            steps.push(
                AuthStep::Run {
                    label: "cookie-write".to_string(),
                    script: cookie_script(pair.as_str()),
                },
            );
            steps.push(AuthStep::Wait { ms: COOKIE_SETTLE_MS });
            steps.push(
                AuthStep::Run {
                    label: "reload".to_string(),
                    script: "location.reload(); 'ok'".to_string(),
                },
            );
        },
        None => {},
    }
    assert(steps@.map_values(|s: AuthStep| s@) =~= hand_over(optional(*cookie)));
    steps
}

/// Reads a string literal from behind its opening single quote: its value, and what follows its
/// closing quote. A backslash stands for the character behind it, which is so of a backslash and
/// of a quote. A literal does not go on over the end of a line.
pub open spec fn literal(s: Seq<char>) -> Option<(Seq<char>, Seq<char>)>
    decreases s.len(),
{
    if s.len() == 0 || s[0] == '\n' || s[0] == '\r' {
        None
    } else if s[0] == '\'' {
        Some((Seq::empty(), s.skip(1)))
    } else if s[0] == '\\' {
        if s.len() >= 2 && (s[1] == '\\' || s[1] == '\'') {
            match literal(s.skip(2)) {
                Some((value, rest)) => Some((seq![s[1]] + value, rest)),
                None => None,
            }
        } else {
            None
        }
    } else {
        match literal(s.skip(1)) {
            Some((value, rest)) => Some((seq![s[0]] + value, rest)),
            None => None,
        }
    }
}

proof fn lemma_literal_of_escaped(s: Seq<char>, tail: Seq<char>)
    requires
        !s.contains('\n'),
        !s.contains('\r'),
    ensures
        literal(escaped(s) + tail) == match literal(tail) {
            Some((value, rest)) => Some((s + value, rest)),
            None => None,
        },
    decreases s.len(),
{
    if s.len() == 0 {
        assert(escaped(s) + tail =~= tail);
        if let Some((value, rest)) = literal(tail) {
            assert(s + value =~= value);
        }
    } else {
        let c = s[0];
        let t = s.drop_first();
        assert(s.contains(c));
        assert(!t.contains('\n') && !t.contains('\r')) by {
            assert forall|x: char| t.contains(x) implies s.contains(x) by {
                let k = choose|k: int| 0 <= k < t.len() && t[k] == x;
                assert(s[k + 1] == x);
            }
        }
        lemma_literal_of_escaped(t, tail);
        let whole = escaped(s) + tail;
        let inner = escaped(t) + tail;
        if c == '\\' || c == '\'' {
            assert(whole.skip(2) =~= inner);
        } else {
            assert(whole.skip(1) =~= inner);
        }
        if let Some((value, rest)) = literal(tail) {
            assert(seq![c] + (t + value) =~= s + value);
        }
    }
}

/// The script assigns the cookie exactly: whatever quotes and backslashes the pair holds, the
/// string literal in the script ends where the script closes it, and its value is the pair with
/// the path.
pub proof fn law_script_writes_the_cookie(pair: Seq<char>)
    requires
        !pair.contains('\n'),
        !pair.contains('\r'),
    ensures
        literal(cookie_script_text(pair).skip("document.cookie = '"@.len() as int)) == Some(
            (pair + "; path=/"@, "; 'ok'"@),
        ),
{
    let head = "document.cookie = '"@;
    let tail = "; path=/'; 'ok'"@;
    assert(cookie_script_text(pair).skip(head.len() as int) =~= escaped(pair) + tail);
    lemma_literal_of_escaped(pair, tail);
    reveal_strlit("; path=/'; 'ok'");
    reveal_strlit("; path=/");
    reveal_strlit("; 'ok'");
    let value = "; path=/"@;
    let rest = "; 'ok'"@;
    assert(!value.contains('\n') && !value.contains('\r'));
    let closing = seq!['\''] + rest;
    reveal_with_fuel(escaped, 9);
    assert(escaped(value) =~= value);
    assert(tail =~= escaped(value) + closing);
    lemma_literal_of_escaped(value, closing);
    assert(closing.skip(1) =~= rest);
    assert(literal(closing) == Some((Seq::<char>::empty(), rest)));
    assert(value + Seq::<char>::empty() =~= value);
}

/// A cookie that an exchange yields is assigned exactly, as long as no carriage return stands
/// within it.
pub proof fn law_exchanged_cookie_is_written(url: Seq<char>, reply: Option<Reply>)
    requires
        exchanged_cookie(url, reply) is Some,
        !exchanged_cookie(url, reply)->0.contains('\r'),
    ensures
        literal(
            cookie_script_text(exchanged_cookie(url, reply)->0).skip(
                "document.cookie = '"@.len() as int,
            ),
        ) == Some((exchanged_cookie(url, reply)->0 + "; path=/"@, "; 'ok'"@)),
{
    law_exchanged_cookie_is_a_single_pair(url, reply);
    law_script_writes_the_cookie(exchanged_cookie(url, reply)->0);
}

/// Escaping goes character by character: a backslash is put before a backslash and before a
/// single quote, and every other character stands for itself.
pub proof fn law_escaping_goes_character_by_character(a: Seq<char>, b: Seq<char>, c: char)
    ensures
        escaped(a + b) == escaped(a) + escaped(b),
        escaped(Seq::empty()) == Seq::<char>::empty(),
        c == '\\' || c == '\'' ==> escaped(seq![c]) == seq!['\\', c],
        c != '\\' && c != '\'' ==> escaped(seq![c]) == seq![c],
    decreases a.len(),
{
    let one = seq![c];
    assert(escaped(one.drop_first()) =~= Seq::<char>::empty());
    assert(escaped(one) =~= escaped_char(c));
    if a.len() == 0 {
        assert(a + b =~= b);
        assert(escaped(a) + escaped(b) =~= escaped(b));
    } else {
        law_escaping_goes_character_by_character(a.drop_first(), b, c);
        assert((a + b).drop_first() =~= a.drop_first() + b);
        assert(escaped(a + b) =~= escaped(a) + escaped(b));
    }
}

/// The script assigns to the page's cookie first: it is an assignment of a string literal, which
/// holds the whole escaped pair.
pub proof fn law_script_is_an_assignment_of_the_pair(pair: Seq<char>)
    ensures
        cookie_script_text(pair).take(19) == "document.cookie = '"@,
        cookie_script_text(pair).len() == 34 + escaped(pair).len(),
        cookie_script_text(pair).subrange(19, 19 + escaped(pair).len() as int) == escaped(pair),
        cookie_script_text(pair).skip(19 + escaped(pair).len() as int) == "; path=/'; 'ok'"@,
{
    reveal_strlit("document.cookie = '");
    reveal_strlit("; path=/'; 'ok'");
    let s = cookie_script_text(pair);
    let e = escaped(pair);
    assert(s.take(19) =~= "document.cookie = '"@);
    assert(s.subrange(19, 19 + e.len() as int) =~= e);
    assert(s.skip(19 + e.len() as int) =~= "; path=/'; 'ok'"@);
}

/// Without a cookie nothing is done. With one, a script writes it; then comes a pause; and only
/// then the page is loaded once more.
pub proof fn law_cookie_is_written_before_the_page_is_loaded(pair: Seq<char>)
    ensures
        hand_over(None).len() == 0,
        hand_over(Some(pair)).len() == 3,
        hand_over(Some(pair))[0] matches AuthStepState::Run { label, script } && script
            == cookie_script_text(pair) && label == "cookie-write"@,
        hand_over(Some(pair))[1] == (AuthStepState::Wait { ms: 700 }),
        hand_over(Some(pair))[2] matches AuthStepState::Run { label, script } && script
            == "location.reload(); 'ok'"@ && label == "reload"@,
{
}

/// What is seen of a step is what it does.
pub proof fn law_auth_steps_are_seen_as_they_are(step: AuthStep)
    ensures
        step matches AuthStep::Run { label, script } ==> step@ == (AuthStepState::Run {
            label: label@,
            script: script@,
        }),
        step matches AuthStep::Wait { ms } ==> step@ == (AuthStepState::Wait { ms }),
{
}

} // verus!
