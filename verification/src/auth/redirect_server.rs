//! The local server that a browser is sent back to after signing in or out.

use crate::content::text_bytes;
use crate::digest::{blake3_hash, FileHash};
use crate::text::{chars_of, has_at, joined, occurs_at};
use vstd::prelude::*;
use vstd::string::*;
use vstd::utf8::*;

verus! {

/// How a character stands in HTML text.
pub open spec fn html_char(c: char) -> Seq<char> {
    if c == '&' {
        "&amp;"@
    } else if c == '<' {
        "&lt;"@
    } else if c == '>' {
        "&gt;"@
    } else {
        seq![c]
    }
}

/// How a text stands in HTML.
pub open spec fn html_text(text: Seq<char>) -> Seq<char>
    decreases text.len(),
{
    if text.len() == 0 {
        Seq::empty()
    } else {
        html_text(text.drop_last()) + html_char(text.last())
    }
}

/// `html_escape::encode_text`: every ampersand and angle bracket is replaced by its entity.
#[verifier::external_body]
fn encode_text(text: &str) -> (r: String)
    ensures
        r@ == html_text(text@),
{
    html_escape::encode_text(text).into_owned()
}

/// The text with each occurrence of `from` replaced by `to`, from the left.
pub open spec fn replaced(text: Seq<char>, from: Seq<char>, to: Seq<char>) -> Seq<char>
    decreases text.len(),
{
    if text.len() == 0 || from.len() == 0 {
        text
    } else if occurs_at(text, from, 0) {
        to + replaced(text.skip(from.len() as int), from, to)
    } else {
        seq![text[0]] + replaced(text.skip(1), from, to)
    }
}

/// The text with each occurrence of `from` replaced by `to`, from the left.
fn with_text_replaced(text: &str, from: &str, to: &str) -> (r: String)
    requires
        from@.len() > 0,
    ensures
        r@ == replaced(text@, from@, to@),
{
    let v = chars_of(text);
    let f = chars_of(from);
    let mut out = String::new();
    let mut i: usize = 0;
    assert(v@.skip(0) == text@);
    assert(out@ + replaced(text@, from@, to@) == replaced(text@, from@, to@));
    while i < v.len()
        invariant
            v@ == text@,
            f@ == from@,
            f.len() > 0,
            i <= v.len(),
            out@ + replaced(v@.skip(i as int), from@, to@) == replaced(text@, from@, to@),
        decreases v.len() - i,
    {
        let ghost rest = v@.skip(i as int);
        let ghost before = out@;
        let found = has_at(&v, &f, i);
        proof {
            if i + f.len() <= v.len() {
                assert(v@.subrange(i as int, i + f.len()) == rest.subrange(0, f.len() as int));
            }
            assert(found == occurs_at(rest, from@, 0));
        }
        if found {
            out.append(to);
            i = i + f.len();
            assert(rest.skip(f.len() as int) == v@.skip(i as int));
            assert(out@ + replaced(v@.skip(i as int), from@, to@) == before + (to@ + replaced(
                v@.skip(i as int),
                from@,
                to@,
            )));
        } else {
            out.push(v[i]);
            assert(rest[0] == v@[i as int]);
            assert(rest.skip(1) == v@.skip(i + 1));
            assert(out@ + replaced(v@.skip(i + 1), from@, to@) == before + (seq![rest[0]]
                + replaced(v@.skip(i + 1), from@, to@)));
            i = i + 1;
        }
    }
    assert(v@.skip(i as int) == Seq::<char>::empty());
    assert(out@ == replaced(text@, from@, to@));
    out
}

/// The page for a header and a body: both are put into the template, as HTML text.
pub open spec fn page(template: Seq<char>, header: Seq<char>, body: Seq<char>) -> Seq<char> {
    replaced(
        replaced(template, "{{HEADER}}"@, html_text(header)),
        "{{BODY}}"@,
        html_text(body),
    )
}

/// Answers the browser when it comes back from signing in or out.
#[derive(Clone, Copy, Debug)]
pub struct RedirectServer;

impl RedirectServer {
    /// The page for a header and a body.
    pub fn html(template: &str, header: &str, body: &str) -> (r: String)
        ensures
            r@ == page(template@, header@, body@),
    {
        proof {
            reveal_strlit("{{HEADER}}");
            reveal_strlit("{{BODY}}");
        }
        let header = encode_text(header);
        let body = encode_text(body);
        let half = with_text_replaced(template, "{{HEADER}}", header.as_str());
        with_text_replaced(half.as_str(), "{{BODY}}", body.as_str())
    }

    /// A browser came back from signing in.
    pub fn login<T>(params: RedirectParams, pending: &mut PendingAuths<T>) -> (r: Reply<T>)
        ensures
            final(pending)@ == still_waiting(old(pending)@, params),
            is_login_reply(old(pending)@, params, r),
    {
        let state = match params.state {
            Some(state) => state,
            None => {
                return Self::html_error(
                    "Login",
                    "The state query parameter is required to authenticate",
                    None,
                );
            },
        };
        let waiter = match pending.remove(state.as_str()) {
            Some(waiter) => waiter,
            None => {
                return Self::html_error(
                    "Login",
                    "Backstitch isn't waiting for us to authenticate with the provided state!",
                    None,
                );
            },
        };
        match params.error {
            Some(error) => {
                let body = error.clone();
                Self::html_error(
                    "Login",
                    body.as_str(),
                    Some((waiter, Err(RedirectServerError::AuthFailure(error)))),
                )
            },
            None => match params.code {
                Some(code) => Reply {
                    header: "Login Successful".to_owned(),
                    body: "You may now close this tab.".to_owned(),
                    answer: Some((waiter, Ok(AuthResult::Login(code)))),
                },
                None => Self::html_error(
                    "Login",
                    "No authorization code was received!",
                    Some((waiter, Err(RedirectServerError::NoAuthorizationCode))),
                ),
            },
        }
    }

    /// A browser came back from signing out.
    pub fn logged_out<T>(params: RedirectParams, pending: &mut PendingAuths<T>) -> (r: Reply<T>)
        ensures
            final(pending)@ == still_waiting(old(pending)@, params),
            is_logout_reply(old(pending)@, params, r),
    {
        let state = match params.state {
            Some(state) => state,
            None => {
                return Self::html_error("Logout", "The state query parameter is required to logout", None);
            },
        };
        let waiter = match pending.remove(state.as_str()) {
            Some(waiter) => waiter,
            None => {
                return Self::html_error(
                    "Logout",
                    "Backstitch isn't waiting for us to logout with the provided state!",
                    None,
                );
            },
        };
        match params.error {
            Some(error) => {
                let body = error.clone();
                Self::html_error(
                    "Logout",
                    body.as_str(),
                    Some((waiter, Err(RedirectServerError::AuthFailure(error)))),
                )
            },
            None => Reply {
                header: "Logout Successful".to_owned(),
                body: "You may now close this tab.".to_owned(),
                answer: Some((waiter, Ok(AuthResult::Logout))),
            },
        }
    }

    fn html_error<T>(
        task: &str,
        message: &str,
        answer: Option<(T, Result<AuthResult, RedirectServerError>)>,
    ) -> (r: Reply<T>)
        ensures
            r.answer == answer,
            r.body@ == message@,
            task@ == "Login"@ ==> r.header@ == "Login Error:"@,
            task@ == "Logout"@ ==> r.header@ == "Logout Error:"@,
    {
        proof {
            reveal_strlit("Login");
            reveal_strlit("Logout");
            reveal_strlit(" Error:");
            reveal_strlit("Login Error:");
            reveal_strlit("Logout Error:");
            assert("Login"@ + " Error:"@ == "Login Error:"@);
            assert("Logout"@ + " Error:"@ == "Logout Error:"@);
        }
        Reply { header: joined(task, " Error:"), body: message.to_owned(), answer }
    }

    /// What someone who waited for a sign-in gets of the answer. An answer that never came, because
    /// the browser's page is gone, is `None`.
    pub fn wait_for_login(answer: Option<Result<AuthResult, RedirectServerError>>) -> (r: Result<
        String,
        RedirectServerError,
    >)
        ensures
            match answer {
                None => r == Err::<String, _>(RedirectServerError::Recv),
                Some(Err(e)) => r == Err::<String, _>(e),
                Some(Ok(AuthResult::Login(code))) => r == Ok::<String, RedirectServerError>(code),
                Some(Ok(AuthResult::Logout)) => r matches Err(RedirectServerError::AuthFailure(e))
                    && e@ == "wrong type of authorization (logout)"@,
            },
    {
        match answer {
            None => Err(RedirectServerError::Recv),
            Some(Err(e)) => Err(e),
            Some(Ok(AuthResult::Login(code))) => Ok(code),
            Some(Ok(AuthResult::Logout)) => Err(
                RedirectServerError::AuthFailure("wrong type of authorization (logout)".to_owned()),
            ),
        }
    }

    /// What someone who waited for a sign-out gets of the answer.
    pub fn wait_for_logout(answer: Option<Result<AuthResult, RedirectServerError>>) -> (r: Result<
        (),
        RedirectServerError,
    >)
        ensures
            match answer {
                None => r == Err::<(), _>(RedirectServerError::Recv),
                Some(Err(e)) => r == Err::<(), _>(e),
                Some(Ok(AuthResult::Logout)) => r is Ok,
                Some(Ok(AuthResult::Login(_))) => r matches Err(RedirectServerError::AuthFailure(e))
                    && e@ == "wrong type of authorization (logout)"@,
            },
    {
        match answer {
            None => Err(RedirectServerError::Recv),
            Some(Err(e)) => Err(e),
            Some(Ok(AuthResult::Logout)) => Ok(()),
            Some(Ok(AuthResult::Login(_))) => Err(
                RedirectServerError::AuthFailure("wrong type of authorization (logout)".to_owned()),
            ),
        }
    }
}

/// What a browser brings back.
#[derive(Debug)]
pub struct RedirectParams {
    pub code: Option<String>,
    pub state: Option<String>,
    pub error: Option<String>,
}

/// What a sign-in or sign-out came to.
#[derive(Debug)]
pub enum AuthResult {
    /// With the authorization code.
    Login(String),
    Logout,
}

/// Why waiting for a browser failed.
#[derive(Debug)]
pub enum RedirectServerError {
    /// The answer can no longer come.
    Recv,
    AuthFailure(String),
    NoAuthorizationCode,
    Io(String),
}

impl RedirectServerError {
    /// The error as the user reads it.
    pub open spec fn text(self) -> Seq<char> {
        match self {
            RedirectServerError::Recv => "channel closed"@,
            RedirectServerError::AuthFailure(e) => "an error occurred while authenticating: "@ + e@,
            RedirectServerError::NoAuthorizationCode =>
                "no authorization code was received during authentication"@,
            RedirectServerError::Io(e) => e@,
        }
    }

    /// The error as the user reads it.
    pub fn to_text(&self) -> (r: String)
        ensures
            r@ == self.text(),
    {
        match self {
            RedirectServerError::Recv => "channel closed".to_owned(),
            RedirectServerError::AuthFailure(e) => joined(
                "an error occurred while authenticating: ",
                e.as_str(),
            ),
            RedirectServerError::NoAuthorizationCode =>
                "no authorization code was received during authentication".to_owned(),
            RedirectServerError::Io(e) => e.clone(),
        }
    }
}

/// The hash under which a token is kept.
pub open spec fn token_hash(token: Seq<char>) -> Seq<u8> {
    blake3_hash(encode_utf8(token))
}

fn hash_of_token(token: &str) -> (r: FileHash)
    ensures
        r@ == token_hash(token@),
{
    let bytes = text_bytes(token);
    FileHash::of(bytes.as_slice())
}

/// Those who wait for a browser to come back, each under the hash of the token that the browser
/// will bring.
pub struct PendingAuths<T> {
    waiters: Vec<(FileHash, T)>,
}

/// The hashes and waiters.
pub open spec fn waiting<T>(waiters: Seq<(FileHash, T)>) -> Map<Seq<u8>, T>
    decreases waiters.len(),
{
    if waiters.len() == 0 {
        Map::empty()
    } else {
        waiting(waiters.drop_last()).insert(waiters.last().0@, waiters.last().1)
    }
}

/// No hash occurs twice.
pub open spec fn distinct_hashes<T>(waiters: Seq<(FileHash, T)>) -> bool {
    forall|i: int, j: int|
        0 <= i < j < waiters.len() ==> (#[trigger] waiters[i]).0@ != (#[trigger] waiters[j]).0@
}

proof fn lemma_waiting<T>(waiters: Seq<(FileHash, T)>)
    requires
        distinct_hashes(waiters),
    ensures
        forall|i: int|
            0 <= i < waiters.len() ==> waiting(waiters).dom().contains((#[trigger] waiters[i]).0@)
                && waiting(waiters)[waiters[i].0@] == waiters[i].1,
        forall|h: Seq<u8>| #[trigger]
            waiting(waiters).dom().contains(h) ==> exists|i: int|
                0 <= i < waiters.len() && (#[trigger] waiters[i]).0@ == h,
    decreases waiters.len(),
{
    if waiters.len() > 0 {
        let front = waiters.drop_last();
        lemma_waiting(front);
        let n = waiters.len() - 1;
        assert forall|i: int| 0 <= i < waiters.len() implies waiting(waiters).dom().contains(
            (#[trigger] waiters[i]).0@,
        ) && waiting(waiters)[waiters[i].0@] == waiters[i].1 by {
            if i < n {
                assert(front[i] == waiters[i]);
                assert(waiters[i].0@ != waiters[n].0@);
            }
        }
        assert forall|h: Seq<u8>| #[trigger] waiting(waiters).dom().contains(h) implies exists|
            i: int,
        |
            0 <= i < waiters.len() && (#[trigger] waiters[i]).0@ == h by {
            if h == waiters[n].0@ {
            } else {
                assert(waiting(front).dom().contains(h));
                let i = choose|i: int| 0 <= i < front.len() && (#[trigger] front[i]).0@ == h;
                assert(waiters[i].0@ == h);
            }
        }
    }
}

proof fn lemma_same_waiting<T>(a: Seq<(FileHash, T)>, b: Seq<(FileHash, T)>, h: Seq<u8>, i: int)
    requires
        distinct_hashes(a),
        0 <= i < a.len(),
        a[i].0@ == h,
        b == a.remove(i),
    ensures
        distinct_hashes(b),
        waiting(b) == waiting(a).remove(h),
{
    assert forall|x: int, y: int| 0 <= x < y < b.len() implies (#[trigger] b[x]).0@ != (
    #[trigger] b[y]).0@ by {
        let p = if x < i { x } else { x + 1 };
        let q = if y < i { y } else { y + 1 };
        assert(b[x] == a[p] && b[y] == a[q]);
    }
    lemma_waiting(a);
    lemma_waiting(b);
    let m = waiting(a).remove(h);
    assert forall|k: Seq<u8>| #[trigger] waiting(b).dom().contains(k) == m.dom().contains(k) by {
        if waiting(b).dom().contains(k) {
            let x = choose|x: int| 0 <= x < b.len() && (#[trigger] b[x]).0@ == k;
            let p = if x < i { x } else { x + 1 };
            assert(a[p] == b[x]);
            if p < i {
                assert(a[p].0@ != a[i].0@);
            } else {
                assert(a[i].0@ != a[p].0@);
            }
        }
        if m.dom().contains(k) {
            let p = choose|p: int| 0 <= p < a.len() && (#[trigger] a[p]).0@ == k;
            let x = if p < i { p } else { p - 1 };
            assert(b[x] == a[p]);
        }
    }
    assert forall|k: Seq<u8>| #[trigger] waiting(b).dom().contains(k) implies waiting(b)[k]
        == m[k] by {
        let x = choose|x: int| 0 <= x < b.len() && (#[trigger] b[x]).0@ == k;
        let p = if x < i { x } else { x + 1 };
        assert(a[p] == b[x]);
        assert(waiting(b)[b[x].0@] == b[x].1);
        assert(waiting(a)[a[p].0@] == a[p].1);
    }
    assert(waiting(b) =~= m);
}

impl<T> View for PendingAuths<T> {
    type V = Map<Seq<u8>, T>;

    closed spec fn view(&self) -> Map<Seq<u8>, T> {
        waiting(self.waiters@)
    }
}

impl<T> PendingAuths<T> {
    #[verifier::type_invariant]
    spec fn inv(&self) -> bool {
        distinct_hashes(self.waiters@)
    }

    pub fn new() -> (r: Self)
        ensures
            r@ == Map::<Seq<u8>, T>::empty(),
    {
        PendingAuths { waiters: Vec::new() }
    }

    /// The place of a hash.
    fn find(&self, hash: &FileHash) -> (r: Option<usize>)
        ensures
            match r {
                Some(i) => i < self.waiters.len() && self.waiters@[i as int].0@ == hash@
                    && self@.dom().contains(hash@) && self@[hash@] == self.waiters@[i as int].1,
                None => !self@.dom().contains(hash@),
            },
    {
        proof {
            use_type_invariant(self);
            lemma_waiting(self.waiters@);
        }
        let mut i: usize = 0;
        while i < self.waiters.len()
            invariant
                i <= self.waiters.len(),
                distinct_hashes(self.waiters@),
                self@ == waiting(self.waiters@),
                forall|j: int|
                    0 <= j < self.waiters.len() ==> waiting(self.waiters@).dom().contains(
                        (#[trigger] self.waiters@[j]).0@,
                    ) && waiting(self.waiters@)[self.waiters@[j].0@] == self.waiters@[j].1,
                forall|j: int| 0 <= j < i ==> (#[trigger] self.waiters@[j]).0@ != hash@,
            decreases self.waiters.len() - i,
        {
            if self.waiters[i].0.same(hash) {
                return Some(i);
            }
            i = i + 1;
        }
        None
    }

    /// Lets someone wait for a browser that brings the token. The token is new: nobody waits for
    /// it yet.
    pub fn insert(&mut self, token: &str, waiter: T)
        requires
            !old(self)@.dom().contains(token_hash(token@)),
        ensures
            final(self)@ == old(self)@.insert(token_hash(token@), waiter),
    {
        proof {
            use_type_invariant(&*self);
            lemma_waiting(self.waiters@);
        }
        let hash = hash_of_token(token);
        let mut waiters: Vec<(FileHash, T)> = Vec::new();
        let ghost before = self.waiters@;
        std::mem::swap(&mut waiters, &mut self.waiters);
        waiters.push((hash, waiter));
        assert(waiters@.drop_last() == before);
        assert forall|i: int, j: int| 0 <= i < j < waiters@.len() implies (
        #[trigger] waiters@[i]).0@ != (#[trigger] waiters@[j]).0@ by {
            if j == before.len() {
                assert(waiting(before).dom().contains(before[i].0@));
            }
        }
        self.waiters = waiters;
    }

    /// Whether someone waits for a browser that brings the token.
    pub fn contains(&self, token: &str) -> (r: bool)
        ensures
            r == self@.dom().contains(token_hash(token@)),
    {
        let hash = hash_of_token(token);
        self.find(&hash).is_some()
    }

    /// Who waits for a browser that brings the token. They do not wait any longer.
    pub fn remove(&mut self, token: &str) -> (r: Option<T>)
        ensures
            r == (if old(self)@.dom().contains(token_hash(token@)) {
                Some(old(self)@[token_hash(token@)])
            } else {
                None
            }),
            final(self)@ == old(self)@.remove(token_hash(token@)),
    {
        proof {
            use_type_invariant(&*self);
        }
        let hash = hash_of_token(token);
        match self.find(&hash) {
            Some(i) => {
                let mut waiters: Vec<(FileHash, T)> = Vec::new();
                let ghost before = self.waiters@;
                std::mem::swap(&mut waiters, &mut self.waiters);
                let (_, waiter) = waiters.remove(i);
                proof {
                    lemma_same_waiting(before, waiters@, hash@, i as int);
                }
                self.waiters = waiters;
                Some(waiter)
            },
            None => {
                assert(self@.remove(hash@) =~= self@);
                None
            },
        }
    }
}

/// What a browser is shown, and what someone who waited is told.
pub struct Reply<T> {
    pub header: String,
    pub body: String,
    pub answer: Option<(T, Result<AuthResult, RedirectServerError>)>,
}

/// The browser came back for someone who waits.
pub open spec fn is_expected<T>(pending: Map<Seq<u8>, T>, params: RedirectParams) -> bool {
    params.state is Some && pending.dom().contains(token_hash(params.state->0@))
}

/// Nobody is told anything, and the browser is shown this error.
pub open spec fn is_refusal<T>(r: Reply<T>, header: Seq<char>, body: Seq<char>) -> bool {
    r.answer is None && r.header@ == header && r.body@ == body
}

/// The one who waited is told this, and the browser is shown this page.
pub open spec fn is_answer<T>(
    r: Reply<T>,
    waiter: T,
    result: Result<AuthResult, RedirectServerError>,
    header: Seq<char>,
    body: Seq<char>,
) -> bool {
    r.answer == Some((waiter, result)) && r.header@ == header && r.body@ == body
}

/// What a browser that came back from signing in is shown, and who is told what.
pub open spec fn is_login_reply<T>(
    before: Map<Seq<u8>, T>,
    params: RedirectParams,
    r: Reply<T>,
) -> bool {
    &&& params.state is None ==> is_refusal(
        r,
        "Login Error:"@,
        "The state query parameter is required to authenticate"@,
    )
    &&& params.state is Some && !is_expected(before, params) ==> is_refusal(
        r,
        "Login Error:"@,
        "Backstitch isn't waiting for us to authenticate with the provided state!"@,
    )
    &&& is_expected(before, params) ==> {
        let waiter = before[token_hash(params.state->0@)];
        match params.error {
            Some(error) => is_answer(
                r,
                waiter,
                Err(RedirectServerError::AuthFailure(error)),
                "Login Error:"@,
                error@,
            ),
            None => match params.code {
                Some(code) => is_answer(
                    r,
                    waiter,
                    Ok(AuthResult::Login(code)),
                    "Login Successful"@,
                    "You may now close this tab."@,
                ),
                None => is_answer(
                    r,
                    waiter,
                    Err(RedirectServerError::NoAuthorizationCode),
                    "Login Error:"@,
                    "No authorization code was received!"@,
                ),
            },
        }
    }
}

/// What a browser that came back from signing out is shown, and who is told what.
pub open spec fn is_logout_reply<T>(
    before: Map<Seq<u8>, T>,
    params: RedirectParams,
    r: Reply<T>,
) -> bool {
    &&& params.state is None ==> is_refusal(
        r,
        "Logout Error:"@,
        "The state query parameter is required to logout"@,
    )
    &&& params.state is Some && !is_expected(before, params) ==> is_refusal(
        r,
        "Logout Error:"@,
        "Backstitch isn't waiting for us to logout with the provided state!"@,
    )
    &&& is_expected(before, params) ==> {
        let waiter = before[token_hash(params.state->0@)];
        match params.error {
            Some(error) => is_answer(
                r,
                waiter,
                Err(RedirectServerError::AuthFailure(error)),
                "Logout Error:"@,
                error@,
            ),
            None => is_answer(
                r,
                waiter,
                Ok(AuthResult::Logout),
                "Logout Successful"@,
                "You may now close this tab."@,
            ),
        }
    }
}

/// The waiters that stay after a browser came back.
pub open spec fn still_waiting<T>(
    before: Map<Seq<u8>, T>,
    params: RedirectParams,
) -> Map<Seq<u8>, T> {
    match params.state {
        Some(state) => before.remove(token_hash(state@)),
        None => before,
    }
}

/// A token is good for one return of the browser: whoever waited under it is not waiting after the
/// browser brought it, so the next browser to bring it is refused.
pub proof fn token_is_used_once<T>(before: Map<Seq<u8>, T>, params: RedirectParams)
    ensures
        !is_expected(still_waiting(before, params), params),
        forall|h: Seq<u8>|
            params.state is Some && h != token_hash(params.state->0@) ==> #[trigger] still_waiting(
                before,
                params,
            ).dom().contains(h) == before.dom().contains(h),
{
}

/// Text that is put into a page never opens or closes a tag.
pub proof fn html_text_has_no_brackets(text: Seq<char>)
    ensures
        !html_text(text).contains('<'),
        !html_text(text).contains('>'),
    decreases text.len(),
{
    reveal_strlit("&amp;");
    reveal_strlit("&lt;");
    reveal_strlit("&gt;");
    if text.len() > 0 {
        let front = html_text(text.drop_last());
        let last = html_char(text.last());
        html_text_has_no_brackets(text.drop_last());
        assert forall|i: int| 0 <= i < html_text(text).len() implies html_text(text)[i] != '<'
            && html_text(text)[i] != '>' by {
            if i < front.len() {
                assert(html_text(text)[i] == front[i]);
                assert(front.contains(front[i]));
            } else {
                assert(html_text(text)[i] == last[i - front.len()]);
            }
        }
    }
}


/// A text is replaced at its first place, and then in what follows; a text in which it does not
/// occur stays as it is.
pub proof fn the_first_occurrence_is_replaced(
    text: Seq<char>,
    from: Seq<char>,
    to: Seq<char>,
    i: int,
)
    requires
        from.len() > 0,
        0 <= i <= text.len(),
        forall|j: int| 0 <= j < i ==> !#[trigger] occurs_at(text, from, j),
    ensures
        occurs_at(text, from, i) ==> replaced(text, from, to) == text.take(i) + to + replaced(
            text.skip(i + from.len()),
            from,
            to,
        ),
        i == text.len() ==> replaced(text, from, to) == text,
    decreases i,
{
    if i == 0 {
        assert(i + from.len() == from.len() as int);
        assert(text.take(0) + to == to);
    } else {
        assert(!occurs_at(text, from, 0));
        let rest = text.skip(1);
        assert forall|j: int| 0 <= j < i - 1 implies !#[trigger] occurs_at(rest, from, j) by {
            assert(!occurs_at(text, from, j + 1));
            if j + from.len() <= rest.len() {
                assert(rest.subrange(j, j + from.len()) == text.subrange(
                    j + 1,
                    j + 1 + from.len(),
                ));
            }
        }
        if occurs_at(text, from, i) {
            assert(rest.subrange(i - 1, i - 1 + from.len()) == text.subrange(i, i + from.len()));
        }
        the_first_occurrence_is_replaced(rest, from, to, i - 1);
        if occurs_at(text, from, i) {
            assert(rest.skip(i - 1 + from.len()) == text.skip(i + from.len()));
            let tail = replaced(text.skip(i + from.len()), from, to);
            assert(seq![text[0]] + (rest.take(i - 1) + to + tail) == text.take(i) + to + tail);
        }
        assert(seq![text[0]] + rest == text);
    }
}

/// What stands before the first sign that could open a text to be replaced stays as it is.
proof fn lemma_front_stays(front: Seq<char>, text: Seq<char>, from: Seq<char>, to: Seq<char>)
    requires
        from.len() > 0,
        !front.contains(from[0]),
    ensures
        replaced(front + text, from, to) == front + replaced(text, from, to),
    decreases front.len(),
{
    let whole = front + text;
    if front.len() == 0 {
        assert(whole == text);
        assert(front + replaced(text, from, to) == replaced(text, from, to));
    } else {
        assert(whole[0] == front[0]);
        assert(front.contains(front[0]));
        if occurs_at(whole, from, 0) {
            assert(whole.subrange(0, from.len() as int)[0] == from[0]);
        }
        assert forall|i: int| 0 <= i < front.skip(1).len() implies front.skip(1)[i] != from[0] by {
            assert(front.contains(front[i + 1]));
        }
        lemma_front_stays(front.skip(1), text, from, to);
        assert(whole.skip(1) == front.skip(1) + text);
        assert(seq![front[0]] + (front.skip(1) + replaced(text, from, to)) == front + replaced(
            text,
            from,
            to,
        ));
    }
}

/// What stands in front of the rest is replaced.
proof fn lemma_front_is_replaced(text: Seq<char>, from: Seq<char>, to: Seq<char>)
    requires
        from.len() > 0,
    ensures
        replaced(from + text, from, to) == to + replaced(text, from, to),
{
    assert((from + text).subrange(0, from.len() as int) == from);
    assert((from + text).skip(from.len() as int) == text);
}

proof fn lemma_html_without(text: Seq<char>, c: char)
    requires
        c == '{',
        !text.contains(c),
    ensures
        !html_text(text).contains(c),
    decreases text.len(),
{
    reveal_strlit("&amp;");
    reveal_strlit("&lt;");
    reveal_strlit("&gt;");
    if text.len() > 0 {
        assert(text.contains(text[text.len() - 1]));
        assert forall|i: int| 0 <= i < text.drop_last().len() implies text.drop_last()[i]
            != c by {
            assert(text.contains(text[i]));
        }
        lemma_html_without(text.drop_last(), c);
        let front = html_text(text.drop_last());
        let last = html_char(text.last());
        assert forall|i: int| 0 <= i < html_text(text).len() implies html_text(text)[i] != c by {
            if i < front.len() {
                assert(html_text(text)[i] == front[i]);
                assert(front.contains(front[i]));
            } else {
                assert(html_text(text)[i] == last[i - front.len()]);
            }
        }
    }
}

/// A page is the template with the header and the body in their places, both as HTML text.
pub proof fn pages_hold_header_and_body(
    before: Seq<char>,
    between: Seq<char>,
    behind: Seq<char>,
    header: Seq<char>,
    body: Seq<char>,
)
    requires
        !before.contains('{'),
        !between.contains('{'),
        !behind.contains('{'),
        !header.contains('{'),
    ensures
        page(
            before + "{{HEADER}}"@ + between + "{{BODY}}"@ + behind,
            header,
            body,
        ) == before + html_text(header) + between + html_text(body) + behind,
{
    reveal_strlit("{{HEADER}}");
    reveal_strlit("{{BODY}}");
    let h = "{{HEADER}}"@;
    let b = "{{BODY}}"@;
    let hh = html_text(header);
    let bb = html_text(body);
    assert(h[0] == '{' && b[0] == '{');
    assert(h[2] == 'H' && b[2] == 'B');
    lemma_html_without(header, '{');
    let template = before + h + between + b + behind;
    // the header
    assert(template == before + (h + (between + (b + behind))));
    lemma_front_stays(before, h + (between + (b + behind)), h, hh);
    lemma_front_is_replaced(between + (b + behind), h, hh);
    lemma_front_stays(between, b + behind, h, hh);
    let rest = b + behind;
    assert forall|j: int| 0 <= j < rest.len() implies !#[trigger] occurs_at(rest, h, j) by {
        if occurs_at(rest, h, j) {
            let found = rest.subrange(j, j + h.len());
            assert(found[0] == '{' && found[1] == '{' && found[2] == 'H');
            assert(rest[j] == '{' && rest[j + 1] == '{' && rest[j + 2] == 'H');
            if j >= b.len() {
                assert(behind.contains(behind[j - b.len()]));
            } else if j == 0 {
                assert(rest[2] == b[2]);
            } else if j + 1 < b.len() {
                assert(rest[j + 1] == b[j + 1]);
            } else {
                assert(rest[j] == b[j]);
            }
        }
    }
    the_first_occurrence_is_replaced(rest, h, hh, rest.len() as int);
    let half = replaced(template, h, hh);
    assert(half == before + (hh + (between + (b + behind))));
    // the body
    lemma_front_stays(before, hh + (between + (b + behind)), b, bb);
    lemma_front_stays(hh, between + (b + behind), b, bb);
    lemma_front_stays(between, b + behind, b, bb);
    lemma_front_is_replaced(behind, b, bb);
    lemma_front_stays(behind, Seq::empty(), b, bb);
    assert(behind + Seq::<char>::empty() == behind);
    assert(behind + replaced(Seq::<char>::empty(), b, bb) == behind);
    assert(before + (hh + (between + (bb + behind))) == before + hh + between + bb + behind);
}

/// A browser is answered for someone exactly where it brings the token that they wait for, and then
/// they are told: of an error first, and else by the code.
pub proof fn browsers_answer_those_who_wait<T>(
    before: Map<Seq<u8>, T>,
    params: RedirectParams,
    r: Reply<T>,
)
    requires
        is_login_reply(before, params, r),
    ensures
        r.answer is Some <==> params.state is Some && before.dom().contains(
            token_hash(params.state->0@),
        ),
        r.answer is Some ==> (r.answer->0).0 == before[token_hash(params.state->0@)],
        r.answer is Some ==> ((r.answer->0).1 is Ok <==> params.error is None
            && params.code is Some),
        r.answer is Some && (r.answer->0).1 is Ok ==> (r.answer->0).1->Ok_0 == AuthResult::Login(
            params.code->0,
        ),
        r.answer is Some && params.error is Some ==> (r.answer->0).1->Err_0
            == RedirectServerError::AuthFailure(params.error->0) && r.body@ == params.error->0@,
        r.answer is Some && params.error is None && params.code is None ==> (r.answer->0).1->Err_0
            == RedirectServerError::NoAuthorizationCode,
        r.header@ == "Login Successful"@ <==> r.answer is Some && (r.answer->0).1 is Ok,
{
    reveal_strlit("Login Successful");
    reveal_strlit("Login Error:");
    assert("Login Successful"@.len() == 16);
    assert("Login Error:"@.len() == 12);
}

/// After a sign-out a browser is answered in the same way, and needs to bring no code.
pub proof fn sign_outs_need_no_code<T>(
    before: Map<Seq<u8>, T>,
    params: RedirectParams,
    r: Reply<T>,
)
    requires
        is_logout_reply(before, params, r),
    ensures
        r.answer is Some <==> params.state is Some && before.dom().contains(
            token_hash(params.state->0@),
        ),
        r.answer is Some ==> (r.answer->0).0 == before[token_hash(params.state->0@)],
        r.answer is Some ==> ((r.answer->0).1 is Ok <==> params.error is None),
        r.answer is Some && (r.answer->0).1 is Ok ==> (r.answer->0).1->Ok_0 == AuthResult::Logout,
        r.answer is Some && params.error is Some ==> (r.answer->0).1->Err_0
            == RedirectServerError::AuthFailure(params.error->0) && r.body@ == params.error->0@,
        r.header@ == "Logout Successful"@ <==> r.answer is Some && (r.answer->0).1 is Ok,
{
    reveal_strlit("Logout Successful");
    reveal_strlit("Logout Error:");
    assert("Logout Successful"@.len() == 17);
    assert("Logout Error:"@.len() == 13);
}

} // verus!
