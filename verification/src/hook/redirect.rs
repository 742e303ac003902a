//! Following redirects.
//!
//! The redirect hook sends a request; while the answer is a redirection
//! (status 300 to 399) with a `Location` header, it sends the request again
//! to that location, at most `limit` times. Status 307 and 308 keep the
//! body of the request; the other redirections send it without one. The
//! decisions stand here; the sending is done by the caller.
use crate::errors::ClientError;
use crate::headers::{all_visible_ascii, header_text};
use crate::text::ascii_chars;
use vstd::prelude::*;

verus! {

#[verifier::external_type_specification]
#[verifier::external_body]
pub struct ExUri(http::Uri);

/// What `http::Uri` makes of `text`: the URI where it accepts the text,
/// the text of its error where it refuses it.
pub uninterp spec fn parsed_uri(text: Seq<char>) -> Result<http::Uri, Seq<char>>;

/// Parses `text` as a URI.
///
/// Calls `<http::Uri as FromStr>::from_str`. Trusted: its result depends on
/// the text alone, as the named `parsed_uri` of the text: the URI on
/// success, the error's text on failure.
#[verifier::external_body]
fn parse_uri(text: &str) -> (r: Result<http::Uri, String>)
    ensures
        r matches Ok(u) ==> parsed_uri(text@) matches Ok(p) && p == u,
        r matches Err(message) ==> parsed_uri(text@) matches Err(m) && m == message@,
{
    match text.parse::<http::Uri>() {
        Ok(uri) => Ok(uri),
        Err(e) => Err(e.to_string()),
    }
}

/// Is `status` a redirection (300 to 399)?
pub open spec fn redirection(status: u16) -> bool {
    300 <= status < 400
}

/// The decision taken on one answer.
pub enum RedirectVerdict {
    /// Hand the answer back.
    Answer,
    /// Send the request to the location; keep its body or not.
    Follow { keep_body: bool },
    /// Fail: the limit of redirects is reached.
    LimitExceeded,
    /// Fail: the location is not visible ASCII.
    InvalidLocation,
    /// Fail: the location is not a URI.
    InvalidUri,
}

/// The decision on an answer with `status` and `Location` header
/// `location`, after `count` of at most `limit` redirects.
pub open spec fn redirect_verdict(
    limit: nat,
    count: nat,
    status: u16,
    location: Option<Seq<u8>>,
) -> RedirectVerdict {
    if redirection(status) && limit > 0 {
        match location {
            None => RedirectVerdict::Answer,
            Some(loc) => {
                if count >= limit {
                    RedirectVerdict::LimitExceeded
                } else if !all_visible_ascii(loc) {
                    RedirectVerdict::InvalidLocation
                } else if parsed_uri(ascii_chars(loc)) is Err {
                    RedirectVerdict::InvalidUri
                } else {
                    RedirectVerdict::Follow { keep_body: status == 307 || status == 308 }
                }
            },
        }
    } else {
        RedirectVerdict::Answer
    }
}

/// What to do with an answer.
pub enum RedirectAction {
    /// Hand the answer back.
    Answer,
    /// Send the request again to `uri`, with its body when `keep_body`
    /// holds and with an empty body otherwise.
    Follow { uri: http::Uri, keep_body: bool },
    /// Fail with `error`.
    Fail { error: ClientError },
}

/// A hook that follows the redirects its inner hook answers with.
pub struct RedirectHook<H> {
    inner: H,
    limit: usize,
}

impl<H> RedirectHook<H> {
    /// The wrapped hook.
    pub closed spec fn inner_spec(&self) -> H {
        self.inner
    }

    /// The largest number of redirects followed.
    pub closed spec fn limit_spec(&self) -> nat {
        self.limit as nat
    }

    /// Creates a new redirect hook.
    pub fn new(inner: H, limit: usize) -> (h: Self)
        ensures
            h.inner_spec() == inner,
            h.limit_spec() == limit,
    {
        Self { inner, limit }
    }

    /// The wrapped hook.
    pub fn inner(&self) -> (r: &H)
        ensures
            *r == self.inner_spec(),
    {
        &self.inner
    }

    /// Starts following the redirects of one request.
    pub fn start(&self) -> (run: RedirectRun)
        ensures
            run.limit_spec() == self.limit_spec(),
            run.count_spec() == 0,
    {
        RedirectRun { limit: self.limit, count: 0 }
    }
}

/// The redirects of one request.
pub struct RedirectRun {
    limit: usize,
    count: usize,
}

impl RedirectRun {
    #[verifier::type_invariant]
    closed spec fn within_limit(self) -> bool {
        self.count <= self.limit
    }

    /// The largest number of redirects followed.
    pub closed spec fn limit_spec(&self) -> nat {
        self.limit as nat
    }

    /// The number of redirects followed so far.
    pub closed spec fn count_spec(&self) -> nat {
        self.count as nat
    }

    /// Decides what to do with an answer of status `status` whose
    /// `Location` header holds `location`, if it has one.
    pub fn on_answer(&mut self, status: u16, location: Option<&[u8]>) -> (a: RedirectAction)
        ensures
            final(self).limit_spec() == old(self).limit_spec(),
            a matches RedirectAction::Follow { keep_body, .. } ==> keep_body == (status == 307
                || status == 308) && 300 <= status < 400 && location is Some,
            ({
                let loc = match location {
                    Some(l) => Some(l@),
                    None => None,
                };
                match redirect_verdict(old(self).limit_spec(), old(self).count_spec(), status, loc) {
                    RedirectVerdict::Answer => a is Answer && final(self).count_spec()
                        == old(self).count_spec(),
                    RedirectVerdict::Follow { keep_body } => (a matches RedirectAction::Follow {
                        uri,
                        keep_body: k,
                    } && k == keep_body && match location {
                        Some(l) => parsed_uri(ascii_chars(l@)) matches Ok(p) && p == uri,
                        None => false,
                    }) && final(self).count_spec() == old(self).count_spec() + 1,
                    RedirectVerdict::LimitExceeded => (a matches RedirectAction::Fail {
                        error: ClientError::Send { message },
                    } && message@ == "Redirect limit exceeded"@) && final(self).count_spec()
                        == old(self).count_spec(),
                    RedirectVerdict::InvalidLocation => (a matches RedirectAction::Fail {
                        error: ClientError::Header { message },
                    } && message@ == "Invalid location header"@) && final(self).count_spec()
                        == old(self).count_spec(),
                    RedirectVerdict::InvalidUri => (a matches RedirectAction::Fail {
                        error: ClientError::UrlParse { message },
                    } && match location {
                        Some(l) => parsed_uri(ascii_chars(l@)) matches Err(m) && m == message@,
                        None => false,
                    }) && final(self).count_spec() == old(self).count_spec(),
                }
            }),
    {
        proof {
            use_type_invariant(&*self);
        }
        if 300 <= status && status < 400 && self.limit > 0 {
            match location {
                None => RedirectAction::Answer,
                Some(loc) => {
                    if self.count >= self.limit {
                        return RedirectAction::Fail {
                            error: ClientError::Send { message: "Redirect limit exceeded".to_owned() },
                        };
                    }
                    let text = match header_text(loc) {
                        Some(t) => t,
                        None => {
                            return RedirectAction::Fail {
                                error: ClientError::Header {
                                    message: "Invalid location header".to_owned(),
                                },
                            };
                        },
                    };
                    let keep_body = status == 307 || status == 308;
                    match parse_uri(text.as_str()) {
                        Ok(uri) => {
                            self.count = self.count + 1;
                            RedirectAction::Follow { uri, keep_body }
                        },
                        Err(message) => RedirectAction::Fail {
                            error: ClientError::UrlParse { message },
                        },
                    }
                },
            }
        } else {
            RedirectAction::Answer
        }
    }
}

/// How the redirects of one request end.
pub enum RedirectOutcome {
    /// Answer number `index` (from 0) is handed back after `follows`
    /// redirects were followed.
    Answered { index: nat, follows: nat },
    /// Answer number `index` is refused with `verdict`.
    Failed { index: nat, verdict: RedirectVerdict },
    /// The answers ran out while redirects were still followed.
    Unfinished,
}

/// The redirects of one request with at most `limit` redirects, `count` of
/// them already followed, whose successive answers are `answers` (status
/// and `Location` header), made of the decisions of
/// [`RedirectRun::on_answer`].
pub open spec fn redirect_outcome(
    limit: nat,
    count: nat,
    answers: Seq<(u16, Option<Seq<u8>>)>,
) -> RedirectOutcome
    decreases answers.len(),
{
    if answers.len() == 0 {
        RedirectOutcome::Unfinished
    } else {
        match redirect_verdict(limit, count, answers[0].0, answers[0].1) {
            RedirectVerdict::Answer => RedirectOutcome::Answered { index: 0, follows: count },
            RedirectVerdict::Follow { .. } => match redirect_outcome(
                limit,
                count + 1,
                answers.drop_first(),
            ) {
                RedirectOutcome::Answered { index, follows } => RedirectOutcome::Answered {
                    index: index + 1,
                    follows,
                },
                RedirectOutcome::Failed { index, verdict } => RedirectOutcome::Failed {
                    index: index + 1,
                    verdict,
                },
                RedirectOutcome::Unfinished => RedirectOutcome::Unfinished,
            },
            v => RedirectOutcome::Failed { index: 0, verdict: v },
        }
    }
}

/// Law: a request is redirected at most `limit` times. Whatever the
/// answers, an answer that is handed back comes after at most `limit`
/// redirects in all (one per answer before it), and a failure comes at
/// most `limit` answers in. With a limit of 0 the first answer is handed
/// back as it is.
pub proof fn law_redirect_limit(limit: nat, count: nat, answers: Seq<(u16, Option<Seq<u8>>)>)
    requires
        count <= limit,
    ensures
        (match redirect_outcome(limit, count, answers) {
            RedirectOutcome::Answered { index, follows } => follows <= limit && follows == count
                + index && index < answers.len(),
            RedirectOutcome::Failed { index, verdict } => count + index <= limit && index
                < answers.len(),
            RedirectOutcome::Unfinished => true,
        }),
        (limit == 0 && answers.len() > 0) ==> (redirect_outcome(limit, count, answers)
            == (RedirectOutcome::Answered { index: 0, follows: count })),
    decreases answers.len(),
{
    if answers.len() > 0 {
        match redirect_verdict(limit, count, answers[0].0, answers[0].1) {
            RedirectVerdict::Follow { .. } => {
                law_redirect_limit(limit, count + 1, answers.drop_first());
            },
            _ => {},
        }
    }
}

/// Law: a redirect is followed only for an answer with a status from 300
/// to 399 and a `Location` header, while fewer than `limit` redirects were
/// followed; the body is sent again exactly when the status is 307 or 308,
/// and every other status (a 301, 302 or 303 among them) sends it empty.
pub proof fn law_redirect_keeps_body(
    limit: nat,
    count: nat,
    status: u16,
    location: Option<Seq<u8>>,
)
    ensures
        redirect_verdict(limit, count, status, location) matches RedirectVerdict::Follow {
            keep_body,
        } ==> {
            &&& keep_body == (status == 307 || status == 308)
            &&& 300 <= status < 400
            &&& location is Some
            &&& count < limit
        },
        !(300 <= status < 400) ==> redirect_verdict(limit, count, status, location) is Answer,
{
}

/// Following redirects as a link of a chain of hooks: wraps any hook into a
/// [`RedirectHook`] with this limit.
pub struct Redirect {
    limit: usize,
}

impl Redirect {
    /// The largest number of redirects the hooks this makes follow.
    pub closed spec fn limit_spec(&self) -> nat {
        self.limit as nat
    }

    /// Creates a new redirect link.
    pub fn new(limit: usize) -> (r: Self)
        ensures
            r.limit_spec() == limit,
    {
        Self { limit }
    }

    /// Wraps `hook` into a redirect hook with this limit.
    pub fn chain<H>(&self, hook: H) -> (h: RedirectHook<H>)
        ensures
            h.inner_spec() == hook,
            h.limit_spec() == self.limit_spec(),
    {
        RedirectHook::new(hook, self.limit)
    }
}

impl Default for Redirect {
    /// At most ten redirects.
    fn default() -> (r: Self)
        ensures
            r.limit_spec() == 10,
    {
        Self { limit: 10 }
    }
}

} // verus!
