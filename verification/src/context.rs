//! Fetching: which failures are worth another try, how long to wait before
//! it, and what to do for a resource at each point of loading it.
//!
//! Nothing here touches the network, the store or the disk. Whoever loads
//! a resource asks what to do next and says what came of it.

use crate::address::ResourceUrl;
use crate::dl::CurrentStateV1;
use crate::filepath::{
    add_content_type_ext, intended_path, names_need_extension, portable_path, to_portable_path,
    wants_content_type, with_content_type_ext,
};
use crate::resource::{PropsView, ResourceUrlProps};
use crate::import_cdl1::filling_prefix;
use crate::text::{char_width, first_index, find_from, from_chars, slice, string_views, to_chars};
use vstd::prelude::*;

verus! {

/// The number of times that a request is made at most.
pub const MAX_RETRIES: usize = 10;

/// Why a request came to nothing.
#[derive(Debug, Clone, PartialEq, Eq)]
pub enum GetError {
    /// The address is no address; the text says why.
    Url(String),
    /// The address was not found; with the address and what was answered.
    NotFound(String, String),
    /// Another status than success; with the address, the status and what
    /// was answered.
    OtherStatus(String, u16, String),
    /// The request failed on the way; with the address and why.
    Req(String, String),
    /// Anything else; the text says what.
    Other(String),
}

/// Why a resource was not loaded.
#[derive(Debug, Clone, PartialEq, Eq)]
pub enum LoadResError {
    Get(GetError),
    /// Anything else; the text says what.
    Unknown(String),
}

/// The statuses that another try does not change: 401, 403, 405 and 410.
pub open spec fn is_final_status(status: u16) -> bool {
    status == 401 || status == 403 || status == 405 || status == 410
}

impl GetError {
    /// Whether another try may go better.
    pub open spec fn spec_is_recoverable(&self) -> bool {
        match self {
            GetError::OtherStatus(_, status, _) => !is_final_status(*status),
            GetError::NotFound(_, _) => false,
            GetError::Url(_) => true,
            GetError::Req(_, _) => true,
            GetError::Other(_) => true,
        }
    }

    /// Whether another try may go better: not where the address was not
    /// found, nor where the answer was one of the statuses that another
    /// try does not change; everywhere else it may, also where the
    /// address was no address or the request failed on the way.
    pub fn is_recoverable(&self) -> (r: bool)
        ensures
            r == self.spec_is_recoverable(),
    {
        match self {
            GetError::OtherStatus(_, status, _) => !(*status == 401 || *status == 403 || *status
                == 405 || *status == 410),
            GetError::NotFound(_, _) => false,
            GetError::Url(_) => true,
            GetError::Req(_, _) => true,
            GetError::Other(_) => true,
        }
    }
}

/// Another try may go better exactly where the address was found and the
/// answer was none of the statuses that another try does not change.
pub proof fn lemma_recoverable_errors(error: GetError)
    ensures
        !error.spec_is_recoverable() <==> (error is NotFound || (error matches GetError::OtherStatus(
            _,
            status,
            _,
        ) && is_final_status(status))),
{
}

impl LoadResError {
    /// Whether another try may go better.
    pub open spec fn spec_is_recoverable(&self) -> bool {
        match self {
            LoadResError::Get(e) => e.spec_is_recoverable(),
            LoadResError::Unknown(_) => true,
        }
    }

    /// Whether another try may go better: as for the request where that
    /// is what failed, and always otherwise.
    pub fn is_recoverable(&self) -> (r: bool)
        ensures
            r == self.spec_is_recoverable(),
    {
        match self {
            LoadResError::Get(e) => e.is_recoverable(),
            LoadResError::Unknown(_) => true,
        }
    }
}

/// What to do once a request has been answered.
#[derive(Debug, Clone, Copy, PartialEq, Eq, Structural)]
pub enum ResponseAction {
    /// The answer is what was asked for.
    Accept,
    /// The address was not found.
    NotFound,
    /// The request is made again, after a wait.
    Retry,
    /// The request is given up with the status that was answered.
    Fail,
}

/// Whether a status says that the request succeeded.
pub open spec fn is_success(status: u16) -> bool {
    200 <= status < 300
}

/// What to do once a request has been answered with a status, given how
/// many times the request has been made: success is accepted; an address
/// that is not found is given up at once, and so is a status that another
/// try does not change; anything else is tried again until the request has
/// been made [`MAX_RETRIES`] times.
pub fn after_response(status: u16, tries: usize) -> (r: ResponseAction)
    ensures
        r == (if is_success(status) {
            ResponseAction::Accept
        } else if status == 404 {
            ResponseAction::NotFound
        } else if !is_final_status(status) && tries < MAX_RETRIES {
            ResponseAction::Retry
        } else {
            ResponseAction::Fail
        }),
{
    if status >= 200 && status < 300 {
        ResponseAction::Accept
    } else if status == 404 {
        ResponseAction::NotFound
    } else if !(status == 401 || status == 403 || status == 405 || status == 410) && tries
        < MAX_RETRIES {
        ResponseAction::Retry
    } else {
        ResponseAction::Fail
    }
}

/// Whether a request that failed on the way, or the loading of a resource
/// that failed, is tried again, given how many times it has been tried:
/// it is where another try may go better and fewer than [`MAX_RETRIES`]
/// have been made.
pub fn should_retry(recoverable: bool, tries: usize) -> (r: bool)
    ensures
        r == (recoverable && tries < MAX_RETRIES),
{
    recoverable && tries < MAX_RETRIES
}

/// `base` to the power of `exp`.
pub open spec fn power(base: nat, exp: nat) -> nat
    decreases exp,
{
    if exp == 0 {
        1
    } else {
        base * power(base, (exp - 1) as nat)
    }
}

/// The wait before a request is made again after `tries` tries, in
/// milliseconds: 1.8 to the power of `tries` seconds, less one second,
/// rounded down.
pub open spec fn retry_delay(tries: nat) -> nat {
    ((power(18, tries) * 1000) / power(10, tries) - 1000) as nat
}

/// The wait before a request is made again after `tries` tries, in
/// milliseconds.
pub fn retry_delay_millis(tries: usize) -> (r: u64)
    requires
        tries <= MAX_RETRIES,
    ensures
        r == retry_delay(tries as nat),
{
    let mut num: u64 = 1000;
    let mut den: u64 = 1;
    let mut i: usize = 0;
    assert(power(18, 0) == 1 && power(10, 0) == 1);
    proof {
        lemma_power_bounds(0);
    }
    while i < tries
        invariant
            i <= tries <= MAX_RETRIES,
            num == power(18, i as nat) * 1000,
            den == power(10, i as nat),
            power(18, i as nat) <= power(18, 10),
            power(10, i as nat) <= power(10, 10),
            1000 <= num,
            1 <= den,
            num >= 1000 * den,
        decreases tries - i,
    {
        proof {
            lemma_power_bounds(i as nat);
            assert(power(18, (i + 1) as nat) == 18 * power(18, i as nat));
            assert(power(10, (i + 1) as nat) == 10 * power(10, i as nat));
            lemma_power_bounds((i + 1) as nat);
        }
        num = num * 18;
        den = den * 10;
        i = i + 1;
    }
    proof {
        assert(num / den >= 1000) by (nonlinear_arith)
            requires
                num >= 1000 * den,
                den >= 1,
        ;
    }
    num / den - 1000
}

/// The powers of 18 and of 10 up to the tenth fit into 64 bits with room
/// to spare.
pub proof fn lemma_power_bounds(n: nat)
    requires
        n <= 10,
    ensures
        power(18, n) <= power(18, 10),
        power(10, n) <= power(10, 10),
        power(18, 10) == 3570467226624,
        power(10, 10) == 10000000000,
        1 <= power(10, n),
        power(10, n) <= power(18, n),
    decreases 10 - n,
{
    reveal_with_fuel(power, 11);
    if n < 10 {
        lemma_power_bounds(n + 1);
        assert(power(18, n + 1) == 18 * power(18, n));
        assert(power(10, n + 1) == 10 * power(10, n));
    }
}

/// Whether the session is sent along with a request: it is where the
/// address is of the site itself, and nowhere else.
pub fn sends_cookie(url: &ResourceUrl) -> (r: bool)
    ensures
        r == (url@.domain == Some("cohost.org"@)),
{
    match &url.domain {
        Some(domain) => crate::text::same_text(domain.as_str(), "cohost.org"),
        None => false,
    }
}

/// Whether a resource is left alone before anything is asked of the
/// network: its address is one of those that are not tried again.
pub fn is_given_up(state: &CurrentStateV1, url: &ResourceUrl) -> (r: bool)
    ensures
        r == state.spec_has_failed(url.href@),
{
    state.has_failed(url.href.as_str())
}

/// What is known of a resource that is being loaded.
#[derive(Debug, Clone, PartialEq, Eq)]
pub struct ResourceLoad {
    pub props: ResourceUrlProps,
    /// Whether the file name may get an extension from the content type.
    pub needs_file_extension: bool,
    /// Whether the content type is still to be learned from the fetch.
    pub needs_content_type: bool,
    /// The path of the file as far as it is known.
    pub file_path_with_ext: Vec<String>,
}

/// What to do for a resource once the store and the disk have been
/// looked at.
#[derive(Debug, Clone, PartialEq, Eq)]
pub enum LoadDecision {
    /// The resource is on record at the given path, in portable form.
    Recorded(String),
    /// The file is on disk at the given path, in portable form, and only
    /// has to be put on record.
    OnDisk(String),
    /// The resource has to be fetched.
    Fetch,
}

/// What to put on record once a resource has been fetched.
#[derive(Debug, Clone, PartialEq, Eq)]
pub struct Fetched {
    /// The content type to record for the address that was fetched: what
    /// the answer named, and the empty text where it named none.
    pub content_type: String,
    /// The path to move the file to.
    pub file_path: Vec<String>,
}

/// The content type that the record holds, and the empty text where it
/// holds none.
pub open spec fn known_type(content_type: Option<Seq<char>>) -> Seq<char> {
    match content_type {
        Some(t) => t,
        None => Seq::empty(),
    }
}

impl ResourceLoad {
    /// The load of a resource, given the properties of its address and
    /// the content type that is on record for the address to fetch. The
    /// record is only looked at where [`crate::filepath::needs_file_extension`]
    /// asks for it.
    pub open spec fn spec_begin(props: PropsView, content_type: Option<Seq<char>>) -> (
        bool,
        bool,
        Seq<Seq<char>>,
    ) {
        (
            wants_content_type(props),
            wants_content_type(props) && content_type is None,
            intended_path(props, content_type),
        )
    }

    /// Begins the load of a resource, given the properties of its address
    /// and the content type that is on record for the address to fetch.
    pub fn begin(props: ResourceUrlProps, content_type: Option<&str>) -> (r: ResourceLoad)
        ensures
            r.props == props,
            (r.needs_file_extension, r.needs_content_type, string_views(r.file_path_with_ext@))
                == Self::spec_begin(
                props@,
                match content_type {
                    Some(t) => Some(t@),
                    None => None,
                },
            ),
    {
        let needs_file_extension = !props.skip_file_ext_check && names_need_extension(
            &props.file_path,
        );
        let needs_content_type = needs_file_extension && content_type.is_none();
        let file_path_with_ext = if needs_file_extension {
            let known = match content_type {
                Some(t) => t,
                None => "",
            };
            proof {
                reveal_strlit("");
                assert(""@ == Seq::<char>::empty());
            }
            add_content_type_ext(props.file_path.clone(), known)
        } else {
            props.file_path.clone()
        };
        ResourceLoad { props, needs_file_extension, needs_content_type, file_path_with_ext }
    }

    /// What to do for the resource, given the path that is on record for
    /// its address and whether a file is on disk at the path where it is
    /// meant to be. While the content type is still to be learned, the
    /// resource is fetched whatever is there. Otherwise what is on record
    /// is used, and else what is on disk.
    pub fn decide(&self, recorded: Option<String>, on_disk: bool) -> (r: LoadDecision)
        ensures
            self.needs_content_type ==> r == LoadDecision::Fetch,
            !self.needs_content_type && recorded is Some ==> r == LoadDecision::Recorded(
                recorded.unwrap(),
            ),
            !self.needs_content_type && recorded is None && on_disk ==> (r matches LoadDecision::OnDisk(
                path,
            ) && path@ == portable_path(string_views(self.file_path_with_ext@))),
            !self.needs_content_type && recorded is None && !on_disk ==> r == LoadDecision::Fetch,
    {
        if self.needs_content_type {
            return LoadDecision::Fetch;
        }
        match recorded {
            Some(path) => LoadDecision::Recorded(path),
            None => {
                if on_disk {
                    LoadDecision::OnDisk(to_portable_path(&self.file_path_with_ext))
                } else {
                    LoadDecision::Fetch
                }
            },
        }
    }

    /// Whether the address is given up for good after a fetch failed.
    pub open spec fn spec_gives_up_after(can_fail: bool, recoverable: bool, tries: usize) -> bool {
        !recoverable || (can_fail && tries >= MAX_RETRIES)
    }

    /// Whether the address is never to be tried again after the fetch
    /// failed, given how many times the resource has been tried: it is
    /// where another try would not go better, and for a resource that may
    /// fail also once no try is left. A failure that another try may mend
    /// leaves the address alone while tries are left.
    pub fn gives_up_after(&self, error: &GetError, tries: usize) -> (r: bool)
        ensures
            r == Self::spec_gives_up_after(self.props.can_fail, error.spec_is_recoverable(), tries),
    {
        !error.is_recoverable() || (self.props.can_fail && tries >= MAX_RETRIES)
    }

    /// What to put on record once the resource has been fetched, given
    /// the content type that the answer named.
    pub fn fetched(self, content_type: Option<String>) -> (r: Fetched)
        ensures
            r.content_type@ == known_type(crate::address::opt_view(content_type)),
            string_views(r.file_path@) == (if self.needs_file_extension {
                with_content_type_ext(
                    string_views(self.props.file_path@),
                    known_type(crate::address::opt_view(content_type)),
                )
            } else {
                string_views(self.props.file_path@)
            }),
    {
        let content_type = match content_type {
            Some(t) => t,
            None => String::new(),
        };
        let file_path = if self.needs_file_extension {
            add_content_type_ext(self.props.file_path, content_type.as_str())
        } else {
            self.props.file_path
        };
        Fetched { content_type, file_path }
    }
}

/// An address is either tried again or given up for good, never both: where
/// a failed fetch is tried again, the address is not put among those that
/// are not tried again.
pub proof fn lemma_retry_keeps_address(can_fail: bool, recoverable: bool, tries: usize)
    ensures
        (recoverable && tries < MAX_RETRIES) ==> !ResourceLoad::spec_gives_up_after(
            can_fail,
            recoverable,
            tries,
        ),
        !recoverable ==> ResourceLoad::spec_gives_up_after(can_fail, recoverable, tries),
{
}

/// Loading a resource a second time asks nothing of the network and leads
/// to the same path: once a resource has been fetched, and its content
/// type and the portable form of its path have been put on record, the
/// load that begins with that record decides to use what is on record,
/// and the path that it computes is the path that the file was moved to.
pub proof fn lemma_second_load_uses_record(
    props: PropsView,
    answered: Option<Seq<char>>,
    first_known: Option<Seq<char>>,
)
    ensures
        ({
            let first = ResourceLoad::spec_begin(props, first_known);
            let stored_path = if first.0 {
                with_content_type_ext(props.file_path, known_type(answered))
            } else {
                props.file_path
            };
            let second = ResourceLoad::spec_begin(props, Some(known_type(answered)));
            !second.1 && second.2 == stored_path
        }),
{
}

/// How much of what a server answered with is kept with a failure, in
/// bytes of UTF-8; the character that reaches past it is kept whole.
pub const MAX_ERROR_TEXT_LENGTH_UTF8: usize = 500;

/// How many characters on either side of the place where a text could not
/// be read are shown with the failure.
pub const EXCERPT_RADIUS: usize = 300;

/// What is kept of an answer: its characters up to the first that reaches
/// the limit.
pub open spec fn kept_error_text(text: Seq<char>) -> Seq<char> {
    text.take(filling_prefix(text, MAX_ERROR_TEXT_LENGTH_UTF8 as int) as int)
}

/// What is kept of what a server answered with where it did not succeed.
pub fn truncate_error_text(text: &str) -> (r: String)
    ensures
        r@ == kept_error_text(text@),
{
    let chars = to_chars(text);
    let mut i: usize = 0;
    let mut have: usize = 0;
    assert(chars@.skip(0) == chars@);
    while i < chars.len() && have < MAX_ERROR_TEXT_LENGTH_UTF8
        invariant
            i <= chars.len(),
            have <= MAX_ERROR_TEXT_LENGTH_UTF8 + 4,
            filling_prefix(chars@, MAX_ERROR_TEXT_LENGTH_UTF8 as int) == i + filling_prefix(
                chars@.skip(i as int),
                MAX_ERROR_TEXT_LENGTH_UTF8 - have,
            ),
        decreases chars.len() - i,
    {
        assert(chars@.skip(i as int)[0] == chars@[i as int]);
        assert(chars@.skip(i as int).skip(1) == chars@.skip(i + 1));
        have = have + char_width(chars[i]);
        i = i + 1;
    }
    from_chars(&slice(&chars, 0, i))
}

/// Where the line of the given number begins, lines being counted from
/// zero and ending in a line feed; the end of the text where it has fewer
/// lines.
pub open spec fn line_start(text: Seq<char>, line: nat) -> nat
    decreases line,
{
    if line == 0 {
        0
    } else {
        let before = line_start(text, (line - 1) as nat);
        if before >= text.len() {
            text.len()
        } else {
            let end = before + first_index(text.skip(before as int), '\n');
            if end >= text.len() {
                text.len()
            } else {
                (end + 1) as nat
            }
        }
    }
}

/// The place in a text that a line and a column name, both counted from
/// zero; the end of the text where they name none.
pub open spec fn place_in(text: Seq<char>, line: nat, column: nat) -> nat {
    if line_start(text, line) + column <= text.len() {
        line_start(text, line) + column
    } else {
        text.len()
    }
}

/// The part of a text around a place: [`EXCERPT_RADIUS`] characters on
/// either side, as far as the text goes.
pub open spec fn excerpt_around(text: Seq<char>, line: nat, column: nat) -> Seq<char> {
    let center = place_in(text, line, column);
    let start = if center >= EXCERPT_RADIUS {
        center - EXCERPT_RADIUS
    } else {
        0
    };
    let end = if center + EXCERPT_RADIUS <= text.len() {
        center + EXCERPT_RADIUS
    } else {
        text.len() as int
    };
    text.subrange(start, end)
}

/// Where a line starts lies within the text.
pub proof fn lemma_line_start(text: Seq<char>, line: nat)
    ensures
        line_start(text, line) <= text.len(),
    decreases line,
{
    if line > 0 {
        lemma_line_start(text, (line - 1) as nat);
        let before = line_start(text, (line - 1) as nat);
        if before < text.len() {
            crate::text::lemma_first_index_bounds(text.skip(before as int), '\n');
        }
    }
}

/// The part of a text to show with the failure to read it at the given
/// line and column, both counted from zero.
pub fn error_excerpt(text: &str, line: usize, column: usize) -> (r: String)
    ensures
        r@ == excerpt_around(text@, line as nat, column as nat),
{
    let chars = to_chars(text);
    let mut start_of_line: usize = 0;
    let mut done: usize = 0;
    while done < line && start_of_line < chars.len()
        invariant
            done <= line,
            start_of_line <= chars.len(),
            start_of_line == line_start(chars@, done as nat),
        decreases line - done,
    {
        let end = find_from(&chars, start_of_line, '\n');
        start_of_line = if end >= chars.len() {
            chars.len()
        } else {
            end + 1
        };
        done = done + 1;
    }
    proof {
        lemma_line_stays_at_end(chars@, done as nat, line as nat);
    }
    let center: usize = if column <= chars.len() - start_of_line {
        start_of_line + column
    } else {
        chars.len()
    };
    let start: usize = if center >= EXCERPT_RADIUS {
        center - EXCERPT_RADIUS
    } else {
        0
    };
    let end: usize = if EXCERPT_RADIUS <= chars.len() - center {
        center + EXCERPT_RADIUS
    } else {
        chars.len()
    };
    from_chars(&slice(&chars, start, end))
}

/// Once the lines have run past the end of the text, every later line
/// begins there too.
pub proof fn lemma_line_stays_at_end(text: Seq<char>, from: nat, to: nat)
    requires
        from <= to,
        from < to ==> line_start(text, from) >= text.len(),
    ensures
        from < to ==> line_start(text, to) == text.len(),
    decreases to - from,
{
    lemma_line_start(text, from);
    if from < to {
        if from + 1 < to {
            assert(line_start(text, from + 1) == text.len());
            lemma_line_stays_at_end(text, from + 1, to);
        }
    }
}

} // verus!
