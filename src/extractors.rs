//! Extraction of the launcher identifier from an `Exec` value and of the
//! icon token from the metadata oracle's output.

use vstd::prelude::*;
use vstd::utf8::{decode_utf8, valid_utf8};
use crate::text::is_space;

verus! {

/// An ASCII decimal digit.
pub open spec fn is_digit(c: char) -> bool {
    '0' <= c && c <= '9'
}

/// What precedes the identifier in a launcher invocation.
pub open spec fn launch_prefix() -> Seq<char> {
    seq!['s', 't', 'e', 'a', 'm', ' ', 's', 't', 'e', 'a', 'm', ':', '/', '/', 'r', 'u', 'n', 'g', 'a', 'm', 'e', 'i', 'd', '/']
}

/// The end of the run of digits in `s` that starts at `start`.
pub open spec fn digit_run_end(s: Seq<char>, start: int) -> int
    decreases s.len() - start,
{
    if 0 <= start < s.len() && is_digit(s[start]) {
        digit_run_end(s, start + 1)
    } else {
        start
    }
}

/// A launcher invocation starts at `p`: the prefix, then at least one digit.
pub open spec fn launch_at(s: Seq<char>, p: int) -> bool {
    let l = launch_prefix().len() as int;
    &&& 0 <= p
    &&& p + l < s.len()
    &&& s.subrange(p, p + l) == launch_prefix()
    &&& is_digit(s[p + l])
}

/// The leftmost position at which a launcher invocation starts.
pub open spec fn first_launch(s: Seq<char>) -> int {
    choose|p: int| launch_at(s, p) && forall|q: int| 0 <= q < p ==> !launch_at(s, q)
}

/// The identifier of an `Exec` value: the whole digit run after the leftmost
/// `steam steam://rungameid/` that a digit follows; `None` where there is none.
pub open spec fn game_id_of(s: Seq<char>) -> Option<Seq<char>> {
    if exists|p: int| launch_at(s, p) {
        let start = first_launch(s) + launch_prefix().len();
        Some(s.subrange(start, digit_run_end(s, start)))
    } else {
        None
    }
}

/// The quoted key that announces the icon token in the oracle's output.
pub open spec fn client_icon_key() -> Seq<char> {
    seq!['"', 'c', 'l', 'i', 'e', 'n', 't', 'i', 'c', 'o', 'n', '"']
}

/// The end of the run of whitespace in `s` that starts at `start`.
pub open spec fn space_run_end(s: Seq<char>, start: int) -> int
    decreases s.len() - start,
{
    if 0 <= start < s.len() && is_space(s[start]) {
        space_run_end(s, start + 1)
    } else {
        start
    }
}

/// The end of the run of characters other than `"` that starts at `start`.
pub open spec fn unquoted_run_end(s: Seq<char>, start: int) -> int
    decreases s.len() - start,
{
    if 0 <= start < s.len() && s[start] != '"' {
        unquoted_run_end(s, start + 1)
    } else {
        start
    }
}

/// Where the token that follows a key at `p` starts: after the key, the
/// whitespace and the opening quote.
pub open spec fn token_start(s: Seq<char>, p: int) -> int {
    space_run_end(s, p + client_icon_key().len()) + 1
}

/// A token entry starts at `p`: the key, at least one whitespace character,
/// a quote, at least one character other than a quote, and a closing quote.
pub open spec fn token_at(s: Seq<char>, p: int) -> bool {
    let k = client_icon_key().len() as int;
    let b = space_run_end(s, p + k);
    let e = unquoted_run_end(s, b + 1);
    &&& 0 <= p
    &&& p + k <= s.len()
    &&& s.subrange(p, p + k) == client_icon_key()
    &&& b > p + k
    &&& b < s.len()
    &&& s[b] == '"'
    &&& e > b + 1
    &&& e < s.len()
}

/// The leftmost position at which a token entry starts.
pub open spec fn first_token(s: Seq<char>) -> int {
    choose|p: int| token_at(s, p) && forall|q: int| 0 <= q < p ==> !token_at(s, q)
}

/// The icon token in the oracle's output: the quoted value of the leftmost
/// `"clienticon" "<token>"` entry; `None` where there is none.
pub open spec fn token_of(s: Seq<char>) -> Option<Seq<char>> {
    if exists|p: int| token_at(s, p) {
        let start = token_start(s, first_token(s));
        Some(s.subrange(start, unquoted_run_end(s, start)))
    } else {
        None
    }
}

/// Relies on `regex::Regex::captures` with the pattern
/// `steam steam://rungameid/([0-9]+)`: its group is the digit run of the
/// leftmost match, taken whole.
#[verifier::external_body]
fn capture_launch_id(s: &str) -> (r: Option<String>)
    ensures
        match r {
            Some(id) => game_id_of(s@) == Some(id@),
            None => game_id_of(s@) is None,
        },
{
    let re = regex::Regex::new(r"steam steam://rungameid/([0-9]+)").unwrap();
    re.captures(s).and_then(|c| c.get(1)).map(|m| m.as_str().to_string())
}

/// Relies on `regex::Regex::captures` with the pattern
/// `"clienticon"\s+"([^"]+)"`: its group is the quoted value of the leftmost
/// match.
#[verifier::external_body]
fn capture_client_icon(s: &str) -> (r: Option<String>)
    ensures
        match r {
            Some(t) => token_of(s@) == Some(t@),
            None => token_of(s@) is None,
        },
{
    let re = regex::Regex::new(r#""clienticon"\s+"([^"]+)""#).unwrap();
    re.captures(s).and_then(|c| c.get(1)).map(|m| m.as_str().to_string())
}

/// Relies on `std::str::from_utf8`: the bytes decoded where they are valid
/// UTF-8, an error where they are not.
#[verifier::external_body]
fn decode_text(b: &Vec<u8>) -> (r: Option<String>)
    ensures
        match r {
            Some(s) => valid_utf8(b@) && s@ == decode_utf8(b@),
            None => !valid_utf8(b@),
        },
{
    std::str::from_utf8(b.as_slice()).ok().map(|s| s.to_string())
}

/// The launcher identifier in an `Exec` value, if it holds a launcher
/// invocation.
pub fn extract_game_id(exec_field: &str) -> (r: Option<String>)
    ensures
        match r {
            Some(id) => game_id_of(exec_field@) == Some(id@),
            None => game_id_of(exec_field@) is None,
        },
{
    capture_launch_id(exec_field)
}

/// The icon token in the oracle's textual output, if it holds one.
pub fn icon_id_in_output(output: &str) -> (r: Option<String>)
    ensures
        match r {
            Some(t) => token_of(output@) == Some(t@),
            None => token_of(output@) is None,
        },
{
    capture_client_icon(output)
}

/// What came back from asking the metadata oracle for an application's data.
pub enum OracleReply {
    /// The stub oracle, which answers with a fixed token and runs nothing.
    Stub,
    /// The oracle process could not be started.
    NotStarted,
    /// The oracle process ran to its end.
    Exited { success: bool, stdout: Vec<u8> },
}

/// Why no icon token could be had.
#[derive(Debug, Clone, Copy, PartialEq, Eq, Structural)]
pub enum ResolveError {
    /// The oracle process could not be started.
    OracleExecution,
    /// The oracle process reported failure.
    OracleFailure,
    /// The oracle's output is not UTF-8 text.
    OracleOutput,
    /// The oracle's output holds no icon token.
    TokenNotFound,
}

/// The token that the stub oracle answers with.
pub open spec fn stub_token() -> Seq<char> {
    seq!['a', 'b', 'c', '1', '2', '3']
}

/// The icon token that a reply of the oracle yields, or why there is none.
pub open spec fn token_of_reply(reply: OracleReply) -> Result<Seq<char>, ResolveError> {
    match reply {
        OracleReply::Stub => Ok(stub_token()),
        OracleReply::NotStarted => Err(ResolveError::OracleExecution),
        OracleReply::Exited { success, stdout } => {
            if !success {
                Err(ResolveError::OracleFailure)
            } else if !valid_utf8(stdout@) {
                Err(ResolveError::OracleOutput)
            } else {
                match token_of(decode_utf8(stdout@)) {
                    Some(t) => Ok(t),
                    None => Err(ResolveError::TokenNotFound),
                }
            }
        },
    }
}

/// The icon token of a reply of the oracle.
pub fn extract_icon_id(reply: &OracleReply) -> (r: Result<String, ResolveError>)
    ensures
        match (r, token_of_reply(*reply)) {
            (Ok(t), Ok(u)) => t@ == u,
            (Err(e), Err(f)) => e == f,
            _ => false,
        },
{
    match reply {
        OracleReply::Stub => {
            let t = "abc123".to_string();
            proof {
                reveal_strlit("abc123");
                assert(t@ =~= stub_token());
            }
            Ok(t)
        },
        OracleReply::NotStarted => Err(ResolveError::OracleExecution),
        OracleReply::Exited { success, stdout } => {
            if !*success {
                return Err(ResolveError::OracleFailure);
            }
            match decode_text(stdout) {
                None => Err(ResolveError::OracleOutput),
                Some(text) => match icon_id_in_output(text.as_str()) {
                    Some(t) => Ok(t),
                    None => Err(ResolveError::TokenNotFound),
                },
            }
        },
    }
}

/// The arguments with which the oracle process is asked for the data of the
/// application `game_id`: log in anonymously, print its data, quit.
pub fn oracle_args(game_id: &str) -> (r: Vec<String>)
    ensures
        r@.len() == 5,
        r@[0]@ == seq!['+', 'l', 'o', 'g', 'i', 'n'],
        r@[1]@ == seq!['a', 'n', 'o', 'n', 'y', 'm', 'o', 'u', 's'],
        r@[2]@ == seq!['+', 'a', 'p', 'p', '_', 'i', 'n', 'f', 'o', '_', 'p', 'r', 'i', 'n', 't'],
        r@[3]@ == game_id@,
        r@[4]@ == seq!['+', 'q', 'u', 'i', 't'],
{
    let mut r: Vec<String> = Vec::new();
    let a = "+login".to_string();
    let b = "anonymous".to_string();
    let c = "+app_info_print".to_string();
    let d = game_id.to_string();
    let e = "+quit".to_string();
    proof {
        reveal_strlit("+login");
        reveal_strlit("anonymous");
        reveal_strlit("+app_info_print");
        reveal_strlit("+quit");
        assert(a@ =~= seq!['+', 'l', 'o', 'g', 'i', 'n']);
        assert(b@ =~= seq!['a', 'n', 'o', 'n', 'y', 'm', 'o', 'u', 's']);
        assert(c@ =~= seq!['+', 'a', 'p', 'p', '_', 'i', 'n', 'f', 'o', '_', 'p', 'r', 'i', 'n', 't']);
        assert(e@ =~= seq!['+', 'q', 'u', 'i', 't']);
    }
    r.push(a);
    r.push(b);
    r.push(c);
    r.push(d);
    r.push(e);
    r
}

proof fn lemma_digit_run(s: Seq<char>, start: int, end: int)
    requires
        0 <= start <= end <= s.len(),
        forall|k: int| start <= k < end ==> is_digit(#[trigger] s[k]),
        end == s.len() || !is_digit(s[end]),
    ensures
        digit_run_end(s, start) == end,
    decreases end - start,
{
    if start < end {
        lemma_digit_run(s, start + 1, end);
    }
}

/// An `Exec` value that holds `steam steam://rungameid/` followed by the
/// digits `n`, with no digit right after them and no launcher invocation
/// earlier in the value, yields exactly `n` as its identifier.
pub proof fn lemma_game_id_exact(pre: Seq<char>, n: Seq<char>, post: Seq<char>)
    requires
        n.len() > 0,
        forall|k: int| 0 <= k < n.len() ==> is_digit(#[trigger] n[k]),
        post.len() == 0 || !is_digit(post[0]),
        forall|q: int|
            0 <= q < pre.len() ==> !#[trigger] launch_at(pre + launch_prefix() + n + post, q),
    ensures
        game_id_of(pre + launch_prefix() + n + post) == Some(n),
{
    let s = pre + launch_prefix() + n + post;
    let start_pos = pre.len() as int;
    let l = launch_prefix().len() as int;
    assert(s.subrange(start_pos, start_pos + l) =~= launch_prefix());
    assert(s[start_pos + l] == n[0]);
    assert(launch_at(s, start_pos));
    let p = first_launch(s);
    assert(launch_at(s, p) && forall|q: int| 0 <= q < p ==> !launch_at(s, q));
    if p < start_pos {
        assert(!launch_at(s, p));
    }
    assert(p == start_pos);
    assert forall|k: int| start_pos + l <= k < start_pos + l + n.len() implies is_digit(#[trigger] s[k]) by {
        assert(s[k] == n[k - start_pos - l]);
    }
    if post.len() > 0 {
        assert(s[start_pos + l + n.len()] == post[0]);
    }
    lemma_digit_run(s, start_pos + l, start_pos + l + n.len());
    assert(s.subrange(start_pos + l, start_pos + l + n.len()) =~= n);
}

/// An `Exec` value in which `steam steam://rungameid/` is nowhere followed by
/// a digit yields no identifier.
pub proof fn lemma_no_launch_no_game_id(s: Seq<char>)
    requires
        forall|p: int| !#[trigger] launch_at(s, p),
    ensures
        game_id_of(s) is None,
{
}

} // verus!
